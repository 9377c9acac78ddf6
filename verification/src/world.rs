//! The simulation container: the droplet population, the world-to-canvas
//! coordinate mapping, per-frame update and raster composition, and the
//! mean-speed diagnostic.

use vstd::prelude::*;

use crate::droplet::{
    color_b, color_g, color_r, project, speed_of, speed_sq, stepped, Droplet,
};
use crate::math::{isqrt, mag, mag64};
use crate::sampler::{total_count, Sample};
use crate::{HEIGHT, MAX_SIZE_CENTI, MIN_SIZE_CENTI, PIXEL_ALPHA, TIME_STEP_MICROS, WIDTH};

verus! {

/// The byte index a droplet's color is written at: four bytes per pixel in
/// row-major order, clamped to the last whole four-byte slot of a buffer
/// of `len` bytes so an edge projection can never write past the end.
pub open spec fn slot_of(d: Droplet, ex: int, ey: int, len: int) -> int
    recommends
        ex >= 1,
        ey >= 1,
        len >= 4,
{
    let px = project(d.x as int, ex, WIDTH as int);
    let py = project(d.y as int, ey, HEIGHT as int);
    let base = 4 * (py * (WIDTH as int) + px);
    if base > len - 4 {
        len - 4
    } else {
        base
    }
}

/// One droplet painted onto a frame: its four color bytes written at its
/// slot, later bytes over earlier ones.
pub open spec fn paint(f: Seq<u8>, d: Droplet, ex: int, ey: int) -> Seq<u8> {
    let s = slot_of(d, ex, ey, f.len() as int);
    f.update(s, color_r(d.size as int) as u8).update(s + 1, color_g(d.size as int) as u8).update(
        s + 2,
        color_b(d.size as int) as u8,
    ).update(s + 3, PIXEL_ALPHA)
}

/// A droplet sequence painted onto a frame in order: the last droplet that
/// lands on a pixel wins.
pub open spec fn render(f: Seq<u8>, ds: Seq<Droplet>, ex: int, ey: int) -> Seq<u8>
    decreases ds.len(),
{
    if ds.len() == 0 {
        f
    } else {
        paint(render(f, ds.drop_last(), ex, ey), ds.last(), ex, ey)
    }
}

/// An all-background (zeroed) frame of `len` bytes.
pub open spec fn blank(len: int) -> Seq<u8> {
    Seq::new(len as nat, |i: int| 0u8)
}

/// The droplet a raw sample turns into: it spawns at the world origin
/// with zero depth, keeps its velocity draws, and has its radius draw
/// clamped into the physically meaningful range, never rejected.
pub open spec fn droplet_from(ox: i64, oy: i64, s: Sample) -> Droplet {
    Droplet {
        x: ox,
        y: oy,
        z: 0,
        vx: s.vx,
        vy: s.vy,
        size: if s.size_centi < MIN_SIZE_CENTI {
            MIN_SIZE_CENTI
        } else if s.size_centi > MAX_SIZE_CENTI {
            MAX_SIZE_CENTI
        } else {
            s.size_centi
        },
    }
}

/// The sum of the speeds of a droplet sequence, in um/s rounded down.
pub open spec fn sum_speeds(s: Seq<Droplet>) -> int
    decreases s.len(),
{
    if s.len() == 0 {
        0
    } else {
        sum_speeds(s.drop_last()) + speed_of(s.last())
    }
}

/// The simulation world: a physical extent (micrometers) that maps onto
/// the full pixel canvas, the spawn origin shared by every droplet, and
/// the droplet population in insertion order.
pub struct World {
    pub extent_x: i64,
    pub extent_y: i64,
    pub origin_x: i64,
    pub origin_y: i64,
    pub droplets: Vec<Droplet>,
}

impl World {
    /// A usable world: positive extents, and every droplet physically
    /// meaningful.
    pub open spec fn wf(self) -> bool {
        &&& self.extent_x >= 1
        &&& self.extent_y >= 1
        &&& forall|i: int|
            0 <= i < self.droplets@.len() ==> (#[trigger] self.droplets@[i]).wf()
    }

    /// A fresh, empty world: a forty-meter square of world space mapped
    /// onto the canvas, with the spawn origin at its center.
    pub fn new() -> (w: World)
        ensures
            w.wf(),
            w.extent_x == 40_000_000i64,
            w.extent_y == 40_000_000i64,
            w.origin_x == 20_000_000i64,
            w.origin_y == 20_000_000i64,
            w.droplets@.len() == 0,
    {
        World {
            extent_x: 40_000_000,
            extent_y: 40_000_000,
            origin_x: 20_000_000,
            origin_y: 20_000_000,
            droplets: Vec::new(),
        }
    }

    /// Append the population for scale `n` to the world: one droplet per
    /// raw sample, each spawned at the origin with its radius clamped up
    /// to the 0.2 um floor (and down to the representable cap).  The
    /// caller supplies exactly the `total_count(n)` draws of the sampling
    /// plan, so the population grows by the sum of the mixture weights
    /// times `n`.
    pub fn create_droplets(&mut self, n: u32, seeds: &Vec<Sample>)
        requires
            old(self).wf(),
            seeds@.len() == total_count(n as int),
            old(self).droplets@.len() + seeds@.len() <= usize::MAX,
        ensures
            final(self).wf(),
            final(self).extent_x == old(self).extent_x,
            final(self).extent_y == old(self).extent_y,
            final(self).origin_x == old(self).origin_x,
            final(self).origin_y == old(self).origin_y,
            final(self).droplets@.len() == old(self).droplets@.len() + total_count(n as int),
            forall|i: int|
                0 <= i < old(self).droplets@.len() ==> (#[trigger] final(self).droplets@[i]) == old(
                    self,
                ).droplets@[i],
            forall|i: int|
                old(self).droplets@.len() <= i < final(self).droplets@.len() ==> (
                #[trigger] final(self).droplets@[i]) == droplet_from(
                    old(self).origin_x,
                    old(self).origin_y,
                    seeds@[i - old(self).droplets@.len()],
                ),
            forall|i: int|
                old(self).droplets@.len() <= i < final(self).droplets@.len() ==> (
                #[trigger] final(self).droplets@[i]).size >= MIN_SIZE_CENTI,
    {
        let mut j: usize = 0;
        while j < seeds.len()
            invariant
                old(self).wf(),
                self.wf(),
                seeds@.len() == total_count(n as int),
                old(self).droplets@.len() + seeds@.len() <= usize::MAX,
                self.extent_x == old(self).extent_x,
                self.extent_y == old(self).extent_y,
                self.origin_x == old(self).origin_x,
                self.origin_y == old(self).origin_y,
                j <= seeds@.len(),
                self.droplets@.len() == old(self).droplets@.len() + j,
                forall|i: int|
                    0 <= i < old(self).droplets@.len() ==> (#[trigger] self.droplets@[i]) == old(
                        self,
                    ).droplets@[i],
                forall|i: int|
                    old(self).droplets@.len() <= i < self.droplets@.len() ==> (
                    #[trigger] self.droplets@[i]) == droplet_from(
                        old(self).origin_x,
                        old(self).origin_y,
                        seeds@[i - old(self).droplets@.len()],
                    ),
            decreases seeds@.len() - j,
        {
            let s = seeds[j];
            let size: i64 = if s.size_centi < MIN_SIZE_CENTI {
                MIN_SIZE_CENTI
            } else if s.size_centi > MAX_SIZE_CENTI {
                MAX_SIZE_CENTI
            } else {
                s.size_centi
            };
            self.droplets.push(
                Droplet {
                    x: self.origin_x,
                    y: self.origin_y,
                    z: 0,
                    vx: s.vx,
                    vy: s.vy,
                    size,
                },
            );
            j = j + 1;
        }
    }

    /// Advance every droplet by one fixed time step.  The step is a
    /// global constant, not wall-clock time: frame rate changes
    /// simulation speed, which keeps the pipeline deterministic.
    pub fn update(&mut self)
        requires
            old(self).wf(),
        ensures
            final(self).wf(),
            final(self).extent_x == old(self).extent_x,
            final(self).extent_y == old(self).extent_y,
            final(self).origin_x == old(self).origin_x,
            final(self).origin_y == old(self).origin_y,
            final(self).droplets@.len() == old(self).droplets@.len(),
            forall|i: int|
                0 <= i < final(self).droplets@.len() ==> (#[trigger] final(self).droplets@[i])
                    == stepped(old(self).droplets@[i], TIME_STEP_MICROS as int),
    {
        let mut j: usize = 0;
        while j < self.droplets.len()
            invariant
                old(self).wf(),
                self.wf(),
                self.extent_x == old(self).extent_x,
                self.extent_y == old(self).extent_y,
                self.origin_x == old(self).origin_x,
                self.origin_y == old(self).origin_y,
                j <= self.droplets@.len(),
                self.droplets@.len() == old(self).droplets@.len(),
                forall|i: int|
                    0 <= i < j ==> (#[trigger] self.droplets@[i]) == stepped(
                        old(self).droplets@[i],
                        TIME_STEP_MICROS as int,
                    ),
                forall|i: int|
                    j <= i < self.droplets@.len() ==> (#[trigger] self.droplets@[i]) == old(
                        self,
                    ).droplets@[i],
            decreases self.droplets@.len() - j,
        {
            let d = vstd::std_specs::vec::vec_index_mut(&mut self.droplets, j);
            d.step(TIME_STEP_MICROS);
            j = j + 1;
        }
    }

    /// The arithmetic mean of the droplet speeds, in um/s rounded down,
    /// or nothing when the population is empty: an empty mean has no
    /// value and must not silently divide by zero.
    pub fn average_droplet_speed(&self) -> (r: Option<u64>)
        ensures
            (r is None) <==> self.droplets@.len() == 0,
            r matches Some(m) ==> m as int == sum_speeds(self.droplets@) / (
            self.droplets@.len() as int),
    {
        let mut sum: u128 = 0;
        let mut j: usize = 0;
        while j < self.droplets.len()
            invariant
                j <= self.droplets@.len(),
                sum as int == sum_speeds(self.droplets@.take(j as int)),
                sum as int <= (j as int) * 0xffff_ffff_ffff_ffff,
            decreases self.droplets@.len() - j,
        {
            let d = self.droplets[j];
            let mx: u64 = mag64(d.vx);
            let my: u64 = mag64(d.vy);
            assert((mx as int) * (mx as int) <= 0x8000_0000_0000_0000 * 0x8000_0000_0000_0000)
                by (nonlinear_arith)
                requires
                    0 <= mx as int <= 0x8000_0000_0000_0000,
            ;
            assert((my as int) * (my as int) <= 0x8000_0000_0000_0000 * 0x8000_0000_0000_0000)
                by (nonlinear_arith)
                requires
                    0 <= my as int <= 0x8000_0000_0000_0000,
            ;
            let sq: u128 = (mx as u128) * (mx as u128) + (my as u128) * (my as u128);
            proof {
                assert((d.vx as int) * (d.vx as int) == (mx as int) * (mx as int))
                    by (nonlinear_arith)
                    requires
                        mx as int == mag(d.vx as int),
                        mag(d.vx as int) == d.vx as int || mag(d.vx as int) == -(d.vx as int),
                ;
                assert((d.vy as int) * (d.vy as int) == (my as int) * (my as int))
                    by (nonlinear_arith)
                    requires
                        my as int == mag(d.vy as int),
                        mag(d.vy as int) == d.vy as int || mag(d.vy as int) == -(d.vy as int),
                ;
                assert(sq as int == speed_sq(self.droplets@[j as int]));
            }
            let sp: u64 = isqrt(sq);
            proof {
                assert(sp as int == speed_of(self.droplets@[j as int]));
                assert(self.droplets@.take(j as int + 1).drop_last() =~= self.droplets@.take(
                    j as int,
                ));
                assert(self.droplets@.take(j as int + 1).last() == self.droplets@[j as int]);
            }
            sum = sum + sp as u128;
            j = j + 1;
        }
        proof {
            assert(self.droplets@.take(self.droplets@.len() as int) =~= self.droplets@);
        }
        if self.droplets.len() == 0 {
            None
        } else {
            let count: u128 = self.droplets.len() as u128;
            proof {
                vstd::arithmetic::div_mod::lemma_div_is_ordered(
                    sum as int,
                    (count as int) * 0xffff_ffff_ffff_ffff,
                    count as int,
                );
                vstd::arithmetic::div_mod::lemma_div_multiples_vanish(
                    0xffff_ffff_ffff_ffff,
                    count as int,
                );
                vstd::arithmetic::div_mod::lemma_div_pos_is_pos(sum as int, count as int);
            }
            let mean: u128 = sum / count;
            Some(mean as u64)
        }
    }

    /// Rasterise every droplet into the frame, in stored order: each
    /// droplet's color goes to the slot of its projected pixel, and where
    /// two droplets land on the same pixel the later one in the
    /// collection wins.
    pub fn draw_droplets(&self, frame: &mut Vec<u8>)
        requires
            self.wf(),
            old(frame)@.len() >= 4 * (WIDTH as int) * (HEIGHT as int),
        ensures
            final(frame)@ == render(
                old(frame)@,
                self.droplets@,
                self.extent_x as int,
                self.extent_y as int,
            ),
            final(frame)@.len() == old(frame)@.len(),
    {
        let mut k: usize = 0;
        while k < self.droplets.len()
            invariant
                self.wf(),
                k <= self.droplets@.len(),
                frame@.len() == old(frame)@.len(),
                old(frame)@.len() >= 4 * (WIDTH as int) * (HEIGHT as int),
                frame@ == render(
                    old(frame)@,
                    self.droplets@.take(k as int),
                    self.extent_x as int,
                    self.extent_y as int,
                ),
            decreases self.droplets@.len() - k,
        {
            let d = self.droplets[k];
            let pix = d.get_pixel(self);
            let base: usize = 4 * ((pix.1 as usize) * (WIDTH as usize) + (pix.0 as usize));
            let limit: usize = frame.len() - 4;
            let idx: usize = if base > limit {
                limit
            } else {
                base
            };
            let c = d.get_color();
            proof {
                assert(idx as int == slot_of(
                    self.droplets@[k as int],
                    self.extent_x as int,
                    self.extent_y as int,
                    frame@.len() as int,
                ));
            }
            *vstd::std_specs::vec::vec_index_mut(frame, idx) = c.0;
            *vstd::std_specs::vec::vec_index_mut(frame, idx + 1) = c.1;
            *vstd::std_specs::vec::vec_index_mut(frame, idx + 2) = c.2;
            *vstd::std_specs::vec::vec_index_mut(frame, idx + 3) = c.3;
            proof {
                assert(self.droplets@.take(k as int + 1).drop_last() =~= self.droplets@.take(
                    k as int,
                ));
                assert(self.droplets@.take(k as int + 1).last() == self.droplets@[k as int]);
            }
            k = k + 1;
        }
        proof {
            assert(self.droplets@.take(self.droplets@.len() as int) =~= self.droplets@);
        }
    }

    /// Produce one frame: clear the whole canvas to the background value,
    /// then rasterise the droplets over it in stored order.
    pub fn draw(&self, frame: &mut Vec<u8>)
        requires
            self.wf(),
            old(frame)@.len() >= 4 * (WIDTH as int) * (HEIGHT as int),
        ensures
            final(frame)@ == render(
                blank(old(frame)@.len() as int),
                self.droplets@,
                self.extent_x as int,
                self.extent_y as int,
            ),
            final(frame)@.len() == old(frame)@.len(),
    {
        let n: usize = frame.len();
        let mut cleared: Vec<u8> = vec![0u8; n];
        proof {
            assert(cleared@ =~= blank(n as int));
        }
        self.draw_droplets(&mut cleared);
        *frame = cleared;
    }
}

/// The projection always lands inside the canvas: `[0, dim]` on each
/// axis, for any finite world position however far outside the extent.
pub proof fn lemma_project_range(pos: int, extent: int, dim: int)
    requires
        extent >= 1,
        dim >= 1,
    ensures
        0 <= project(pos, extent, dim) <= dim,
{
    if pos > 0 {
        assert(pos * dim >= 0) by (nonlinear_arith)
            requires
                pos > 0,
                dim >= 1,
        ;
        vstd::arithmetic::div_mod::lemma_div_pos_is_pos(pos * dim, extent);
    }
}

/// A droplet's slot always addresses a whole four-byte pixel inside the
/// frame.
pub proof fn lemma_slot_range(d: Droplet, ex: int, ey: int, len: int)
    requires
        ex >= 1,
        ey >= 1,
        len >= 4,
    ensures
        0 <= slot_of(d, ex, ey, len) <= len - 4,
{
    lemma_project_range(d.x as int, ex, WIDTH as int);
    lemma_project_range(d.y as int, ey, HEIGHT as int);
}

/// Every slot is four-byte aligned when the frame length is a multiple of
/// four.
pub proof fn lemma_slot_aligned(d: Droplet, ex: int, ey: int, len: int)
    requires
        ex >= 1,
        ey >= 1,
        len >= 4,
        len % 4 == 0,
    ensures
        slot_of(d, ex, ey, len) % 4 == 0,
{
    let px = project(d.x as int, ex, WIDTH as int);
    let py = project(d.y as int, ey, HEIGHT as int);
    let base = 4 * (py * (WIDTH as int) + px);
    if base > len - 4 {
        vstd::arithmetic::div_mod::lemma_fundamental_div_mod(len, 4);
        let w = len / 4 - 1;
        assert(slot_of(d, ex, ey, len) == w * 4);
        vstd::arithmetic::div_mod::lemma_mod_multiples_basic(w, 4);
    } else {
        let w = py * (WIDTH as int) + px;
        assert(slot_of(d, ex, ey, len) == w * 4);
        vstd::arithmetic::div_mod::lemma_mod_multiples_basic(w, 4);
    }
}

/// Rendering never changes the frame's length.
#[verifier::rlimit(50)]
pub proof fn lemma_render_len(f: Seq<u8>, ds: Seq<Droplet>, ex: int, ey: int)
    requires
        ex >= 1,
        ey >= 1,
        f.len() >= 4,
    ensures
        render(f, ds, ex, ey).len() == f.len(),
    decreases ds.len(),
{
    if ds.len() > 0 {
        lemma_render_len(f, ds.drop_last(), ex, ey);
        lemma_slot_range(ds[ds.len() - 1], ex, ey, f.len() as int);
        assert(ds.last() == ds[ds.len() - 1]);
    }
}

/// A byte that lies in no droplet's slot is left exactly as it was: after
/// a clear, every pixel no droplet projects to still shows the
/// background.
pub proof fn lemma_render_untouched(f: Seq<u8>, ds: Seq<Droplet>, ex: int, ey: int, i: int)
    requires
        ex >= 1,
        ey >= 1,
        f.len() >= 4,
        0 <= i < f.len(),
        forall|k: int|
            0 <= k < ds.len() ==> !((#[trigger] slot_of(ds[k], ex, ey, f.len() as int)) <= i
                < slot_of(ds[k], ex, ey, f.len() as int) + 4),
    ensures
        render(f, ds, ex, ey)[i] == f[i],
    decreases ds.len(),
{
    if ds.len() > 0 {
        let prefix = ds.drop_last();
        assert(forall|k: int| 0 <= k < prefix.len() ==> prefix[k] == ds[k]);
        lemma_render_untouched(f, prefix, ex, ey, i);
        lemma_render_len(f, prefix, ex, ey);
        lemma_slot_range(ds[ds.len() - 1], ex, ey, f.len() as int);
        assert(ds.last() == ds[ds.len() - 1]);
        assert(!(slot_of(ds[ds.len() - 1], ex, ey, f.len() as int) <= i < slot_of(
            ds[ds.len() - 1],
            ex,
            ey,
            f.len() as int,
        ) + 4));
    }
}

/// Last write wins: if no later droplet lands on the same slot, the four
/// bytes at a droplet's slot hold exactly that droplet's color after
/// rendering.
pub proof fn lemma_render_last_wins(f: Seq<u8>, ds: Seq<Droplet>, ex: int, ey: int, k: int)
    requires
        ex >= 1,
        ey >= 1,
        f.len() >= 4,
        f.len() as int % 4 == 0,
        0 <= k < ds.len(),
        forall|j: int|
            k < j < ds.len() ==> slot_of(#[trigger] ds[j], ex, ey, f.len() as int) != slot_of(
                ds[k],
                ex,
                ey,
                f.len() as int,
            ),
    ensures
        render(f, ds, ex, ey)[slot_of(ds[k], ex, ey, f.len() as int)] == color_r(
            ds[k].size as int,
        ) as u8,
        render(f, ds, ex, ey)[slot_of(ds[k], ex, ey, f.len() as int) + 1] == color_g(
            ds[k].size as int,
        ) as u8,
        render(f, ds, ex, ey)[slot_of(ds[k], ex, ey, f.len() as int) + 2] == color_b(
            ds[k].size as int,
        ) as u8,
        render(f, ds, ex, ey)[slot_of(ds[k], ex, ey, f.len() as int) + 3] == PIXEL_ALPHA,
    decreases ds.len(),
{
    let len = f.len() as int;
    let s = slot_of(ds[k], ex, ey, len);
    lemma_slot_range(ds[k], ex, ey, len);
    lemma_render_len(f, ds.drop_last(), ex, ey);
    if k == ds.len() - 1 {
        assert(ds.last() == ds[k]);
    } else {
        let prefix = ds.drop_last();
        assert(forall|j: int| 0 <= j < prefix.len() ==> prefix[j] == ds[j]);
        lemma_render_last_wins(f, prefix, ex, ey, k);
        let t = slot_of(ds[ds.len() - 1], ex, ey, len);
        lemma_slot_range(ds[ds.len() - 1], ex, ey, len);
        lemma_slot_aligned(ds[k], ex, ey, len);
        lemma_slot_aligned(ds[ds.len() - 1], ex, ey, len);
        assert(ds.last() == ds[ds.len() - 1]);
        assert(t != s);
        vstd::arithmetic::div_mod::lemma_fundamental_div_mod(s, 4);
        vstd::arithmetic::div_mod::lemma_fundamental_div_mod(t, 4);
        assert(s == 4 * (s / 4) && t == 4 * (t / 4));
        assert(s + 4 <= t || t + 4 <= s);
    }
}

} // verus!
