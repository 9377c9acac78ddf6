//! End-to-end tests of the droplet simulation on concrete values.

use flowsim::droplet::Droplet;
use flowsim::math::isqrt;
use flowsim::sampler::{plan, Sample};
use flowsim::world::World;
use flowsim::{
    GRADIENT_HIGH_B, GRADIENT_HIGH_G, GRADIENT_HIGH_R, GRADIENT_LOW_B, GRADIENT_LOW_G,
    GRADIENT_LOW_R, HEIGHT, MIN_SIZE_CENTI, PIXEL_ALPHA, TIME_STEP_MICROS, WIDTH,
};

fn droplet(x: i64, y: i64, vx: i64, vy: i64, size: i64) -> Droplet {
    Droplet {
        x,
        y,
        z: 0,
        vx,
        vy,
        size,
    }
}

fn seed(size_centi: i64, vx: i64, vy: i64) -> Sample {
    Sample {
        size_centi,
        vx,
        vy,
    }
}

fn sixty_three_seeds(size_centi: i64, vx: i64, vy: i64) -> Vec<Sample> {
    (0..63).map(|_| seed(size_centi, vx, vy)).collect()
}

#[test]
fn new_world_has_expected_geometry() {
    let w = World::new();
    assert_eq!(w.extent_x, 40_000_000);
    assert_eq!(w.extent_y, 40_000_000);
    assert_eq!(w.origin_x, 20_000_000);
    assert_eq!(w.origin_y, 20_000_000);
    assert_eq!(w.droplets.len(), 0);
}

#[test]
fn plan_multiplies_weights_by_scale() {
    let p = plan(10);
    assert_eq!(p.len(), 16);
    let counts: Vec<u64> = p.iter().map(|e| e.count).collect();
    assert_eq!(
        counts,
        vec![20, 270, 90, 50, 30, 20, 20, 20, 10, 20, 20, 20, 20, 10, 10, 0]
    );
    assert_eq!(counts.iter().sum::<u64>(), 630);
    assert_eq!(p[0].mean_centi, 300);
    assert_eq!(p[0].sd_centi, 162);
    assert_eq!(p[15].mean_centi, 150000);
    assert_eq!(p[15].sd_centi, 0);
}

#[test]
fn plan_total_is_sixty_three_per_unit() {
    let p = plan(1);
    assert_eq!(p.iter().map(|e| e.count).sum::<u64>(), 63);
}

#[test]
fn create_droplets_population_count() {
    let mut w = World::new();
    w.create_droplets(1, &sixty_three_seeds(2000, 0, 0));
    assert_eq!(w.droplets.len(), 63);
    w.create_droplets(1, &sixty_three_seeds(2000, 0, 0));
    assert_eq!(w.droplets.len(), 126);
}

#[test]
fn create_droplets_clamps_small_and_negative_sizes() {
    let mut w = World::new();
    let mut seeds = sixty_three_seeds(2000, 0, 0);
    seeds[0] = seed(-100, 0, 0);
    seeds[1] = seed(0, 0, 0);
    seeds[2] = seed(19, 0, 0);
    seeds[3] = seed(20, 0, 0);
    seeds[4] = seed(500, 0, 0);
    w.create_droplets(1, &seeds);
    assert_eq!(w.droplets[0].size, 20);
    assert_eq!(w.droplets[1].size, 20);
    assert_eq!(w.droplets[2].size, 20);
    assert_eq!(w.droplets[3].size, 20);
    assert_eq!(w.droplets[4].size, 500);
    for d in &w.droplets {
        assert!(d.size >= MIN_SIZE_CENTI);
    }
}

#[test]
fn create_droplets_spawns_at_origin_with_drawn_velocity() {
    let mut w = World::new();
    let mut seeds = sixty_three_seeds(2000, 7, -9);
    seeds[10] = seed(2000, -3_000_000, 4_000_000);
    w.create_droplets(1, &seeds);
    for d in &w.droplets {
        assert_eq!(d.x, 20_000_000);
        assert_eq!(d.y, 20_000_000);
        assert_eq!(d.z, 0);
    }
    assert_eq!(w.droplets[10].vx, -3_000_000);
    assert_eq!(w.droplets[10].vy, 4_000_000);
    assert_eq!(w.droplets[0].vx, 7);
    assert_eq!(w.droplets[0].vy, -9);
}

#[test]
fn step_with_zero_time_is_identity() {
    let before = droplet(20_000_000, 19_000_000, 11_700_000, -5_000_000, 2000);
    let mut d = before;
    d.step(0);
    assert_eq!(d, before);
}

#[test]
fn step_applies_exact_stokes_drag() {
    // A 20 um droplet at 11.7e6 um/s loses exactly
    // 11_700_000 * 166 * 814500 / (997 * 2000 * 2000) = 396_670 um/s
    // over one 166 us step, then moves by the new velocity truncated to
    // whole micrometers: 11_303_330 * 166 / 1_000_000 = 1876.
    let mut d = droplet(20_000_000, 20_000_000, 11_700_000, 0, 2000);
    d.step(TIME_STEP_MICROS);
    assert_eq!(d.vx, 11_303_330);
    assert_eq!(d.vy, 0);
    assert_eq!(d.x, 20_001_876);
    assert_eq!(d.y, 20_000_000);
    assert_eq!(d.z, 0);
    assert_eq!(d.size, 2000);
}

#[test]
fn step_drag_overshoot_stops_at_zero() {
    // For a 0.2 um droplet the integrated drag far exceeds the speed:
    // the velocity must stop at zero, never flip sign.
    let mut d = droplet(20_000_000, 20_000_000, 11_700_000, -11_700_000, 20);
    d.step(TIME_STEP_MICROS);
    assert_eq!(d.vx, 0);
    assert_eq!(d.vy, 0);
    assert_eq!(d.x, 20_000_000);
    assert_eq!(d.y, 20_000_000);
}

#[test]
fn step_never_increases_speed() {
    let mut d = droplet(20_000_000, 20_000_000, 11_700_000, -2_000_000, 300);
    let mut last_vx = d.vx.unsigned_abs();
    let mut last_vy = d.vy.unsigned_abs();
    for _ in 0..100 {
        d.step(TIME_STEP_MICROS);
        assert!(d.vx.unsigned_abs() <= last_vx);
        assert!(d.vy.unsigned_abs() <= last_vy);
        assert!(d.vx >= 0 && d.vy <= 0);
        last_vx = d.vx.unsigned_abs();
        last_vy = d.vy.unsigned_abs();
    }
}

#[test]
fn update_steps_every_droplet_once() {
    let mut w = World::new();
    let mut seeds = sixty_three_seeds(2000, 11_700_000, 0);
    seeds[62] = seed(20, 11_700_000, 0);
    w.create_droplets(1, &seeds);
    w.update();
    assert_eq!(w.droplets.len(), 63);
    assert_eq!(w.droplets[0].vx, 11_303_330);
    assert_eq!(w.droplets[0].x, 20_001_876);
    assert_eq!(w.droplets[62].vx, 0);
}

#[test]
fn projection_maps_origin_to_canvas_center() {
    let w = World::new();
    let d = droplet(20_000_000, 30_000_000, 0, 0, 2000);
    assert_eq!(d.get_pixel(&w), (400, 600));
}

#[test]
fn projection_clamps_to_canvas_bounds() {
    let w = World::new();
    let far = droplet(90_000_000_000, -5, 0, 0, 2000);
    let (px, py) = far.get_pixel(&w);
    assert_eq!(px, WIDTH);
    assert_eq!(py, 0);
    let corner = droplet(40_000_000, 40_000_000, 0, 0, 2000);
    assert_eq!(corner.get_pixel(&w), (WIDTH, HEIGHT));
}

#[test]
fn color_gradient_low_endpoint_at_size_zero() {
    let d = droplet(0, 0, 0, 0, 0);
    assert_eq!(
        d.get_color(),
        (GRADIENT_LOW_R, GRADIENT_LOW_G, GRADIENT_LOW_B, PIXEL_ALPHA)
    );
}

#[test]
fn color_gradient_high_endpoint_saturates() {
    // sqrt(10000 um) / 100 saturates at one: 10000 um is 1_000_000
    // hundredths of a micrometer.
    let d = droplet(0, 0, 0, 0, 1_000_000);
    assert_eq!(
        d.get_color(),
        (GRADIENT_HIGH_R, GRADIENT_HIGH_G, GRADIENT_HIGH_B, PIXEL_ALPHA)
    );
    let bigger = droplet(0, 0, 0, 0, 5_000_000);
    assert_eq!(bigger.get_color(), d.get_color());
}

#[test]
fn color_interpolates_between_endpoints() {
    // size 2500 (25 um): sqrt is 50 of 1000, so each channel moves 5% of
    // the way from the low endpoint toward the high one, rounded down.
    let d = droplet(0, 0, 0, 0, 2500);
    assert_eq!(d.get_color(), (209, 127, 23, 1));
    let e = droplet(0, 0, 0, 0, 2000);
    assert_eq!(e.get_color(), (210, 128, 22, 1));
}

#[test]
fn average_speed_three_four_five() {
    let mut w = World::new();
    w.droplets.push(droplet(0, 0, 3, 4, 2000));
    assert_eq!(w.average_droplet_speed(), Some(5));
}

#[test]
fn average_speed_of_empty_population_is_none() {
    let w = World::new();
    assert_eq!(w.average_droplet_speed(), None);
}

#[test]
fn average_speed_is_truncated_mean() {
    let mut w = World::new();
    w.droplets.push(droplet(0, 0, 3, 4, 2000));
    w.droplets.push(droplet(0, 0, 0, 0, 2000));
    assert_eq!(w.average_droplet_speed(), Some(2));
}

#[test]
fn isqrt_exact_values() {
    assert_eq!(isqrt(0), 0);
    assert_eq!(isqrt(1), 1);
    assert_eq!(isqrt(24), 4);
    assert_eq!(isqrt(25), 5);
    assert_eq!(isqrt(26), 5);
    assert_eq!(isqrt(1_000_000_000_000), 1_000_000);
    assert_eq!(isqrt(u64::MAX as u128 * u64::MAX as u128), u64::MAX);
}

#[test]
fn draw_leaves_untouched_pixels_at_background() {
    let mut w = World::new();
    // One droplet at the origin projects to pixel (400, 400): byte slot
    // 4 * (400 * 800 + 400) = 1_281_600.
    w.droplets.push(droplet(20_000_000, 20_000_000, 0, 0, 2000));
    let mut frame = vec![7u8; (WIDTH * HEIGHT * 4) as usize];
    w.draw(&mut frame);
    assert_eq!(frame[1_281_600..1_281_604].to_vec(), vec![210, 128, 22, 1]);
    assert_eq!(frame[0..4].to_vec(), vec![0, 0, 0, 0]);
    assert_eq!(frame[1_281_596..1_281_600].to_vec(), vec![0, 0, 0, 0]);
    assert_eq!(frame[1_281_604..1_281_608].to_vec(), vec![0, 0, 0, 0]);
    let touched: usize = frame.iter().map(|&b| (b != 0) as usize).sum();
    assert_eq!(touched, 4);
}

#[test]
fn draw_last_droplet_wins_shared_pixel() {
    let mut w = World::new();
    w.droplets.push(droplet(20_000_000, 20_000_000, 0, 0, 1_000_000));
    // A 0.2 um droplet sits at the very start of the gradient: each
    // channel moves only 4/1000 of the way, which rounds to the low
    // endpoint exactly.
    w.droplets.push(droplet(20_000_000, 20_000_000, 0, 0, 20));
    let mut frame = vec![0u8; (WIDTH * HEIGHT * 4) as usize];
    w.draw(&mut frame);
    assert_eq!(
        frame[1_281_600..1_281_604].to_vec(),
        vec![GRADIENT_LOW_R, GRADIENT_LOW_G, GRADIENT_LOW_B, PIXEL_ALPHA]
    );
}

#[test]
fn draw_clamps_edge_projection_into_buffer() {
    let mut w = World::new();
    // A droplet at the far corner projects to the inclusive edge
    // (800, 800); its slot must be clamped to the last whole pixel.
    w.droplets.push(droplet(40_000_000, 40_000_000, 0, 0, 2000));
    let len = (WIDTH * HEIGHT * 4) as usize;
    let mut frame = vec![0u8; len];
    w.draw(&mut frame);
    assert_eq!(frame[len - 4..].to_vec(), vec![210, 128, 22, 1]);
}
