use matryx::canvas::{Canvas, Color};
use matryx::frame::FrameTick;
use matryx::random::RandomSource;
use matryx::wave::{decay, gen_weights, regrow, update_cell, WaveScene, FIELD_ONE};

#[test]
fn kernel_weights_fall_off_with_distance() {
    let w = gen_weights();
    assert_eq!(w.len(), 25);
    assert_eq!(w[12], 0);
    assert_eq!(w[7], 1000);
    assert_eq!(w[6], 933);
    assert_eq!(w[2], 871);
    assert_eq!(w[1], 851);
    assert_eq!(w[0], 812);
    assert_eq!(w[24], 812);
}

#[test]
fn decay_scales_by_one_minus_rate_times_dt() {
    assert_eq!(decay(65536, 300, 33_000), 64887);
    assert_eq!(decay(1000, 200, 0), 1000);
    assert_eq!(decay(1000, 400, 2_500_000), 0);
    assert_eq!(decay(1000, 400, 5_000_000), 0);
    assert_eq!(decay(1000, u32::MAX, u64::MAX), 0);
}

#[test]
fn regrow_takes_the_weighted_mean_of_active_neighbours() {
    let w = gen_weights();
    let field = vec![FIELD_ONE / 2; 36];
    let act = vec![10_000u32; 25];
    let jit = vec![1000u32; 25];
    assert_eq!(regrow(&field, 6, 6, 2, 3, &w, &act, &jit), Some(FIELD_ONE / 2));
    let high = vec![40_000u32; 25];
    assert_eq!(regrow(&field, 6, 6, 2, 3, &w, &high, &jit), None);
    let full = vec![FIELD_ONE; 36];
    let boost = vec![1099u32; 25];
    assert_eq!(regrow(&full, 6, 6, 0, 0, &w, &act, &boost), Some(FIELD_ONE));
}

#[test]
fn regrow_counts_only_neighbours_above_their_threshold() {
    let w = gen_weights();
    let mut field = vec![0u32; 25];
    field[2 * 5 + 3] = 60_000;
    let act = vec![30_000u32; 25];
    let jit = vec![1000u32; 25];
    assert_eq!(regrow(&field, 5, 5, 2, 2, &w, &act, &jit), Some(60_000));
}

#[test]
fn cell_update_regrows_only_below_the_threshold() {
    assert_eq!(update_cell(50_000, 300, 33_000, 20_000, Some(1)), 49505);
    assert_eq!(update_cell(10_000, 300, 33_000, 20_000, Some(40_000)), 40_000);
    assert_eq!(update_cell(10_000, 300, 33_000, 20_000, None), 9901);
}

#[test]
fn field_stays_in_unit_range_and_does_not_collapse() {
    let mut rng = RandomSource::seeded(11);
    let mut canvas = Canvas::new(64, 32);
    let mut scene = WaveScene::new(&canvas, &mut rng);
    let mut t: u64 = 0;
    let mut means = Vec::new();
    for _ in 0..300 {
        t += 33_000;
        let tick = FrameTick { start: 0, instant: t, delta: 33_000, t, dt: 33_000 };
        scene.tick(&mut canvas, &tick, &mut rng, |v, _t| {
            let b = (v as u64 * 255 / FIELD_ONE as u64) as u8;
            Color { r: b, g: b, b: b }
        });
        assert!(scene.map.iter().all(|&v| v <= FIELD_ONE));
        let mean = scene.map.iter().map(|&v| v as f64).sum::<f64>() / scene.map.len() as f64;
        means.push(mean / FIELD_ONE as f64);
    }
    let late = &means[100..];
    let avg = late.iter().sum::<f64>() / late.len() as f64;
    assert!(avg > 0.05 && avg < 0.95, "mean field value {}", avg);
}

#[test]
fn buffers_swap_each_step() {
    let mut rng = RandomSource::seeded(5);
    let canvas = Canvas::new(8, 4);
    let mut scene = WaveScene::new(&canvas, &mut rng);
    let before = scene.map.clone();
    scene.step(33_000, &mut rng);
    assert_eq!(scene.last_map, before);
}

#[test]
fn one_cell_field_steps_in_range() {
    let mut rng = RandomSource::seeded(1);
    let canvas = Canvas::new(1, 1);
    let mut scene = WaveScene::new(&canvas, &mut rng);
    for _ in 0..50 {
        scene.step(33_000, &mut rng);
        assert!(scene.map[0] <= FIELD_ONE);
    }
}
