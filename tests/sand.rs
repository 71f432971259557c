use matryx::canvas::{Canvas, Color};
use matryx::frame::FrameTick;
use matryx::random::RandomSource;
use matryx::sand::{spawn_column, Grid, SandScene, Tile, TileType, PRESSURE_BASE, SPAWN_BATCH};

fn grain(pressure: u64) -> Tile {
    Tile { type_: TileType::Sand, pressure }
}

fn empty() -> Tile {
    Tile { type_: TileType::Empty, pressure: 0 }
}

fn shuffled(n: usize, rng: &mut RandomSource) -> Vec<usize> {
    let mut v: Vec<usize> = (0..n).collect();
    rng.shuffle(&mut v);
    v
}

fn coins(n: usize, rng: &mut RandomSource) -> Vec<bool> {
    (0..n).map(|_| rng.coin()).collect()
}

#[test]
fn every_pass_conserves_the_sand_count() {
    for seed in 0..20u64 {
        let mut rng = RandomSource::seeded(seed);
        let mut g = Grid::new(12, 9);
        for y in 0..9 {
            for x in 0..12 {
                if rng.range(0, 10) < 4 {
                    let p = rng.range(0, 3_000_000);
                    g.set_tile(x, y, grain(p));
                }
            }
        }
        let before = g.sand_total();
        assert!(before > 0);
        for _ in 0..30 {
            let order = shuffled(g.tiles.len(), &mut rng);
            let flips = coins(g.tiles.len(), &mut rng);
            g.gravity_pass(&order);
            assert_eq!(g.sand_total(), before);
            g.pressure_pass(&order);
            assert_eq!(g.sand_total(), before);
            g.relief_pass(&order);
            assert_eq!(g.sand_total(), before);
            g.settle_pass(&order, &flips);
            assert_eq!(g.sand_total(), before);
        }
    }
}

#[test]
fn lone_grain_falls_one_row_per_step_then_stops() {
    let mut rng = RandomSource::seeded(7);
    let mut g = Grid::new(5, 4);
    g.set_tile(2, 0, grain(0));
    for step in 1..=6i32 {
        let order = shuffled(g.tiles.len(), &mut rng);
        let flips = coins(g.tiles.len(), &mut rng);
        g.step(&order, &flips);
        let y = step.min(3);
        assert_eq!(g.get_tile(2, y), Some(grain(0)), "after step {}", step);
        assert_eq!(g.sand_total(), 1);
    }
}

#[test]
fn grain_slides_diagonally_when_blocked_below() {
    let mut g = Grid::new(3, 2);
    g.set_tile(1, 1, grain(0));
    g.set_tile(1, 0, grain(0));
    g.gravity_pass(&vec![1]);
    assert_eq!(g.get_tile(1, 0), Some(empty()));
    assert_eq!(g.get_tile(0, 1), Some(grain(0)));
}

#[test]
fn stacked_grain_takes_base_pressure() {
    let mut g = Grid::new(1, 3);
    g.set_tile(0, 1, grain(0));
    g.set_tile(0, 2, grain(0));
    let order: Vec<usize> = (0..3).collect();
    g.step(&order, &vec![false; 3]);
    assert_eq!(g.get_tile(0, 2), Some(grain(PRESSURE_BASE)));
    assert_eq!(g.get_tile(0, 1), Some(grain(0)));
}

#[test]
fn excess_pressure_is_split_between_sand_neighbours() {
    let mut g = Grid::new(3, 1);
    g.set_tile(0, 0, grain(0));
    g.set_tile(1, 0, grain(11));
    g.set_tile(2, 0, grain(0));
    g.relief_pass(&vec![1]);
    assert_eq!(g.get_tile(0, 0), Some(grain(5)));
    assert_eq!(g.get_tile(1, 0), Some(grain(1)));
    assert_eq!(g.get_tile(2, 0), Some(grain(5)));
}

#[test]
fn excess_pressure_goes_to_the_only_sand_neighbour() {
    let mut g = Grid::new(3, 1);
    g.set_tile(1, 0, grain(11));
    g.set_tile(2, 0, grain(0));
    g.relief_pass(&vec![1]);
    assert_eq!(g.get_tile(1, 0), Some(grain(1)));
    assert_eq!(g.get_tile(2, 0), Some(grain(10)));
}

#[test]
fn pressured_grain_slides_to_the_side_the_coin_picks() {
    let mut g = Grid::new(3, 1);
    g.set_tile(1, 0, grain(5));
    g.settle_pass(&vec![1], &vec![true]);
    assert_eq!(g.get_tile(0, 0), Some(grain(4)));
    assert_eq!(g.get_tile(1, 0), Some(empty()));

    let mut g = Grid::new(3, 1);
    g.set_tile(1, 0, grain(5));
    g.settle_pass(&vec![1], &vec![false]);
    assert_eq!(g.get_tile(2, 0), Some(grain(4)));
}

#[test]
fn grain_below_threshold_does_not_slide() {
    let mut g = Grid::new(3, 1);
    g.set_tile(1, 0, grain(0));
    g.settle_pass(&vec![1], &vec![true]);
    assert_eq!(g.get_tile(1, 0), Some(grain(0)));
}

#[test]
fn grid_bounds() {
    let g = Grid::new(4, 2);
    assert!(g.in_bounds(3, 1));
    assert!(!g.in_bounds(4, 0));
    assert!(!g.in_bounds(0, 2));
    assert!(!g.in_bounds(-1, 0));
    assert_eq!(g.get_tile(-1, 0), None);
    assert_eq!(g.get_tile(0, 0), Some(empty()));
}

#[test]
fn spawn_timer_fires_after_one_period_and_resets_after_two() {
    let mut s = SandScene::new(16, 8);
    assert!(!s.spawn_due(500_000));
    assert!(s.spawn_due(1_000_000));
    assert_eq!(s.last_spout, 0);
    assert!(s.spawn_due(2_000_000));
    assert_eq!(s.last_spout, 2_000_000);
    assert!(!s.spawn_due(2_500_000));
}

#[test]
fn spawn_fills_the_top_row_columns() {
    let mut g = Grid::new(6, 2);
    g.spawn(&vec![1, 4, 9]);
    assert_eq!(g.sand_total(), 2);
    assert_eq!(g.get_tile(1, 0), Some(grain(0)));
    assert_eq!(g.get_tile(4, 0), Some(grain(0)));
}

#[test]
fn scene_tick_spawns_a_batch_and_draws_the_grid() {
    let mut rng = RandomSource::seeded(3);
    let mut s = SandScene::new(256, 32);
    let mut canvas = Canvas::new(256, 32);
    let cols = s.spawn_columns(&mut rng);
    assert_eq!(cols.len(), SPAWN_BATCH);
    assert!(cols.iter().all(|&c| (48..208).contains(&c)));
    let tick = FrameTick::from_start(1_500_000);
    s.tick(&mut canvas, &tick, &mut rng);
    let n = s.map.sand_total();
    assert!(n >= 1 && n <= SPAWN_BATCH);
    let mut drawn = 0;
    for y in 0..32u32 {
        for x in 0..256u32 {
            let c = canvas.get_pixel(x, y);
            let t = s.map.get_tile(x as i32, y as i32).unwrap();
            if t.type_ == TileType::Sand {
                drawn += 1;
                assert_eq!(c, Color { r: 0, g: 229, b: 178 });
            } else {
                assert_eq!(c, Color { r: 0, g: 0, b: 0 });
            }
        }
    }
    assert_eq!(drawn, n);
}

#[test]
fn empty_and_single_cell_grids() {
    let mut g = Grid::new(0, 5);
    g.step(&vec![0, 1, 2], &vec![true]);
    assert_eq!(g.sand_total(), 0);
    let mut one = Grid::new(1, 1);
    one.set_tile(0, 0, grain(7));
    one.step(&vec![0], &vec![true]);
    assert_eq!(one.get_tile(0, 0), Some(grain(7)));
}

#[test]
fn grid_draws_into_a_larger_canvas_and_leaves_the_rest() {
    let mut g = Grid::new(3, 2);
    g.set_tile(2, 1, grain(0));
    let mut canvas = Canvas::new(5, 4);
    canvas.clear_with_color(Color { r: 1, g: 2, b: 3 });
    let s = SandScene { map: g, last_spout: 0 };
    s.draw(&mut canvas);
    for y in 0..4u32 {
        for x in 0..5u32 {
            let expected = if x < 3 && y < 2 {
                if (x, y) == (2, 1) { Color { r: 0, g: 229, b: 178 } } else { Color { r: 0, g: 0, b: 0 } }
            } else {
                Color { r: 1, g: 2, b: 3 }
            };
            assert_eq!(canvas.get_pixel(x, y), expected, "pixel ({}, {})", x, y);
        }
    }
}

#[test]
fn spawn_column_maps_a_draw_into_the_centre_window() {
    assert_eq!(spawn_column(256, 0), 48);
    assert_eq!(spawn_column(256, 159), 207);
    assert_eq!(spawn_column(10, 0), 0);
    assert_eq!(spawn_column(10, 9), 9);
    assert_eq!(spawn_column(1, 0), 0);
}

#[test]
fn pressured_grain_falls_and_loses_its_pressure() {
    let mut g = Grid::new(3, 3);
    g.set_tile(1, 0, grain(500));
    let order: Vec<usize> = (0..9).rev().collect();
    g.step(&order, &vec![true; 9]);
    assert_eq!(g.get_tile(1, 1), Some(grain(0)));
    assert_eq!(g.sand_total(), 1);
    assert!(g.tiles.iter().enumerate().all(|(i, t)| i == 4 || *t == empty()));
}

#[test]
fn new_scene_is_all_empty_cells() {
    let s = SandScene::new(4, 3);
    assert!(s.map.tiles.iter().all(|t| *t == empty()));
}

#[test]
fn scene_tick_draws_into_a_larger_canvas() {
    let mut rng = RandomSource::seeded(9);
    let mut s = SandScene::new(8, 4);
    let mut canvas = Canvas::new(10, 6);
    canvas.clear_with_color(Color { r: 7, g: 7, b: 7 });
    s.tick(&mut canvas, &FrameTick::from_start(1_200_000), &mut rng);
    assert_eq!(s.last_spout, 0);
    assert!(s.map.sand_total() >= 1);
    assert_eq!(canvas.get_pixel(9, 5), Color { r: 7, g: 7, b: 7 });
    assert_eq!(canvas.get_pixel(8, 0), Color { r: 7, g: 7, b: 7 });
    s.tick(&mut canvas, &FrameTick::from_start(2_500_000), &mut rng);
    assert_eq!(s.last_spout, 2_500_000);
}
