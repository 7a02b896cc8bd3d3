use fractal_valley::fractal::{do_fractal, FractallCollors};
use fractal_valley::player::{change_cell, PlayerCell};
use fractal_valley::shared::{cell2xz, TilesCenter, MAX_ITER, TILES_COUNT, VALLEY_SIZE};
use fractal_valley::valley::{repaint, startup};

const BOUNDS: ((f64, f64), (f64, f64)) = ((-2.0, 0.6), (-1.3, 1.3));

// Escape time of the point (x, y), as a caller with real numbers computes it.
fn escape_time(x: f64, y: f64) -> usize {
    let q = x * x - 0.5 * x + 0.0625 + y * y;
    if y * y >= 4.0 * q * (q + x - 0.25) {
        return 0;
    }
    if (x + 1.0) * (x + 1.0) + y * y < 0.0625 {
        return 0;
    }
    let (mut zx, mut zy, mut n) = (0.0, 0.0, 0);
    while zx * zx + zy * zy < 4.0 && n < MAX_ITER {
        let next = zx * zx - zy * zy + x;
        zy = 2.0 * zx * zy + y;
        zx = next;
        n += 1;
    }
    if n == MAX_ITER {
        0
    } else {
        n
    }
}

fn sweep(start: (usize, usize), sweeps: &mut usize) -> Vec<usize> {
    *sweeps += 1;
    let step_x = (BOUNDS.0 .1 - BOUNDS.0 .0) / VALLEY_SIZE as f64;
    let step_y = (BOUNDS.1 .1 - BOUNDS.1 .0) / VALLEY_SIZE as f64;
    let mut values = Vec::new();
    for i in 0..TILES_COUNT {
        for j in 0..TILES_COUNT {
            let x = BOUNDS.0 .0 + (start.0 + i) as f64 * step_x;
            let y = BOUNDS.1 .0 + (start.1 + j) as f64 * step_y;
            values.push(escape_time(x, y));
        }
    }
    values
}

#[test]
fn walk_from_one_window_into_the_next() {
    let (mut pool, _) = startup();
    let mut center = TilesCenter(200, 200);
    let mut not_first = false;
    let mut colors = FractallCollors::new();
    let mut player = PlayerCell(0, 0);
    let mut sweeps = 0;

    // first tick: the observer stands on (200, 200)
    assert!(change_cell(&mut player, (200 - 4000, 200 - 4000)));
    let start = do_fractal(&player, &mut center, &mut not_first).unwrap();
    assert_eq!(center, TilesCenter(200, 200));
    assert_eq!(start, (180, 180));
    assert!(colors.rebuild(&sweep(start, &mut sweeps)));
    let done = repaint(&mut pool, &colors, &center);
    let middle = colors.get(20, 20);
    assert_eq!(done.middle, middle);
    assert_eq!(middle, escape_time(-2.0 + 200.0 * (2.6 / 8001.0), -1.3 + 200.0 * (2.6 / 8001.0)));
    assert_eq!(middle, 1);
    assert_eq!((pool.slot(20, 20).x, pool.slot(20, 20).z), cell2xz((200, 200)));
    assert_eq!(sweeps, 1);

    // same cell again: nothing to do
    assert!(!change_cell(&mut player, (200 - 4000, 200 - 4000)));
    assert_eq!(do_fractal(&player, &mut center, &mut not_first), None);
    assert_eq!(sweeps, 1);

    // the observer moves to (225, 200), further than one step of the window
    assert!(change_cell(&mut player, (225 - 4000, 200 - 4000)));
    let start = do_fractal(&player, &mut center, &mut not_first).unwrap();
    assert_eq!(center, TilesCenter(225, 200));
    assert_eq!(start, (205, 180));
    assert!(colors.rebuild(&sweep(start, &mut sweeps)));
    assert_eq!(sweeps, 2);
    let done = repaint(&mut pool, &colors, &center);
    let (old, new) = (cell2xz((200, 200)), cell2xz((225, 200)));
    assert_eq!((done.dx, done.dz), (new.0 - old.0, new.1 - old.1));
    assert_eq!((done.dx, done.dz), (100, 0));
    assert_eq!(pool.len(), TILES_COUNT * TILES_COUNT);
    assert_eq!(do_fractal(&player, &mut center, &mut not_first), None);
    assert_eq!(sweeps, 2);
}

#[test]
fn walk_one_cell_past_the_band() {
    let (mut pool, _) = startup();
    let mut center = TilesCenter(200, 200);
    let mut not_first = false;
    let mut colors = FractallCollors::new();
    let mut player = PlayerCell(200, 200);
    let mut sweeps = 0;
    let start = do_fractal(&player, &mut center, &mut not_first).unwrap();
    assert!(colors.rebuild(&sweep(start, &mut sweeps)));
    repaint(&mut pool, &colors, &center);

    for x in 201..=220 {
        assert!(change_cell(&mut player, (x - 4000, 200 - 4000)));
        assert_eq!(do_fractal(&player, &mut center, &mut not_first), None);
    }
    assert!(change_cell(&mut player, (221 - 4000, 200 - 4000)));
    let start = do_fractal(&player, &mut center, &mut not_first).unwrap();
    assert_eq!(center, TilesCenter(241, 200));
    assert_eq!(start, (221, 180));
    assert!(colors.rebuild(&sweep(start, &mut sweeps)));
    let done = repaint(&mut pool, &colors, &center);
    assert_eq!((done.dx, done.dz), (164, 0));
    assert_eq!(sweeps, 2);
    for i in 0..TILES_COUNT {
        for j in 0..TILES_COUNT {
            assert!(pool.slot(i, j).color < MAX_ITER);
            assert_eq!(pool.slot(i, j).color, colors.get(i, j));
        }
    }
}
