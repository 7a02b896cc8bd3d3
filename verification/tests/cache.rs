use fractal_valley::fractal::FractallCollors;
use fractal_valley::shared::{MAX_ITER, TILES_COUNT};

fn sweep_of(value: impl Fn(usize, usize) -> usize) -> Vec<usize> {
    let mut values = Vec::new();
    for i in 0..TILES_COUNT {
        for j in 0..TILES_COUNT {
            values.push(value(i, j));
        }
    }
    values
}

#[test]
fn new_cache_holds_zero_everywhere() {
    let colors = FractallCollors::new();
    for i in 0..TILES_COUNT {
        for j in 0..TILES_COUNT {
            assert_eq!(colors.get(i, j), 0);
        }
    }
}

#[test]
fn rebuild_stores_the_sweep_row_by_row() {
    let mut colors = FractallCollors::new();
    let values = sweep_of(|i, j| (i * 3 + j) % MAX_ITER);
    assert!(colors.rebuild(&values));
    for i in 0..TILES_COUNT {
        for j in 0..TILES_COUNT {
            assert_eq!(colors.get(i, j), (i * 3 + j) % MAX_ITER);
        }
    }
    assert_eq!(colors.get(0, 1), 1);
    assert_eq!(colors.get(1, 0), 3);
    assert_eq!(colors.get(40, 40), 160 % MAX_ITER);
}

#[test]
fn rebuild_replaces_what_was_there() {
    let mut colors = FractallCollors::new();
    assert!(colors.rebuild(&sweep_of(|_, _| 7)));
    assert!(colors.rebuild(&sweep_of(|i, _| i)));
    assert_eq!(colors.get(5, 9), 5);
    assert_eq!(colors.get(0, 0), 0);
}

#[test]
fn rebuild_takes_the_largest_field_value() {
    let mut colors = FractallCollors::new();
    assert!(colors.rebuild(&sweep_of(|_, _| MAX_ITER - 1)));
    assert_eq!(colors.get(20, 20), 127);
}

#[test]
fn rebuild_refuses_a_sweep_of_the_wrong_length() {
    let mut colors = FractallCollors::new();
    assert!(colors.rebuild(&sweep_of(|_, _| 7)));
    let mut short = sweep_of(|_, _| 1);
    short.pop();
    assert!(!colors.rebuild(&short));
    let mut long = sweep_of(|_, _| 1);
    long.push(1);
    assert!(!colors.rebuild(&long));
    assert!(!colors.rebuild(&Vec::new()));
    assert_eq!(colors.get(0, 0), 7);
    assert_eq!(colors.get(40, 40), 7);
}

#[test]
fn rebuild_refuses_a_value_that_is_no_field_value() {
    let mut colors = FractallCollors::new();
    assert!(colors.rebuild(&sweep_of(|_, _| 7)));
    let mut values = sweep_of(|_, _| 1);
    values[TILES_COUNT * TILES_COUNT - 1] = MAX_ITER;
    assert!(!colors.rebuild(&values));
    for i in 0..TILES_COUNT {
        for j in 0..TILES_COUNT {
            assert_eq!(colors.get(i, j), 7);
        }
    }
    values[TILES_COUNT * TILES_COUNT - 1] = 1;
    values[0] = usize::MAX;
    assert!(!colors.rebuild(&values));
    assert_eq!(colors.get(0, 0), 7);
}
