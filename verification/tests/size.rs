use halfblock::size::{
    ceil_half, columns_for_rows, fit, pixel_rows_for, resolve, SizeSpec, TargetGrid,
    TerminalBounds,
};

const TERMINAL: TerminalBounds = TerminalBounds { columns: 80, rows: 30 };

const OPEN: SizeSpec = SizeSpec { width: None, height: None, real_size: false };

fn grid(columns: u32, rows: u32) -> TargetGrid {
    TargetGrid { columns, rows }
}

#[test]
fn ceil_half_rounds_up() {
    assert_eq!(ceil_half(0), 0);
    assert_eq!(ceil_half(1), 1);
    assert_eq!(ceil_half(2), 1);
    assert_eq!(ceil_half(3), 2);
    assert_eq!(ceil_half(100), 50);
    assert_eq!(ceil_half(101), 51);
}

#[test]
fn ceil_half_of_the_largest_length() {
    assert_eq!(ceil_half(u32::MAX), 2_147_483_648);
    assert_eq!(ceil_half(u32::MAX - 1), 2_147_483_647);
}

/// The same policy in the machine's own single precision.
fn machine_grid(w: u32, h: u32, spec: SizeSpec, terminal: TerminalBounds) -> TargetGrid {
    if spec.real_size {
        return grid(w, ceil_half(h));
    }
    let ratio = (w as f32) / (h as f32);
    match (spec.width, spec.height) {
        (Some(width), Some(height)) => grid(width, ceil_half(height)),
        (Some(width), None) => grid(width, ceil_half(((width as f32) / ratio) as u32)),
        (None, Some(height)) => grid((ratio * (height as f32)) as u32, height),
        (None, None) => {
            let bounds_w = terminal.columns.min(w);
            let bounds_h = (terminal.rows as u64 * 2).min(h as u64) as u32;
            let width_based_height = ((bounds_w as f32) / ratio).floor() as u32;
            let height_based_width = (ratio * (bounds_h as f32)).floor() as u32;
            if width_based_height > bounds_h {
                grid(height_based_width, ceil_half(bounds_h))
            } else {
                grid(bounds_w, ceil_half(width_based_height))
            }
        }
    }
}

fn next(state: &mut u64) -> u32 {
    *state = state.wrapping_mul(6364136223846793005).wrapping_add(1442695040888963407);
    (*state >> 32) as u32
}

#[test]
fn derived_lengths_are_cut_to_whole_numbers() {
    assert_eq!(pixel_rows_for(100, 200, 100), 50);
    assert_eq!(columns_for_rows(100, 200, 100), 200);
    assert_eq!(pixel_rows_for(10, 3, 7), 23);
    assert_eq!(columns_for_rows(10, 7, 3), 23);
    assert_eq!(pixel_rows_for(0, 7, 3), 0);
    assert_eq!(columns_for_rows(0, 7, 3), 0);
}

#[test]
fn derived_lengths_are_rounded_in_single_precision() {
    // a seventh is rounded up, and one divided by it stays below seven
    assert_eq!(pixel_rows_for(1, 1, 7), 6);
    assert_eq!(pixel_rows_for(100, 1, 7), 699);
    // thirteen elevenths are rounded down, and eleven times that stays below thirteen
    assert_eq!(columns_for_rows(11, 13, 11), 12);
}

#[test]
fn derived_lengths_stop_at_the_largest_length() {
    assert_eq!(pixel_rows_for(u32::MAX, 1, u32::MAX), u32::MAX);
    assert_eq!(columns_for_rows(u32::MAX, u32::MAX, 1), u32::MAX);
    assert_eq!(pixel_rows_for(u32::MAX, 1, 2), u32::MAX);
    assert_eq!(pixel_rows_for(u32::MAX, 2, 1), 2_147_483_648);
}

#[test]
fn width_alone_on_a_one_by_seven_image() {
    let spec = SizeSpec { width: Some(1), height: None, real_size: false };
    assert_eq!(resolve(1, 7, spec, TERMINAL), grid(1, 3));
}

#[test]
fn height_alone_on_a_thirteen_by_eleven_image() {
    let spec = SizeSpec { width: None, height: Some(11), real_size: false };
    assert_eq!(resolve(13, 11, spec, TERMINAL), grid(12, 11));
}

#[test]
fn no_wish_on_a_one_by_seven_image() {
    assert_eq!(fit(1, 7, TERMINAL), (1, 6));
    assert_eq!(resolve(1, 7, OPEN, TERMINAL), grid(1, 3));
}

#[test]
fn grids_are_the_machines_on_small_images() {
    let terminals = [TERMINAL, TerminalBounds { columns: 7, rows: 3 }];
    for w in 1..50 {
        for h in 1..50 {
            for terminal in terminals {
                assert_eq!(resolve(w, h, OPEN, terminal), machine_grid(w, h, OPEN, terminal));
            }
            for length in [0, 1, 2, 5, 11, 80, 100, 1000] {
                let by_width = SizeSpec { width: Some(length), height: None, real_size: false };
                let by_height = SizeSpec { width: None, height: Some(length), real_size: false };
                assert_eq!(
                    resolve(w, h, by_width, TERMINAL),
                    machine_grid(w, h, by_width, TERMINAL)
                );
                assert_eq!(
                    resolve(w, h, by_height, TERMINAL),
                    machine_grid(w, h, by_height, TERMINAL)
                );
            }
        }
    }
}

#[test]
fn grids_are_the_machines_on_random_images() {
    let mut state = 2024;
    for _ in 0..50000 {
        let w = (next(&mut state) >> (next(&mut state) % 32)).max(1);
        let h = (next(&mut state) >> (next(&mut state) % 32)).max(1);
        let terminal = TerminalBounds {
            columns: next(&mut state) >> (next(&mut state) % 32),
            rows: next(&mut state) >> (next(&mut state) % 32),
        };
        let length = next(&mut state) >> (next(&mut state) % 32);
        let specs = [
            OPEN,
            SizeSpec { width: Some(length), height: None, real_size: false },
            SizeSpec { width: None, height: Some(length), real_size: false },
            SizeSpec { width: Some(length), height: Some(w), real_size: false },
            SizeSpec { width: Some(length), height: None, real_size: true },
        ];
        for spec in specs {
            assert_eq!(resolve(w, h, spec, terminal), machine_grid(w, h, spec, terminal));
        }
    }
}

#[test]
fn real_size_gives_width_and_half_height() {
    let spec = SizeSpec { width: None, height: None, real_size: true };
    assert_eq!(resolve(640, 480, spec, TERMINAL), grid(640, 240));
    assert_eq!(resolve(1, 3, spec, TERMINAL), grid(1, 2));
}

#[test]
fn real_size_ignores_lengths_and_terminal() {
    let spec = SizeSpec { width: Some(10), height: Some(7), real_size: true };
    let tiny = TerminalBounds { columns: 1, rows: 1 };
    let none = TerminalBounds { columns: 0, rows: 0 };
    assert_eq!(resolve(640, 481, spec, TERMINAL), grid(640, 241));
    assert_eq!(resolve(640, 481, spec, tiny), grid(640, 241));
    assert_eq!(resolve(640, 481, spec, none), grid(640, 241));
    let width_only = SizeSpec { width: Some(3), height: None, real_size: true };
    assert_eq!(resolve(640, 481, width_only, TERMINAL), grid(640, 241));
    let height_only = SizeSpec { width: None, height: Some(3), real_size: true };
    assert_eq!(resolve(640, 481, height_only, TERMINAL), grid(640, 241));
}

#[test]
fn width_and_height_halve_the_height() {
    let spec = SizeSpec { width: Some(33), height: Some(21), real_size: false };
    assert_eq!(resolve(640, 480, spec, TERMINAL), grid(33, 11));
    let even = SizeSpec { width: Some(500), height: Some(20), real_size: false };
    assert_eq!(resolve(3, 7, even, TERMINAL), grid(500, 10));
}

#[test]
fn width_alone_halves_the_derived_height() {
    let spec = SizeSpec { width: Some(100), height: None, real_size: false };
    assert_eq!(resolve(200, 100, spec, TERMINAL), grid(100, 25));
}

#[test]
fn height_alone_is_not_halved() {
    let spec = SizeSpec { width: None, height: Some(100), real_size: false };
    assert_eq!(resolve(200, 100, spec, TERMINAL), grid(200, 100));
}

#[test]
fn width_alone_and_height_alone_are_not_symmetric() {
    let by_width = SizeSpec { width: Some(100), height: None, real_size: false };
    let by_height = SizeSpec { width: None, height: Some(100), real_size: false };
    let a = resolve(200, 100, by_width, TERMINAL);
    let b = resolve(200, 100, by_height, TERMINAL);
    assert_eq!(a, grid(100, 25));
    assert_eq!(b, grid(200, 100));
    assert_ne!(a.rows * 2, b.rows);
}

#[test]
fn width_alone_rounds_down_then_up() {
    // 10 columns of a 3 by 7 image are 23 pixel rows tall, rounded down; 12 rows.
    let spec = SizeSpec { width: Some(10), height: None, real_size: false };
    assert_eq!(resolve(3, 7, spec, TERMINAL), grid(10, 12));
}

#[test]
fn height_alone_rounds_the_width_down() {
    // 10 rows of a 7 by 3 image are 23 columns wide, rounded down.
    let spec = SizeSpec { width: None, height: Some(10), real_size: false };
    assert_eq!(resolve(7, 3, spec, TERMINAL), grid(23, 10));
}

#[test]
fn explicit_lengths_may_exceed_the_terminal() {
    let spec = SizeSpec { width: Some(4_000_000_000), height: None, real_size: false };
    assert_eq!(resolve(1, 4, spec, TERMINAL), grid(4_000_000_000, 2_147_483_648));
    let tall = SizeSpec { width: None, height: Some(4_000_000_000), real_size: false };
    assert_eq!(resolve(4, 1, tall, TERMINAL), grid(u32::MAX, 4_000_000_000));
}

#[test]
fn fitted_wide_image_keeps_the_terminal_width() {
    assert_eq!(fit(200, 100, TERMINAL), (80, 40));
    assert_eq!(resolve(200, 100, OPEN, TERMINAL), grid(80, 20));
}

#[test]
fn fitted_tall_image_keeps_the_terminal_height() {
    assert_eq!(fit(100, 400, TERMINAL), (15, 60));
    assert_eq!(resolve(100, 400, OPEN, TERMINAL), grid(15, 30));
}

#[test]
fn fitted_small_image_is_not_enlarged() {
    assert_eq!(fit(10, 10, TERMINAL), (10, 10));
    assert_eq!(resolve(10, 10, OPEN, TERMINAL), grid(10, 5));
    assert_eq!(resolve(10, 11, OPEN, TERMINAL), grid(10, 6));
    assert_eq!(resolve(1, 1, OPEN, TERMINAL), grid(1, 1));
}

#[test]
fn fitted_image_on_an_empty_terminal() {
    let none = TerminalBounds { columns: 0, rows: 0 };
    assert_eq!(resolve(200, 100, OPEN, none), grid(0, 0));
    let no_rows = TerminalBounds { columns: 80, rows: 0 };
    assert_eq!(resolve(200, 100, OPEN, no_rows), grid(0, 0));
}

#[test]
fn fitted_image_on_the_largest_terminal() {
    let huge = TerminalBounds { columns: u32::MAX, rows: u32::MAX };
    assert_eq!(resolve(640, 480, OPEN, huge), grid(640, 240));
    assert_eq!(resolve(u32::MAX, u32::MAX, OPEN, huge), grid(u32::MAX, 2_147_483_648));
}

#[test]
fn fitted_grid_stays_within_bounds_and_keeps_aspect() {
    let sides: [u32; 9] = [1, 2, 3, 7, 59, 60, 61, 250, 1999];
    let terminals =
        [TERMINAL, TerminalBounds { columns: 1, rows: 1 }, TerminalBounds { columns: 211, rows: 7 }];
    for terminal in terminals {
        for w in sides {
            for h in sides {
                let g = resolve(w, h, OPEN, terminal);
                let (columns, pixel_rows) = fit(w, h, terminal);
                assert_eq!(g, grid(columns, ceil_half(pixel_rows)));
                assert!(g.columns <= terminal.columns.min(w));
                assert!(g.rows <= terminal.rows.min(ceil_half(h)));
                let (c, p, w, h) = (columns as u64, pixel_rows as u64, w as u64, h as u64);
                let rows_derived = p * w < c * h + w && c * h < p * w + 2 * w;
                let columns_derived = c * h < p * w + h && p * w < c * h + 2 * h;
                assert!(rows_derived || columns_derived);
            }
        }
    }
}

#[test]
fn terminal_fallback_is_80_by_30() {
    assert_eq!(TerminalBounds::from_query(None), TerminalBounds { columns: 80, rows: 30 });
}

#[test]
fn terminal_answer_is_taken_as_it_is() {
    assert_eq!(
        TerminalBounds::from_query(Some((120, 40))),
        TerminalBounds { columns: 120, rows: 40 }
    );
    assert_eq!(
        TerminalBounds::from_query(Some((u16::MAX, u16::MAX))),
        TerminalBounds { columns: 65535, rows: 65535 }
    );
}

#[test]
fn detected_terminal_is_an_answer_or_the_fallback() {
    let bounds = TerminalBounds::detect();
    assert!(bounds.columns <= 65535 && bounds.rows <= 65535);
}
