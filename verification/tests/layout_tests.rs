use labeld::canvas::PIN_COUNT;
use labeld::layout::{line_offsets, pick_longest, split_lines, text_canvas, LayoutError, ScaleSearch};

/// Drive a search with linearly growing extents, the shape real font metrics
/// have: width `w_step * scale`, height `h_step * scale`.
fn settle(n_lines: u32, max_len: u32, rotate: bool, w_step: i32, h_step: i32) -> Result<(u32, i32), LayoutError> {
    let mut search = ScaleSearch::new(n_lines, max_len, rotate);
    loop {
        let s = search.candidate() as i32;
        if !search.offer(w_step * s, h_step * s) {
            break;
        }
    }
    search.result()
}

#[test]
fn chosen_scale_is_the_largest_that_satisfies_both_bounds() {
    // Landscape, one line, length bound 100, head bound 704: width 5s may
    // not exceed 100 and stacked height 8s + 10 may not exceed 704, so 20 is
    // the last fitting scale and 21 the first violation.
    let (scale, line_height) = settle(1, 100, false, 5, 8).unwrap();
    assert_eq!(scale, 20);
    assert_eq!(line_height, 160);
}

#[test]
fn portrait_mode_checks_width_against_the_head() {
    // Portrait: width 100s is checked against the head (704) and the stacked
    // height against the length bound 300: 2 lines, 40s + 20 <= 300 limits
    // the scale to 7, as does 100s <= 704.
    let (scale, line_height) = settle(2, 300, true, 100, 20).unwrap();
    assert_eq!(scale, 7);
    assert_eq!(line_height, 140);
}

#[test]
fn shrinking_the_constraint_never_increases_the_scale() {
    let mut last = u32::MAX;
    for len in (60..=120).rev() {
        let scale = match settle(1, len, false, 5, 8) {
            Ok((s, _)) => s,
            Err(_) => 0,
        };
        assert!(scale <= last);
        last = scale;
    }
}

#[test]
fn infeasible_constraints_are_an_explicit_error() {
    // Even scale 1 is too wide for a 4-dot label.
    assert!(matches!(settle(1, 4, false, 5, 8), Err(LayoutError::Infeasible)));
}

#[test]
fn an_extent_exactly_on_the_bound_fits() {
    // A line measuring exactly the length bound at scale 1 is accepted.
    let (scale, _) = settle(1, 5, false, 5, 8).unwrap();
    assert_eq!(scale, 1);
}

#[test]
fn pick_longest_takes_the_first_maximum() {
    assert_eq!(pick_longest(&vec![3, 7, 7, 2]), 1);
    assert_eq!(pick_longest(&vec![1]), 0);
    assert_eq!(pick_longest(&vec![0, 0]), 0);
    assert_eq!(pick_longest(&vec![-5, -1]), 0);
    assert_eq!(pick_longest(&vec![2, 9, 4]), 1);
}

#[test]
fn split_lines_matches_line_semantics() {
    let as_bytes = |v: Vec<&str>| -> Vec<Vec<u8>> { v.iter().map(|s| s.as_bytes().to_vec()).collect() };
    assert_eq!(split_lines(""), as_bytes(vec![]));
    assert_eq!(split_lines("x"), as_bytes(vec!["x"]));
    assert_eq!(split_lines("a\nbb\n"), as_bytes(vec!["a", "bb"]));
    assert_eq!(split_lines("a\r\nb"), as_bytes(vec!["a", "b"]));
    assert_eq!(split_lines("a\n\nb"), as_bytes(vec!["a", "", "b"]));
    assert_eq!(split_lines("abc\r"), as_bytes(vec!["abc\r"]));
    assert_eq!(split_lines("\n"), as_bytes(vec![""]));
}

#[test]
fn portrait_canvas_is_head_wide_and_stack_tall() {
    let c = text_canvas(2, 20, 999, true, false).unwrap();
    assert_eq!(c.width, PIN_COUNT);
    assert_eq!(c.height, 60);
    assert!(c.pixels.iter().all(|&p| p == 0xFF));
}

#[test]
fn landscape_canvas_is_length_wide_and_head_tall() {
    let c = text_canvas(3, 50, 480, false, true).unwrap();
    assert_eq!(c.width, 480);
    assert_eq!(c.height, PIN_COUNT);
    assert!(c.pixels.iter().all(|&p| p == 0x00));
}

#[test]
fn line_offsets_step_by_line_height_plus_spacing() {
    let v = line_offsets(3, 20).unwrap();
    assert_eq!(v, vec![0, 30, 60]);
    let v = line_offsets(1, 0).unwrap();
    assert_eq!(v, vec![0]);
}

#[test]
fn rotated_canvas_lands_on_the_pin_count() {
    // A portrait canvas rotated a quarter turn counter-clockwise ends up
    // exactly head-high, with the pixels permuted as specified.
    let mut c = text_canvas(1, 30, 999, true, false).unwrap();
    assert_eq!(c.width, PIN_COUNT);
    // Mark the top-left pixel.
    c.pixels[0] = 0x11;
    let r = labeld::canvas::rotate270(&c);
    assert_eq!(r.height, PIN_COUNT);
    assert_eq!(r.width, 40);
    // (0, 0) of the source shows up in the last row of the first column.
    assert_eq!(r.get_pixel(0, r.height - 1), 0x11);
}
