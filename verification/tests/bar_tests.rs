use sysdash::errors::DashboardError;
use sysdash::frac::Frac;
use sysdash::tools::{color_to_rgb8, process_str};

fn frac(num: u64, den: u64) -> Frac {
    Frac { num, den }
}

#[test]
fn bar_exact_text_half_full() {
    // width 10, fraction 1/2: interior 8, used 4, free 4, normal (green) color
    let s = process_str(10, frac(1, 2), "green", "red", frac(8, 10)).unwrap();
    let expected = format!("[{}===={}====]", "\u{1b}[38;2;0;128;0m", "\u{1b}[m");
    assert_eq!(s, expected);
}

#[test]
fn bar_visible_width_matches_request() {
    for width in [2usize, 3, 5, 10, 37] {
        for (num, den) in [(0u64, 1u64), (1, 3), (1, 2), (2, 3), (1, 1)] {
            let s = process_str(width, frac(num, den), "green", "red", frac(8, 10)).unwrap();
            let visible: usize = 2 + s.matches('=').count();
            assert_eq!(visible, width);
        }
    }
}

#[test]
fn bar_used_plus_free_fills_interior() {
    let s = process_str(12, frac(2, 3), "green", "red", frac(8, 10)).unwrap();
    // interior 10, used = floor(10 * 2/3) = 6, free = 4
    let expected = format!("[{}======{}====]", "\u{1b}[38;2;0;128;0m", "\u{1b}[m");
    assert_eq!(s, expected);
}

#[test]
fn threshold_equal_keeps_normal_color() {
    // fraction == threshold: strictly-greater rule keeps the normal color
    let s = process_str(10, frac(8, 10), "green", "red", frac(8, 10)).unwrap();
    assert!(s.contains("38;2;0;128;0"));
    assert!(!s.contains("38;2;255;0;0"));
}

#[test]
fn above_threshold_switches_to_warning_color() {
    let s = process_str(10, frac(9, 10), "green", "red", frac(8, 10)).unwrap();
    assert!(s.contains("38;2;255;0;0"));
    assert!(!s.contains("38;2;0;128;0"));
}

#[test]
fn equal_fractions_with_different_denominators_keep_normal() {
    // 4/5 equals the 8/10 threshold
    let s = process_str(10, frac(4, 5), "green", "red", frac(8, 10)).unwrap();
    assert!(s.contains("38;2;0;128;0"));
}

#[test]
fn narrow_bar_is_a_layout_error() {
    assert_eq!(
        process_str(1, frac(1, 2), "green", "red", frac(8, 10)),
        Err(DashboardError::Layout)
    );
    assert_eq!(
        process_str(0, frac(0, 1), "green", "red", frac(8, 10)),
        Err(DashboardError::Layout)
    );
}

#[test]
fn unresolvable_colors_are_color_errors() {
    assert_eq!(
        process_str(10, frac(1, 2), "notacolor", "red", frac(8, 10)),
        Err(DashboardError::ColorParse)
    );
    assert_eq!(
        process_str(10, frac(1, 2), "green", "alsobad", frac(8, 10)),
        Err(DashboardError::ColorParse)
    );
}

#[test]
fn color_resolver_handles_names_and_hex() {
    assert_eq!(color_to_rgb8("red"), Ok((255, 0, 0)));
    assert_eq!(color_to_rgb8("green"), Ok((0, 128, 0)));
    assert_eq!(color_to_rgb8("#0a0b0c"), Ok((10, 11, 12)));
    assert_eq!(color_to_rgb8("not-a-color"), Err(DashboardError::ColorParse));
    // same input, same output
    assert_eq!(color_to_rgb8("tomato"), color_to_rgb8("tomato"));
}
