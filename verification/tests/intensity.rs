use nifti2png::intensity::{min_max, rescale, window_in_units};
use nifti2png::ErrorTy;

#[test]
fn samples_are_measured_from_the_lower_end_of_the_window() {
    let buffer: Vec<i64> = vec![-5, 0, 3, 10, 250, 1000, 1001, i64::MAX, i64::MIN];
    let (levels, span) = rescale(&buffer, Some((0, 1000)));
    assert_eq!(span, 1000);
    assert_eq!(levels, vec![0, 0, 3, 10, 250, 1000, 1000, 1000, 0]);
}

#[test]
fn every_level_lies_between_zero_and_the_span() {
    let buffer: Vec<i64> = (-300..300).map(|v| v * 7).collect();
    for window in [(0u64, 1u64), (3, 900), (10, 11), (0, u64::MAX), (1500, 1600)] {
        let (levels, span) = rescale(&buffer, Some(window));
        assert_eq!(span, window.1 - window.0);
        assert_eq!(levels.len(), buffer.len());
        for (sample, level) in buffer.iter().zip(levels.iter()) {
            assert!(*level <= span);
            if (*sample as i128) <= window.0 as i128 {
                assert_eq!(*level, 0);
            }
            if (*sample as i128) >= window.1 as i128 {
                assert_eq!(*level, span);
            }
        }
    }
}

#[test]
fn without_a_window_the_range_of_the_samples_is_taken() {
    let buffer: Vec<i64> = vec![40, -10, 15, 90, -10, 90];
    assert_eq!(min_max(&buffer), Some((-10, 90)));
    let (levels, span) = rescale(&buffer, None);
    assert_eq!(span, 100);
    assert_eq!(levels, vec![50, 0, 25, 100, 0, 100]);
}

#[test]
fn the_widest_range_fits() {
    let buffer: Vec<i64> = vec![i64::MIN, 0, i64::MAX];
    let (levels, span) = rescale(&buffer, None);
    assert_eq!(span, u64::MAX);
    assert_eq!(levels, vec![0, 1u64 << 63, u64::MAX]);
}

#[test]
fn min_max_of_nothing_is_nothing() {
    assert_eq!(min_max(&Vec::new()), None);
    assert_eq!(min_max(&vec![7]), Some((7, 7)));
}

#[test]
fn a_window_of_one_point_sends_everything_to_zero() {
    let buffer: Vec<i64> = vec![1, 5, 9];
    assert_eq!(rescale(&buffer, Some((5, 5))), (vec![0, 0, 0], 1));
    assert_eq!(rescale(&vec![4, 4, 4, 4], None), (vec![0, 0, 0, 0], 1));
    assert_eq!(rescale(&Vec::new(), None), (Vec::new(), 1));
}

#[test]
fn an_empty_window_sends_everything_to_zero() {
    let buffer: Vec<i64> = vec![1, 5, 9];
    assert_eq!(rescale(&buffer, Some((9, 2))), (vec![0, 0, 0], 1));
}

#[test]
fn rescaling_what_is_rescaled_changes_nothing() {
    let buffer: Vec<i64> = vec![12, -7, 300, 44, 45, 0];
    let (levels, span) = rescale(&buffer, Some((0, 100)));
    let again: Vec<i64> = levels.iter().map(|l| *l as i64).collect();
    assert_eq!(rescale(&again, Some((0, span))), (levels.clone(), span));
    let (auto, auto_span) = rescale(&buffer, None);
    let auto_again: Vec<i64> = auto.iter().map(|l| *l as i64).collect();
    assert_eq!(rescale(&auto_again, Some((0, auto_span))), (auto.clone(), auto_span));
    assert_eq!(rescale(&auto_again, None), (auto, auto_span));
}

#[test]
fn the_buffer_is_left_as_it_is() {
    let buffer: Vec<i64> = vec![3, 1, 2];
    let before = buffer.clone();
    let _ = rescale(&buffer, None);
    assert_eq!(buffer, before);
}

#[test]
fn a_window_is_brought_to_the_units_of_the_samples() {
    assert_eq!(window_in_units(None, 65536), Ok(None));
    assert_eq!(window_in_units(Some((0, 1)), 65536), Ok(Some((0, 65536))));
    assert_eq!(window_in_units(Some((3, 1000)), 10), Ok(Some((30, 10000))));
    assert_eq!(window_in_units(Some((7, 2)), 1), Ok(Some((7, 2))));
    assert_eq!(window_in_units(Some((5, 9)), 0), Ok(Some((0, 0))));
    assert_eq!(window_in_units(Some((0, u64::MAX)), 1), Ok(Some((0, u64::MAX))));
}

#[test]
fn a_window_that_does_not_fit_the_units_is_rejected() {
    assert_eq!(
        window_in_units(Some((0, u64::MAX)), 2),
        Err(ErrorTy::WindowTooWide(0, u64::MAX))
    );
    assert_eq!(
        window_in_units(Some((1 << 48, 5)), 65536),
        Err(ErrorTy::WindowTooWide(1 << 48, 5))
    );
}
