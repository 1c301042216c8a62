use spectro::ring::{RingDisplayBuffer, RingError};

fn row(width: usize, fill: u8) -> Vec<u8> {
    vec![fill; width]
}

#[test]
fn fresh_buffer_carries_the_stripe_filler() {
    let r = RingDisplayBuffer::new(16, 2);
    // Stripe length 16 / 8 = 2: one on, one off, repeated.
    let expected: Vec<u8> = (0..16).map(|i| if i % 2 == 0 { 255 } else { 0 }).collect();
    assert_eq!(r.row(0), &expected);
    assert_eq!(r.row(1), &expected);
    assert_eq!(r.offset(), 0);
}

#[test]
fn writes_advance_and_wrap_the_offset() {
    let mut r = RingDisplayBuffer::new(3, 4);
    for i in 0..4u8 {
        assert_eq!(r.write_row(row(3, i)), Ok(()));
        assert_eq!(r.offset(), (i as usize + 1) % 4);
    }
    assert_eq!(r.offset(), 0);
}

#[test]
fn wraparound_keeps_the_most_recent_rows_oldest_at_offset() {
    // Write height + k rows with k = 2 < height = 4.
    let mut r = RingDisplayBuffer::new(3, 4);
    for i in 0..6u8 {
        r.write_row(row(3, i)).unwrap();
    }
    assert_eq!(r.offset(), 2);
    // The buffer holds rows 2..=5; the oldest (2) sits at the offset.
    for i in 0..4usize {
        assert_eq!(r.row((2 + i) % 4), &row(3, (2 + i) as u8));
    }
}

#[test]
fn wrong_width_is_rejected_and_changes_nothing() {
    let mut r = RingDisplayBuffer::new(3, 2);
    r.write_row(row(3, 9)).unwrap();
    let before_offset = r.offset();
    assert_eq!(r.write_row(row(2, 1)), Err(RingError::WidthMismatch));
    assert_eq!(r.write_row(row(4, 1)), Err(RingError::WidthMismatch));
    assert_eq!(r.offset(), before_offset);
    assert_eq!(r.row(0), &row(3, 9));
}

#[test]
fn scroll_position_is_offset_over_height() {
    let mut r = RingDisplayBuffer::new(5, 8);
    for i in 0..3u8 {
        r.write_row(row(5, i)).unwrap();
    }
    assert_eq!(r.scroll_parts(), (3, 8));
    let (num, den) = r.scroll_parts();
    let fraction = num as f32 / den as f32;
    assert!((fraction - 0.375).abs() < 1.0e-6);
}

#[test]
fn narrow_buffer_filler_is_all_dark() {
    // Width below 8 gives a stripe length of 1, whose on-half is empty.
    let r = RingDisplayBuffer::new(5, 1);
    assert_eq!(r.row(0), &vec![0u8; 5]);
}
