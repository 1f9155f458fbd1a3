use input_buffer::{Cursor, InsufficientData};

fn sample() -> Cursor {
    Cursor::new(vec![10, 11, 12, 13, 14, 15, 16, 17])
}

#[test]
fn new_cursor_starts_at_the_front() {
    let c = sample();
    assert_eq!(c.position(), 0);
    assert_eq!(c.remaining(), 8);
    assert_eq!(c.get_ref(), &vec![10, 11, 12, 13, 14, 15, 16, 17]);
    assert_eq!(c.remaining_slice(), &[10u8, 11, 12, 13, 14, 15, 16, 17][..]);
}

#[test]
fn empty_cursor() {
    let mut c = Cursor::new(Vec::new());
    assert_eq!(c.position(), 0);
    assert_eq!(c.remaining(), 0);
    assert_eq!(c.remaining_slice(), &[0u8; 0][..]);
    assert_eq!(c.read_exact(0).map(|b| b.to_vec()), Ok(Vec::new()));
    assert_eq!(c.read_exact(1).map(|b| b.to_vec()), Err(InsufficientData { missing: 1 }));
    assert_eq!(c.advance(0), Ok(()));
    assert_eq!(c.advance(1), Err(InsufficientData { missing: 1 }));
    assert_eq!(c.set_position(0), Ok(()));
    assert_eq!(c.into_inner(), Vec::<u8>::new());
}

#[test]
fn read_exact_hands_out_bytes_and_advances() {
    let mut c = sample();
    assert_eq!(c.read_exact(3).map(|b| b.to_vec()), Ok(vec![10, 11, 12]));
    assert_eq!(c.position(), 3);
    assert_eq!(c.read_exact(0).map(|b| b.to_vec()), Ok(vec![]));
    assert_eq!(c.position(), 3);
    assert_eq!(c.read_exact(5).map(|b| b.to_vec()), Ok(vec![13, 14, 15, 16, 17]));
    assert_eq!(c.position(), 8);
    assert_eq!(c.remaining(), 0);
}

#[test]
fn read_exact_of_all_that_remains() {
    let mut c = sample();
    assert_eq!(c.read_exact(8).map(|b| b.len()), Ok(8));
    assert_eq!(c.position(), 8);
}

#[test]
fn read_exact_past_the_end_changes_nothing() {
    let mut c = sample();
    assert_eq!(c.advance(6), Ok(()));
    assert_eq!(c.read_exact(3).map(|b| b.to_vec()), Err(InsufficientData { missing: 1 }));
    assert_eq!(c.position(), 6);
    assert_eq!(c.remaining(), 2);
    assert_eq!(
        c.read_exact(usize::MAX).map(|b| b.to_vec()),
        Err(InsufficientData { missing: usize::MAX - 2 })
    );
    assert_eq!(c.position(), 6);
    assert_eq!(c.read_exact(2).map(|b| b.to_vec()), Ok(vec![16, 17]));
    assert_eq!(c.get_ref(), &vec![10, 11, 12, 13, 14, 15, 16, 17]);
}

#[test]
fn advance_consumes_without_reading() {
    let mut c = sample();
    assert_eq!(c.advance(2), Ok(()));
    assert_eq!(c.position(), 2);
    assert_eq!(c.remaining(), 6);
    assert_eq!(c.remaining_slice(), &[12u8, 13, 14, 15, 16, 17][..]);
    assert_eq!(c.advance(6), Ok(()));
    assert_eq!(c.position(), 8);
    assert_eq!(c.remaining_slice(), &[0u8; 0][..]);
}

#[test]
fn advance_past_the_end_changes_nothing() {
    let mut c = sample();
    assert_eq!(c.advance(5), Ok(()));
    assert_eq!(c.advance(4), Err(InsufficientData { missing: 1 }));
    assert_eq!(c.position(), 5);
    assert_eq!(c.advance(100), Err(InsufficientData { missing: 97 }));
    assert_eq!(c.position(), 5);
    assert_eq!(c.advance(3), Ok(()));
    assert_eq!(c.position(), 8);
}

#[test]
fn set_position_moves_both_ways() {
    let mut c = sample();
    assert_eq!(c.set_position(8), Ok(()));
    assert_eq!(c.position(), 8);
    assert_eq!(c.remaining(), 0);
    assert_eq!(c.set_position(2), Ok(()));
    assert_eq!(c.position(), 2);
    assert_eq!(c.read_exact(2).map(|b| b.to_vec()), Ok(vec![12, 13]));
    assert_eq!(c.set_position(0), Ok(()));
    assert_eq!(c.remaining(), 8);
}

#[test]
fn set_position_past_the_end_changes_nothing() {
    let mut c = sample();
    assert_eq!(c.advance(3), Ok(()));
    assert_eq!(c.set_position(9), Err(InsufficientData { missing: 1 }));
    assert_eq!(c.position(), 3);
    assert_eq!(c.set_position(usize::MAX), Err(InsufficientData { missing: usize::MAX - 8 }));
    assert_eq!(c.position(), 3);
}

#[test]
fn into_inner_returns_every_byte() {
    let mut c = sample();
    assert_eq!(c.advance(4), Ok(()));
    assert_eq!(c.into_inner(), vec![10, 11, 12, 13, 14, 15, 16, 17]);
}
