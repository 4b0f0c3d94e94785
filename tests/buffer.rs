use imf::Buffer;

#[test]
fn read_moves_forward() {
    let mut b = Buffer::new(b"ab");
    assert_eq!(b.read().unwrap(), b'a');
    assert_eq!(b.position(), 1);
    assert_eq!(b.remaining(), b"b");
    assert_eq!(b.read().unwrap(), b'b');
    assert!(b.read().unwrap_err().is_eof());
    assert_eq!(b.position(), 2);
}

#[test]
fn read_until_leaves_the_byte() {
    let mut b = Buffer::new(b"local@domain");
    assert_eq!(b.read_until(b'@').unwrap(), b"local");
    assert_eq!(b.position(), 5);
    assert_eq!(b.remaining(), b"@domain");
    assert!(b.read_until(b'#').unwrap_err().is_eof());
    assert_eq!(b.position(), 5);
}

#[test]
fn read_while_stops_at_first_mismatch() {
    let mut b = Buffer::new(b"123abc");
    assert_eq!(b.read_while(|c| c.is_ascii_digit()).unwrap(), b"123");
    assert_eq!(b.position(), 3);
    assert!(b.read_while(|c| c.is_ascii_alphabetic()).unwrap_err().is_eof());
    assert_eq!(b.position(), 3);
}

#[test]
fn read_n_takes_exactly_what_is_left() {
    let mut b = Buffer::with_offset(b"abcd", 1);
    assert_eq!(b.read_n(3).unwrap(), b"bcd");
    assert_eq!(b.position(), 4);
    let mut b = Buffer::new(b"abcd");
    assert!(b.read_n(5).unwrap_err().is_eof());
    assert_eq!(b.position(), 0);
}

#[test]
fn positions_and_copies() {
    let mut b = Buffer::new(b"abcdef");
    b.set_position(2);
    let saved = b.clone();
    b.incr_position(3);
    assert_eq!(b.position(), 5);
    assert_eq!(saved.position(), 2);
    assert_eq!(saved.remaining(), b"cdef");
    assert_eq!(b.into_inner(), b"abcdef");
}
