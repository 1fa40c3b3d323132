use mac_privacy_dissector::error::DissectError;
use mac_privacy_dissector::tvb::{Span, TvbRange, TvbSource};

const DATA: [u8; 6] = [0x10, 0x20, 0x30, 0x40, 0x50, 0x60];

#[test]
fn ranges_nest() {
    let whole = TvbRange::new(TvbSource::Packet, &DATA);
    assert_eq!(whole.length(), 6);
    let inner = whole.range(1, 4).unwrap();
    assert_eq!(inner.bytes(), vec![0x20, 0x30, 0x40, 0x50]);
    let innermost = inner.range_from(3).unwrap();
    assert_eq!(innermost.bytes(), vec![0x50]);
    assert_eq!(
        innermost.span(),
        Span { source: TvbSource::Packet, offset: 4, length: 1 }
    );
    assert_eq!(innermost.octet(0), 0x50);
}

#[test]
fn a_range_at_the_end_is_empty() {
    let whole = TvbRange::new(TvbSource::Reassembled, &DATA);
    assert_eq!(whole.range(6, 0).unwrap().length(), 0);
    assert_eq!(whole.range_from(6).unwrap().length(), 0);
}

#[test]
fn a_range_cannot_leave_its_range() {
    let inner = TvbRange::new(TvbSource::Packet, &DATA).range(0, 2).unwrap();
    assert_eq!(
        inner.range(1, 2).err(),
        Some(DissectError::OutOfBounds { offset: 1, length: 2, available: 2 })
    );
    assert_eq!(
        inner.range_from(3).err(),
        Some(DissectError::OutOfBounds { offset: 3, length: 0, available: 2 })
    );
    assert_eq!(
        inner.range(usize::MAX, usize::MAX).err(),
        Some(DissectError::OutOfBounds {
            offset: usize::MAX,
            length: usize::MAX,
            available: 2
        })
    );
}

#[test]
fn numbers_are_big_endian() {
    let whole = TvbRange::new(TvbSource::Packet, &DATA);
    assert_eq!(whole.uint8(), Ok(0x10));
    assert_eq!(whole.uint16(), Ok(0x1020));
    assert_eq!(whole.uint24(), Ok(0x102030));
    let two = whole.range(0, 2).unwrap();
    assert_eq!(
        two.uint24(),
        Err(DissectError::OutOfBounds { offset: 0, length: 3, available: 2 })
    );
    let none = whole.range(0, 0).unwrap();
    assert_eq!(
        none.uint8(),
        Err(DissectError::OutOfBounds { offset: 0, length: 1, available: 0 })
    );
    assert_eq!(
        none.uint16(),
        Err(DissectError::OutOfBounds { offset: 0, length: 2, available: 0 })
    );
}
