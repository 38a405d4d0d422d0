use accessor::{AccessError, Accessor, Encode, Field, Getter, Setter};
use accessor::{U16Field, U32Field, U64Field, U8Field, U8ReadOnlyField};

fn sample_buffer() -> Vec<u8> {
    vec![0x12, 0x34, 0x56, 0x78, 0x9a, 0xbc, 0xde, 0xf0]
}

#[test]
fn it_works() {
    assert_eq!(2 + 2, 4);
}

#[test]
fn big_endian_reads_of_sample_buffer() {
    let buf = sample_buffer();
    let getter = Accessor::new(Encode::Le).getter(Encode::Be);
    assert_eq!(getter.get::<U8Field<0>>(&buf), 0x12);
    assert_eq!(getter.get::<U32Field<1>>(&buf), 0x3456789a);
}

#[test]
fn write_little_endian_then_reread_big_endian() {
    let mut buf = sample_buffer();
    let getter = Accessor::new(Encode::Be);
    let setter = Accessor::new(Encode::Le);
    assert_eq!(getter.get::<U8Field<0>>(&buf), 0x12);
    setter.with(&mut buf, U8Field::<0>(0x23));
    // the one-byte field now reads back as written, through the original
    // big-endian getter, and the neighbouring field is untouched
    assert_eq!(getter.get::<U8Field<0>>(&buf), 0x23);
    assert_eq!(getter.get::<U32Field<1>>(&buf), 0x3456789a);
}

#[test]
fn order_switch_does_not_touch_original_view_or_buffer() {
    let buf = sample_buffer();
    let le_view = Accessor::new(Encode::Le);
    let be_view = le_view.getter(Encode::Be);
    // the derived view reads big-endian, the original still little-endian
    assert_eq!(be_view.get::<U16Field<0>>(&buf), 0x1234);
    assert_eq!(le_view.get::<U16Field<0>>(&buf), 0x3412);
    assert_eq!(buf, sample_buffer());
    // setter-derived views behave the same way
    let be_setter = le_view.setter(Encode::Be);
    assert_eq!(be_setter.get::<U16Field<0>>(&buf), 0x1234);
}

#[test]
fn range_is_order_independent() {
    // range() takes no byte order at all: both views see one range
    assert_eq!(U32Field::<1>::range(), (1, 5));
    assert_eq!(U8Field::<0>::range(), (0, 1));
    assert_eq!(U16Field::<3>::range(), (3, 5));
    assert_eq!(U64Field::<0>::range(), (0, 8));
    assert_eq!(U8ReadOnlyField::<7>::range(), (7, 8));
}

#[test]
fn reads_never_change_the_buffer() {
    let buf = sample_buffer();
    let before = buf.clone();
    let getter = Accessor::new(Encode::Be);
    let mut f1: u8 = 0;
    let mut f2: u32 = 0;
    for _ in 0..4 {
        getter.get::<U8Field<0>>(&buf);
        getter.get::<U32Field<1>>(&buf);
        getter.out::<U8Field<0>>(&buf, &mut f1).out::<U32Field<1>>(&buf, &mut f2);
    }
    assert_eq!(buf, before);
    assert_eq!(f1, 0x12);
    assert_eq!(f2, 0x3456789a);
}

#[test]
fn chained_writes_equal_sequential_writes() {
    let setter = Accessor::new(Encode::Le);

    let mut chained = sample_buffer();
    setter
        .with(&mut chained, U8Field::<0>(0x23))
        .with(&mut chained, U32Field::<1>(0x12345678))
        .with(&mut chained, U16Field::<5>(0xbeef));

    let mut sequential = sample_buffer();
    setter.with(&mut sequential, U8Field::<0>(0x23));
    setter.with(&mut sequential, U32Field::<1>(0x12345678));
    setter.with(&mut sequential, U16Field::<5>(0xbeef));

    assert_eq!(chained, sequential);

    // the handle a chain returns still drives the same buffer
    let handle = *setter.with(&mut chained, U8Field::<0>(0x42));
    handle.with(&mut chained, U8Field::<7>(0x24));
    assert_eq!(chained[0], 0x42);
    assert_eq!(chained[7], 0x24);
}

#[test]
fn write_respects_byte_order() {
    let setter = Accessor::new(Encode::Le);
    let mut buf = vec![0u8; 8];
    setter.with(&mut buf, U32Field::<0>(0x0a0b0c0d));
    assert_eq!(&buf[0..4], &[0x0d, 0x0c, 0x0b, 0x0a]);

    let setter = setter.setter(Encode::Be);
    setter.with(&mut buf, U32Field::<4>(0x0a0b0c0d));
    assert_eq!(&buf[4..8], &[0x0a, 0x0b, 0x0c, 0x0d]);
}

#[test]
fn round_trip_all_widths_both_orders() {
    let u8s: [u8; 3] = [0, 0x7f, 0xff];
    let u16s: [u16; 3] = [0, 0x1234, 0xffff];
    let u32s: [u32; 3] = [0, 0x12345678, 0xffff_ffff];
    let u64s: [u64; 3] = [0, 0x0123_4567_89ab_cdef, u64::MAX];
    for order in [Encode::Le, Encode::Be] {
        let view = Accessor::new(order);
        let mut buf = vec![0u8; 8];
        for v in u8s {
            view.with(&mut buf, U8Field::<3>(v));
            assert_eq!(view.get::<U8Field<3>>(&buf), v);
        }
        for v in u16s {
            view.with(&mut buf, U16Field::<2>(v));
            assert_eq!(view.get::<U16Field<2>>(&buf), v);
        }
        for v in u32s {
            view.with(&mut buf, U32Field::<2>(v));
            assert_eq!(view.get::<U32Field<2>>(&buf), v);
        }
        for v in u64s {
            view.with(&mut buf, U64Field::<0>(v));
            assert_eq!(view.get::<U64Field<0>>(&buf), v);
        }
    }
}

#[test]
fn descriptor_codecs_round_trip() {
    assert_eq!(U16Field::<0>::from_le_bytes(&U16Field::<0>(0xabcd).to_le_bytes()), 0xabcd);
    assert_eq!(U16Field::<0>::from_be_bytes(&U16Field::<0>(0xabcd).to_be_bytes()), 0xabcd);
    assert_eq!(
        U32Field::<0>::from_le_bytes(&U32Field::<0>(0x00ff_00ff).to_le_bytes()),
        0x00ff_00ff
    );
    assert_eq!(
        U32Field::<0>::from_be_bytes(&U32Field::<0>(0x00ff_00ff).to_be_bytes()),
        0x00ff_00ff
    );
    assert_eq!(U64Field::<0>::from_le_bytes(&U64Field::<0>(u64::MAX).to_le_bytes()), u64::MAX);
    assert_eq!(U64Field::<0>::from_be_bytes(&U64Field::<0>(u64::MAX).to_be_bytes()), u64::MAX);
    // exact expected byte strings, not only the round trip
    assert_eq!(U32Field::<0>(0x0a0b0c0d).to_le_bytes(), vec![0x0d, 0x0c, 0x0b, 0x0a]);
    assert_eq!(U32Field::<0>(0x0a0b0c0d).to_be_bytes(), vec![0x0a, 0x0b, 0x0c, 0x0d]);
    assert_eq!(U8Field::<0>(0x5a).to_le_bytes(), vec![0x5a]);
    assert_eq!(U8Field::<0>(0x5a).to_be_bytes(), vec![0x5a]);
}

#[test]
fn read_only_fields_can_be_read() {
    let buf = sample_buffer();
    let getter = Accessor::new(Encode::Be);
    // U8ReadOnlyField implements Field but not Mutable: a write such as
    // `setter.with(&mut buf, U8ReadOnlyField::<7>(0))` is rejected by the
    // compiler, before any byte could change
    assert_eq!(getter.get::<U8ReadOnlyField<7>>(&buf), 0xf0);
}

#[test]
fn out_of_range_read_is_reported() {
    let buf = sample_buffer();
    let view = Accessor::new(Encode::Le);
    // [6, 10) ends past the 8-byte buffer
    assert_eq!(view.try_get::<U32Field<6>>(&buf), Err(AccessError::OutOfRange));
    assert_eq!(view.try_get::<U32Field<4>>(&buf), Ok(0xf0debc9a));
}

#[test]
fn out_of_range_write_leaves_buffer_unmodified() {
    let mut buf = sample_buffer();
    let before = buf.clone();
    let view = Accessor::new(Encode::Be);
    assert_eq!(
        view.try_with(&mut buf, U64Field::<1>(0xdead_beef_dead_beef)),
        Err(AccessError::OutOfRange)
    );
    assert_eq!(buf, before);
    assert_eq!(view.try_with(&mut buf, U16Field::<6>(0xbeef)), Ok(()));
    assert_eq!(&buf[6..8], &[0xbe, 0xef]);
}

#[test]
fn overlapping_ranges_are_permitted() {
    let mut buf = vec![0u8; 4];
    let view = Accessor::new(Encode::Be);
    view.with(&mut buf, U16Field::<0>(0x1234));
    // a one-byte field inside the two-byte field's range sees its bytes
    assert_eq!(view.get::<U8Field<0>>(&buf), 0x12);
    assert_eq!(view.get::<U8Field<1>>(&buf), 0x34);
}

#[test]
fn codec_primitives_exact_values() {
    assert_eq!(accessor::codec::le_decode(&[0x01, 0x02]), 0x0201);
    assert_eq!(accessor::codec::be_decode(&[0x01, 0x02]), 0x0102);
    assert_eq!(accessor::codec::le_decode(&[]), 0);
    assert_eq!(accessor::codec::be_decode(&[]), 0);
    assert_eq!(accessor::codec::le_encode(0x0201, 2), vec![0x01, 0x02]);
    assert_eq!(accessor::codec::be_encode(0x0102, 2), vec![0x01, 0x02]);
    assert_eq!(accessor::codec::le_encode(0, 0), Vec::<u8>::new());
    assert_eq!(accessor::codec::be_encode(u64::MAX, 8), vec![0xff; 8]);
}
