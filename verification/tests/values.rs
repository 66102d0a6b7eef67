use get_random_const::{render_array, render_scalar, synthesize, RandomValue, TypeName};

fn value(negative: bool, magnitude: u128) -> RandomValue {
    RandomValue { negative, magnitude }
}

#[test]
fn synthesize_unsigned_bytes() {
    assert_eq!(synthesize(TypeName::U8.describe(), &[200]), value(false, 200));
    assert_eq!(synthesize(TypeName::U8.describe(), &[255]), value(false, 255));
    assert_eq!(synthesize(TypeName::U16.describe(), &[0x34, 0x12]), value(false, 0x1234));
    assert_eq!(synthesize(TypeName::U32.describe(), &[1, 2, 3, 4]), value(false, 0x0403_0201));
    assert_eq!(
        synthesize(TypeName::U64.describe(), &[0xff; 8]),
        value(false, u64::MAX as u128)
    );
    assert_eq!(synthesize(TypeName::U128.describe(), &[0xff; 16]), value(false, u128::MAX));
}

#[test]
fn synthesize_signed_bytes() {
    assert_eq!(synthesize(TypeName::I8.describe(), &[0x7f]), value(false, 127));
    assert_eq!(synthesize(TypeName::I8.describe(), &[0x80]), value(true, 128));
    assert_eq!(synthesize(TypeName::I8.describe(), &[0xff]), value(true, 1));
    assert_eq!(synthesize(TypeName::I16.describe(), &[0xff, 0xff]), value(true, 1));
    assert_eq!(synthesize(TypeName::I16.describe(), &[0x00, 0x80]), value(true, 32768));
    assert_eq!(synthesize(TypeName::I32.describe(), &[0xfe, 0xff, 0xff, 0xff]), value(true, 2));
    assert_eq!(
        synthesize(TypeName::I64.describe(), &[0, 0, 0, 0, 0, 0, 0, 0x80]),
        value(true, 1u128 << 63)
    );
    let mut least = [0u8; 16];
    least[15] = 0x80;
    assert_eq!(synthesize(TypeName::I128.describe(), &least), value(true, 1u128 << 127));
    assert_eq!(synthesize(TypeName::I128.describe(), &[0xff; 16]), value(true, 1));
    let mut greatest = [0xffu8; 16];
    greatest[15] = 0x7f;
    assert_eq!(
        synthesize(TypeName::I128.describe(), &greatest),
        value(false, i128::MAX as u128)
    );
}

#[test]
fn synthesize_agrees_with_little_endian_decoding() {
    let bytes = [0x10u8, 0x32, 0x54, 0x76, 0x98, 0xba, 0xdc, 0xfe];
    let unsigned = u64::from_le_bytes(bytes);
    let signed = i64::from_le_bytes(bytes);
    assert_eq!(synthesize(TypeName::U64.describe(), &bytes), value(false, unsigned as u128));
    assert_eq!(
        synthesize(TypeName::I64.describe(), &bytes),
        value(true, signed.unsigned_abs() as u128)
    );
}

#[test]
fn synthesize_keeps_zero() {
    assert_eq!(synthesize(TypeName::U8.describe(), &[0]), value(false, 0));
    assert_eq!(synthesize(TypeName::I32.describe(), &[0; 4]), value(false, 0));
    assert_eq!(synthesize(TypeName::I128.describe(), &[0; 16]), value(false, 0));
}

#[test]
fn synthesize_pointer_sized() {
    let width = std::mem::size_of::<usize>();
    let bytes = vec![0xffu8; width];
    assert_eq!(
        synthesize(TypeName::Usize.describe(), &bytes),
        value(false, usize::MAX as u128)
    );
    assert_eq!(synthesize(TypeName::Isize.describe(), &bytes), value(true, 1));
}

#[test]
fn render_scalar_literals() {
    assert_eq!(render_scalar(TypeName::U8.describe(), &value(false, 200)), "200u8");
    assert_eq!(render_scalar(TypeName::U8.describe(), &value(false, 0)), "0u8");
    assert_eq!(render_scalar(TypeName::I8.describe(), &value(true, 128)), "-128i8");
    assert_eq!(render_scalar(TypeName::I16.describe(), &value(true, 7)), "-7i16");
    assert_eq!(render_scalar(TypeName::U32.describe(), &value(false, 10)), "10u32");
    assert_eq!(
        render_scalar(TypeName::U64.describe(), &value(false, 9_007_199_254_740_993)),
        "9007199254740993u64"
    );
    assert_eq!(
        render_scalar(TypeName::U128.describe(), &value(false, u128::MAX)),
        "340282366920938463463374607431768211455u128"
    );
    assert_eq!(
        render_scalar(TypeName::I128.describe(), &value(true, 1u128 << 127)),
        "-170141183460469231731687303715884105728i128"
    );
}

#[test]
fn render_scalar_has_no_negative_zero() {
    assert_eq!(render_scalar(TypeName::I8.describe(), &value(true, 0)), "0i8");
}

#[test]
fn render_pointer_sized_as_cast() {
    let (unsigned, signed) = if std::mem::size_of::<usize>() == 4 {
        ("5u32 as usize", "-5i32 as isize")
    } else {
        ("5u64 as usize", "-5i64 as isize")
    };
    assert_eq!(render_scalar(TypeName::Usize.describe(), &value(false, 5)), unsigned);
    assert_eq!(render_scalar(TypeName::Isize.describe(), &value(true, 5)), signed);
}

#[test]
fn render_array_literals() {
    let spec = TypeName::I16.describe();
    assert_eq!(render_array(spec, &vec![]), "[]");
    assert_eq!(render_array(spec, &vec![value(true, 3)]), "[-3i16]");
    assert_eq!(
        render_array(spec, &vec![value(false, 1), value(true, 2), value(false, 3)]),
        "[1i16,-2i16,3i16]"
    );
    assert_eq!(
        render_array(TypeName::U8.describe(), &vec![value(false, 7), value(false, 7)]),
        "[7u8,7u8]"
    );
}

#[test]
fn rendered_digits_read_back() {
    let spec = TypeName::U64.describe();
    for n in [0u64, 9, 10, 99, 100, 12345, u64::MAX] {
        let text = render_scalar(spec, &value(false, n as u128));
        let digits = text.strip_suffix("u64").unwrap();
        assert_eq!(digits.parse::<u64>().unwrap(), n);
    }
}
