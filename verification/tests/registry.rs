use get_random_const::{resolve, TypeName};

fn expect_entry(name: &str, expected: TypeName, width: usize, signed: bool) {
    let spec = resolve(name).unwrap();
    assert_eq!(spec.name, expected);
    assert_eq!(spec.width_bytes, width);
    assert_eq!(spec.signed, signed);
}

#[test]
fn resolve_fixed_width_names() {
    expect_entry("u8", TypeName::U8, 1, false);
    expect_entry("i8", TypeName::I8, 1, true);
    expect_entry("u16", TypeName::U16, 2, false);
    expect_entry("i16", TypeName::I16, 2, true);
    expect_entry("u32", TypeName::U32, 4, false);
    expect_entry("i32", TypeName::I32, 4, true);
    expect_entry("u64", TypeName::U64, 8, false);
    expect_entry("i64", TypeName::I64, 8, true);
    expect_entry("u128", TypeName::U128, 16, false);
    expect_entry("i128", TypeName::I128, 16, true);
}

#[test]
fn resolve_pointer_sized_names() {
    let pointer = std::mem::size_of::<usize>();
    expect_entry("usize", TypeName::Usize, pointer, false);
    expect_entry("isize", TypeName::Isize, pointer, true);
}

#[test]
fn resolve_ignores_ascii_case() {
    expect_entry("U8", TypeName::U8, 1, false);
    expect_entry("I128", TypeName::I128, 16, true);
    expect_entry("USize", TypeName::Usize, std::mem::size_of::<usize>(), false);
    expect_entry("iSIZE", TypeName::Isize, std::mem::size_of::<isize>(), true);
}

#[test]
fn resolve_refuses_other_names() {
    assert_eq!(resolve("notatype"), None);
    assert_eq!(resolve(""), None);
    assert_eq!(resolve("u7"), None);
    assert_eq!(resolve("u256"), None);
    assert_eq!(resolve("f32"), None);
    assert_eq!(resolve("u8 "), None);
    assert_eq!(resolve(" u8"), None);
    assert_eq!(resolve("u"), None);
    assert_eq!(resolve("size"), None);
    assert_eq!(resolve("[u8;2]"), None);
    assert_eq!(resolve("\u{212a}8"), None);
}

#[test]
fn describe_agrees_with_resolve() {
    let names = [
        TypeName::U8,
        TypeName::I8,
        TypeName::U16,
        TypeName::I16,
        TypeName::U32,
        TypeName::I32,
        TypeName::U64,
        TypeName::I64,
        TypeName::U128,
        TypeName::I128,
        TypeName::Usize,
        TypeName::Isize,
    ];
    for name in names {
        let text: String = name.chars().into_iter().collect();
        assert_eq!(resolve(&text), Some(name.describe()));
    }
}
