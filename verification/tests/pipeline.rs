use get_random_const::{
    draw, generate, generate_for_declaration, randomize_type, DeclarationKind, GenerateError,
    ParseError,
};

#[test]
fn draw_gives_the_bytes_asked_for() {
    assert_eq!(draw(0).unwrap().len(), 0);
    assert_eq!(draw(1).unwrap().len(), 1);
    assert_eq!(draw(16).unwrap().len(), 16);
    assert_eq!(draw(1000).unwrap().len(), 1000);
}

#[test]
fn draw_overwrites_the_buffer() {
    let bytes = draw(64).unwrap();
    assert!(bytes.iter().any(|b| *b != 0));
}

#[test]
fn draw_twice_differs() {
    assert_ne!(draw(32).unwrap(), draw(32).unwrap());
}

#[test]
fn randomize_type_u8_is_in_range() {
    let text = randomize_type("u8").unwrap();
    let digits = text.strip_suffix("u8").unwrap();
    let n: u32 = digits.parse().unwrap();
    assert!(n <= 255);
}

#[test]
fn randomize_type_every_name() {
    for name in ["u8", "i8", "u16", "i16", "u32", "i32", "u64", "i64", "u128", "i128"] {
        let text = randomize_type(name).unwrap();
        let digits = text.strip_suffix(name).unwrap();
        assert!(digits.parse::<i128>().is_ok() || digits.parse::<u128>().is_ok());
    }
    assert!(randomize_type("usize").unwrap().ends_with(" as usize"));
    assert!(randomize_type("isize").unwrap().ends_with(" as isize"));
    assert!(randomize_type("I64").unwrap().ends_with("i64"));
}

#[test]
fn randomize_type_refuses_other_text() {
    let refused = Err(GenerateError::Request(ParseError::UnsupportedType));
    assert_eq!(randomize_type("notatype"), refused);
    assert_eq!(randomize_type(""), refused);
    assert_eq!(randomize_type(" u8"), refused);
    assert_eq!(randomize_type("[u8;2]"), refused);
}

#[test]
fn generate_scalar_u8_reads_back_in_range() {
    for _ in 0..200 {
        let text = generate("u8").unwrap();
        let digits = text.strip_suffix("u8").unwrap();
        let n: i64 = digits.parse().unwrap();
        assert!((0..=255).contains(&n));
    }
}

#[test]
fn generate_array_of_three_i16() {
    for _ in 0..200 {
        let text = generate("[i16;3]").unwrap();
        let inner = text.strip_prefix('[').unwrap().strip_suffix(']').unwrap();
        let items: Vec<&str> = inner.split(',').collect();
        assert_eq!(items.len(), 3);
        for item in items {
            let n: i64 = item.strip_suffix("i16").unwrap().parse().unwrap();
            assert!((-32768..=32767).contains(&n));
        }
    }
}

#[test]
fn generate_array_lengths() {
    for n in [1usize, 2, 5, 17, 100] {
        let text = generate(&format!("[u32;{}]", n)).unwrap();
        let inner = text.strip_prefix('[').unwrap().strip_suffix(']').unwrap();
        assert_eq!(inner.split(',').count(), n);
    }
}

#[test]
fn generate_empty_array() {
    assert_eq!(generate("[u32;0]"), Ok("[]".to_string()));
    assert_eq!(generate(" [ i128 ; 0 ] "), Ok("[]".to_string()));
}

#[test]
fn generate_hands_on_the_grammar_errors() {
    assert_eq!(generate(""), Err(GenerateError::Request(ParseError::EmptyInput)));
    assert_eq!(generate("[u16"), Err(GenerateError::Request(ParseError::MissingBracket)));
    assert_eq!(generate("[]"), Err(GenerateError::Request(ParseError::EmptyArray)));
    assert_eq!(generate("notatype"), Err(GenerateError::Request(ParseError::UnsupportedType)));
    assert_eq!(generate("[u16]"), Err(GenerateError::Request(ParseError::MissingSeparator)));
    assert_eq!(generate("[u16;abc]"), Err(GenerateError::Request(ParseError::InvalidLength)));
    assert_eq!(generate("[[u8;2];3]"), Err(GenerateError::Request(ParseError::UnsupportedType)));
}

#[test]
fn generate_for_declaration_fills_the_initializer() {
    let text = generate_for_declaration(DeclarationKind::Constant, Some("u16")).unwrap();
    let n: u32 = text.strip_suffix("u16").unwrap().parse().unwrap();
    assert!(n <= 65535);
    assert_eq!(
        generate_for_declaration(DeclarationKind::Static, Some("[u8; 0]")),
        Ok("[]".to_string())
    );
}

#[test]
fn generate_for_declaration_hands_on_the_errors() {
    assert_eq!(
        generate_for_declaration(DeclarationKind::Local, None),
        Err(GenerateError::Request(ParseError::MissingType))
    );
    assert_eq!(
        generate_for_declaration(DeclarationKind::Other, Some("u8")),
        Err(GenerateError::Request(ParseError::UnsupportedDeclaration))
    );
    assert_eq!(
        generate_for_declaration(DeclarationKind::Constant, Some("f64")),
        Err(GenerateError::Request(ParseError::UnsupportedType))
    );
    assert_eq!(
        generate_for_declaration(DeclarationKind::Constant, Some("[u8]")),
        Err(GenerateError::Request(ParseError::InvalidType))
    );
}

#[test]
fn generate_twice_differs() {
    assert_ne!(generate("u128").unwrap(), generate("u128").unwrap());
    assert_ne!(generate("[u64;4]").unwrap(), generate("[u64;4]").unwrap());
}

#[test]
fn generate_u8_covers_the_whole_range() {
    let mut seen = [0u32; 256];
    for _ in 0..10_000 {
        let text = generate("u8").unwrap();
        let n: usize = text.strip_suffix("u8").unwrap().parse().unwrap();
        seen[n] += 1;
    }
    assert!(seen.iter().all(|count| *count > 0));
    let expected = 10_000.0 / 256.0;
    let chi_square: f64 = seen
        .iter()
        .map(|count| {
            let d = *count as f64 - expected;
            d * d / expected
        })
        .sum();
    assert!(chi_square < 400.0);
}

#[test]
fn generate_i8_covers_both_signs() {
    let mut negative = 0;
    let mut zero_or_more = 0;
    for _ in 0..2_000 {
        let text = generate("i8").unwrap();
        let n: i32 = text.strip_suffix("i8").unwrap().parse().unwrap();
        assert!((-128..=127).contains(&n));
        if n < 0 {
            negative += 1;
        } else {
            zero_or_more += 1;
        }
    }
    assert!(negative > 700);
    assert!(zero_or_more > 700);
}

#[test]
fn generate_ignores_unicode_white_space() {
    let text = generate("\u{a0}u8").unwrap();
    let n: u32 = text.strip_suffix("u8").unwrap().parse().unwrap();
    assert!(n <= 255);
    let text = generate("[\u{2002}i16 ;\u{a0}3\u{3000}]").unwrap();
    let inner = text.strip_prefix('[').unwrap().strip_suffix(']').unwrap();
    assert_eq!(inner.split(',').count(), 3);
    assert_eq!(generate("\u{85}[u8;\u{a0}0]\u{2028}"), Ok("[]".to_string()));
}

#[test]
fn generate_for_declaration_tells_invalid_from_unsupported() {
    assert_eq!(
        generate_for_declaration(DeclarationKind::Constant, Some("&u8")),
        Err(GenerateError::Request(ParseError::InvalidType))
    );
    assert_eq!(
        generate_for_declaration(DeclarationKind::Constant, Some("Vec<u8>")),
        Err(GenerateError::Request(ParseError::InvalidType))
    );
    assert_eq!(
        generate_for_declaration(DeclarationKind::Constant, Some("[[u8; 2]; 2]")),
        Err(GenerateError::Request(ParseError::UnsupportedType))
    );
}
