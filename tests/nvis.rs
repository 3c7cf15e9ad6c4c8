use nvis::registry::{Registry, TransformerKind, TRANSFORMER_COUNT};
use nvis::resolve::{
    drop_leading_zeros, host_is_little_endian, parse_radix, resolve, resolve_in_order,
    trim_trailing_zeros, word_to_bytes, InputMode,
};
use nvis::session::Context;
use nvis::transformer::{
    BigEndianI16, BigEndianI32, BigEndianI64, BigEndianU16, BigEndianU32, BigEndianU64, Base32,
    Base64, CHex, Hex, LittleEndianI16, LittleEndianI32, LittleEndianI64, LittleEndianU16,
    LittleEndianU32, LittleEndianU64, Transformer, NONE_PLACEHOLDER,
};

#[test]
fn raw_mode_keeps_utf8_bytes() {
    assert_eq!(resolve("héllo 0x41", InputMode::Raw), "héllo 0x41".as_bytes().to_vec());
    assert_eq!(resolve("0x41", InputMode::Raw), b"0x41".to_vec());
}

#[test]
fn empty_text_is_empty_buffer_in_every_mode() {
    assert!(resolve("", InputMode::Raw).is_empty());
    assert!(resolve("", InputMode::Smart).is_empty());
}

#[test]
fn smart_hex_literal() {
    assert_eq!(resolve("0x48656c6c6f", InputMode::Smart), vec![0x48, 0x65, 0x6c, 0x6c, 0x6f]);
    assert_eq!(resolve("0xABcd", InputMode::Smart), vec![0xab, 0xcd]);
    assert!(resolve("0xZZ", InputMode::Smart).is_empty());
    assert!(resolve("0xabc", InputMode::Smart).is_empty());
    assert!(resolve("0x", InputMode::Smart).is_empty());
}

#[test]
fn smart_octal_and_binary_literals() {
    assert_eq!(host_is_little_endian(), 1u16.to_ne_bytes()[0] == 1);
    if host_is_little_endian() {
        assert_eq!(resolve("0o17", InputMode::Smart), vec![0x0f]);
        assert_eq!(resolve("0o402", InputMode::Smart), vec![0x02, 0x01]);
        assert_eq!(resolve("0b1000000000", InputMode::Smart), vec![0x00, 0x02]);
        assert_eq!(resolve("0b100000001", InputMode::Smart), vec![0x01, 0x01]);
        let minus_one = resolve("0o-1", InputMode::Smart);
        assert_eq!(minus_one, vec![0xff; std::mem::size_of::<isize>()]);
    }
    assert!(resolve("0o0", InputMode::Smart).is_empty());
    assert!(resolve("0b0", InputMode::Smart).is_empty());
    assert!(resolve("0o8", InputMode::Smart).is_empty());
    assert!(resolve("0b12", InputMode::Smart).is_empty());
    assert!(resolve("0o", InputMode::Smart).is_empty());
    assert!(resolve("0o-", InputMode::Smart).is_empty());
    assert!(resolve("0o7777777777777777777777777", InputMode::Smart).is_empty());
}

#[test]
fn literal_bytes_in_either_order() {
    assert_eq!(resolve_in_order("0o402", InputMode::Smart, true), vec![0x02, 0x01]);
    assert_eq!(resolve_in_order("0o402", InputMode::Smart, false), vec![0x01, 0x02]);
    assert_eq!(resolve_in_order("0b100000000", InputMode::Smart, true), vec![0x00, 0x01]);
    assert_eq!(resolve_in_order("0b100000000", InputMode::Smart, false), vec![0x01, 0x00]);
    assert!(resolve_in_order("0o0", InputMode::Smart, false).is_empty());
    assert_eq!(word_to_bytes(-2, true)[0], 0xfe);
    assert_eq!(word_to_bytes(-2, false).last(), Some(&0xfe));
    assert_eq!(word_to_bytes(0x10000, true), vec![0x00, 0x00, 0x01]);
    assert_eq!(word_to_bytes(0x10000, false), vec![0x01, 0x00, 0x00]);
    assert_eq!(resolve_in_order("0x0102", InputMode::Smart, false), vec![0x01, 0x02]);
    assert_eq!(resolve_in_order("0o402", InputMode::Raw, false), b"0o402".to_vec());
}

#[test]
fn octal_literal_round_trips_through_native_reader() {
    let c = Context::new();
    let mut smart = Context::new();
    smart.toggle_mode();
    for n in [258u32, 256, 65535, 4660].iter() {
        let text = format!("0o{:o}", n);
        let buf = smart.resolve_input(&text);
        let reader = if c.little_endian { LittleEndianU16.transform(&buf) } else { BigEndianU16.transform(&buf) };
        assert_eq!(reader, n.to_string());
    }
}

#[test]
fn trailing_zeros_trimmed() {
    assert_eq!(trim_trailing_zeros(&[0x02, 0x01, 0, 0]), vec![0x02, 0x01]);
    assert_eq!(trim_trailing_zeros(&[0, 0x01, 0]), vec![0, 0x01]);
    assert!(trim_trailing_zeros(&[0, 0]).is_empty());
    assert!(trim_trailing_zeros(&[]).is_empty());
}

#[test]
fn smart_plain_text_passes_through() {
    assert_eq!(resolve("hello", InputMode::Smart), b"hello".to_vec());
    assert_eq!(resolve("0", InputMode::Smart), b"0".to_vec());
    assert_eq!(resolve("0z12", InputMode::Smart), b"0z12".to_vec());
}

#[test]
fn radix_parsing_follows_std() {
    assert_eq!(parse_radix(b"17", 8), Some(15));
    assert_eq!(parse_radix(b"+17", 8), Some(15));
    assert_eq!(parse_radix(b"-101", 2), Some(-5));
    assert_eq!(parse_radix(b"", 8), None);
    assert_eq!(parse_radix(b"+", 2), None);
    assert_eq!(parse_radix(b"19", 8), None);
    let max = format!("{:o}", isize::MAX);
    assert_eq!(parse_radix(max.as_bytes(), 8), Some(isize::MAX));
    let min = format!("-{:o}", (isize::MAX as usize) + 1);
    assert_eq!(parse_radix(min.as_bytes(), 8), Some(isize::MIN));
    let over = format!("{:o}", (isize::MAX as usize) + 1);
    assert_eq!(parse_radix(over.as_bytes(), 8), None);
}

#[test]
fn leading_zeros_dropped_from_reversed_bytes() {
    assert_eq!(drop_leading_zeros(&[0x0f, 0, 0, 0]), vec![0x0f]);
    assert_eq!(drop_leading_zeros(&[0x02, 0x00, 0x01, 0x00]), vec![0x01, 0x00, 0x02]);
    assert!(drop_leading_zeros(&[0, 0, 0]).is_empty());
    assert!(drop_leading_zeros(&[]).is_empty());
}

#[test]
fn fixed_width_wrong_length_is_placeholder() {
    let kinds = [
        (TransformerKind::LittleEndianU16, 2),
        (TransformerKind::BigEndianU16, 2),
        (TransformerKind::LittleEndianU32, 4),
        (TransformerKind::BigEndianU32, 4),
        (TransformerKind::LittleEndianU64, 8),
        (TransformerKind::BigEndianU64, 8),
        (TransformerKind::LittleEndianI16, 2),
        (TransformerKind::BigEndianI16, 2),
        (TransformerKind::LittleEndianI32, 4),
        (TransformerKind::BigEndianI32, 4),
        (TransformerKind::LittleEndianI64, 8),
        (TransformerKind::BigEndianI64, 8),
    ];
    for (kind, width) in kinds.iter() {
        for len in 0..12usize {
            let buf = vec![0x11u8; len];
            let out = kind.transform(&buf);
            if len == *width {
                assert_ne!(out, NONE_PLACEHOLDER);
            } else {
                assert_eq!(out, NONE_PLACEHOLDER);
            }
        }
    }
}

#[test]
fn sixteen_bit_byte_orders() {
    assert_eq!(LittleEndianU16.transform(&[0x01, 0x00]), "1");
    assert_eq!(BigEndianU16.transform(&[0x01, 0x00]), "256");
}

#[test]
fn signed_minus_one() {
    assert_eq!(BigEndianI16.transform(&[0xff, 0xff]), "-1");
    assert_eq!(LittleEndianI16.transform(&[0xff, 0xff]), "-1");
    assert_eq!(LittleEndianI16.transform(&[0x00, 0x80]), "-32768");
    assert_eq!(BigEndianI16.transform(&[0x7f, 0xff]), "32767");
}

#[test]
fn thirty_two_and_sixty_four_bit_values() {
    assert_eq!(LittleEndianU32.transform(&[0x78, 0x56, 0x34, 0x12]), "305419896");
    assert_eq!(BigEndianU32.transform(&[0x12, 0x34, 0x56, 0x78]), "305419896");
    assert_eq!(LittleEndianI32.transform(&[0xfe, 0xff, 0xff, 0xff]), "-2");
    assert_eq!(BigEndianI32.transform(&[0x80, 0, 0, 0]), "-2147483648");
    assert_eq!(LittleEndianU64.transform(&[0xff; 8]), "18446744073709551615");
    assert_eq!(BigEndianU64.transform(&[0, 0, 0, 0, 0, 0, 0x01, 0x00]), "256");
    assert_eq!(LittleEndianI64.transform(&[0xff; 8]), "-1");
    assert_eq!(BigEndianI64.transform(&[0x80, 0, 0, 0, 0, 0, 0, 0]), "-9223372036854775808");
    assert_eq!(BigEndianI64.transform(&[0x7f, 0xff, 0xff, 0xff, 0xff, 0xff, 0xff, 0xff]), "9223372036854775807");
    assert_eq!(LittleEndianU32.transform(&[0, 0, 0, 0]), "0");
}

#[test]
fn encoders_on_hello() {
    assert_eq!(Base64.transform(b"Hello"), "SGVsbG8");
    assert_eq!(Base32.transform(b"Hello"), "JBSWY3DP");
    assert_eq!(Hex.transform(b"Hello"), "48656c6c6f");
    assert_eq!(CHex.transform(&[0x00, 0xab, 0x7f]), "\\x00\\xAB\\x7F");
    assert_eq!(Base64.transform(&[0xff]), "/w");
    assert_eq!(Base32.transform(&[0xff]), "74");
    assert_eq!(Base64.transform(&[0xfb, 0xff]), "+/8");
    assert_eq!(Base32.transform(b"foobar"), "MZXW6YTBOI");
    assert_eq!(Base64.transform(b"foobar"), "Zm9vYmFy");
}

#[test]
fn encoders_on_empty_are_placeholder() {
    assert_eq!(Base64.transform(&[]), NONE_PLACEHOLDER);
    assert_eq!(Base32.transform(&[]), NONE_PLACEHOLDER);
    assert_eq!(Hex.transform(&[]), NONE_PLACEHOLDER);
    assert_eq!(CHex.transform(&[]), NONE_PLACEHOLDER);
    assert_eq!(NONE_PLACEHOLDER, "<none>");
}

#[test]
fn encoders_round_trip() {
    let buffers: Vec<Vec<u8>> = vec![
        vec![0],
        vec![1, 2],
        vec![0xff, 0x00, 0x10],
        b"Hello, world".to_vec(),
        (0..=255u8).collect(),
    ];
    for b in buffers.iter() {
        let s64 = Base64.transform(b);
        assert_eq!(base64::decode_config(&s64, base64::STANDARD_NO_PAD).unwrap(), *b);
        let s32 = Base32.transform(b);
        assert_eq!(base32::decode(base32::Alphabet::RFC4648 { padding: false }, &s32).unwrap(), *b);
        let h = Hex.transform(b);
        assert_eq!(hex::decode(&h).unwrap(), *b);
        assert_eq!(resolve(&format!("0x{}", h), InputMode::Smart), *b);
    }
}

#[test]
fn focus_moves_wrap() {
    let mut c = Context::new();
    assert_eq!(c.focus_idx, 0);
    c.focus_previous();
    assert_eq!(c.focus_idx, TRANSFORMER_COUNT - 1);
    c.focus_next();
    assert_eq!(c.focus_idx, 0);
    for start in 0..TRANSFORMER_COUNT {
        c.focus_idx = start;
        for _ in 0..TRANSFORMER_COUNT {
            c.focus_next();
        }
        assert_eq!(c.focus_idx, start);
        for _ in 0..5 {
            c.focus_next();
        }
        for _ in 0..5 {
            c.focus_previous();
        }
        assert_eq!(c.focus_idx, start);
    }
}

#[test]
fn toggling_twice_restores_panels() {
    let registry = Registry::standard();
    let mut c = Context::new();
    for text in ["0x4142", "0o17", "plain", ""].iter() {
        let before = registry.render_all(&c.resolve_input(text));
        c.toggle_mode();
        assert_eq!(c.input_mode, InputMode::Smart);
        c.toggle_mode();
        assert_eq!(c.input_mode, InputMode::Raw);
        let after = registry.render_all(&c.resolve_input(text));
        assert_eq!(before, after);
    }
}

#[test]
fn registry_rejects_duplicate_labels() {
    assert!(Registry::new(vec![TransformerKind::Hex, TransformerKind::Base64, TransformerKind::Hex]).is_none());
    let ok = Registry::new(vec![TransformerKind::Hex, TransformerKind::Base64]).unwrap();
    assert_eq!(ok.len(), 2);
    assert!(Registry::new(vec![]).is_some());
}

#[test]
fn standard_registry_order_and_labels() {
    let registry = Registry::standard();
    assert_eq!(registry.len(), TRANSFORMER_COUNT as usize);
    let labels: Vec<&str> = (0..registry.len()).map(|i| registry.get(i).label()).collect();
    assert_eq!(
        labels,
        vec![
            "base64", "base32", "hex", "chex", "leu16", "beu16", "leu32", "beu32", "leu64",
            "beu64", "lei16", "bei16", "lei32", "bei32", "lei64", "bei64"
        ]
    );
    let panels = registry.render_all(&[0x01, 0x00]);
    assert_eq!(panels.len(), 16);
    assert_eq!(panels[4], "1");
    assert_eq!(panels[5], "256");
    assert_eq!(panels[6], NONE_PLACEHOLDER);
}

#[test]
fn status_line_and_titles() {
    let registry = Registry::standard();
    let mut c = Context::new();
    assert_eq!(c.status_line(), "M: Raw, I: 0");
    c.toggle_mode();
    c.focus_idx = 12;
    assert_eq!(c.status_line(), "M: Smart, I: 12");
    assert_eq!(c.panel_title(&registry, 12), "lei32 (F)");
    assert_eq!(c.panel_title(&registry, 0), "base64");
    assert_eq!(c.focused(&registry), Some(TransformerKind::LittleEndianI32));
    c.focus_idx = 40;
    assert_eq!(c.focused(&registry), None);
    assert_eq!(InputMode::Raw.name(), "Raw");
    assert_eq!(InputMode::Smart.toggle(), InputMode::Raw);
}
