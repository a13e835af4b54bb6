use escpos_rs::{Command, Error, Font, Instruction, Justification, PrintData, PrinterProfile};

fn profile(width: u8) -> PrinterProfile {
    PrinterProfile::terminal_builder().with_font_width(Font::FontA, width).build()
}

#[test]
fn adding_plain_instructions_makes_a_compound() {
    let ab = Instruction::cut().add(Instruction::vspace(1));
    match &ab {
        Instruction::Compound { instructions } => assert_eq!(2, instructions.len()),
        _ => panic!("expected a compound"),
    }
    let abc = ab.add(Instruction::command(Command::BoldOn));
    match &abc {
        Instruction::Compound { instructions } => {
            assert_eq!(3, instructions.len());
            assert!(matches!(instructions[0], Instruction::Cut));
            assert!(matches!(instructions[1], Instruction::VSpace { lines: 1 }));
            assert!(matches!(instructions[2], Instruction::Command { command: Command::BoldOn }));
        },
        _ => panic!("expected a compound"),
    }
    assert!(abc.is_compound());
}

#[test]
fn add_assign_flattens() {
    let mut i = Instruction::cut();
    i.add_assign(Instruction::cut().add(Instruction::cut()));
    match &i {
        Instruction::Compound { instructions } => assert_eq!(3, instructions.len()),
        _ => panic!("expected a compound"),
    }
}

#[test]
fn serializes_simple_instructions() {
    let d = PrintData::builder().build();
    let p = profile(32);
    let i = Instruction::cut().add(Instruction::vspace(2)).add(Instruction::command(Command::Reset));
    assert_eq!(vec![0x1d, 0x56, 0x41, 0x96, b'\n', b'\n', 0x1d, 0x40], i.to_vec(&p, &d).unwrap());
}

#[test]
fn text_with_replacement_is_centred() {
    let i = Instruction::text("Hello, %name%!", Font::FontA, Justification::Center, Some(vec!["%name%".to_string()]));
    assert!(i.is_text());
    let d = PrintData::builder().replacement("%name%", "Carlos").build();
    let out = i.to_vec(&profile(20), &d).unwrap();
    let mut expected = vec![0x1b, 0x4d, 0x00, 0x1d, 0x40];
    expected.extend_from_slice(b"   Hello, Carlos!   \n");
    assert_eq!(expected, out);
}

#[test]
fn text_wraps_and_right_aligns() {
    let i = Instruction::text("one two three", Font::FontA, Justification::Right, None);
    let out = i.to_vec(&profile(9), &PrintData::builder().build()).unwrap();
    let mut expected = vec![0x1b, 0x4d, 0x00, 0x1d, 0x40];
    expected.extend_from_slice(b"  one two\n    three\n");
    assert_eq!(expected, out);
}

#[test]
fn text_is_transcoded_to_code_page_437() {
    let i = Instruction::text("caf\u{e9}", Font::FontA, Justification::Left, None);
    let out = i.to_vec(&profile(20), &PrintData::builder().build()).unwrap();
    assert_eq!(vec![0x1b, 0x4d, 0x00, 0x1d, 0x40, b'c', b'a', b'f', 0x82, b'\n'], out);
}

#[test]
fn unmappable_character_is_an_error() {
    let i = Instruction::text("\u{4e2d}", Font::FontA, Justification::Left, None);
    assert!(matches!(i.to_vec(&profile(20), &PrintData::builder().build()), Err(Error::Encoding)));
}

#[test]
fn missing_replacement_names_the_key() {
    let i = Instruction::text("Hello, %name%!", Font::FontA, Justification::Left, Some(vec!["%name%".to_string()]));
    let r = i.to_vec(&profile(20), &PrintData::builder().build());
    assert_eq!(Err(Error::NoReplacementFound("%name%".to_string())), r);
}

#[test]
fn missing_font_width_is_an_error() {
    let i = Instruction::text("x", Font::FontC, Justification::Left, None);
    assert_eq!(Err(Error::NoWidth), i.to_vec(&profile(20), &PrintData::builder().build()));
}

#[test]
fn markdown_is_refused() {
    let i = Instruction::markdown("**x**".to_string(), Font::FontA, Justification::Left, None);
    assert_eq!(Err(Error::WrongMarkdown), i.to_vec(&profile(20), &PrintData::builder().build()));
}

#[test]
fn duo_table_without_tables() {
    let i = Instruction::duo_table("items".to_string(), ("Product".to_string(), "Price".to_string()), Font::FontA);
    assert_eq!(Err(Error::NoTables), i.to_vec(&profile(20), &PrintData::builder().build()));
    let d = PrintData::builder().add_duo_table("other", vec![]).build();
    assert_eq!(Err(Error::NoTableFound("items".to_string())), i.to_vec(&profile(20), &d));
}

#[test]
fn duo_table_serializes() {
    let i = Instruction::duo_table("items".to_string(), ("Product".to_string(), "Price".to_string()), Font::FontA);
    let d = PrintData::builder().add_duo_table("items", vec![("Milk".to_string(), "5.00".to_string())]).build();
    let out = i.to_vec(&profile(20), &d).unwrap();
    assert_eq!(b"Product        Price\n--------------------\nMilk            5.00\n".to_vec(), out);
}

#[test]
fn trio_table_serializes() {
    let i = Instruction::trio_table("items".to_string(), ("Product".to_string(), "Price".to_string(), "Qty.".to_string()));
    let d = PrintData::builder()
        .add_trio_table("items", vec![("Milk".to_string(), "5.00".to_string(), "3".to_string())])
        .build();
    let out = i.to_vec(&profile(20), &d).unwrap();
    assert_eq!(b"Product  Price  Qty.\n--------------------\nMilk     5.00      3\n".to_vec(), out);
}

#[test]
fn quad_table_serializes_labels() {
    let i = Instruction::quad_table("items".to_string(), ("Product".to_string(), "Price".to_string(), "Qty.".to_string()));
    let d = PrintData::builder()
        .add_quad_table("items", vec![("Dairy".to_string(), "Milk".to_string(), "5.00".to_string(), "3".to_string())])
        .build();
    let out = i.to_vec(&profile(20), &d).unwrap();
    let mut expected = b"Product  Price  Qty.\n--------------------\n".to_vec();
    expected.extend_from_slice(&[0x1b, 0x4d, 0x01]);
    expected.extend_from_slice(b"Dairy\n");
    expected.extend_from_slice(&[0x1b, 0x4d, 0x00]);
    expected.extend_from_slice(b"Milk     5.00      3\n");
    assert_eq!(expected, out);
    assert_eq!(Err(Error::NoTables), i.to_vec(&profile(20), &PrintData::builder().build()));
}

#[test]
fn compound_fails_fast() {
    let i = Instruction::cut()
        .add(Instruction::trio_table("t".to_string(), ("a".to_string(), "b".to_string(), "c".to_string())))
        .add(Instruction::cut());
    assert_eq!(Err(Error::NoTables), i.to_vec(&profile(20), &PrintData::builder().build()));
}

#[test]
fn dynamic_qr_code_needs_contents() {
    let i = Instruction::dynamic_qr_code("code");
    assert_eq!(Err(Error::NoQrContents), i.to_vec(&profile(20), &PrintData::builder().build()));
    let d = PrintData::builder().add_qr_code("other", "x").build();
    assert_eq!(Err(Error::NoQrContent("code".to_string())), i.to_vec(&profile(20), &d));
}

#[test]
fn dynamic_qr_code_rasterizes() {
    let i = Instruction::dynamic_qr_code("code");
    let d = PrintData::builder().add_qr_code("code", "https://example.com").build();
    let out = i.to_vec(&profile(20), &d).unwrap();
    assert_eq!(&[0x1b, 0x33, 0x00], &out[0..3]);
    assert_eq!(&[0x1b, 0x2a, 0x00, 0x80, 0x01], &out[3..8]);
    assert!(out[8..out.len() - 4].iter().any(|b| *b != 0 && *b != 0x1b && *b != b'\n'));
    assert_eq!(&[0x1b, 0x32, 0x1d, 0x40], &out[out.len() - 4..]);
}

#[test]
fn fixed_qr_code_is_an_image() {
    let i = Instruction::qr_code("hello").unwrap();
    assert!(matches!(i, Instruction::Image { .. }));
}

#[test]
fn duo_table_width_is_checked_first() {
    let i = Instruction::duo_table("items".to_string(), ("a".to_string(), "b".to_string()), Font::FontC);
    assert_eq!(Err(Error::NoWidth), i.to_vec(&profile(20), &PrintData::builder().build()));
}

#[test]
fn plus_operators_flatten() {
    let i = Instruction::cut() + Instruction::vspace(1) + Instruction::cut();
    match &i {
        Instruction::Compound { instructions } => assert_eq!(3, instructions.len()),
        _ => panic!("expected a compound"),
    }
    let mut j = Instruction::cut();
    j += i.clone();
    match &j {
        Instruction::Compound { instructions } => assert_eq!(4, instructions.len()),
        _ => panic!("expected a compound"),
    }
    assert_eq!(i.to_vec(&profile(20), &PrintData::builder().build()), i.clone().to_vec(&profile(20), &PrintData::builder().build()));
}

#[test]
fn images_need_a_configured_density() {
    let p = PrinterProfile::new(escpos_rs::PrinterConnectionData::Terminal, vec![(Font::FontA, 20)], 384);
    let d = PrintData::builder().add_qr_code("code", "x").build();
    assert_eq!(Err(Error::NoImageModeFound), Instruction::dynamic_qr_code("code").to_vec(&p, &d));
    let img = Instruction::qr_code("x").unwrap();
    assert_eq!(Err(Error::NoImageModeFound), img.to_vec(&p, &d));
}

#[test]
fn ascii_text_encodes_to_its_own_bytes() {
    assert_eq!(Ok(b"Total: 5.00\n".to_vec()), escpos_rs::instruction::encode_cp437("Total: 5.00\n"));
    assert_eq!(Err(Error::Encoding), escpos_rs::instruction::encode_cp437("\u{4e2d}"));
}
