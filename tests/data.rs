use escpos_rs::{
    Charset, CodeTable, Command, Error, Font, ImageMode, PrintData, PrintDataBuilder,
    PrinterConnectionData, PrinterModel, PrinterProfile, PrinterProfileBuilder,
};

#[test]
fn command_encodings() {
    assert_eq!(vec![0x1d, 0x56, 0x41, 0x96], Command::Cut.as_bytes());
    assert_eq!(vec![0x1d, 0x40], Command::Reset.as_bytes());
    assert_eq!(vec![0x1b, 0x4d, 0x01], Command::SelectFont { font: Font::FontB }.as_bytes());
    assert_eq!(vec![0x1b, 0x52, 0x11], Command::SelectCharset { charset: Charset::Arabia }.as_bytes());
    assert_eq!(vec![0x1b, 0x74, 0x02], Command::SelectCodeTable { code_table: CodeTable::Latin2 }.as_bytes());
    assert_eq!(vec![0x1b, 0x2a], Command::Bitmap.as_bytes());
    assert_eq!(vec![0x1b, 0x33, 0x00], Command::NoLine.as_bytes());
    assert_eq!(vec![0x1b, 0x32], Command::ResetLine.as_bytes());
    assert_eq!(vec![0x1b, 0x45, 0x01], Command::BoldOn.as_bytes());
    assert_eq!(vec![0x1b, 0x2d, 0x02], Command::Underline2Dot.as_bytes());
    assert_eq!(vec![0x04], Font::FontE.as_bytes());
    assert_eq!(0x20, ImageMode::TwentyfourDotSingleDensity.as_byte());
}

#[test]
fn merge_prefers_left_data() {
    let left = PrintData::builder().replacement("%a%", "left").build();
    let right = PrintDataBuilder::new().replacement("%a%", "right").replacement("%b%", "only right").build();
    let merged = left.merge(right);
    let entries = merged.replacements().clone().unwrap();
    let find = |k: &str| entries.iter().rev().find(|e| e.0 == k).map(|e| e.1.clone());
    assert_eq!(Some("left".to_string()), find("%a%"));
    assert_eq!(Some("only right".to_string()), find("%b%"));
    assert!(merged.duo_tables().is_none());
}

#[test]
fn merge_of_empty_data_is_empty() {
    let merged = PrintData::builder().build().merge(PrintData::builder().build());
    assert!(merged.replacements().is_none());
    assert!(merged.qr_contents().is_none());
}

#[test]
fn builder_adds_tables() {
    let d = PrintData::builder()
        .add_duo_table("t", vec![("a".to_string(), "b".to_string())])
        .add_trio_table("t3", vec![])
        .add_quad_table("t4", vec![])
        .add_qr_code("q", "payload")
        .build();
    assert_eq!(1, d.duo_tables().as_ref().unwrap().len());
    assert_eq!(1, d.trio_tables().as_ref().unwrap().len());
    assert_eq!(1, d.quad_tables().as_ref().unwrap().len());
    assert_eq!("payload", d.qr_contents().as_ref().unwrap()[0].1);
}

#[test]
fn usb_builder_defaults_and_options() {
    let p = PrinterProfile::usb_builder(1, 2)
        .with_endpoint(3).unwrap()
        .with_timeout(5000).unwrap()
        .with_width(576)
        .with_font_width(Font::FontB, 42)
        .build();
    assert_eq!(576, p.width());
    assert_eq!(Some(32), p.columns_for(Font::FontA));
    assert_eq!(Some(42), p.columns_for(Font::FontB));
    assert_eq!(None, p.columns_for(Font::FontC));
    match p.connection() {
        PrinterConnectionData::Usb { vendor_id, product_id, endpoint, timeout } => {
            assert_eq!((1, 2, Some(3), 5000), (*vendor_id, *product_id, *endpoint, *timeout));
        },
        _ => panic!("expected a usb connection"),
    }
}

#[test]
fn terminal_builder_refuses_usb_options() {
    let b = PrinterProfileBuilder::new_terminal();
    assert!(matches!(b.with_endpoint(2), Err(Error::UnsupportedForPrinterConnection)));
    let b = PrinterProfile::terminal_builder();
    assert!(matches!(b.with_timeout(1), Err(Error::UnsupportedForPrinterConnection)));
    let p = PrinterProfileBuilder::new_terminal().with_font_width(Font::FontA, 20).build();
    assert_eq!(Some(20), p.columns_for(Font::FontA));
    assert_eq!(384, p.width());
}

#[test]
fn printer_models() {
    assert_eq!((0x04b8, 0x0e15, Some(0x01)), PrinterModel::TMT20.vp_id());
    let p = PrinterModel::TMT88VI.usb_profile();
    assert_eq!(576, p.width());
    assert_eq!(Some(56), p.columns_for(Font::FontB));
    let z = PrinterModel::ZKTeco.usb_profile();
    assert_eq!(384, z.width());
    assert_eq!(Some(32), z.columns_for(Font::FontA));
    let custom = PrinterProfile::new(PrinterConnectionData::Terminal, vec![(Font::FontA, 10)], 100);
    assert_eq!(100, custom.width());
}

#[test]
fn error_messages() {
    assert_eq!("Could not find replacement for tag {%name%}", Error::NoReplacementFound("%name%".to_string()).message());
    assert_eq!("No table was found for id {items}", Error::NoTableFound("items".to_string()).message());
    assert_eq!("Could not find qr code content for \"code\"", Error::NoQrContent("code".to_string()).message());
    assert_eq!("Not a single table was found in the PrintData structure", Error::NoTables.message());
}

#[test]
fn replacement_appends_its_own_key() {
    let d = PrintData::builder().replacement("%a%", "1").replacement("%b%", "2").build();
    let e = d.replacements().clone().unwrap();
    assert_eq!(vec![("%a%".to_string(), "1".to_string()), ("%b%".to_string(), "2".to_string())], e);
}
