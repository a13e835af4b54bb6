use escpos_rs::{Formatter, TableOptions};

#[test]
fn space_split_two_lines() {
    let formatter = Formatter::new(16);
    let res = formatter.space_split("Sentence with two lines.");
    assert_eq!("Sentence with\ntwo lines.", res.as_str());
}

#[test]
fn space_split_keeps_trailing_newline() {
    let formatter = Formatter::new(16);
    assert_eq!("Sentence with\ntwo lines.\n", formatter.space_split("Sentence with two lines.\n"));
    assert_eq!("", formatter.space_split(""));
    assert_eq!("\n", formatter.space_split("   \n"));
}

#[test]
fn space_split_lines_fit_width() {
    let formatter = Formatter::new(10);
    let out = formatter.space_split("aaaa bbbb cccc dddd eeeeeeee f");
    for line in out.split('\n') {
        assert!(line.chars().count() <= 10);
    }
    assert_eq!("aaaa bbbb\ncccc dddd\neeeeeeee\nf", out);
}

#[test]
fn space_split_hard_splits_long_word() {
    let formatter = Formatter::new(4);
    assert_eq!("ab\nabcd\nefgh\nij", formatter.space_split("ab abcdefghij"));
}

#[test]
fn duo_table_header_and_rows() {
    let formatter = Formatter::new(20);
    let header = ("Product".to_string(), "Price".to_string());
    let rows = vec![
        ("Milk".to_string(), "5.00".to_string()),
        ("Cereal".to_string(), "10.00".to_string()),
    ];
    let target = "Product        Price\n--------------------\nMilk            5.00\nCereal         10.00\n";
    assert_eq!(target, formatter.duo_table(header, rows));
}

#[test]
fn duo_table_truncation_marks_only_header() {
    let formatter = Formatter::new(20);
    let header = ("A very long product name".to_string(), "Price".to_string());
    let rows = vec![("A very long product name".to_string(), "5.00".to_string())];
    let out = formatter.duo_table(header, rows);
    assert_eq!("A very long p. Price\n--------------------\nA very long pro 5.00\n", out);
}

#[test]
fn duo_table_long_second_column() {
    let formatter = Formatter::new(10);
    let header = ("ab".to_string(), "0123456789".to_string());
    let rows = vec![("ab".to_string(), "0123456789".to_string())];
    let out = formatter.duo_table(header, rows);
    assert_eq!("ab  01234.\n----------\nab  012345\n", out);
}

#[test]
fn trio_table_natural_widths() {
    let formatter = Formatter::new(20);
    let header = ("Product".to_string(), "Price".to_string(), "Qty.".to_string());
    let rows = vec![
        ("Milk".to_string(), "5.00".to_string(), "3".to_string()),
        ("Cereal".to_string(), "10.00".to_string(), "1".to_string()),
    ];
    let target = "Product  Price  Qty.\n--------------------\nMilk     5.00      3\nCereal   10.00     1\n";
    assert_eq!(target, formatter.trio_table(header, rows));
}

#[test]
fn trio_table_left_column_gives_way() {
    let formatter = Formatter::new(20);
    let header = ("Description".to_string(), "Price".to_string(), "Qty.".to_string());
    let rows = vec![("Whole grain cereal".to_string(), "10.00".to_string(), "1".to_string())];
    let out = formatter.trio_table(header, rows);
    assert_eq!("Descript. Price Qty.\n--------------------\nWhole gr. 10.00    1\n", out);
}

#[test]
fn trio_table_equal_thirds() {
    let formatter = Formatter::new(12);
    let header = ("aaaaaaaaaa".to_string(), "bbbbbbbbbb".to_string(), "cccccccccc".to_string());
    let out = formatter.trio_table(header, Vec::new());
    assert_eq!("aaa. b. ccc.\n------------\n", out);
}

#[test]
fn header_division_pattern_options() {
    let mut formatter = Formatter::new(5);
    assert_eq!(Some("-----\n".to_string()), formatter.print_header_division_pattern());
    formatter.set_table_options(TableOptions {
        header_division_pattern: Some(".-".to_string()),
        join_columns_pattern: None,
    });
    assert_eq!(Some(".-.-.\n".to_string()), formatter.print_header_division_pattern());
    formatter.modify_table_options(|mut o| {
        o.header_division_pattern = None;
        o
    });
    assert_eq!(None, formatter.print_header_division_pattern());
    assert!(formatter.get_table_options().header_division_pattern.is_none());
}

#[test]
fn trio_table_middle_and_right_fit_in_width_less_four() {
    let formatter = Formatter::new(20);
    let header = ("abcde".to_string(), "12345678".to_string(), "87654321".to_string());
    let out = formatter.trio_table(header, Vec::new());
    assert_eq!("a. 12345678 87654321\n--------------------\n", out);
}

#[test]
fn space_split_on_unicode_whitespace() {
    let formatter = Formatter::new(20);
    assert_eq!("one two three", formatter.space_split("one\u{a0}two\u{3000}three"));
}
