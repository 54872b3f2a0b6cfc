use chess::fen::{
    is_separator, parse_number, parse_placement, parse_rights, push_decimal, push_rights,
    split_fields,
};
use chess::text::{chars_of, string_of};
use chess::FenError;

fn chars(s: &str) -> Vec<char> {
    s.chars().collect()
}

#[test]
fn chars_and_strings() {
    assert_eq!(chars_of("e4é"), vec!['e', '4', 'é']);
    assert_eq!(chars_of(""), Vec::<char>::new());
    assert_eq!(string_of(&vec!['O', '-', 'O']), "O-O");
    assert_eq!(string_of(&chars_of("Nxd2")), "Nxd2");
}

#[test]
fn separators_are_white_space() {
    for c in [' ', '\t', '\n', '\r', '\u{b}', '\u{c}', '\u{85}', '\u{a0}', '\u{1680}', '\u{2000}',
        '\u{200a}', '\u{2028}', '\u{2029}', '\u{202f}', '\u{205f}', '\u{3000}']
    {
        assert!(is_separator(c));
        assert!(c.is_whitespace());
    }
    for c in ['a', '0', '/', '-', '\u{200b}', '\u{feff}', '\u{8}', '\u{e}'] {
        assert!(!is_separator(c));
        assert!(!c.is_whitespace());
    }
}

#[test]
fn fields_are_runs_without_white_space() {
    assert_eq!(split_fields(&chars("a bc  d")), vec![chars("a"), chars("bc"), chars("d")]);
    assert_eq!(split_fields(&chars("  a\t")), vec![chars("a")]);
    assert_eq!(split_fields(&chars("")), Vec::<Vec<char>>::new());
    assert_eq!(split_fields(&chars(" \n ")), Vec::<Vec<char>>::new());
    let text = " 8/8 w\u{a0}KQ -  0 12 ";
    let expected: Vec<Vec<char>> = text.split_whitespace().map(chars).collect();
    assert_eq!(split_fields(&chars(text)), expected);
}

#[test]
fn numbers_are_read_as_the_standard_library_reads_them() {
    for text in ["0", "7", "007", "+5", "100", "101", "255", "256", "65535", "65536", "", "+",
        "-1", "1x", " 1", "++1", "99999999999999999999"]
    {
        assert_eq!(parse_number(&chars(text), 65535), text.parse::<u16>().ok());
        assert_eq!(parse_number(&chars(text), 255), text.parse::<u8>().ok().map(u16::from));
    }
    assert_eq!(parse_number(&chars("100"), 100), Some(100));
    assert_eq!(parse_number(&chars("101"), 100), None);
}

#[test]
fn numbers_are_written_in_decimal() {
    for n in [0u16, 1, 9, 10, 42, 100, 255, 1000, 65535] {
        let mut out = vec!['#'];
        push_decimal(&mut out, n);
        let text: String = out.iter().collect();
        assert_eq!(text, format!("#{}", n));
    }
}

#[test]
fn castling_rights_text() {
    for rights in 0..16u8 {
        let mut out = Vec::new();
        push_rights(&mut out, rights);
        assert_eq!(parse_rights(&out), Ok(rights));
    }
    let mut out = Vec::new();
    push_rights(&mut out, 0b1010);
    assert_eq!(out, vec!['K', 'k']);
    assert_eq!(parse_rights(&chars("Kx")), Err(FenError::Castling));
}

#[test]
fn placement_is_read_rank_by_rank() {
    let cells = parse_placement(&chars("r7/8/8/8/8/8/8/7K")).unwrap();
    assert!(cells[56].is_rook() && cells[56].is_black());
    assert!(cells[7].is_king() && cells[7].is_white());
    assert_eq!(cells.iter().filter(|c| !c.is_blank()).count(), 2);
    assert_eq!(parse_placement(&chars("8/8/8/8/8/8/8/8/")).unwrap_err(), FenError::Placement);
    assert_eq!(parse_placement(&chars("44p")).unwrap_err(), FenError::Placement);
    assert!(parse_placement(&chars("0000p0000")).is_ok());
}
