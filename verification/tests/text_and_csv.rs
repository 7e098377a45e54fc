use enem_kdd::text::{is_whitespace, join_strings, trimmed_string, chars_of};
use enem_kdd::utils::get_csv_cols;

fn strings(v: &[&str]) -> Vec<String> {
    v.iter().map(|s| s.to_string()).collect()
}

#[test]
fn csv_cols_split_and_trim() {
    assert_eq!(get_csv_cols(" a ; b;c ", ';'), strings(&["a", "b", "c"]));
}

#[test]
fn csv_cols_keeps_empty_fields() {
    assert_eq!(get_csv_cols(";;", ';'), strings(&["", "", ""]));
    assert_eq!(get_csv_cols("", ';'), strings(&[""]));
    assert_eq!(get_csv_cols("x;", ';'), strings(&["x", ""]));
}

#[test]
fn csv_cols_unicode_whitespace() {
    assert_eq!(
        get_csv_cols("\u{a0}São Paulo\u{3000};\tBH\n", ';'),
        strings(&["São Paulo", "BH"])
    );
}

#[test]
fn csv_cols_other_separator() {
    assert_eq!(get_csv_cols("1, 2 ,3", ','), strings(&["1", "2", "3"]));
    assert_eq!(get_csv_cols("1;2", ','), strings(&["1;2"]));
}

#[test]
fn whitespace_matches_std() {
    for c in ['\t', '\n', '\r', ' ', '\u{85}', '\u{a0}', '\u{1680}', '\u{2000}', '\u{200a}',
        '\u{2028}', '\u{2029}', '\u{202f}', '\u{205f}', '\u{3000}', 'a', '\u{200b}', '\u{feff}', '0']
    {
        assert_eq!(is_whitespace(c), c.is_whitespace(), "{:?}", c);
    }
}

#[test]
fn trimmed_string_of_range() {
    let v = chars_of("  ab c  |");
    assert_eq!(trimmed_string(&v, 0, 8), "ab c");
    assert_eq!(trimmed_string(&v, 0, 2), "");
    assert_eq!(trimmed_string(&v, 3, 9), "b c  |");
}

#[test]
fn join_then_split_round_trip() {
    let vals = strings(&["10", "", "abc", "x y"]);
    let line = join_strings(&vals, ';');
    assert_eq!(line, "10;;abc;x y");
    assert_eq!(get_csv_cols(&line, ';'), vals);
}

#[test]
fn join_of_nothing_and_one() {
    assert_eq!(join_strings(&vec![], ';'), "");
    assert_eq!(join_strings(&strings(&["solo"]), ';'), "solo");
}
