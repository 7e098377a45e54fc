use enem_kdd::data::{DataHeader, TextMap};

fn header_of(cols: &[&str]) -> DataHeader {
    DataHeader::from_columns(&cols.iter().map(|s| s.to_string()).collect())
}

#[test]
fn from_columns_gives_positions() {
    let h = header_of(&["A", "B", "C"]);
    assert_eq!(h.len(), 3);
    assert_eq!(h.get("A"), Some(&0));
    assert_eq!(h.get("C"), Some(&2));
    assert_eq!(h.get("D"), None);
}

#[test]
fn from_columns_last_occurrence_wins() {
    let h = header_of(&["A", "B", "A"]);
    assert_eq!(h.len(), 2);
    assert_eq!(h.get("A"), Some(&2));
    assert_eq!(h.get("B"), Some(&1));
}

#[test]
fn insert_replaces_and_adds() {
    let mut h: TextMap<usize> = TextMap::new();
    assert_eq!(h.len(), 0);
    h.insert("x".to_string(), 4);
    h.insert("y".to_string(), 1);
    h.insert("x".to_string(), 7);
    assert_eq!(h.len(), 2);
    assert_eq!(h.get("x"), Some(&7));
    assert_eq!(h.get("y"), Some(&1));
}

#[test]
fn max_position_of_empty_and_full() {
    assert_eq!(DataHeader::new().max_position(), 0);
    let h = header_of(&["a", "b", "c", "d"]);
    assert_eq!(h.max_position(), 3);
}

#[test]
fn names_in_order_sorts_by_position() {
    let mut h = DataHeader::new();
    h.insert("third".to_string(), 9);
    h.insert("first".to_string(), 0);
    h.insert("second".to_string(), 5);
    assert_eq!(h.names_in_order(), vec!["first", "second", "third"]);
    assert_eq!(h.to_line(), "first;second;third");
}

#[test]
fn header_line_round_trip() {
    let h = header_of(&["NU_ANO", "CO_ESCOLA", "TP_PRESENCA_MT"]);
    let line = h.to_line();
    assert_eq!(line, "NU_ANO;CO_ESCOLA;TP_PRESENCA_MT");
    let back = DataHeader::from_columns(&enem_kdd::utils::get_csv_cols(&line, ';'));
    assert_eq!(back.len(), 3);
    for name in ["NU_ANO", "CO_ESCOLA", "TP_PRESENCA_MT"] {
        assert_eq!(back.get(name), h.get(name));
    }
}

#[test]
fn clone_keeps_entries() {
    let h = header_of(&["a", "b"]);
    let c = h.clone();
    assert_eq!(c.get("a"), Some(&0));
    assert_eq!(c.get("b"), Some(&1));
    assert_eq!(c.len(), 2);
}

#[test]
fn text_map_of_strings() {
    let mut m: TextMap<String> = TextMap::new();
    m.insert("k".to_string(), "v".to_string());
    assert_eq!(m.get("k").map(|s| s.as_str()), Some("v"));
    assert_eq!(m.get("z"), None);
}
