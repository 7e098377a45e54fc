use enem_kdd::data::base::data_item::fields_of_row;
use enem_kdd::data::{DataHeader, DataItem};
use enem_kdd::data::filters::keep_enem_record;
use enem_kdd::types::UniRef;

fn header_of(cols: &[&str]) -> DataHeader {
    DataHeader::from_columns(&cols.iter().map(|s| s.to_string()).collect())
}

fn values(v: &[&str]) -> Vec<String> {
    v.iter().map(|s| s.to_string()).collect()
}

#[test]
fn get_reads_typed_columns() {
    let h = header_of(&["NOTA", "ANO", "NOME"]);
    let item = DataItem::new(UniRef::Ref(&h), values(&["512.5", "2024", "Ana"]));
    assert_eq!(item.get::<f64>("NOTA"), Some(512.5));
    assert_eq!(item.get::<i32>("ANO"), Some(2024));
    assert_eq!(item.get::<String>("NOME"), Some("Ana".to_string()));
    assert_eq!(item.get::<i32>("NOME"), None);
    assert_eq!(item.get::<i32>("FALTA"), None);
    assert_eq!(item.field("ANO").map(|s| s.as_str()), Some("2024"));
}

#[test]
fn set_on_borrowed_header_is_refused() {
    let h = header_of(&["A"]);
    let mut item = DataItem::new(UniRef::Ref(&h), values(&["1"]));
    assert_eq!(item.set("A", "2".to_string()), None);
    assert_eq!(item.get::<i32>("A"), Some(1));
}

#[test]
fn set_on_mut_header_is_refused() {
    let mut h = header_of(&["A"]);
    let mut item = DataItem::new(UniRef::Mut(&mut h), values(&["1"]));
    assert_eq!(item.set("A", "2".to_string()), None);
    assert_eq!(item.to_line(), "1");
}

#[test]
fn set_replaces_existing_column() {
    let h = header_of(&["A", "B"]);
    let mut item = DataItem::new(UniRef::Loc(h), values(&["1", "2"]));
    assert_eq!(item.set("B", "20".to_string()), Some("20".to_string()));
    assert_eq!(item.to_line(), "1;20");
    assert_eq!(item.get_header().unwrap().len(), 2);
}

#[test]
fn set_adds_column_after_the_last() {
    let h = header_of(&["A", "B"]);
    let mut item = DataItem::new(UniRef::Loc(h), values(&["1", "2"]));
    assert_eq!(item.set("C", "3".to_string()), Some("3".to_string()));
    assert_eq!(item.get_header().unwrap().get("C"), Some(&2));
    assert_eq!(item.to_line(), "1;2;3");
    assert_eq!(item.len(), 3);
}

#[test]
fn set_on_item_without_header_starts_at_one() {
    let mut item = DataItem::new(UniRef::Int, values(&[""]));
    assert_eq!(item.set("X", "7".to_string()), Some("7".to_string()));
    assert_eq!(item.get_header().unwrap().get("X"), Some(&1));
    assert_eq!(item.to_line(), ";7");
    assert_eq!(item.get::<i32>("X"), Some(7));
}

#[test]
fn get_header_reports_the_header() {
    let h = header_of(&["A"]);
    let item = DataItem::new(UniRef::Ref(&h), values(&["1"]));
    assert_eq!(item.get_header().unwrap().get("A"), Some(&0));
    let none = DataItem::new(UniRef::Int, vec![]);
    assert_eq!(none.get_header().unwrap().len(), 0);
}

#[test]
fn older_item_reads_through_header() {
    let h = header_of(&["A", "B"]);
    let item = enem_kdd::data::data_item::DataItem::new(UniRef::Ref(&h), values(&["x", "5"]));
    assert_eq!(item.get::<u8>("B"), Some(5));
    assert_eq!(item.get::<String>("A"), Some("x".to_string()));
    assert_eq!(item.get::<u8>("C"), None);
    let bare = enem_kdd::data::data_item::DataItem::new(UniRef::Int, values(&["x"]));
    assert_eq!(bare.get::<String>("A"), None);
    assert_eq!(bare.len(), 1);
}

#[test]
fn keyed_item_reads_by_name() {
    let mut m = enem_kdd::data::TextMap::new();
    m.insert("CO_ESCOLA".to_string(), "3100".to_string());
    m.insert("TP".to_string(), "x".to_string());
    let item = enem_kdd::data::base::DataItem::new(m);
    assert_eq!(item.get::<u32>("CO_ESCOLA"), Some(3100));
    assert_eq!(item.get::<u32>("TP"), None);
    assert_eq!(item.get::<u32>("NONE"), None);
    assert_eq!(item.field("TP").map(|s| s.as_str()), Some("x"));
}

#[test]
fn enem_record_filter() {
    let h = header_of(&["CO_ESCOLA", "TP_PRESENCA_MT", "TP_PRESENCA_LC"]);
    let keep = |v: &[&str]| keep_enem_record(&DataItem::new(UniRef::Ref(&h), values(v)));
    assert!(keep(&["31000", "1", "1"]));
    assert!(keep(&["31000", "+1", "01"]));
    assert!(!keep(&["", "1", "1"]));
    assert!(!keep(&["31000", "0", "1"]));
    assert!(!keep(&["31000", "1", "2"]));
    assert!(!keep(&["31000", "1", " 1"]));
    let partial = header_of(&["CO_ESCOLA", "TP_PRESENCA_MT"]);
    assert!(!keep_enem_record(&DataItem::new(UniRef::Ref(&partial), values(&["3", "1"]))));
}

#[test]
fn row_fields_pair_names_with_columns() {
    let header = values(&["A", "B", "A"]);
    let m = fields_of_row(&header, &values(&["1", "2", "3"]));
    assert_eq!(m.len(), 2);
    assert_eq!(m.get("A").map(|s| s.as_str()), Some("3"));
    assert_eq!(m.get("B").map(|s| s.as_str()), Some("2"));
    let short = fields_of_row(&header, &values(&["x"]));
    assert_eq!(short.len(), 1);
    assert_eq!(short.get("B"), None);
}
