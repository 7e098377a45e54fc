use enem_kdd::data::base::source::{DataSource, WebDataSource, ZipDataSource};
use enem_kdd::data::base::DataSource as PublishedSource;
use enem_kdd::data::source::{
    archive_folder, channel_capacity, child_file_name, chunk_step, columns_of_text,
    csv_file_name, line_columns, sample_limit, zip_file_name, zip_name_of_letters,
    ChunkAction, ChunkError, BUFFER_SIZE,
};
use enem_kdd::data::{EnemDataSource, EscolasDataSource};
use enem_kdd::utils::debug_timer::lap_nanos;
use enem_kdd::utils::rand::rand_from_nanos;
use enem_kdd::utils::{rand, DebugTimer};

#[test]
fn rand_stays_below_limit() {
    for limit in [1u32, 2, 7, 1000] {
        assert!(rand(limit) < limit);
    }
    assert_eq!(rand(0), 0);
    assert_eq!(rand_from_nanos(123_456_789, 1000), 789);
    assert_eq!(rand_from_nanos(5, 0), 0);
}

#[test]
fn timer_laps() {
    assert_eq!(lap_nanos(10, 25), 15);
    assert_eq!(lap_nanos(25, 10), 15);
    let mut t = DebugTimer::new();
    let a = t.lap();
    let b = t.lap();
    assert!(a.as_secs() < 60 && b.as_secs() < 60);
}

#[test]
fn child_names() {
    assert_eq!(child_file_name(Some("s1_enem_filter")), "s1_enem_filter.csv");
    let anon = child_file_name(None);
    assert_eq!(anon.len(), 40);
    assert!(anon.ends_with(".csv"));
    assert_eq!(&anon[14..15], "4");
    assert_eq!(csv_file_name("x"), "x.csv");
}

#[test]
fn zip_names() {
    assert_eq!(
        zip_file_name("https://download.inep.gov.br/microdados/microdados_enem_2024.zip"),
        "httpsdownloadinepgovbrmicrodadosmicrodadosenemzip.zip"
    );
    assert_eq!(zip_file_name("ABC-12d"), "abcd.zip");
    assert_eq!(zip_name_of_letters("abc"), "abc.zip");
}

#[test]
fn archive_folders() {
    assert_eq!(archive_folder("microdados_enem_2024/DADOS/RESULTADOS_2024.csv"), "microdados_enem_2024");
    assert_eq!(archive_folder("plain.csv"), "plain.csv");
    assert_eq!(archive_folder("/abs"), "");
}

#[test]
fn line_columns_of_bytes() {
    assert_eq!(line_columns(b" a;b ;c\r\n"), vec!["a", "b", "c"]);
    assert_eq!(line_columns(&[0x61, 0xff, 0x3b, 0x62]), vec!["a\u{fffd}", "b"]);
    assert_eq!(columns_of_text("  x ; y  "), vec!["x", "y"]);
}

#[test]
fn chunking() {
    assert_eq!(channel_capacity(2_097_152), Ok(2048));
    assert_eq!(channel_capacity(1023), Err(ChunkError::ChunkTooSmall));
    assert_eq!(channel_capacity(BUFFER_SIZE as u64), Ok(1));
    assert_eq!(chunk_step(0, Some(10), 100), (10, ChunkAction::Send));
    assert_eq!(chunk_step(95, Some(10), 100), (105, ChunkAction::Stop));
    assert_eq!(chunk_step(5, Some(0), 100), (5, ChunkAction::Stop));
    assert_eq!(chunk_step(5, None, 100), (5, ChunkAction::Stop));
}

#[test]
fn sample_limits() {
    assert_eq!(sample_limit(10_240, 1024), 10);
    assert_eq!(sample_limit(1023, 1024), 0);
    assert_eq!(sample_limit(u64::MAX, 1), u32::MAX);
}

#[test]
fn published_sources() {
    let e = EnemDataSource::new();
    assert_eq!(e._web_source(), "https://download.inep.gov.br/microdados/microdados_enem_2024.zip");
    assert_eq!(e._source_path(), "microdados_enem_2024/DADOS/RESULTADOS_2024.csv");
    assert_eq!(e._struct_path(), "enem.json");
    let s = EscolasDataSource::new();
    assert_eq!(s._struct_path(), "escolas.json");
    assert_eq!(archive_folder(&s._source_path()), "microdados_censo_escolar_2024");
}

struct FromWeb(u8);
impl DataSource for FromWeb {
    fn init() -> Self {
        FromWeb(0)
    }
}
impl WebDataSource for FromWeb {
    fn web_init() -> Self {
        FromWeb(1)
    }
}

struct FromZip(u8);
impl DataSource for FromZip {
    fn init() -> Self {
        FromZip(0)
    }
}
impl ZipDataSource for FromZip {
    fn zip_init() -> Self {
        FromZip(2)
    }
}

#[test]
fn source_kinds_init() {
    assert_eq!(<FromWeb as WebDataSource>::init().0, 1);
    assert_eq!(<FromZip as ZipDataSource>::init().0, 2);
    assert_eq!(<FromWeb as DataSource>::init().0, 0);
}

#[allow(dead_code)]
fn uses_published<'a, S: PublishedSource<'a>>(s: &S) -> String {
    s._web_source()
}

#[test]
fn laps_add_up_to_the_total() {
    let ends = [0u128, 5, 5, 12, 40];
    let total: u128 = ends.windows(2).map(|w| lap_nanos(w[0], w[1])).sum();
    assert_eq!(total, 40);
}
