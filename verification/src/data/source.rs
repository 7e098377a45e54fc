//! The decisions of a data source that touch no file: the names it gives
//! the files it creates, how it reads one line into columns, and how it
//! splits a file into chunks for parallel reading.

use vstd::prelude::*;
use crate::text::{chars_of, split, trim, trimmed_string};
use crate::utils::get_csv_cols::{csv_cols, get_csv_cols};

verus! {

/// The size of the read buffer, and the smallest chunk a file is split into.
pub const BUFFER_SIZE: usize = 1024;

/// Whether `c` is a lower-case hexadecimal digit.
pub open spec fn is_lower_hex(c: char) -> bool {
    ('0' <= c && c <= '9') || ('a' <= c && c <= 'f')
}

/// Whether `s` is the hyphenated text of a random (version 4) UUID: 36
/// characters, hyphens at 8, 13, 18 and 23, lower-case hex digits
/// elsewhere, a `4` at 14 and one of `8`, `9`, `a`, `b` at 19.
pub open spec fn is_uuid_v4_text(s: Seq<char>) -> bool {
    &&& s.len() == 36
    &&& forall|i: int|
        0 <= i < 36 ==> if i == 8 || i == 13 || i == 18 || i == 23 {
            #[trigger] s[i] == '-'
        } else {
            is_lower_hex(s[i])
        }
    &&& s[14] == '4'
    &&& s[19] == '8' || s[19] == '9' || s[19] == 'a' || s[19] == 'b'
}

/// `Uuid::new_v4().to_string()`: a fresh random UUID in hyphenated form.
/// The uuid crate formats it as 36 lower-case characters with the version
/// and variant digits fixed; the random digits are unconstrained.
#[verifier::external_body]
fn new_uuid_text() -> (r: String)
    ensures
        is_uuid_v4_text(r@),
{
    uuid::Uuid::new_v4().to_string()
}

/// The file name `stem.csv`.
pub fn csv_file_name(stem: &str) -> (r: String)
    ensures
        r@ == stem@ + ".csv"@,
{
    let mut r = String::from_str(stem);
    r.append(".csv");
    r
}

/// The file name of a derived data source: `name.csv`, or a fresh random
/// UUID followed by `.csv` when no name is given.
pub fn child_file_name(name: Option<&str>) -> (r: String)
    ensures
        match name {
            Some(n) => r@ == n@ + ".csv"@,
            None => r@.len() == 40 && is_uuid_v4_text(r@.take(36)) && r@.skip(36) == ".csv"@,
        },
{
    match name {
        Some(n) => csv_file_name(n),
        None => {
            let id = new_uuid_text();
            let r = csv_file_name(id.as_str());
            proof {
                reveal_strlit(".csv");
                assert(r@.take(36) == id@);
                assert(r@.skip(36) == ".csv"@);
            }
            r
        },
    }
}

/// What `str::to_lowercase` gives for `s` (the Unicode lower-case mapping).
pub uninterp spec fn lowercase_of(s: Seq<char>) -> Seq<char>;

/// `str::to_lowercase`: the lower-case form of `s`, named `lowercase_of`.
#[verifier::external_body]
fn to_lowercase(s: &str) -> (r: String)
    ensures
        r@ == lowercase_of(s@),
{
    s.to_lowercase()
}

/// What `Regex::new(pattern)` followed by `replace_all(text, rep)` gives:
/// `None` when `pattern` is not a valid regular expression.
pub uninterp spec fn regex_replace_all_of(
    pattern: Seq<char>,
    text: Seq<char>,
    rep: Seq<char>,
) -> Option<Seq<char>>;

/// The characters of `s` that are lower-case ASCII letters, in order.
pub open spec fn ascii_lowercase_letters(s: Seq<char>) -> Seq<char> {
    s.filter(|c: char| 'a' <= c && c <= 'z')
}

/// `regex::Regex::new(pattern)` and then `replace_all(text, rep)`: every
/// match of `pattern` in `text` replaced by `rep`, or `None` when the
/// pattern does not compile.  The result is named `regex_replace_all_of`;
/// for the class `[^a-z]` and an empty replacement the regex syntax
/// documentation makes it the lower-case ASCII letters of the text.
#[verifier::external_body]
fn regex_replace_all(pattern: &str, text: &str, rep: &str) -> (r: Option<String>)
    ensures
        match r {
            Some(s) => {
                &&& regex_replace_all_of(pattern@, text@, rep@) == Some(s@)
                &&& pattern@ == "[^a-z]"@ && rep@ == ""@ ==> s@ == ascii_lowercase_letters(text@)
            },
            None => {
                &&& regex_replace_all_of(pattern@, text@, rep@) is None
                &&& !(pattern@ == "[^a-z]"@ && rep@ == ""@)
            },
        },
{
    match regex::Regex::new(pattern) {
        Ok(re) => Some(re.replace_all(text, rep).into_owned()),
        Err(_) => None,
    }
}

/// The file name of the archive a remote source is downloaded to: the
/// lower-case ASCII letters of its lower-cased address, then `.zip`.
pub fn zip_file_name(url: &str) -> (r: String)
    ensures
        r@ == ascii_lowercase_letters(lowercase_of(url@)) + ".zip"@,
{
    let lower = to_lowercase(url);
    let letters = regex_replace_all("[^a-z]", lower.as_str(), "");
    proof {
        reveal_strlit("[^a-z]");
        reveal_strlit("");
    }
    match letters {
        Some(l) => zip_name_of_letters(l.as_str()),
        None => {
            assert(false);
            String::new()
        },
    }
}

/// The archive name for the letters `letters` of an address: `letters.zip`.
pub fn zip_name_of_letters(letters: &str) -> (r: String)
    ensures
        r@ == letters@ + ".zip"@,
{
    let mut r = String::from_str(letters);
    r.append(".zip");
    r
}

/// The folder an archive is unpacked into: the first `/`-separated segment
/// of the data file's path.
pub fn archive_folder(path: &str) -> (r: String)
    ensures
        r@ == split(path@, '/')[0],
{
    let v = chars_of(path);
    assert(v@.take(0) == Seq::<char>::empty());
    let mut i: usize = 0;
    while i < v.len() && v[i] != '/'
        invariant
            i <= v.len(),
            v@ == path@,
            split(v@.take(i as int), '/') == seq![v@.take(i as int)],
        decreases v.len() - i,
    {
        assert(v@.take(i + 1).drop_last() == v@.take(i as int));
        assert(v@.take(i + 1).last() == v@[i as int]);
        assert(v@.take(i as int).push(v@[i as int]) == v@.take(i + 1));
        i = i + 1;
    }
    proof {
        if i < v.len() {
            lemma_split_first_stable(v@, i + 1, v@.take(i as int));
        } else {
            assert(v@.take(i as int) == v@);
        }
    }
    let mut out = String::new();
    let mut k: usize = 0;
    while k < i
        invariant
            k <= i <= v.len(),
            out@ == v@.take(k as int),
        decreases i - k,
    {
        crate::text::push_char(&mut out, v[k]);
        assert(v@.take(k + 1) == v@.take(k as int).push(v@[k as int]));
        k = k + 1;
    }
    out
}

/// Once a separator has been read, the first field no longer changes.
proof fn lemma_split_first_stable(s: Seq<char>, j: int, first: Seq<char>)
    requires
        1 <= j <= s.len(),
        split(s.take(j - 1), '/') == seq![first],
        s[j - 1] == '/',
    ensures
        split(s, '/')[0] == first,
{
    assert forall|m: int| j <= m <= s.len() implies split(#[trigger] s.take(m), '/').len() >= 2
        && split(s.take(m), '/')[0] == first by {
        lemma_split_first_stable_at(s, j, m, first);
    }
    assert(s.take(s.len() as int) == s);
}

proof fn lemma_split_first_stable_at(s: Seq<char>, j: int, m: int, first: Seq<char>)
    requires
        1 <= j <= m <= s.len(),
        split(s.take(j - 1), '/') == seq![first],
        s[j - 1] == '/',
    ensures
        split(s.take(m), '/').len() >= 2,
        split(s.take(m), '/')[0] == first,
    decreases m - j,
{
    assert(s.take(m).drop_last() == s.take(m - 1));
    assert(s.take(m).last() == s[m - 1]);
    if m > j {
        lemma_split_first_stable_at(s, j, m - 1, first);
    }
}

/// What `String::from_utf8_lossy` gives for `bytes` (invalid sequences
/// replaced by U+FFFD).
pub uninterp spec fn utf8_lossy_of(bytes: Seq<u8>) -> Seq<char>;

/// `String::from_utf8_lossy`: the text of `bytes`, named `utf8_lossy_of`.
#[verifier::external_body]
fn decode_lossy(bytes: &[u8]) -> (r: String)
    ensures
        r@ == utf8_lossy_of(bytes@),
{
    String::from_utf8_lossy(bytes).into_owned()
}

/// The columns of a line of text: the line without surrounding whitespace,
/// split on `;`, each field trimmed.
pub fn columns_of_text(text: &str) -> (r: Vec<String>)
    ensures
        r@.map_values(|c: String| c@) == csv_cols(trim(text@), ';'),
{
    let v = chars_of(text);
    let line = trimmed_string(&v, 0, v.len());
    assert(v@.subrange(0, v@.len() as int) == text@);
    get_csv_cols(line.as_str(), ';')
}

/// The columns of a line read from a data file as raw bytes.
pub fn line_columns(bytes: &[u8]) -> (r: Vec<String>)
    ensures
        r@.map_values(|c: String| c@) == csv_cols(trim(utf8_lossy_of(bytes@)), ';'),
{
    let text = decode_lossy(bytes);
    columns_of_text(text.as_str())
}

/// Why a file cannot be split into chunks.
#[derive(Debug, PartialEq, Eq)]
pub enum ChunkError {
    /// The chunk size is below the buffer size.
    ChunkTooSmall,
}

/// How many results may wait in the channel of a parallel read with chunks
/// of `chunk_size` bytes: one per buffer of a chunk.  Chunks smaller than a
/// buffer are refused.
pub fn channel_capacity(chunk_size: u64) -> (r: Result<usize, ChunkError>)
    ensures
        (chunk_size as usize) < BUFFER_SIZE ==> r == Err::<usize, ChunkError>(
            ChunkError::ChunkTooSmall,
        ),
        (chunk_size as usize) >= BUFFER_SIZE ==> r == Ok::<usize, ChunkError>(
            (chunk_size as usize) / BUFFER_SIZE,
        ),
{
    let c: usize = chunk_size as usize;
    if BUFFER_SIZE > c {
        Err(ChunkError::ChunkTooSmall)
    } else {
        Ok(c / BUFFER_SIZE)
    }
}

/// What a chunk reader does after a read.
#[derive(Debug, PartialEq, Eq)]
pub enum ChunkAction {
    /// Hand the line read to the consumer and read on.
    Send,
    /// The chunk is done.
    Stop,
}

/// One step of a chunk reader that has read `pos` bytes of its chunk and
/// then tried to read a line: `read` is the number of bytes of the line
/// read, or `None` when nothing could be read.  Gives the new count and the
/// action.
pub fn chunk_step(pos: u64, read: Option<u64>, chunk_size: u64) -> (r: (u64, ChunkAction))
    requires
        read matches Some(b) ==> pos + b <= u64::MAX,
    ensures
        match read {
            Some(b) => r.0 == pos + b && (r.1 == if pos + b >= chunk_size || b == 0 {
                ChunkAction::Stop
            } else {
                ChunkAction::Send
            }),
            None => r == (pos, ChunkAction::Stop),
        },
{
    match read {
        Some(b) => {
            let p: u64 = pos + b;
            if p >= chunk_size || b == 0 {
                (p, ChunkAction::Stop)
            } else {
                (p, ChunkAction::Send)
            }
        },
        None => (pos, ChunkAction::Stop),
    }
}

/// The bound for the random line a sample is drawn from: the file's size
/// divided by the buffer size, truncated to 32 bits.
pub fn sample_limit(file_size: u64, buffer_size: usize) -> (r: u32)
    requires
        buffer_size > 0,
    ensures
        r as int == (file_size / (buffer_size as u64)) as int % 0x1_0000_0000,
{
    let q: u64 = file_size / (buffer_size as u64);
    let r: u32 = q as u32;
    assert(r as int == q as int % 0x1_0000_0000) by (bit_vector)
        requires
            r == q as u32,
    ;
    r
}

} // verus!
