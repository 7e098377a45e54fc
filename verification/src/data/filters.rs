//! Which records of the ENEM results the pipeline keeps.

use vstd::prelude::*;
use crate::data::item::{field_text, DataItem};
use crate::data::parse::{i8_of, lemma_i8_of_digit, parse_i8};

verus! {

/// Whether a record with the text `school` for its school code and `math`,
/// `language` for its attendance marks is kept: it names a school and its
/// candidate sat both the mathematics and the languages test.
pub open spec fn kept_record(
    school: Option<Seq<char>>,
    math: Option<Seq<char>>,
    language: Option<Seq<char>>,
) -> bool {
    &&& school matches Some(s) && s.len() > 0
    &&& math matches Some(m) && i8_of(m) == Some(1i8)
    &&& language matches Some(l) && i8_of(l) == Some(1i8)
}

/// Whether to keep an ENEM record: the school code `CO_ESCOLA` is present
/// and not empty, and the attendance marks `TP_PRESENCA_MT` and
/// `TP_PRESENCA_LC` both read as 1.
pub fn keep_enem_record(item: &DataItem) -> (r: bool)
    requires
        item.column_in_range("CO_ESCOLA"@),
        item.column_in_range("TP_PRESENCA_MT"@),
        item.column_in_range("TP_PRESENCA_LC"@),
    ensures
        r == kept_record(
            field_text(item.header(), item.values(), "CO_ESCOLA"@),
            field_text(item.header(), item.values(), "TP_PRESENCA_MT"@),
            field_text(item.header(), item.values(), "TP_PRESENCA_LC"@),
        ),
{
    let has_school = match item.field("CO_ESCOLA") {
        Some(v) => v.as_str().unicode_len() > 0,
        None => false,
    };
    let present = |name: &str| -> (p: bool)
        requires
            item.column_in_range(name@),
        ensures
            p == (field_text(item.header(), item.values(), name@) matches Some(t) && i8_of(t)
                == Some(1i8)),
        {
            match item.field(name) {
                Some(v) => parse_i8(v.as_str()) == Some(1i8),
                None => false,
            }
        };
    has_school && present("TP_PRESENCA_MT") && present("TP_PRESENCA_LC")
}

/// A kept record names a school and reads 1 on both attendance marks; a
/// candidate marked 0 (absent) or 2 (eliminated) on either test, or with
/// a mark missing, is never kept; and a record with a school code and both
/// marks 1 is kept.
pub proof fn lemma_kept_record_meaning(
    school: Option<Seq<char>>,
    math: Option<Seq<char>>,
    language: Option<Seq<char>>,
)
    ensures
        kept_record(school, math, language) ==> (school matches Some(s) && s.len() > 0),
        kept_record(school, math, language) ==> (math matches Some(t) && i8_of(t) == Some(1i8)),
        kept_record(school, math, language) ==> (language matches Some(t) && i8_of(t) == Some(
            1i8,
        )),
        !kept_record(school, math, Some(seq!['0'])),
        !kept_record(school, Some(seq!['0']), language),
        !kept_record(school, math, Some(seq!['2'])),
        !kept_record(school, Some(seq!['2']), language),
        !kept_record(school, math, None),
        !kept_record(school, None, language),
        !kept_record(None, math, language),
        kept_record(Some(seq!['3']), Some(seq!['1']), Some(seq!['1'])),
{
    lemma_i8_of_digit('0');
    lemma_i8_of_digit('1');
    lemma_i8_of_digit('2');
}

} // verus!
