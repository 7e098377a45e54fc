//! Splitting one line of a `;`-separated file into trimmed columns.

use vstd::prelude::*;
use crate::text::{
    chars_of, join, lemma_split_join, lemma_split_nonempty, lemma_trim_keeps_visible_ends, split,
    trim, trimmed_string,
};

verus! {

/// The columns of `line`: the fields between occurrences of `pat`, each
/// without its surrounding whitespace.
pub open spec fn csv_cols(line: Seq<char>, pat: char) -> Seq<Seq<char>> {
    split(line, pat).map_values(|f: Seq<char>| trim(f))
}

/// Splits `line` on `pat` and trims every field.
pub fn get_csv_cols(line: &str, pat: char) -> (cols: Vec<String>)
    ensures
        cols@.map_values(|c: String| c@) == csv_cols(line@, pat),
{
    let v = chars_of(line);
    let mut cols: Vec<String> = Vec::new();
    let mut start: usize = 0;
    let mut i: usize = 0;
    while i < v.len()
        invariant
            start <= i <= v.len(),
            v@ == line@,
            split(v@.take(i as int), pat).len() == cols.len() + 1,
            split(v@.take(i as int), pat).last() == v@.subrange(start as int, i as int),
            forall|k: int|
                0 <= k < cols.len() ==> #[trigger] cols@[k]@ == trim(
                    split(v@.take(i as int), pat)[k],
                ),
        decreases v.len() - i,
    {
        let ghost prev = split(v@.take(i as int), pat);
        assert(v@.take(i + 1).drop_last() == v@.take(i as int));
        assert(v@.take(i + 1).last() == v@[i as int]);
        proof {
            lemma_split_nonempty(v@.take(i as int), pat);
        }
        if v[i] == pat {
            let field = trimmed_string(&v, start, i);
            cols.push(field);
            start = i + 1;
        } else {
            assert(v@.subrange(start as int, i + 1) == v@.subrange(start as int, i as int).push(
                v@[i as int],
            ));
        }
        i = i + 1;
    }
    let last = trimmed_string(&v, start, i);
    cols.push(last);
    assert(v@.take(i as int) == line@);
    assert(cols@.map_values(|c: String| c@) =~= csv_cols(line@, pat));
    cols
}

/// A line written from values that hold no separator and no surrounding
/// whitespace reads back as exactly those values.
pub proof fn lemma_csv_cols_of_joined(vals: Seq<Seq<char>>, pat: char)
    requires
        vals.len() >= 1,
        forall|i: int| 0 <= i < vals.len() ==> !(#[trigger] vals[i]).contains(pat),
        forall|i: int| 0 <= i < vals.len() ==> trim(#[trigger] vals[i]) == vals[i],
    ensures
        csv_cols(join(vals, pat), pat) == vals,
{
    lemma_split_join(vals, pat);
    assert(csv_cols(join(vals, pat), pat) =~= vals);
}

/// Whether `v` is empty or starts and ends with a visible ASCII character
/// (`!` to `~`), as numbers such as `-0.5` and codes such as `31000` do.
pub open spec fn visible_ends(v: Seq<char>) -> bool {
    v.len() == 0 || ('!' <= v[0] && v[0] <= '~' && '!' <= v.last() && v.last() <= '~')
}

/// A line written from values without the separator, each empty or with
/// visible ASCII characters at both ends (a leading `-` included), reads
/// back as exactly those values.
pub proof fn lemma_csv_cols_of_visible(vals: Seq<Seq<char>>, pat: char)
    requires
        vals.len() >= 1,
        forall|i: int| 0 <= i < vals.len() ==> !(#[trigger] vals[i]).contains(pat),
        forall|i: int| 0 <= i < vals.len() ==> visible_ends(#[trigger] vals[i]),
    ensures
        csv_cols(join(vals, pat), pat) == vals,
{
    assert forall|i: int| 0 <= i < vals.len() implies trim(#[trigger] vals[i]) == vals[i] by {
        if vals[i].len() > 0 {
            lemma_trim_keeps_visible_ends(vals[i]);
        } else {
            assert(trim(vals[i]) == vals[i]);
        }
    }
    lemma_csv_cols_of_joined(vals, pat);
}

} // verus!
