//! Character-level text helpers: whitespace trimming, splitting on a
//! separator and joining, each with a mathematical model over `Seq<char>`.

use vstd::prelude::*;

verus! {

/// The Unicode `White_Space` property, which is what `char::is_whitespace`
/// tests.
pub open spec fn is_ws(c: char) -> bool {
    let u: u32 = c as u32;
    ||| 0x09 <= u <= 0x0d
    ||| u == 0x20
    ||| u == 0x85
    ||| u == 0xa0
    ||| u == 0x1680
    ||| 0x2000 <= u <= 0x200a
    ||| u == 0x2028
    ||| u == 0x2029
    ||| u == 0x202f
    ||| u == 0x205f
    ||| u == 0x3000
}

/// `s` without its leading whitespace.
pub open spec fn trim_start(s: Seq<char>) -> Seq<char>
    decreases s.len(),
{
    if s.len() > 0 && is_ws(s[0]) {
        trim_start(s.drop_first())
    } else {
        s
    }
}

/// `s` without its trailing whitespace.
pub open spec fn trim_end(s: Seq<char>) -> Seq<char>
    decreases s.len(),
{
    if s.len() > 0 && is_ws(s.last()) {
        trim_end(s.drop_last())
    } else {
        s
    }
}

/// `s` without leading and trailing whitespace.
pub open spec fn trim(s: Seq<char>) -> Seq<char> {
    trim_end(trim_start(s))
}

/// Which characters are whitespace: the visible ASCII characters `!`
/// through `~` never are, the ASCII space, tab, line feed, vertical tab,
/// form feed and carriage return always are, and every whitespace
/// character is either an ASCII control or space, or lies between U+0085
/// and U+3000.
pub proof fn lemma_whitespace_chars(c: char)
    ensures
        '!' <= c && c <= '~' ==> !is_ws(c),
        c == ' ' || c == '\t' || c == '\n' || c == '\r' || c == '\u{b}' || c == '\u{c}' ==> is_ws(c),
        is_ws(c) ==> (c as u32) <= 0x20 || (0x85 <= (c as u32) && (c as u32) <= 0x3000),
{
}

/// Text that starts and ends with a visible ASCII character (`!` to `~`)
/// is left as it is by trimming: nothing but whitespace is ever removed.
pub proof fn lemma_trim_keeps_visible_ends(s: Seq<char>)
    requires
        s.len() > 0,
        '!' <= s[0] && s[0] <= '~',
        '!' <= s.last() && s.last() <= '~',
    ensures
        trim(s) == s,
{
    lemma_whitespace_chars(s[0]);
    lemma_whitespace_chars(s.last());
}

/// Whether `c` is whitespace.
pub fn is_whitespace(c: char) -> (r: bool)
    ensures
        r == is_ws(c),
{
    let u: u32 = c as u32;
    (0x09 <= u && u <= 0x0d) || u == 0x20 || u == 0x85 || u == 0xa0 || u == 0x1680 || (0x2000
        <= u && u <= 0x200a) || u == 0x2028 || u == 0x2029 || u == 0x202f || u == 0x205f || u
        == 0x3000
}

/// Appends one character to a string.
#[verifier::external_body]
pub(crate) fn push_char(s: &mut String, c: char)
    ensures
        final(s)@ == old(s)@.push(c),
{
    s.push(c)
}

proof fn lemma_trim_start_skip(s: Seq<char>, i: int)
    requires
        0 <= i <= s.len(),
        forall|k: int| 0 <= k < i ==> is_ws(#[trigger] s[k]),
    ensures
        trim_start(s) == trim_start(s.subrange(i, s.len() as int)),
    decreases i,
{
    if i == 0 {
        assert(s.subrange(0, s.len() as int) == s);
    } else {
        assert(is_ws(s[0]));
        assert(s.drop_first() == s.subrange(1, s.len() as int));
        lemma_trim_start_skip(s.drop_first(), i - 1);
        assert(s.drop_first().subrange(i - 1, s.drop_first().len() as int) == s.subrange(
            i,
            s.len() as int,
        ));
    }
}

proof fn lemma_trim_end_cut(s: Seq<char>, j: int)
    requires
        0 <= j <= s.len(),
        forall|k: int| j <= k < s.len() ==> is_ws(#[trigger] s[k]),
    ensures
        trim_end(s) == trim_end(s.subrange(0, j)),
    decreases s.len() - j,
{
    if j == s.len() {
        assert(s.subrange(0, j) == s);
    } else {
        assert(is_ws(s.last()));
        lemma_trim_end_cut(s.drop_last(), j);
        assert(s.drop_last().subrange(0, j) == s.subrange(0, j));
    }
}

/// The characters `v[lo..hi]` with surrounding whitespace removed, as a
/// fresh string.
pub fn trimmed_string(v: &Vec<char>, lo: usize, hi: usize) -> (r: String)
    requires
        lo <= hi <= v.len(),
    ensures
        r@ == trim(v@.subrange(lo as int, hi as int)),
{
    let ghost seg = v@.subrange(lo as int, hi as int);
    let mut i: usize = lo;
    while i < hi && is_whitespace(v[i])
        invariant
            lo <= i <= hi <= v.len(),
            seg == v@.subrange(lo as int, hi as int),
            forall|k: int| lo <= k < i ==> is_ws(#[trigger] v@[k]),
        decreases hi - i,
    {
        i = i + 1;
    }
    proof {
        assert forall|k: int| 0 <= k < i - lo implies is_ws(#[trigger] seg[k]) by {
            assert(seg[k] == v@[lo + k]);
        }
        lemma_trim_start_skip(seg, i - lo);
        assert(seg.subrange(i - lo, seg.len() as int) == v@.subrange(i as int, hi as int));
    }
    let mut j: usize = hi;
    while j > i && is_whitespace(v[j - 1])
        invariant
            lo <= i <= j <= hi <= v.len(),
            forall|k: int| j <= k < hi ==> is_ws(#[trigger] v@[k]),
        decreases j - i,
    {
        j = j - 1;
    }
    let ghost mid = v@.subrange(i as int, hi as int);
    proof {
        // `mid` either is empty or starts with a non-whitespace character.
        assert(trim_start(mid) == mid) by {
            if mid.len() > 0 {
                assert(mid[0] == v@[i as int]);
            }
        }
        assert forall|k: int| j - i <= k < mid.len() implies is_ws(#[trigger] mid[k]) by {
            assert(mid[k] == v@[i + k]);
        }
        lemma_trim_end_cut(mid, j - i);
        assert(mid.subrange(0, j - i) == v@.subrange(i as int, j as int));
    }
    let mut out = String::new();
    let mut k: usize = i;
    while k < j
        invariant
            i <= k <= j <= v.len(),
            out@ == v@.subrange(i as int, k as int),
        decreases j - k,
    {
        push_char(&mut out, v[k]);
        assert(v@.subrange(i as int, k + 1) == v@.subrange(i as int, k as int).push(v@[k as int]));
        k = k + 1;
    }
    out
}

/// The fields of `s` between occurrences of `sep`, in order.  There is
/// always at least one field; `sep` itself belongs to no field.
pub open spec fn split(s: Seq<char>, sep: char) -> Seq<Seq<char>>
    decreases s.len(),
{
    if s.len() == 0 {
        seq![Seq::empty()]
    } else {
        let prev = split(s.drop_last(), sep);
        if s.last() == sep {
            prev.push(Seq::empty())
        } else {
            prev.update(prev.len() - 1, prev.last().push(s.last()))
        }
    }
}

/// `split` never yields an empty list of fields.
pub proof fn lemma_split_nonempty(s: Seq<char>, sep: char)
    ensures
        split(s, sep).len() >= 1,
    decreases s.len(),
{
    if s.len() > 0 {
        lemma_split_nonempty(s.drop_last(), sep);
    }
}

/// The characters of `s`, in order.
pub fn chars_of(s: &str) -> (v: Vec<char>)
    ensures
        v@ == s@,
{
    broadcast use vstd::string::group_string_axioms;

    let mut v: Vec<char> = Vec::new();
    for c in it: s.chars()
        invariant
            v@ == it.seq().take(it.index() as int),
    {
        v.push(c);
    }
    v
}

/// The fields written one after another with `sep` between each two.
pub open spec fn join(fields: Seq<Seq<char>>, sep: char) -> Seq<char>
    decreases fields.len(),
{
    if fields.len() == 0 {
        Seq::empty()
    } else if fields.len() == 1 {
        fields[0]
    } else {
        join(fields.drop_last(), sep).push(sep) + fields.last()
    }
}

/// The text of `fields`, written one after another with `sep` between each
/// two.
pub fn join_strings(fields: &Vec<String>, sep: char) -> (r: String)
    ensures
        r@ == join(fields@.map_values(|f: String| f@), sep),
{
    let ghost fv = fields@.map_values(|f: String| f@);
    let mut out = String::new();
    let mut i: usize = 0;
    while i < fields.len()
        invariant
            i <= fields.len(),
            fv == fields@.map_values(|f: String| f@),
            out@ == join(fv.take(i as int), sep),
        decreases fields.len() - i,
    {
        assert(fv.take(i + 1).drop_last() == fv.take(i as int));
        assert(fv.take(i + 1).last() == fields@[i as int]@);
        if i > 0 {
            push_char(&mut out, sep);
        } else {
            assert(out@ == Seq::<char>::empty());
        }
        out.append(fields[i].as_str());
        i = i + 1;
    }
    assert(fv.take(i as int) == fv);
    out
}

/// Splitting text that ends in a stretch without `sep` extends the last
/// field by that stretch.
proof fn lemma_split_append(s: Seq<char>, t: Seq<char>, sep: char)
    requires
        !t.contains(sep),
    ensures
        split(s + t, sep) == split(s, sep).update(
            split(s, sep).len() - 1,
            split(s, sep).last() + t,
        ),
    decreases t.len(),
{
    lemma_split_nonempty(s, sep);
    if t.len() == 0 {
        assert(s + t == s);
        assert(split(s, sep).last() + t == split(s, sep).last());
        assert(split(s, sep).update(split(s, sep).len() - 1, split(s, sep).last())
            == split(s, sep));
    } else {
        let t0 = t.drop_last();
        assert(!t0.contains(sep)) by {
            assert forall|k: int| 0 <= k < t0.len() implies t0[k] != sep by {
                assert(t0[k] == t[k]);
            }
        }
        lemma_split_append(s, t0, sep);
        assert((s + t).drop_last() == s + t0);
        assert((s + t).last() == t.last());
        assert(t.last() != sep) by {
            assert(t.last() == t[t.len() - 1]);
        }
        assert((split(s, sep).last() + t0).push(t.last()) == split(s, sep).last() + t);
    }
}

/// Text joined from fields that do not hold the separator splits back into
/// the same fields.
pub proof fn lemma_split_join(fields: Seq<Seq<char>>, sep: char)
    requires
        fields.len() >= 1,
        forall|i: int| 0 <= i < fields.len() ==> !(#[trigger] fields[i]).contains(sep),
    ensures
        split(join(fields, sep), sep) == fields,
    decreases fields.len(),
{
    if fields.len() == 1 {
        lemma_split_append(Seq::empty(), fields[0], sep);
        assert(Seq::<char>::empty() + fields[0] == fields[0]);
        assert(split(Seq::<char>::empty(), sep).last() + fields[0] == fields[0]);
        assert(seq![Seq::<char>::empty()].update(0, fields[0]) == fields);
    } else {
        let init = fields.drop_last();
        assert forall|i: int| 0 <= i < init.len() implies !(#[trigger] init[i]).contains(sep) by {
            assert(init[i] == fields[i]);
        }
        lemma_split_join(init, sep);
        let pre = join(init, sep).push(sep);
        assert(fields.last() == fields[fields.len() - 1]);
        lemma_split_append(pre, fields.last(), sep);
        assert(pre.drop_last() == join(init, sep));
        assert(split(pre, sep) == init.push(Seq::empty()));
        assert(Seq::<char>::empty() + fields.last() == fields.last());
        assert(init.push(Seq::empty()).update(init.len() as int, fields.last()) == fields);
    }
}

} // verus!
