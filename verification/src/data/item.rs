//! A data item: one row of a data file, read through its header.

use vstd::prelude::*;
use crate::data::header::{max_position_of, DataHeader, TextMap};
use crate::data::parse::parse_value;
use crate::text::{join, join_strings};
use crate::types::UniRef;

verus! {

/// One row of a data file: the text of each field, and the header that
/// names the fields.
pub struct DataItem<'a> {
    _header: UniRef<'a, DataHeader>,
    _value: Vec<String>,
}

/// The text of the column `name` of an item with header `header` and
/// fields `values`, when the header has that column.
pub open spec fn field_text(
    header: Option<Map<Seq<char>, usize>>,
    values: Seq<Seq<char>>,
    name: Seq<char>,
) -> Option<Seq<char>> {
    match header {
        Some(h) => if h.contains_key(name) {
            Some(values[h[name] as int])
        } else {
            None
        },
        None => None,
    }
}

/// `s` lengthened to `n` fields with empty fields, if it is shorter.
pub open spec fn pad_fields(s: Seq<Seq<char>>, n: int) -> Seq<Seq<char>> {
    Seq::new(
        if s.len() >= n {
            s.len()
        } else {
            n as nat
        },
        |i: int|
            if i < s.len() {
                s[i]
            } else {
                Seq::empty()
            },
    )
}

/// The position at which `set` stores `name`: its position in `h`, or one
/// past the largest position of `h`.
pub open spec fn set_position(h: Map<Seq<char>, usize>, name: Seq<char>) -> int {
    if h.contains_key(name) {
        h[name] as int
    } else {
        max_position_of(h) + 1
    }
}

impl<'a> DataItem<'a> {
    /// The header's map, unless the item has no header.
    pub closed spec fn header(&self) -> Option<Map<Seq<char>, usize>> {
        match self._header.value() {
            Some(h) => Some(h@),
            None => None,
        }
    }

    /// Whether the item owns its header, so that `set` may add columns.
    pub closed spec fn owns_header(&self) -> bool {
        self._header is Loc || self._header is Mut
    }

    /// The text of each field, in order.
    pub closed spec fn values(&self) -> Seq<Seq<char>> {
        self._value@.map_values(|v: String| v@)
    }

    /// The number of fields.
    pub fn len(&self) -> (n: usize)
        ensures
            n == self.values().len(),
    {
        self._value.len()
    }

    /// The column `name`, if the header has it, is one of the item's
    /// fields.
    pub open spec fn column_in_range(&self, name: Seq<char>) -> bool {
        match self.header() {
            Some(h) => h.contains_key(name) ==> h[name] < self.values().len(),
            None => true,
        }
    }

    /// An item over `header` with the fields `value`.  A mutably borrowed
    /// header is kept for reading only; no header gives an owned empty one.
    pub fn new(header: UniRef<'a, DataHeader>, value: Vec<String>) -> (r: Self)
        ensures
            r.values() == value@.map_values(|v: String| v@),
            match header {
                UniRef::Mut(h) => r.header() == Some(h@) && !r.owns_header() && *final(h) == *h,
                UniRef::Ref(h) => r.header() == Some(h@) && !r.owns_header(),
                UniRef::Loc(h) => r.header() == Some(h@) && r.owns_header(),
                UniRef::Int => r.header() == Some(Map::<Seq<char>, usize>::empty())
                    && r.owns_header(),
            },
    {
        Self {
            _header: match header {
                UniRef::Mut(h) => UniRef::Ref(h),
                UniRef::Ref(h) => UniRef::Ref(h),
                UniRef::Loc(h) => UniRef::Loc(h),
                UniRef::Int => UniRef::Loc(DataHeader::new()),
            },
            _value: value,
        }
    }

    /// Stores `value` in the column `name`, adding the column after the
    /// last one when the header lacks it.  Only an item that owns its header
    /// can be changed; the others give `None` and stay as they are.
    pub fn set(&mut self, name: &str, value: String) -> (r: Option<String>)
        requires
            old(self).owns_header() ==> old(self).values().len() > 0,
            old(self).owns_header() && !old(self).header().unwrap().contains_key(name@)
                ==> max_position_of(old(self).header().unwrap()) < usize::MAX,
        ensures
            !old(self).owns_header() ==> {
                &&& r is None
                &&& final(self).header() == old(self).header()
                &&& final(self).values() == old(self).values()
                &&& !final(self).owns_header()
            },
            old(self).owns_header() ==> {
                let h = old(self).header().unwrap();
                let pos = set_position(h, name@);
                &&& r == Some(value)
                &&& final(self).owns_header()
                &&& final(self).header() == Some(h.insert(name@, pos as usize))
                &&& final(self).values() == pad_fields(old(self).values(), pos + 1).update(
                    pos,
                    value@,
                )
            },
    {
        let ghost old_values = self.values();
        match self._header.get_mut() {
            Some(h) => {
                let ghost h0 = h@;
                let pos: usize = match h.get(name) {
                    Some(p) => {
                        assert(h@.insert(name@, *p) =~= h@);
                        *p
                    },
                    None => {
                        let p: usize = h.max_position() + 1;
                        h.insert(String::from_str(name), p);
                        p
                    },
                };
                let ghost hdr = self._header;
                while self._value.len() - 1 < pos
                    invariant
                        self._header == hdr,
                        self._value.len() > 0,
                        self._value.len() >= old_values.len(),
                        self._value.len() == old_values.len() || self._value.len() <= pos + 1,
                        self._value@.map_values(|v: String| v@) == pad_fields(
                            old_values,
                            self._value.len() as int,
                        ),
                    decreases pos + 1 - self._value.len(),
                {
                    let ghost before = self._value@;
                    self._value.push(String::new());
                    assert(self._value@.map_values(|v: String| v@) =~= pad_fields(
                        old_values,
                        self._value.len() as int,
                    )) by {
                        assert forall|i: int| 0 <= i < self._value.len() implies #[trigger] self._value@[i]@
                            == pad_fields(old_values, self._value.len() as int)[i] by {
                            if i < before.len() {
                                assert(self._value@[i] == before[i]);
                                assert(before.map_values(|v: String| v@)[i] == before[i]@);
                            }
                        }
                    }
                }
                assert(pad_fields(old_values, self._value.len() as int) =~= pad_fields(old_values, pos + 1));
                assert(pos == set_position(h0, name@));
                assert(h@ == h0.insert(name@, pos));
                let stored = value.clone();
                self._value.set(pos, stored);
                assert(self._value@.map_values(|v: String| v@) =~= pad_fields(
                    old_values,
                    pos + 1,
                ).update(pos as int, value@));
                Some(value)
            },
            None => None,
        }
    }

    /// The text of the column `name`, unless the item has no header or the
    /// header lacks the column.
    pub fn field(&self, name: &str) -> (r: Option<&String>)
        requires
            self.column_in_range(name@),
        ensures
            match r {
                Some(v) => field_text(self.header(), self.values(), name@) == Some(v@),
                None => field_text(self.header(), self.values(), name@) is None,
            },
    {
        match self._header.get_ref() {
            Some(h) => match h.get(name) {
                Some(i) => Some(&self._value[*i]),
                None => None,
            },
            None => None,
        }
    }

    /// The column `name` read as a `T`.  It is `None` when the item has no
    /// header, the header lacks the column, or the text does not parse.
    pub fn get<T: std::str::FromStr>(&self, name: &str) -> (r: Option<T>)
        requires
            self.column_in_range(name@),
        ensures
            field_text(self.header(), self.values(), name@) is None ==> r is None,
    {
        match self.field(name) {
            Some(v) => parse_value::<T>(v.as_str()),
            None => None,
        }
    }

    /// The item's header, unless it has none.
    pub fn get_header(&self) -> (r: Option<&DataHeader>)
        ensures
            match r {
                Some(h) => self.header() == Some(h@),
                None => self.header() is None,
            },
    {
        self._header.get_ref()
    }

    /// The item as a line of its file: the fields joined by `;`.
    pub fn to_line(&self) -> (r: String)
        ensures
            r@ == join(self.values(), ';'),
    {
        join_strings(&self._value, ';')
    }
}

/// Storing `value` in the column `name` of an item that owns its header
/// and reading that column back gives `value`; a column at another position
/// keeps its text.
pub proof fn lemma_set_then_read(
    h: Map<Seq<char>, usize>,
    values: Seq<Seq<char>>,
    name: Seq<char>,
    value: Seq<char>,
    other: Seq<char>,
)
    requires
        !h.contains_key(name) ==> max_position_of(h) < usize::MAX,
    ensures
        ({
            let pos = set_position(h, name);
            let h2 = h.insert(name, pos as usize);
            let v2 = pad_fields(values, pos + 1).update(pos, value);
            &&& field_text(Some(h2), v2, name) == Some(value)
            &&& other != name && h.contains_key(other) && h[other] != pos && h[other]
                < values.len() ==> field_text(Some(h2), v2, other) == field_text(
                Some(h),
                values,
                other,
            )
        }),
{
}

} // verus!
