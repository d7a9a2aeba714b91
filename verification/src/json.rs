//! A JSON document, as the library reads and writes it.
//!
//! The documents come from the Server and from the archive, and the result
//! documents go back to the Server. Turning text into a `Json` and back is the
//! JSON library's work and happens where the bytes are; everything the Runner
//! decides from a document is decided here, against this model.
//!
//! **Reading a document into a record** follows the rules the records were
//! written against: an object is read member by member, ignoring members
//! nobody asked for; an array is read field by field in declaration order and
//! may not carry more elements than there are fields; a missing optional
//! member reads as absent, a missing member with a default reads as its
//! default, and anything else missing is an error.

use vstd::prelude::*;

verus! {

/// A JSON value.
pub enum Json {
    Null,
    Bool(bool),
    /// An integer that fits an `i64`.
    Int(i64),
    /// An integer above `i64::MAX`.
    Big(u64),
    /// Any other number, as it was written.
    Fraction(String),
    Str(String),
    Array(Vec<Json>),
    /// Members in document order.
    Object(Vec<(String, Json)>),
}

/// The mathematical content of a JSON value.
pub enum JsonView {
    Null,
    Bool(bool),
    Int(int),
    Big(int),
    Fraction(Seq<char>),
    Str(Seq<char>),
    Array(Seq<JsonView>),
    Object(Seq<(Seq<char>, JsonView)>),
}

impl View for Json {
    type V = JsonView;

    open spec fn view(&self) -> JsonView {
        json_view(*self)
    }
}

/// The mathematical content of a value.
pub open spec fn json_view(doc: Json) -> JsonView
    decreases doc, 0int,
{
    match doc {
        Json::Null => JsonView::Null,
        Json::Bool(b) => JsonView::Bool(b),
        Json::Int(i) => JsonView::Int(i as int),
        Json::Big(u) => JsonView::Big(u as int),
        Json::Fraction(s) => JsonView::Fraction(s@),
        Json::Str(s) => JsonView::Str(s@),
        Json::Array(items) => JsonView::Array(items_view(items@)),
        Json::Object(members) => JsonView::Object(members_view(members@)),
    }
}

/// The contents of a list of values.
pub open spec fn items_view(items: Seq<Json>) -> Seq<JsonView>
    decreases items, 1int,
{
    if items.len() == 0 {
        Seq::empty()
    } else {
        items_view(items.drop_last()).push(json_view(items.last()))
    }
}

/// The contents of a list of members.
pub open spec fn members_view(members: Seq<(String, Json)>) -> Seq<(Seq<char>, JsonView)>
    decreases members, 1int,
{
    if members.len() == 0 {
        Seq::empty()
    } else {
        members_view(members.drop_last()).push((members.last().0@, json_view(members.last().1)))
    }
}

/// The views of a list of documents.
pub open spec fn views(items: Seq<Json>) -> Seq<JsonView> {
    Seq::new(items.len(), |i: int| items[i]@)
}

/// The value of the first member named `key`.
pub open spec fn lookup(members: Seq<(Seq<char>, JsonView)>, key: Seq<char>) -> Option<JsonView>
    decreases members.len(),
{
    if members.len() == 0 {
        None
    } else if members[0].0 == key {
        Some(members[0].1)
    } else {
        lookup(members.drop_first(), key)
    }
}

/// The member named `key` of an object, or nothing for anything else.
pub open spec fn member_of(doc: JsonView, key: Seq<char>) -> Option<JsonView> {
    match doc {
        JsonView::Object(members) => lookup(members, key),
        _ => None,
    }
}

/// A string member, read the way a plain `Option<&str>` accessor reads it:
/// present and a string, or nothing.
pub open spec fn str_member(doc: JsonView, key: Seq<char>) -> Option<Seq<char>> {
    match member_of(doc, key) {
        Some(JsonView::Str(s)) => Some(s),
        _ => None,
    }
}

/// The contents of a list of values, item by item.
pub proof fn lemma_items_view(items: Seq<Json>)
    ensures
        items_view(items).len() == items.len(),
        forall|j: int| 0 <= j < items.len() ==> #[trigger] items_view(items)[j] == items[j]@,
    decreases items.len(),
{
    if items.len() > 0 {
        lemma_items_view(items.drop_last());
        assert forall|j: int| 0 <= j < items.len() implies #[trigger] items_view(items)[j]
            == items[j]@ by {
            if j < items.len() - 1 {
                assert(items.drop_last()[j] == items[j]);
            }
        }
    }
}

/// The contents of a list of members, member by member.
pub proof fn lemma_members_view(members: Seq<(String, Json)>)
    ensures
        members_view(members).len() == members.len(),
        forall|j: int|
            0 <= j < members.len() ==> #[trigger] members_view(members)[j] == (
                members[j].0@,
                members[j].1@,
            ),
    decreases members.len(),
{
    if members.len() > 0 {
        lemma_members_view(members.drop_last());
        assert forall|j: int| 0 <= j < members.len() implies #[trigger] members_view(members)[j]
            == (members[j].0@, members[j].1@) by {
            if j < members.len() - 1 {
                assert(members.drop_last()[j] == members[j]);
            }
        }
    }
}

/// What an object's view holds, member by member.
pub proof fn lemma_object_view(doc: Json)
    requires
        doc is Object,
    ensures
        doc@ is Object,
        doc@->Object_0.len() == doc->Object_0@.len(),
        forall|j: int|
            0 <= j < doc->Object_0@.len() ==> #[trigger] doc@->Object_0[j] == (
                doc->Object_0@[j].0@,
                doc->Object_0@[j].1@,
            ),
{
    lemma_members_view(doc->Object_0@);
}

/// What an array's view holds, item by item.
pub proof fn lemma_array_view(doc: Json)
    requires
        doc is Array,
    ensures
        doc@ is Array,
        doc@->Array_0.len() == doc->Array_0@.len(),
        forall|j: int|
            0 <= j < doc->Array_0@.len() ==> #[trigger] doc@->Array_0[j] == doc->Array_0@[j]@,
{
    lemma_items_view(doc->Array_0@);
}

impl Json {
    /// The first member named `key`, when this is an object.
    pub fn member(&self, key: &str) -> (found: Option<&Json>)
        ensures
            match found {
                Some(v) => member_of(self@, key@) == Some(v@),
                None => member_of(self@, key@) is None,
            },
    {
        match self {
            Json::Object(members) => {
                let n = members.len();
                let ghost all = self@->Object_0;
                proof {
                    lemma_object_view(*self);
                }
                assert(all.len() == n);
                assert(all.subrange(0, n as int) =~= all);
                let mut i: usize = 0;
                while i < n
                    invariant
                        n == members@.len(),
                        all.len() == n,
                        self@ is Object,
                        all == self@->Object_0,
                        forall|j: int| 0 <= j < n ==> #[trigger] all[j] == (members@[j].0@, members@[j].1@),
                        i <= n,
                        lookup(all, key@) == lookup(all.subrange(i as int, n as int), key@),
                    decreases n - i,
                {
                    let ghost rest = all.subrange(i as int, n as int);
                    assert(rest[0] == all[i as int]);
                    if crate::text::same(members[i].0.as_str(), key) {
                        assert(rest[0].0 == key@);
                        assert(lookup(rest, key@) == Some(rest[0].1));
                        return Some(&members[i].1);
                    }
                    assert(rest.drop_first() =~= all.subrange(i + 1, n as int));
                    i = i + 1;
                }
                None
            },
            _ => None,
        }
    }

    /// The member named `key`, when it is a string.
    pub fn str_member(&self, key: &str) -> (found: Option<&str>)
        ensures
            match found {
                Some(s) => str_member(self@, key@) == Some(s@),
                None => str_member(self@, key@) is None,
            },
    {
        match self.member(key) {
            Some(Json::Str(s)) => Some(s.as_str()),
            _ => None,
        }
    }
}

// --------------------------------------------------------------- record fields

/// How a record's field treats a document that does not carry it.
pub enum Missing {
    /// Refused.
    Refused,
    /// An optional field: absent as a member, refused as a missing element.
    Absent,
    /// A field with a default: the default, however it went missing.
    Defaulted,
}

/// Where a record's fields come from: per field, the value the document
/// carries for it, and whether the document was an array.
pub open spec fn slots(doc: JsonView, names: Seq<Seq<char>>) -> Option<(Seq<Option<JsonView>>, bool)> {
    match doc {
        JsonView::Object(members) => Some(
            (Seq::new(names.len(), |i: int| lookup(members, names[i])), false),
        ),
        JsonView::Array(items) => if items.len() <= names.len() {
            Some(
                (
                    Seq::new(
                        names.len(),
                        |i: int|
                            if i < items.len() {
                                Some(items[i])
                            } else {
                                None
                            },
                    ),
                    true,
                ),
            )
        } else {
            None
        },
        _ => None,
    }
}

/// Whether a field that the document does not carry is allowed to be missing.
pub open spec fn missing_allowed(missing: Missing, positional: bool) -> bool {
    match missing {
        Missing::Refused => false,
        Missing::Absent => !positional,
        Missing::Defaulted => true,
    }
}

/// The values a record's fields are read from.
pub fn fields<'a>(doc: &'a Json, names: &[&str]) -> (found: Option<(Vec<Option<&'a Json>>, bool)>)
    ensures
        match found {
            Some((values, positional)) => slots(doc@, names@.map_values(|n: &str| n@)) matches Some(
                (expected, p),
            ) && p == positional && values@.len() == expected.len() && forall|i: int|
                0 <= i < expected.len() ==> match #[trigger] values@[i] {
                    Some(v) => expected[i] == Some(v@),
                    None => expected[i] is None,
                },
            None => slots(doc@, names@.map_values(|n: &str| n@)) is None,
        },
{
    let ghost keys = names@.map_values(|n: &str| n@);
    match doc {
        Json::Object(_) => {
            let mut values: Vec<Option<&'a Json>> = Vec::new();
            for i in 0..names.len()
                invariant
                    keys == names@.map_values(|n: &str| n@),
                    doc@ is Object,
                    values@.len() == i,
                    forall|j: int|
                        0 <= j < i ==> match #[trigger] values@[j] {
                            Some(v) => member_of(doc@, keys[j]) == Some(v@),
                            None => member_of(doc@, keys[j]) is None,
                        },
            {
                values.push(doc.member(names[i]));
            }
            Some((values, false))
        },
        Json::Array(items) => {
            let ghost all = doc@->Array_0;
            proof {
                lemma_array_view(*doc);
            }
            if items.len() > names.len() {
                return None;
            }
            let mut values: Vec<Option<&'a Json>> = Vec::new();
            for i in 0..names.len()
                invariant
                    keys == names@.map_values(|n: &str| n@),
                    all == doc@->Array_0,
                    all.len() == items@.len(),
                    items@.len() <= names@.len(),
                    forall|j: int| 0 <= j < items@.len() ==> #[trigger] all[j] == items@[j]@,
                    values@.len() == i,
                    forall|j: int|
                        0 <= j < i ==> match #[trigger] values@[j] {
                            Some(v) => j < all.len() && all[j] == v@,
                            None => j >= all.len(),
                        },
            {
                if i < items.len() {
                    values.push(Some(&items[i]));
                } else {
                    values.push(None);
                }
            }
            Some((values, true))
        },
        _ => None,
    }
}

// ------------------------------------------------------------- field readers

/// An `i64`: an integer that fits.
pub open spec fn as_i64(v: JsonView) -> Option<int> {
    match v {
        JsonView::Int(i) => Some(i),
        _ => None,
    }
}

/// A `u64`: an integer that is not negative.
pub open spec fn as_u64(v: JsonView) -> Option<int> {
    match v {
        JsonView::Int(i) => if i >= 0 {
            Some(i)
        } else {
            None
        },
        JsonView::Big(u) => Some(u),
        _ => None,
    }
}

/// A string.
pub open spec fn as_text(v: JsonView) -> Option<Seq<char>> {
    match v {
        JsonView::Str(s) => Some(s),
        _ => None,
    }
}

/// A list of strings.
pub open spec fn as_texts(v: JsonView) -> Option<Seq<Seq<char>>> {
    match v {
        JsonView::Array(items) => if forall|i: int| 0 <= i < items.len() ==> (#[trigger] items[i]) is Str {
            Some(Seq::new(items.len(), |i: int| items[i]->Str_0))
        } else {
            None
        },
        _ => None,
    }
}

/// The documented reading of a field: `Err` when the document cannot supply
/// it, `Ok(None)` when it is absent and may be, `Ok(Some(v))` otherwise. An
/// optional field that is `null` reads as absent.
pub open spec fn slot_value(
    slot: Option<JsonView>,
    missing: Missing,
    positional: bool,
    optional: bool,
) -> Result<Option<JsonView>, ()> {
    match slot {
        None => if missing_allowed(missing, positional) {
            Ok(None)
        } else {
            Err(())
        },
        Some(JsonView::Null) => if optional {
            Ok(None)
        } else {
            Ok(Some(JsonView::Null))
        },
        Some(v) => Ok(Some(v)),
    }
}

pub fn read_i64(v: &Json) -> (r: Option<i64>)
    ensures
        match r {
            Some(i) => as_i64(v@) == Some(i as int),
            None => as_i64(v@) is None,
        },
{
    match v {
        Json::Int(i) => Some(*i),
        _ => None,
    }
}

pub fn read_u64(v: &Json) -> (r: Option<u64>)
    ensures
        match r {
            Some(u) => as_u64(v@) == Some(u as int),
            None => as_u64(v@) is None,
        },
{
    match v {
        Json::Int(i) => if *i >= 0 {
            Some(*i as u64)
        } else {
            None
        },
        Json::Big(u) => Some(*u),
        _ => None,
    }
}

pub fn read_text(v: &Json) -> (r: Option<String>)
    ensures
        match r {
            Some(s) => as_text(v@) == Some(s@),
            None => as_text(v@) is None,
        },
{
    match v {
        Json::Str(s) => Some(s.clone()),
        _ => None,
    }
}

pub fn read_texts(v: &Json) -> (r: Option<Vec<String>>)
    ensures
        match r {
            Some(list) => as_texts(v@) == Some(list.deep_view()),
            None => as_texts(v@) is None,
        },
{
    match v {
        Json::Array(items) => {
            let ghost all = v@->Array_0;
            proof {
                lemma_array_view(*v);
            }
            let mut out: Vec<String> = Vec::new();
            for i in 0..items.len()
                invariant
                    all == v@->Array_0,
                    all.len() == items@.len(),
                    forall|j: int| 0 <= j < items@.len() ==> #[trigger] all[j] == items@[j]@,
                    out@.len() == i,
                    forall|j: int| 0 <= j < i ==> (#[trigger] all[j]) is Str && all[j]->Str_0 == out@[j]@,
            {
                match &items[i] {
                    Json::Str(s) => out.push(s.clone()),
                    _ => {
                        assert(!(all[i as int] is Str));
                        return None;
                    },
                }
            }
            assert(out.deep_view() =~= Seq::new(all.len(), |i: int| all[i]->Str_0));
            Some(out)
        },
        _ => None,
    }
}

} // verus!
