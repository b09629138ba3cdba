//! A JSON value as the provider adapter reads and writes it.
use vstd::prelude::*;
use vstd::utf8::group_utf8_lib;

verus! {

/// A JSON value. An object keeps its members in order; when a key occurs more
/// than once, the last occurrence counts.
#[derive(Debug)]
pub enum Json {
    Null,
    Bool(bool),
    /// A number, as its JSON text.
    Number(String),
    Str(String),
    Array(Vec<Json>),
    Object(Vec<(String, Json)>),
}

/// The value of the last member named `key`.
pub open spec fn member(fields: Seq<(String, Json)>, key: Seq<char>) -> Option<Json>
    decreases fields.len(),
{
    if fields.len() == 0 {
        None
    } else if fields.last().0@ == key {
        Some(fields.last().1)
    } else {
        member(fields.drop_last(), key)
    }
}

/// The members whose name is not `key`, in order.
pub open spec fn without_key(fields: Seq<(String, Json)>, key: Seq<char>) -> Seq<(String, Json)>
    decreases fields.len(),
{
    if fields.len() == 0 {
        fields
    } else if fields.last().0@ == key {
        without_key(fields.drop_last(), key)
    } else {
        without_key(fields.drop_last(), key).push(fields.last())
    }
}

/// The member `key` of an object.
pub open spec fn field(v: Json, key: Seq<char>) -> Option<Json> {
    match v {
        Json::Object(fields) => member(fields@, key),
        _ => None,
    }
}

/// The first element of an array.
pub open spec fn first(v: Json) -> Option<Json> {
    match v {
        Json::Array(items) => if items@.len() > 0 {
            Some(items@[0])
        } else {
            None
        },
        _ => None,
    }
}

/// The element at `i` of an array.
pub open spec fn element(v: Json, i: int) -> Option<Json> {
    match v {
        Json::Array(items) => if 0 <= i < items@.len() {
            Some(items@[i])
        } else {
            None
        },
        _ => None,
    }
}

/// The characters of a string value.
pub open spec fn text_of(v: Json) -> Option<Seq<char>> {
    match v {
        Json::Str(s) => Some(s@),
        _ => None,
    }
}

pub open spec fn field_of(v: Option<Json>, key: Seq<char>) -> Option<Json> {
    match v {
        Some(x) => field(x, key),
        None => None,
    }
}

pub open spec fn first_of(v: Option<Json>) -> Option<Json> {
    match v {
        Some(x) => first(x),
        None => None,
    }
}

pub open spec fn element_of(v: Option<Json>, i: int) -> Option<Json> {
    match v {
        Some(x) => element(x, i),
        None => None,
    }
}

pub open spec fn text_in(v: Option<Json>) -> Option<Seq<char>> {
    match v {
        Some(x) => text_of(x),
        None => None,
    }
}

/// The member names of an object, in order.
pub open spec fn member_names(v: Json) -> Seq<Seq<char>> {
    match v {
        Json::Object(fields) => fields@.map_values(|p: (String, Json)| p.0@),
        _ => Seq::empty(),
    }
}

/// The value of the member at position `i` of an object.
pub open spec fn member_at(v: Json, i: int) -> Option<Json> {
    match v {
        Json::Object(fields) => if 0 <= i < fields@.len() {
            Some(fields@[i].1)
        } else {
            None
        },
        _ => None,
    }
}

/// The JSON text of a number value.
pub open spec fn number_in(v: Option<Json>) -> Option<Seq<char>> {
    match v {
        Some(Json::Number(n)) => Some(n@),
        _ => None,
    }
}

/// A boolean value.
pub open spec fn bool_in(v: Option<Json>) -> Option<bool> {
    match v {
        Some(Json::Bool(b)) => Some(b),
        _ => None,
    }
}

/// The length of an array value.
pub open spec fn array_len_in(v: Option<Json>) -> Option<nat> {
    match v {
        Some(Json::Array(items)) => Some(items@.len()),
        _ => None,
    }
}

/// The number of members of an object value.
pub open spec fn object_len_in(v: Option<Json>) -> Option<nat> {
    match v {
        Some(Json::Object(fields)) => Some(fields@.len()),
        _ => None,
    }
}

/// No member whose name has another length than `key` can be `key`.
pub proof fn lemma_member_absent(fields: Seq<(String, Json)>, key: Seq<char>)
    requires
        forall|i: int| 0 <= i < fields.len() ==> (#[trigger] fields[i]).0@.len() != key.len(),
    ensures
        member(fields, key) is None,
    decreases fields.len(),
{
    if fields.len() > 0 {
        assert(fields.last() == fields[fields.len() - 1]);
        lemma_member_absent(fields.drop_last(), key);
    }
}

/// Whether two strings hold the same characters.
pub fn same_text(a: &str, b: &str) -> (r: bool)
    ensures
        r == (a@ == b@),
{
    broadcast use group_utf8_lib;

    let x = a.as_bytes();
    let y = b.as_bytes();
    proof {
        if a@ == b@ {
            assert(x@ == y@);
        }
    }
    if x.len() != y.len() {
        return false;
    }
    let mut i: usize = 0;
    while i < x.len()
        invariant
            x@.len() == y@.len(),
            i <= x@.len(),
            forall|j: int| 0 <= j < i ==> x@[j] == y@[j],
            a@ == b@ ==> x@ == y@,
        decreases x@.len() - i,
    {
        if x[i] != y[i] {
            return false;
        }
        i = i + 1;
    }
    proof {
        assert(x@ =~= y@);
        assert(a@ == vstd::utf8::decode_utf8(x@));
        assert(b@ == vstd::utf8::decode_utf8(y@));
    }
    true
}

proof fn lemma_member_without_key(fields: Seq<(String, Json)>, key: Seq<char>, other: Seq<char>)
    requires
        other != key,
    ensures
        member(without_key(fields, key), other) == member(fields, other),
    decreases fields.len(),
{
    if fields.len() > 0 {
        lemma_member_without_key(fields.drop_last(), key, other);
        if fields.last().0@ != key {
            let w = without_key(fields.drop_last(), key).push(fields.last());
            assert(w.drop_last() =~= without_key(fields.drop_last(), key));
        }
    }
}

/// Sets member `key` to `value`: every earlier member of that name goes, and
/// the new one comes last.
pub fn set_member(fields: &mut Vec<(String, Json)>, key: String, value: Json)
    ensures
        forall|k: Seq<char>|
            #![trigger member(final(fields)@, k)]
            member(final(fields)@, k) == if k == key@ {
                Some(value)
            } else {
                member(old(fields)@, k)
            },
{
    let ghost orig = fields@;
    let mut kept: Vec<(String, Json)> = Vec::new();
    let ghost mut i: int = 0;
    while fields.len() > 0
        invariant
            0 <= i <= orig.len(),
            fields@ == orig.subrange(i as int, orig.len() as int),
            kept@ == without_key(orig.subrange(0, i as int), key@),
        decreases fields.len(),
    {
        let entry = fields.remove(0);
        proof {
            assert(entry == orig[i]);
            let p = orig.subrange(0, i as int + 1);
            assert(p.drop_last() =~= orig.subrange(0, i as int));
            assert(p.last() == entry);
        }
        if !(entry.0 == key) {
            kept.push(entry);
        }
        proof {
            i = i + 1;
            assert(fields@ =~= orig.subrange(i, orig.len() as int));
        }
    }
    proof {
        assert(orig.subrange(0, i as int) =~= orig);
    }
    let ghost value_copy = value;
    kept.push((key, value));
    *fields = kept;
    proof {
        assert forall|k: Seq<char>|
            #![trigger member(fields@, k)]
            member(fields@, k) == if k == key@ {
                Some(value_copy)
            } else {
                member(orig, k)
            } by {
            assert(fields@.drop_last() =~= without_key(orig, key@));
            if k != key@ {
                lemma_member_without_key(orig, key@, k);
            }
        }
    }
}

impl Json {
    /// The member `key` of an object; `None` for a value of another kind or an
    /// absent member.
    pub fn get(&self, key: &str) -> (r: Option<&Json>)
        ensures
            r matches Some(x) ==> field(*self, key@) == Some(*x),
            r is None ==> field(*self, key@) is None,
    {
        match self {
            Json::Object(fields) => {
                let mut i: usize = fields.len();
                proof {
                    assert(fields@.subrange(0, i as int) =~= fields@);
                }
                while i > 0
                    invariant
                        i <= fields@.len(),
                        member(fields@, key@) == member(fields@.subrange(0, i as int), key@),
                        field(*self, key@) == member(fields@, key@),
                    decreases i,
                {
                    let ghost p = fields@.subrange(0, i as int);
                    proof {
                        assert(p.drop_last() =~= fields@.subrange(0, i as int - 1));
                    }
                    if same_text(fields[i - 1].0.as_str(), key) {
                        proof {
                            assert(p.last() == fields@[i - 1]);
                            assert(member(p, key@) == Some(fields@[i - 1].1));
                        }
                        return Some(&fields[i - 1].1);
                    }
                    i = i - 1;
                }
                None
            },
            _ => None,
        }
    }

    /// The first element of an array.
    pub fn first(&self) -> (r: Option<&Json>)
        ensures
            r matches Some(x) ==> first(*self) == Some(*x),
            r is None ==> first(*self) is None,
    {
        match self {
            Json::Array(items) => if items.len() > 0 {
                Some(&items[0])
            } else {
                None
            },
            _ => None,
        }
    }

    /// The text of a string value.
    pub fn as_str(&self) -> (r: Option<&str>)
        ensures
            r matches Some(s) ==> text_of(*self) == Some(s@),
            r is None ==> text_of(*self) is None,
    {
        match self {
            Json::Str(s) => Some(s.as_str()),
            _ => None,
        }
    }
}

} // verus!
