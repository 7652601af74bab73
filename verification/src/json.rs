//! JSON values, as schema analysis and migrations read and change them.
//!
//! An object is read as a map from member name to value: where a name
//! occurs more than once, the last member with it counts. Adding a member
//! removes the members of that name and puts the new one last.

use vstd::prelude::*;

use crate::assoc::assoc_map;

verus! {

/// A JSON value. A number keeps its text as written; the members of an
/// object keep their order.
#[derive(Debug, PartialEq, Eq)]
pub enum JsonValue {
    /// `null`.
    Null,
    /// `true` or `false`.
    Bool(bool),
    /// A number, by its text.
    Number(String),
    /// A string.
    String(String),
    /// An array.
    Array(Vec<JsonValue>),
    /// An object: its members' names and values, in order.
    Object(Vec<(String, JsonValue)>),
}

/// The content of a JSON value, with texts for strings.
pub enum JsonView {
    Null,
    Bool(bool),
    Number(Seq<char>),
    String(Seq<char>),
    Array(Seq<JsonView>),
    Object(Seq<(Seq<char>, JsonView)>),
}

/// The content of a JSON value.
pub open spec fn json_view(v: JsonValue) -> JsonView
    decreases v, 2nat,
{
    match v {
        JsonValue::Null => JsonView::Null,
        JsonValue::Bool(b) => JsonView::Bool(b),
        JsonValue::Number(n) => JsonView::Number(n@),
        JsonValue::String(s) => JsonView::String(s@),
        JsonValue::Array(items) => JsonView::Array(items_view(items@)),
        JsonValue::Object(members) => JsonView::Object(members_view(members@)),
    }
}

/// The contents of the items of an array, in order.
pub open spec fn items_view(items: Seq<JsonValue>) -> Seq<JsonView>
    decreases items, 1nat,
{
    if items.len() == 0 {
        Seq::empty()
    } else {
        items_view(items.drop_last()).push(json_view(items.last()))
    }
}

/// The names and contents of the members of an object, in order.
pub open spec fn members_view(members: Seq<(String, JsonValue)>) -> Seq<(Seq<char>, JsonView)>
    decreases members, 1nat,
{
    if members.len() == 0 {
        Seq::empty()
    } else {
        members_view(members.drop_last()).push((members.last().0@, json_view(members.last().1)))
    }
}

/// The members of an object as a map, the last member of a name counting.
pub open spec fn object_map(members: Seq<(String, JsonValue)>) -> Map<Seq<char>, JsonView> {
    assoc_map(members_view(members))
}

/// The members of the object `v` as a map, or `None` when `v` is not an
/// object.
pub open spec fn object_of(v: JsonValue) -> Option<Map<Seq<char>, JsonView>> {
    match v {
        JsonValue::Object(members) => Some(object_map(members@)),
        _ => None,
    }
}

/// The length of a view, and each element's view.
pub proof fn lemma_items_view(items: Seq<JsonValue>)
    ensures
        items_view(items).len() == items.len(),
        forall|j: int| 0 <= j < items.len() ==> #[trigger] items_view(items)[j] == json_view(items[j]),
    decreases items.len(),
{
    if items.len() > 0 {
        lemma_items_view(items.drop_last());
        assert forall|j: int| 0 <= j < items.len() implies #[trigger] items_view(items)[j] == json_view(
            items[j],
        ) by {
            if j < items.len() - 1 {
                assert(items.drop_last()[j] == items[j]);
            }
        }
    }
}

/// The length of a view, and each member's view.
pub proof fn lemma_members_view(members: Seq<(String, JsonValue)>)
    ensures
        members_view(members).len() == members.len(),
        forall|j: int|
            0 <= j < members.len() ==> #[trigger] members_view(members)[j] == (
                members[j].0@,
                json_view(members[j].1),
            ),
    decreases members.len(),
{
    if members.len() > 0 {
        lemma_members_view(members.drop_last());
        assert forall|j: int| 0 <= j < members.len() implies #[trigger] members_view(members)[j] == (
            members[j].0@,
            json_view(members[j].1),
        ) by {
            if j < members.len() - 1 {
                assert(members.drop_last()[j] == members[j]);
            }
        }
    }
}

/// Two lists of items with the same views element by element have the
/// same view.
pub proof fn lemma_items_view_ext(a: Seq<JsonValue>, b: Seq<JsonView>)
    requires
        a.len() == b.len(),
        forall|j: int| 0 <= j < a.len() ==> b[j] == json_view(#[trigger] a[j]),
    ensures
        items_view(a) == b,
{
    lemma_items_view(a);
    assert(items_view(a) =~= b);
}

/// Two lists of members with the same views element by element have the
/// same view.
pub proof fn lemma_members_view_ext(a: Seq<(String, JsonValue)>, b: Seq<(Seq<char>, JsonView)>)
    requires
        a.len() == b.len(),
        forall|j: int| 0 <= j < a.len() ==> b[j] == ((#[trigger] a[j]).0@, json_view(a[j].1)),
    ensures
        members_view(a) == b,
{
    lemma_members_view(a);
    assert(members_view(a) =~= b);
}

/// A copy of `v`, with the same content.
pub fn copy_value(v: &JsonValue) -> (r: JsonValue)
    ensures
        json_view(r) == json_view(*v),
    decreases *v,
{
    match v {
        JsonValue::Null => JsonValue::Null,
        JsonValue::Bool(b) => JsonValue::Bool(*b),
        JsonValue::Number(n) => JsonValue::Number(n.clone()),
        JsonValue::String(s) => JsonValue::String(s.clone()),
        JsonValue::Array(items) => {
            let mut out: Vec<JsonValue> = Vec::new();
            let mut i: usize = 0;
            while i < items.len()
                invariant
                    *v == JsonValue::Array(*items),
                    i <= items@.len(),
                    out@.len() == i,
                    forall|k: int| 0 <= k < i ==> json_view(#[trigger] out@[k]) == json_view(items@[k]),
                decreases items@.len() - i,
            {
                proof {
                    assert(decreases_to!(*v => (*v)->Array_0));
                    assert(decreases_to!(*items => items@));
                    assert(decreases_to!(items@ => items@[i as int]));
                }
                let c = copy_value(&items[i]);
                out.push(c);
                i = i + 1;
            }
            proof {
                lemma_items_view(items@);
                lemma_items_view_ext(out@, items_view(items@));
            }
            JsonValue::Array(out)
        },
        JsonValue::Object(members) => {
            let mut out: Vec<(String, JsonValue)> = Vec::new();
            let mut i: usize = 0;
            while i < members.len()
                invariant
                    *v == JsonValue::Object(*members),
                    i <= members@.len(),
                    out@.len() == i,
                    forall|k: int|
                        0 <= k < i ==> (#[trigger] out@[k]).0@ == members@[k].0@ && json_view(out@[k].1)
                            == json_view(members@[k].1),
                decreases members@.len() - i,
            {
                proof {
                    assert(decreases_to!(*v => (*v)->Object_0));
                    assert(decreases_to!(*members => members@));
                    assert(decreases_to!(members@ => members@[i as int]));
                    assert(decreases_to!(members@[i as int] => members@[i as int].1));
                }
                let c = copy_value(&members[i].1);
                out.push((members[i].0.clone(), c));
                i = i + 1;
            }
            proof {
                lemma_members_view(members@);
                lemma_members_view_ext(out@, members_view(members@));
            }
            JsonValue::Object(out)
        },
    }
}

/// `s` without the pairs whose first component is `k`.
pub open spec fn without_key<V>(s: Seq<(Seq<char>, V)>, k: Seq<char>) -> Seq<(Seq<char>, V)>
    decreases s.len(),
{
    if s.len() == 0 {
        s
    } else {
        let w = without_key(s.drop_last(), k);
        if s.last().0 == k {
            w
        } else {
            w.push(s.last())
        }
    }
}

/// `s` with the pair `(k, v)` last, in place of the pairs of `k`.
pub open spec fn put_member<V>(s: Seq<(Seq<char>, V)>, k: Seq<char>, v: V) -> Seq<(Seq<char>, V)> {
    without_key(s, k).push((k, v))
}

/// Dropping the pairs of a key removes the key from the map.
pub proof fn lemma_assoc_without<V>(s: Seq<(Seq<char>, V)>, k: Seq<char>)
    ensures
        assoc_map(without_key(s, k)) == assoc_map(s).remove(k),
    decreases s.len(),
{
    if s.len() == 0 {
        assert(assoc_map(s).remove(k) =~= assoc_map(s));
    } else {
        lemma_assoc_without(s.drop_last(), k);
        let w = without_key(s.drop_last(), k);
        if s.last().0 == k {
            assert(assoc_map(s).remove(k) =~= assoc_map(s.drop_last()).remove(k));
        } else {
            assert(w.push(s.last()).drop_last() =~= w);
            assert(assoc_map(s).remove(k) =~= assoc_map(s.drop_last()).remove(k).insert(s.last().0, s.last().1));
        }
    }
}

proof fn lemma_members_view_push(s: Seq<(String, JsonValue)>, e: (String, JsonValue))
    ensures
        members_view(s.push(e)) == members_view(s).push((e.0@, json_view(e.1))),
{
    assert(s.push(e).drop_last() =~= s);
}

/// Removes every member named `name`; returns the value of the last one.
pub fn remove_member(members: &mut Vec<(String, JsonValue)>, name: &str) -> (r: Option<JsonValue>)
    ensures
        members_view(final(members)@) == without_key(members_view(old(members)@), name@),
        object_map(final(members)@) == object_map(old(members)@).remove(name@),
        match r {
            Some(v) => object_map(old(members)@).contains_key(name@) && json_view(v) == object_map(
                old(members)@,
            )[name@],
            None => !object_map(old(members)@).contains_key(name@),
        },
{
    let ghost start = members@;
    let key = name.to_owned();
    let mut all: Vec<(String, JsonValue)> = Vec::new();
    std::mem::swap(&mut all, members);
    let mut found: Option<JsonValue> = None;
    let ghost mut done: Seq<(String, JsonValue)> = Seq::empty();
    proof {
        assert(start =~= done + all@);
        assert(members@ =~= Seq::<(String, JsonValue)>::empty());
    }
    while all.len() > 0
        invariant
            key@ == name@,
            start == done + all@,
            members_view(members@) == without_key(members_view(done), name@),
            match found {
                Some(v) => assoc_map(members_view(done)).contains_key(name@) && json_view(v) == assoc_map(
                    members_view(done),
                )[name@],
                None => !assoc_map(members_view(done)).contains_key(name@),
            },
        decreases all@.len(),
    {
        let ghost before = all@;
        let (k, v) = all.remove(0);
        let ghost e = (k, v);
        proof {
            assert(e == before[0]);
            lemma_members_view_push(done, e);
            let dv = members_view(done);
            assert(dv.push((e.0@, json_view(e.1))).drop_last() =~= dv);
            done = done.push(e);
            assert(start =~= done + all@);
        }
        if k == key {
            found = Some(v);
        } else {
            let ghost m = members@;
            members.push((k, v));
            proof {
                lemma_members_view_push(m, e);
            }
        }
    }
    proof {
        assert(start =~= done);
        lemma_assoc_without(members_view(start), name@);
    }
    found
}

/// Sets member `name` to `value`: the members of that name go, and the new
/// one is added last.
pub fn insert_member(members: &mut Vec<(String, JsonValue)>, name: String, value: JsonValue)
    ensures
        members_view(final(members)@) == put_member(members_view(old(members)@), name@, json_view(value)),
        object_map(final(members)@) == object_map(old(members)@).insert(name@, json_view(value)),
{
    remove_member(members, name.as_str());
    let ghost m = members@;
    let ghost e = (name, value);
    members.push((name, value));
    proof {
        lemma_members_view_push(m, e);
        assert(members_view(m).push((e.0@, json_view(e.1))).drop_last() =~= members_view(m));
        assert(object_map(members@) =~= object_map(old(members)@).insert(name@, json_view(value)));
    }
}

/// Whether some member is named `name`.
pub fn has_member(members: &Vec<(String, JsonValue)>, name: &str) -> (b: bool)
    ensures
        b == object_map(members@).contains_key(name@),
{
    let key = name.to_owned();
    let mut i: usize = 0;
    while i < members.len()
        invariant
            key@ == name@,
            i <= members@.len(),
            forall|j: int| 0 <= j < i ==> (#[trigger] members@[j]).0@ != name@,
        decreases members@.len() - i,
    {
        if members[i].0 == key {
            proof {
                lemma_members_view(members@);
                crate::assoc::lemma_assoc_contains(members_view(members@), name@);
                assert(members_view(members@)[i as int].0 == name@);
            }
            return true;
        }
        i = i + 1;
    }
    proof {
        lemma_members_view(members@);
        crate::assoc::lemma_assoc_contains(members_view(members@), name@);
        if object_map(members@).contains_key(name@) {
            let j = choose|j: int| 0 <= j < members_view(members@).len() && (#[trigger] members_view(members@)[j]).0
                == name@;
            assert(members_view(members@)[j].0 == members@[j].0@);
        }
    }
    false
}

} // verus!
