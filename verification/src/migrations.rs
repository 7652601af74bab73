//! Migrations of event data between schema versions: adding, removing,
//! renaming, nesting, flattening, splitting, combining and converting the
//! members of a JSON object. Each leaves a value that is not an object as
//! it is.

use vstd::prelude::*;

use crate::json::{
    copy_value, has_member, insert_member, items_view, json_view, lemma_items_view, lemma_members_view, members_view,
    object_map, object_of, put_member, remove_member, JsonValue, JsonView,
};
use crate::text::{joined, lowercase_text, pieces, split_on, split_words, to_lowercase, trim, trimmed, words};
use crate::types::EventStoreError;

verus! {

/// The object `m` after `name` is renamed to `new_name`: unchanged when it
/// has no member `name`.
pub open spec fn renamed(m: Map<Seq<char>, JsonView>, name: Seq<char>, new_name: Seq<char>) -> Map<
    Seq<char>,
    JsonView,
> {
    if m.contains_key(name) {
        m.remove(name).insert(new_name, m[name])
    } else {
        m
    }
}

/// Adds member `field_name` with a copy of `default_value`, replacing a
/// member of that name.
pub fn add_field(value: JsonValue, field_name: &str, default_value: &JsonValue) -> (r: JsonValue)
    ensures
        match object_of(value) {
            Some(m) => object_of(r) == Some(m.insert(field_name@, json_view(*default_value))),
            None => r == value,
        },
{
    match value {
        JsonValue::Object(members) => {
            let mut members = members;
            insert_member(&mut members, field_name.to_owned(), copy_value(default_value));
            JsonValue::Object(members)
        },
        other => other,
    }
}

/// Removes member `field_name`.
pub fn remove_field(value: JsonValue, field_name: &str) -> (r: JsonValue)
    ensures
        match object_of(value) {
            Some(m) => object_of(r) == Some(m.remove(field_name@)),
            None => r == value,
        },
{
    match value {
        JsonValue::Object(members) => {
            let mut members = members;
            remove_member(&mut members, field_name);
            JsonValue::Object(members)
        },
        other => other,
    }
}

/// Renames member `old_name` to `new_name`, when there is one.
pub fn rename_field(value: JsonValue, old_name: &str, new_name: &str) -> (r: JsonValue)
    ensures
        match object_of(value) {
            Some(m) => object_of(r) == Some(renamed(m, old_name@, new_name@)),
            None => r == value,
        },
{
    match value {
        JsonValue::Object(members) => {
            let mut members = members;
            match remove_member(&mut members, old_name) {
                Some(v) => {
                    insert_member(&mut members, new_name.to_owned(), v);
                },
                None => {},
            }
            JsonValue::Object(members)
        },
        other => other,
    }
}

/// The object `m` after each of `fields` that it lacks is added, in order.
pub open spec fn with_missing(m: Map<Seq<char>, JsonView>, fields: Seq<(String, JsonValue)>) -> Map<
    Seq<char>,
    JsonView,
>
    decreases fields.len(),
{
    if fields.len() == 0 {
        m
    } else {
        let p = with_missing(m, fields.drop_last());
        let f = fields.last();
        if p.contains_key(f.0@) {
            p
        } else {
            p.insert(f.0@, json_view(f.1))
        }
    }
}

/// The object `m` without the members `names`.
pub open spec fn without_all(m: Map<Seq<char>, JsonView>, names: Seq<String>) -> Map<Seq<char>, JsonView>
    decreases names.len(),
{
    if names.len() == 0 {
        m
    } else {
        without_all(m, names.drop_last()).remove(names.last()@)
    }
}

/// The object `m` after each of `renames`, in order.
pub open spec fn renamed_all(m: Map<Seq<char>, JsonView>, renames: Seq<(String, String)>) -> Map<
    Seq<char>,
    JsonView,
>
    decreases renames.len(),
{
    if renames.len() == 0 {
        m
    } else {
        renamed(renamed_all(m, renames.drop_last()), renames.last().0@, renames.last().1@)
    }
}

/// Adds each of `fields` that the object lacks, in order, with a copy of
/// its default value.
pub fn add_fields(value: JsonValue, fields: &[(String, JsonValue)]) -> (r: JsonValue)
    ensures
        match object_of(value) {
            Some(m) => object_of(r) == Some(with_missing(m, fields@)),
            None => r == value,
        },
{
    match value {
        JsonValue::Object(members) => {
            let mut members = members;
            let ghost m = object_map(members@);
            let mut i: usize = 0;
            while i < fields.len()
                invariant
                    i <= fields@.len(),
                    object_map(members@) == with_missing(m, fields@.take(i as int)),
                decreases fields@.len() - i,
            {
                proof {
                    assert(fields@.take(i + 1).drop_last() =~= fields@.take(i as int));
                    assert(fields@.take(i + 1).last() == fields@[i as int]);
                }
                if !has_member(&members, fields[i].0.as_str()) {
                    insert_member(&mut members, fields[i].0.clone(), copy_value(&fields[i].1));
                }
                i = i + 1;
            }
            proof {
                assert(fields@.take(fields@.len() as int) =~= fields@);
            }
            JsonValue::Object(members)
        },
        other => other,
    }
}

/// Removes each of the members `field_names`.
pub fn remove_fields(value: JsonValue, field_names: &[String]) -> (r: JsonValue)
    ensures
        match object_of(value) {
            Some(m) => object_of(r) == Some(without_all(m, field_names@)),
            None => r == value,
        },
{
    match value {
        JsonValue::Object(members) => {
            let mut members = members;
            let ghost m = object_map(members@);
            let mut i: usize = 0;
            while i < field_names.len()
                invariant
                    i <= field_names@.len(),
                    object_map(members@) == without_all(m, field_names@.take(i as int)),
                decreases field_names@.len() - i,
            {
                proof {
                    assert(field_names@.take(i + 1).drop_last() =~= field_names@.take(i as int));
                    assert(field_names@.take(i + 1).last() == field_names@[i as int]);
                }
                remove_member(&mut members, field_names[i].as_str());
                i = i + 1;
            }
            proof {
                assert(field_names@.take(field_names@.len() as int) =~= field_names@);
            }
            JsonValue::Object(members)
        },
        other => other,
    }
}

/// Renames members as each of `renames` says, in order: from its first name
/// to its second, when there is such a member.
pub fn rename_fields(value: JsonValue, renames: &[(String, String)]) -> (r: JsonValue)
    ensures
        match object_of(value) {
            Some(m) => object_of(r) == Some(renamed_all(m, renames@)),
            None => r == value,
        },
{
    match value {
        JsonValue::Object(members) => {
            let mut members = members;
            let ghost m = object_map(members@);
            let mut i: usize = 0;
            while i < renames.len()
                invariant
                    i <= renames@.len(),
                    object_map(members@) == renamed_all(m, renames@.take(i as int)),
                decreases renames@.len() - i,
            {
                proof {
                    assert(renames@.take(i + 1).drop_last() =~= renames@.take(i as int));
                    assert(renames@.take(i + 1).last() == renames@[i as int]);
                }
                match remove_member(&mut members, renames[i].0.as_str()) {
                    Some(v) => {
                        insert_member(&mut members, renames[i].1.clone(), v);
                    },
                    None => {},
                }
                i = i + 1;
            }
            proof {
                assert(renames@.take(renames@.len() as int) =~= renames@);
            }
            JsonValue::Object(members)
        },
        other => other,
    }
}

/// The object `m` and the members collected for the nested object, after
/// each of `mappings` moves member `.0` of `m`, when there is one, into the
/// nested object under the name `.1`.
pub open spec fn nested_after(m: Map<Seq<char>, JsonView>, mappings: Seq<(String, String)>) -> (
    Map<Seq<char>, JsonView>,
    Seq<(Seq<char>, JsonView)>,
)
    decreases mappings.len(),
{
    if mappings.len() == 0 {
        (m, Seq::empty())
    } else {
        let (p, nested) = nested_after(m, mappings.drop_last());
        let (from, to) = mappings.last();
        if p.contains_key(from@) {
            (p.remove(from@), put_member(nested, to@, p[from@]))
        } else {
            (p, nested)
        }
    }
}

/// The name a nested member `key` gets when flattened with `prefix`.
pub open spec fn flat_key(prefix: Seq<char>, key: Seq<char>) -> Seq<char> {
    if prefix.len() == 0 {
        key
    } else {
        prefix + "_"@ + key
    }
}

/// The object `m` with the members `nested` added under their flattened
/// names, in order.
pub open spec fn flattened(m: Map<Seq<char>, JsonView>, nested: Seq<(Seq<char>, JsonView)>, prefix: Seq<char>) -> Map<
    Seq<char>,
    JsonView,
>
    decreases nested.len(),
{
    if nested.len() == 0 {
        m
    } else {
        flattened(m, nested.drop_last(), prefix).insert(flat_key(prefix, nested.last().0), nested.last().1)
    }
}

/// Moves members into a nested object `target_field`: each of
/// `field_mappings` moves member `.0`, when there is one, into it under the
/// name `.1`. The nested object is added only when it has members.
pub fn nest_fields(value: JsonValue, target_field: &str, field_mappings: &[(String, String)]) -> (r: JsonValue)
    ensures
        match object_of(value) {
            Some(m) => {
                let (p, nested) = nested_after(m, field_mappings@);
                object_of(r) == Some(
                    if nested.len() > 0 {
                        p.insert(target_field@, JsonView::Object(nested))
                    } else {
                        p
                    },
                )
            },
            None => r == value,
        },
{
    match value {
        JsonValue::Object(members) => {
            let mut members = members;
            let ghost m = object_map(members@);
            let mut nested: Vec<(String, JsonValue)> = Vec::new();
            let mut i: usize = 0;
            while i < field_mappings.len()
                invariant
                    i <= field_mappings@.len(),
                    object_map(members@) == nested_after(m, field_mappings@.take(i as int)).0,
                    members_view(nested@) == nested_after(m, field_mappings@.take(i as int)).1,
                decreases field_mappings@.len() - i,
            {
                proof {
                    assert(field_mappings@.take(i + 1).drop_last() =~= field_mappings@.take(i as int));
                    assert(field_mappings@.take(i + 1).last() == field_mappings@[i as int]);
                }
                match remove_member(&mut members, field_mappings[i].0.as_str()) {
                    Some(v) => {
                        insert_member(&mut nested, field_mappings[i].1.clone(), v);
                    },
                    None => {},
                }
                i = i + 1;
            }
            proof {
                assert(field_mappings@.take(field_mappings@.len() as int) =~= field_mappings@);
                lemma_members_view(nested@);
            }
            if nested.len() > 0 {
                insert_member(&mut members, target_field.to_owned(), JsonValue::Object(nested));
            }
            JsonValue::Object(members)
        },
        other => other,
    }
}

/// Replaces the nested object `source_field` by its members, each named
/// `prefix`, `_` and its own name (or its own name alone when `prefix` is
/// empty). A member `source_field` that is not an object is removed.
pub fn flatten_fields(value: JsonValue, source_field: &str, prefix: &str) -> (r: JsonValue)
    ensures
        match object_of(value) {
            Some(m) => object_of(r) == Some(
                if m.contains_key(source_field@) {
                    match m[source_field@] {
                        JsonView::Object(nested) => flattened(m.remove(source_field@), nested, prefix@),
                        _ => m.remove(source_field@),
                    }
                } else {
                    m
                },
            ),
            None => r == value,
        },
{
    match value {
        JsonValue::Object(members) => {
            let mut members = members;
            let ghost m = object_map(members@);
            match remove_member(&mut members, source_field) {
                Some(JsonValue::Object(nested)) => {
                    let ghost nv = members_view(nested@);
                    let ghost m1 = object_map(members@);
                    proof {
                        lemma_members_view(nested@);
                    }
                    let mut i: usize = 0;
                    while i < nested.len()
                        invariant
                            i <= nested@.len(),
                            nv == members_view(nested@),
                            nv.len() == nested@.len(),
                            forall|j: int|
                                0 <= j < nested@.len() ==> #[trigger] nv[j] == (
                                    nested@[j].0@,
                                    json_view(nested@[j].1),
                                ),
                            object_map(members@) == flattened(m1, nv.take(i as int), prefix@),
                        decreases nested@.len() - i,
                    {
                        proof {
                            assert(nv.take(i + 1).drop_last() =~= nv.take(i as int));
                            assert(nv.take(i + 1).last() == nv[i as int]);
                        }
                        let key = if prefix.unicode_len() == 0 {
                            nested[i].0.clone()
                        } else {
                            prefix.to_owned().concat("_").concat(nested[i].0.as_str())
                        };
                        insert_member(&mut members, key, copy_value(&nested[i].1));
                        i = i + 1;
                    }
                    proof {
                        assert(nv.take(nested@.len() as int) =~= nv);
                    }
                },
                _ => {},
            }
            JsonValue::Object(members)
        },
        other => other,
    }
}

fn update_member<F>(value: JsonValue, field_name: &str, f: &F) -> (r: Result<JsonValue, EventStoreError>) where
    F: Fn(JsonValue) -> Result<JsonValue, EventStoreError>,

    requires
        forall|x: JsonValue| f.requires((x,)),
    ensures
        match object_of(value) {
            Some(m) => if m.contains_key(field_name@) {
                exists|arg: JsonValue, out: Result<JsonValue, EventStoreError>|
                    json_view(arg) == m[field_name@] && f.ensures((arg,), out) && match out {
                        Ok(t) => r matches Ok(v) && object_of(v) == Some(m.insert(field_name@, json_view(t))),
                        Err(e) => r == Err::<JsonValue, EventStoreError>(e),
                    }
            } else {
                r == Ok::<JsonValue, EventStoreError>(value)
            },
            None => r == Ok::<JsonValue, EventStoreError>(value),
        },
{
    match value {
        JsonValue::Object(members) => {
            let mut members = members;
            if !has_member(&members, field_name) {
                return Ok(JsonValue::Object(members));
            }
            let ghost m = object_map(members@);
            match remove_member(&mut members, field_name) {
                Some(v) => {
                    let ghost arg = v;
                    let out = f(v);
                    let ghost gout = out;
                    match out {
                        Ok(t) => {
                            let ghost gt = t;
                            insert_member(&mut members, field_name.to_owned(), t);
                            proof {
                                assert(object_map(members@) =~= m.insert(field_name@, json_view(gt)));
                            }
                            let r = Ok(JsonValue::Object(members));
                            assert(json_view(arg) == m[field_name@] && f.ensures((arg,), gout));
                            r
                        },
                        Err(e) => {
                            assert(json_view(arg) == m[field_name@] && f.ensures((arg,), gout));
                            Err(e)
                        },
                    }
                },
                None => Ok(JsonValue::Object(members)),
            }
        },
        other => Ok(other),
    }
}

/// Replaces member `field_name`, when there is one, by what `transform_fn`
/// makes of it; its error is the migration's.
pub fn transform_field<F>(value: JsonValue, field_name: &str, transform_fn: &F) -> (r: Result<
    JsonValue,
    EventStoreError,
>) where F: Fn(JsonValue) -> Result<JsonValue, EventStoreError>,

    requires
        forall|x: JsonValue| transform_fn.requires((x,)),
    ensures
        match object_of(value) {
            Some(m) => if m.contains_key(field_name@) {
                exists|arg: JsonValue, out: Result<JsonValue, EventStoreError>|
                    json_view(arg) == m[field_name@] && transform_fn.ensures((arg,), out) && match out {
                        Ok(t) => r matches Ok(v) && object_of(v) == Some(m.insert(field_name@, json_view(t))),
                        Err(e) => r == Err::<JsonValue, EventStoreError>(e),
                    }
            } else {
                r == Ok::<JsonValue, EventStoreError>(value)
            },
            None => r == Ok::<JsonValue, EventStoreError>(value),
        },
{
    update_member(value, field_name, transform_fn)
}

/// Converts member `field_name`, when there is one, with `converter`; its
/// error is the migration's.
pub fn convert_field_type<F>(value: JsonValue, field_name: &str, converter: &F) -> (r: Result<
    JsonValue,
    EventStoreError,
>) where F: Fn(JsonValue) -> Result<JsonValue, EventStoreError>,

    requires
        forall|x: JsonValue| converter.requires((x,)),
    ensures
        match object_of(value) {
            Some(m) => if m.contains_key(field_name@) {
                exists|arg: JsonValue, out: Result<JsonValue, EventStoreError>|
                    json_view(arg) == m[field_name@] && converter.ensures((arg,), out) && match out {
                        Ok(t) => r matches Ok(v) && object_of(v) == Some(m.insert(field_name@, json_view(t))),
                        Err(e) => r == Err::<JsonValue, EventStoreError>(e),
                    }
            } else {
                r == Ok::<JsonValue, EventStoreError>(value)
            },
            None => r == Ok::<JsonValue, EventStoreError>(value),
        },
{
    update_member(value, field_name, converter)
}

/// Validates and normalizes member `field_name`, when there is one, with
/// `validator_normalizer`; its error is the migration's.
pub fn validate_and_normalize_field<F>(value: JsonValue, field_name: &str, validator_normalizer: &F) -> (r: Result<
    JsonValue,
    EventStoreError,
>) where F: Fn(JsonValue) -> Result<JsonValue, EventStoreError>,

    requires
        forall|x: JsonValue| validator_normalizer.requires((x,)),
    ensures
        match object_of(value) {
            Some(m) => if m.contains_key(field_name@) {
                exists|arg: JsonValue, out: Result<JsonValue, EventStoreError>|
                    json_view(arg) == m[field_name@] && validator_normalizer.ensures((arg,), out) && match out {
                        Ok(t) => r matches Ok(v) && object_of(v) == Some(m.insert(field_name@, json_view(t))),
                        Err(e) => r == Err::<JsonValue, EventStoreError>(e),
                    }
            } else {
                r == Ok::<JsonValue, EventStoreError>(value)
            },
            None => r == Ok::<JsonValue, EventStoreError>(value),
        },
{
    update_member(value, field_name, validator_normalizer)
}

/// The object `m` with `parts[i]` under `targets[i]`, for each target that
/// has a part, in order.
pub open spec fn spread(m: Map<Seq<char>, JsonView>, targets: Seq<String>, parts: Seq<JsonView>) -> Map<
    Seq<char>,
    JsonView,
>
    decreases targets.len(),
{
    if targets.len() == 0 {
        m
    } else {
        let p = spread(m, targets.drop_last(), parts);
        if targets.len() - 1 < parts.len() {
            p.insert(targets.last()@, parts[targets.len() - 1])
        } else {
            p
        }
    }
}

/// Moves member `source_field`, when there is one, into the members
/// `target_fields`: the value `splitter` makes of it gives the first
/// target its first part, and so on, as far as there are parts. The
/// splitter's error is the migration's.
pub fn split_field<F>(value: JsonValue, source_field: &str, target_fields: &[String], splitter: &F) -> (r: Result<
    JsonValue,
    EventStoreError,
>) where F: Fn(JsonValue) -> Result<Vec<JsonValue>, EventStoreError>,

    requires
        forall|x: JsonValue| splitter.requires((x,)),
    ensures
        match object_of(value) {
            Some(m) => if m.contains_key(source_field@) {
                exists|arg: JsonValue, out: Result<Vec<JsonValue>, EventStoreError>|
                    json_view(arg) == m[source_field@] && splitter.ensures((arg,), out) && match out {
                        Ok(parts) => r matches Ok(v) && object_of(v) == Some(
                            spread(m.remove(source_field@), target_fields@, items_view(parts@)),
                        ),
                        Err(e) => r == Err::<JsonValue, EventStoreError>(e),
                    }
            } else {
                r == Ok::<JsonValue, EventStoreError>(value)
            },
            None => r == Ok::<JsonValue, EventStoreError>(value),
        },
{
    match value {
        JsonValue::Object(members) => {
            let mut members = members;
            if !has_member(&members, source_field) {
                return Ok(JsonValue::Object(members));
            }
            let ghost m = object_map(members@);
            match remove_member(&mut members, source_field) {
                Some(v) => {
                    let ghost arg = v;
                    let out = splitter(v);
                    let ghost gout = out;
                    match out {
                        Ok(parts) => {
                            let ghost pv = items_view(parts@);
                            let ghost m1 = object_map(members@);
                            proof {
                                lemma_items_view(parts@);
                            }
                            let mut i: usize = 0;
                            while i < target_fields.len()
                                invariant
                                    i <= target_fields@.len(),
                                    pv == items_view(parts@),
                                    pv.len() == parts@.len(),
                                    forall|j: int| 0 <= j < parts@.len() ==> #[trigger] pv[j] == json_view(parts@[j]),
                                    object_map(members@) == spread(m1, target_fields@.take(i as int), pv),
                                decreases target_fields@.len() - i,
                            {
                                proof {
                                    assert(target_fields@.take(i + 1).drop_last() =~= target_fields@.take(i as int));
                                    assert(target_fields@.take(i + 1).last() == target_fields@[i as int]);
                                }
                                if i < parts.len() {
                                    insert_member(&mut members, target_fields[i].clone(), copy_value(&parts[i]));
                                }
                                i = i + 1;
                            }
                            proof {
                                assert(target_fields@.take(target_fields@.len() as int) =~= target_fields@);
                            }
                            assert(json_view(arg) == m[source_field@] && splitter.ensures((arg,), gout));
                            Ok(JsonValue::Object(members))
                        },
                        Err(e) => {
                            assert(json_view(arg) == m[source_field@] && splitter.ensures((arg,), gout));
                            Err(e)
                        },
                    }
                },
                None => Ok(JsonValue::Object(members)),
            }
        },
        other => Ok(other),
    }
}

/// The object `m` without the members `sources`, and the values they had,
/// in order, null for a member it lacked.
pub open spec fn gathered(m: Map<Seq<char>, JsonView>, sources: Seq<String>) -> (
    Map<Seq<char>, JsonView>,
    Seq<JsonView>,
)
    decreases sources.len(),
{
    if sources.len() == 0 {
        (m, Seq::empty())
    } else {
        let (p, values) = gathered(m, sources.drop_last());
        let s = sources.last()@;
        if p.contains_key(s) {
            (p.remove(s), values.push(p[s]))
        } else {
            (p, values.push(JsonView::Null))
        }
    }
}

/// Replaces the members `source_fields` by the member `target_field`, with
/// the value `combiner` makes of their values, in order, null for a member
/// there is not. With no source fields the object stays as it is. The
/// combiner's error is the migration's.
pub fn combine_fields<F>(value: JsonValue, source_fields: &[String], target_field: &str, combiner: &F) -> (r: Result<
    JsonValue,
    EventStoreError,
>) where F: Fn(Vec<JsonValue>) -> Result<JsonValue, EventStoreError>,

    requires
        forall|x: Vec<JsonValue>| combiner.requires((x,)),
    ensures
        match object_of(value) {
            Some(m) => {
                let (p, values) = gathered(m, source_fields@);
                if source_fields@.len() > 0 {
                    exists|args: Vec<JsonValue>, out: Result<JsonValue, EventStoreError>|
                        items_view(args@) == values && combiner.ensures((args,), out) && match out {
                            Ok(c) => r matches Ok(v) && object_of(v) == Some(p.insert(target_field@, json_view(c))),
                            Err(e) => r == Err::<JsonValue, EventStoreError>(e),
                        }
                } else {
                    r == Ok::<JsonValue, EventStoreError>(value)
                }
            },
            None => r == Ok::<JsonValue, EventStoreError>(value),
        },
{
    match value {
        JsonValue::Object(members) => {
            if source_fields.len() == 0 {
                return Ok(JsonValue::Object(members));
            }
            let mut members = members;
            let ghost m = object_map(members@);
            let mut values: Vec<JsonValue> = Vec::new();
            let mut i: usize = 0;
            while i < source_fields.len()
                invariant
                    i <= source_fields@.len(),
                    object_map(members@) == gathered(m, source_fields@.take(i as int)).0,
                    items_view(values@) == gathered(m, source_fields@.take(i as int)).1,
                decreases source_fields@.len() - i,
            {
                proof {
                    assert(source_fields@.take(i + 1).drop_last() =~= source_fields@.take(i as int));
                    assert(source_fields@.take(i + 1).last() == source_fields@[i as int]);
                }
                let ghost before = values@;
                let v = match remove_member(&mut members, source_fields[i].as_str()) {
                    Some(v) => v,
                    None => JsonValue::Null,
                };
                let ghost gv = v;
                values.push(v);
                proof {
                    assert(values@.drop_last() =~= before);
                    assert(values@.last() == gv);
                    assert(items_view(values@) == items_view(before).push(json_view(gv)));
                }
                i = i + 1;
            }
            proof {
                assert(source_fields@.take(source_fields@.len() as int) =~= source_fields@);
            }
            let ghost args = values;
            let out = combiner(values);
            let ghost gout = out;
            match out {
                Ok(c) => {
                    let ghost gc = c;
                    insert_member(&mut members, target_field.to_owned(), c);
                    assert(items_view(args@) == gathered(m, source_fields@).1 && combiner.ensures((args,), gout));
                    Ok(JsonValue::Object(members))
                },
                Err(e) => {
                    assert(items_view(args@) == gathered(m, source_fields@).1 && combiner.ensures((args,), gout));
                    Err(e)
                },
            }
        },
        other => Ok(other),
    }
}

/// Replaces the array member `field_name` by the array `transformer` makes
/// of its items. A member `field_name` that is not an array is removed.
/// The transformer's error is the migration's.
pub fn transform_array_field<F>(value: JsonValue, field_name: &str, transformer: &F) -> (r: Result<
    JsonValue,
    EventStoreError,
>) where F: Fn(Vec<JsonValue>) -> Result<Vec<JsonValue>, EventStoreError>,

    requires
        forall|x: Vec<JsonValue>| transformer.requires((x,)),
    ensures
        match object_of(value) {
            Some(m) => if m.contains_key(field_name@) {
                match m[field_name@] {
                    JsonView::Array(items) => exists|arg: Vec<JsonValue>, out: Result<Vec<JsonValue>, EventStoreError>|
                        items_view(arg@) == items && transformer.ensures((arg,), out) && match out {
                            Ok(t) => r matches Ok(v) && object_of(v) == Some(
                                m.insert(field_name@, JsonView::Array(items_view(t@))),
                            ),
                            Err(e) => r == Err::<JsonValue, EventStoreError>(e),
                        },
                    _ => r matches Ok(v) && object_of(v) == Some(m.remove(field_name@)),
                }
            } else {
                r == Ok::<JsonValue, EventStoreError>(value)
            },
            None => r == Ok::<JsonValue, EventStoreError>(value),
        },
{
    match value {
        JsonValue::Object(members) => {
            let mut members = members;
            if !has_member(&members, field_name) {
                return Ok(JsonValue::Object(members));
            }
            let ghost m = object_map(members@);
            match remove_member(&mut members, field_name) {
                Some(JsonValue::Array(items)) => {
                    let ghost arg = items;
                    let out = transformer(items);
                    let ghost gout = out;
                    match out {
                        Ok(t) => {
                            let ghost gt = t;
                            insert_member(&mut members, field_name.to_owned(), JsonValue::Array(t));
                            proof {
                                assert(object_map(members@) =~= m.insert(
                                    field_name@,
                                    JsonView::Array(items_view(gt@)),
                                ));
                            }
                            assert(items_view(arg@) == items_view(arg@) && transformer.ensures((arg,), gout));
                            Ok(JsonValue::Object(members))
                        },
                        Err(e) => {
                            assert(transformer.ensures((arg,), gout));
                            Err(e)
                        },
                    }
                },
                _ => Ok(JsonValue::Object(members)),
            }
        },
        other => Ok(other),
    }
}

fn text_is(a: &str, b: &str) -> (r: bool)
    ensures
        r == (a@ == b@),
{
    a.to_owned() == b.to_owned()
}

fn evolution_error(message: String) -> (e: EventStoreError)
    ensures
        e == EventStoreError::SchemaEvolutionError(message),
{
    EventStoreError::SchemaEvolutionError(message)
}

/// A number as a string of its text; anything else as it is.
pub fn number_to_string(value: JsonValue) -> (r: Result<JsonValue, EventStoreError>)
    ensures
        match value {
            JsonValue::Number(n) => r matches Ok(JsonValue::String(s)) && s@ == n@,
            _ => r == Ok::<JsonValue, EventStoreError>(value),
        },
{
    match value {
        JsonValue::Number(n) => Ok(JsonValue::String(n)),
        v => Ok(v),
    }
}

/// A boolean as the string `true` or `false`; anything else as it is.
pub fn boolean_to_string(value: JsonValue) -> (r: Result<JsonValue, EventStoreError>)
    ensures
        match value {
            JsonValue::Bool(b) => r matches Ok(JsonValue::String(s)) && s@ == if b {
                "true"@
            } else {
                "false"@
            },
            _ => r == Ok::<JsonValue, EventStoreError>(value),
        },
{
    match value {
        JsonValue::Bool(b) => Ok(JsonValue::String(
            if b {
                "true".to_owned()
            } else {
                "false".to_owned()
            },
        )),
        v => Ok(v),
    }
}

/// The boolean a lowercase text names: `true`, `1`, `yes` and `on` are
/// true; `false`, `0`, `no` and `off` are false.
pub open spec fn boolean_named(l: Seq<char>) -> Option<bool> {
    if l == "true"@ || l == "1"@ || l == "yes"@ || l == "on"@ {
        Some(true)
    } else if l == "false"@ || l == "0"@ || l == "no"@ || l == "off"@ {
        Some(false)
    } else {
        None
    }
}

/// The words for booleans, each with its opposite: `true` and `false`, `1`
/// and `0`, `yes` and `no`, `on` and `off`.
pub open spec fn boolean_word_pairs() -> Seq<(Seq<char>, Seq<char>)> {
    seq![("true"@, "false"@), ("1"@, "0"@), ("yes"@, "no"@), ("on"@, "off"@)]
}

/// The word of the `i`th pair that stands for `b`.
pub open spec fn boolean_word(i: int, b: bool) -> Seq<char> {
    if b {
        boolean_word_pairs()[i].0
    } else {
        boolean_word_pairs()[i].1
    }
}

/// Each word names its boolean and its opposite names the other one, and a
/// text names a boolean only if it is one of these words; so no text names
/// both. The text [`boolean_to_string`] writes for a boolean names it again.
pub proof fn lemma_boolean_words(l: Seq<char>, b: bool)
    ensures
        forall|i: int| 0 <= i < 4 ==> boolean_named(#[trigger] boolean_word(i, b)) == Some(b),
        boolean_named(l) == Some(b) <==> exists|j: int| 0 <= j < 4 && l == #[trigger] boolean_word(j, b),
        boolean_named(
            if b {
                "true"@
            } else {
                "false"@
            },
        ) == Some(b),
{
    reveal_strlit("true");
    reveal_strlit("false");
    reveal_strlit("1");
    reveal_strlit("0");
    reveal_strlit("yes");
    reveal_strlit("no");
    reveal_strlit("on");
    reveal_strlit("off");
    assert(boolean_named("true"@) == Some(true));
    assert(boolean_named("1"@) == Some(true));
    assert(boolean_named("yes"@) == Some(true));
    assert(boolean_named("on"@) == Some(true));
    assert("true"@.len() == 4 && "1"@.len() == 1 && "yes"@.len() == 3 && "on"@.len() == 2);
    assert("false"@.len() == 5 && "0"@.len() == 1 && "no"@.len() == 2 && "off"@.len() == 3);
    assert("0"@[0] != "1"@[0] && "no"@[1] != "on"@[1] && "off"@[0] != "yes"@[0]);
    assert(boolean_named("false"@) == Some(false));
    assert(boolean_named("0"@) == Some(false));
    assert(boolean_named("no"@) == Some(false));
    assert(boolean_named("off"@) == Some(false));
    assert forall|i: int| 0 <= i < 4 implies boolean_named(#[trigger] boolean_word(i, b)) == Some(b) by {
        assert(i == 0 || i == 1 || i == 2 || i == 3);
    }
    if boolean_named(l) == Some(b) {
        if l == "true"@ || l == "false"@ {
            assert(l == boolean_word(0, b));
        } else if l == "1"@ || l == "0"@ {
            assert(l == boolean_word(1, b));
        } else if l == "yes"@ || l == "no"@ {
            assert(l == boolean_word(2, b));
        } else {
            assert(l == boolean_word(3, b));
        }
    }
}

/// A string, in any case, as the boolean it names; a string that names none
/// is refused. Anything else as it is.
pub fn string_to_boolean(value: JsonValue) -> (r: Result<JsonValue, EventStoreError>)
    ensures
        match value {
            JsonValue::String(s) => match boolean_named(lowercase_text(s@)) {
                Some(b) => r == Ok::<JsonValue, EventStoreError>(JsonValue::Bool(b)),
                None => r matches Err(EventStoreError::SchemaEvolutionError(m)) && m@ == "Cannot convert string '"@
                    + s@ + "' to boolean"@,
            },
            _ => r == Ok::<JsonValue, EventStoreError>(value),
        },
{
    match value {
        JsonValue::String(s) => {
            let l = to_lowercase(s.as_str());
            let t = l.as_str();
            if text_is(t, "true") || text_is(t, "1") || text_is(t, "yes") || text_is(t, "on") {
                Ok(JsonValue::Bool(true))
            } else if text_is(t, "false") || text_is(t, "0") || text_is(t, "no") || text_is(t, "off") {
                Ok(JsonValue::Bool(false))
            } else {
                Err(evolution_error("Cannot convert string '".to_owned().concat(s.as_str()).concat("' to boolean")))
            }
        },
        v => Ok(v),
    }
}

/// A string trimmed and in lowercase; anything else as it is.
pub fn normalize_string(value: JsonValue) -> (r: Result<JsonValue, EventStoreError>)
    ensures
        match value {
            JsonValue::String(s) => r matches Ok(JsonValue::String(t)) && t@ == lowercase_text(trimmed(s@)),
            _ => r == Ok::<JsonValue, EventStoreError>(value),
        },
{
    match value {
        JsonValue::String(s) => {
            let t = trim(s.as_str());
            Ok(JsonValue::String(to_lowercase(t.as_str())))
        },
        v => Ok(v),
    }
}

/// The first and last name a full name splits into, by its words: the
/// first word, and the others joined by single spaces.
pub open spec fn name_parts(w: Seq<Seq<char>>) -> Seq<JsonView> {
    if w.len() >= 2 {
        seq![JsonView::String(w[0]), JsonView::String(joined(w.subrange(1, w.len() as int), " "@))]
    } else if w.len() == 1 {
        seq![JsonView::String(w[0]), JsonView::String(Seq::empty())]
    } else {
        seq![JsonView::String(Seq::empty()), JsonView::String(Seq::empty())]
    }
}

/// Splits a full name into a first and a last name, as [`name_parts`]
/// says; anything but a string is refused.
pub fn split_full_name(value: JsonValue) -> (r: Result<Vec<JsonValue>, EventStoreError>)
    ensures
        match value {
            JsonValue::String(s) => r matches Ok(v) && items_view(v@) == name_parts(words(s@)),
            _ => r matches Err(EventStoreError::SchemaEvolutionError(m)) && m@
                == "Cannot split non-string value as full name"@,
        },
{
    match value {
        JsonValue::String(full_name) => {
            let parts = split_words(full_name.as_str());
            let ghost w = parts@.map_values(|p: String| p@);
            let mut v: Vec<JsonValue> = Vec::new();
            if parts.len() >= 2 {
                let mut rest: Vec<String> = Vec::new();
                let mut i: usize = 1;
                while i < parts.len()
                    invariant
                        1 <= i <= parts@.len(),
                        w == parts@.map_values(|p: String| p@),
                        rest@.map_values(|p: String| p@) == w.subrange(1, i as int),
                    decreases parts@.len() - i,
                {
                    let ghost before = rest@.map_values(|p: String| p@);
                    rest.push(parts[i].clone());
                    proof {
                        assert(rest@.map_values(|p: String| p@) =~= before.push(w[i as int]));
                        assert(w.subrange(1, i + 1) =~= w.subrange(1, i as int).push(w[i as int]));
                    }
                    i = i + 1;
                }
                v.push(JsonValue::String(parts[0].clone()));
                v.push(JsonValue::String(join_strings_of(&rest)));
            } else if parts.len() == 1 {
                v.push(JsonValue::String(parts[0].clone()));
                v.push(JsonValue::String(String::new()));
            } else {
                v.push(JsonValue::String(String::new()));
                v.push(JsonValue::String(String::new()));
            }
            proof {
                crate::json::lemma_items_view_ext(v@, name_parts(w));
            }
            Ok(v)
        },
        _ => Err(evolution_error("Cannot split non-string value as full name".to_owned())),
    }
}

fn join_strings_of(parts: &Vec<String>) -> (s: String)
    ensures
        s@ == joined(parts@.map_values(|p: String| p@), " "@),
{
    crate::text::join_strings(parts.as_slice(), " ")
}

/// Each piece as a string, trimmed.
pub open spec fn trimmed_pieces(ps: Seq<Seq<char>>) -> Seq<JsonView>
    decreases ps.len(),
{
    if ps.len() == 0 {
        Seq::empty()
    } else {
        trimmed_pieces(ps.drop_last()).push(JsonView::String(trimmed(ps.last())))
    }
}

/// Splits a string at its commas into an array of the trimmed pieces, the
/// only part; anything but a string is refused.
pub fn split_comma_separated(value: JsonValue) -> (r: Result<Vec<JsonValue>, EventStoreError>)
    ensures
        match value {
            JsonValue::String(s) => r matches Ok(v) && items_view(v@) == seq![
                JsonView::Array(trimmed_pieces(pieces(s@, ',')))
            ],
            _ => r matches Err(EventStoreError::SchemaEvolutionError(m)) && m@
                == "Cannot split non-string value as comma-separated"@,
        },
{
    match value {
        JsonValue::String(s) => {
            let ps = split_on(s.as_str(), ',');
            let ghost pv = ps@.map_values(|p: String| p@);
            let mut items: Vec<JsonValue> = Vec::new();
            let mut i: usize = 0;
            while i < ps.len()
                invariant
                    i <= ps@.len(),
                    pv == ps@.map_values(|p: String| p@),
                    items_view(items@) == trimmed_pieces(pv.take(i as int)),
                decreases ps@.len() - i,
            {
                let ghost before = items@;
                let t = trim(ps[i].as_str());
                let ghost gt = JsonValue::String(t);
                items.push(JsonValue::String(t));
                proof {
                    assert(items@.drop_last() =~= before);
                    assert(items@.last() == gt);
                    assert(json_view(gt) == JsonView::String(trimmed(ps@[i as int]@)));
                    assert(items_view(items@) == items_view(before).push(json_view(gt)));
                    assert(pv.take(i + 1).drop_last() =~= pv.take(i as int));
                    assert(pv.take(i + 1).last() == ps@[i as int]@);
                }
                i = i + 1;
            }
            proof {
                assert(pv.take(ps@.len() as int) =~= pv);
            }
            let ghost arr = JsonValue::Array(items);
            let mut v: Vec<JsonValue> = Vec::new();
            v.push(JsonValue::Array(items));
            proof {
                assert(v@.drop_last() =~= Seq::<JsonValue>::empty());
                assert(v@.last() == arr);
                assert(json_view(arr) == JsonView::Array(trimmed_pieces(pieces(s@, ','))));
                crate::json::lemma_items_view_ext(v@, seq![json_view(arr)]);
            }
            Ok(v)
        },
        _ => Err(evolution_error("Cannot split non-string value as comma-separated".to_owned())),
    }
}

/// The trimmed text of a name part, empty for anything but a string.
pub open spec fn name_text(v: JsonView) -> Seq<char> {
    match v {
        JsonView::String(s) => trimmed(s),
        _ => Seq::empty(),
    }
}

/// A full name from a first and a last name: both, separated by a space,
/// or the one that is not empty.
pub open spec fn full_name(first: Seq<char>, last: Seq<char>) -> Seq<char> {
    if first.len() == 0 {
        last
    } else if last.len() == 0 {
        first
    } else {
        first + " "@ + last
    }
}

fn part_text(v: &JsonValue) -> (t: String)
    ensures
        t@ == name_text(json_view(*v)),
{
    match v {
        JsonValue::String(s) => trim(s.as_str()),
        _ => String::new(),
    }
}

/// Combines a first and a last name into a full name, as [`full_name`]
/// says, after trimming each; a part that is not a string counts as empty.
/// Anything but exactly two values is refused.
pub fn combine_full_name(values: Vec<JsonValue>) -> (r: Result<JsonValue, EventStoreError>)
    ensures
        values@.len() != 2 ==> (r matches Err(EventStoreError::SchemaEvolutionError(m)) && m@
            == "combine_full_name requires exactly 2 values"@),
        values@.len() == 2 ==> (r matches Ok(JsonValue::String(s)) && s@ == full_name(
            name_text(json_view(values@[0])),
            name_text(json_view(values@[1])),
        )),
{
    if values.len() != 2 {
        return Err(evolution_error("combine_full_name requires exactly 2 values".to_owned()));
    }
    let first = part_text(&values[0]);
    let last = part_text(&values[1]);
    let full = if first.as_str().unicode_len() == 0 {
        last
    } else if last.as_str().unicode_len() == 0 {
        first
    } else {
        first.concat(" ").concat(last.as_str())
    };
    Ok(JsonValue::String(full))
}

/// The text a value contributes when combined with a separator: a string's
/// own, nothing for null; `None` for anything else.
pub open spec fn combined_text(v: JsonView) -> Option<Seq<char>> {
    match v {
        JsonView::String(s) => Some(s),
        JsonView::Null => Some(Seq::empty()),
        _ => None,
    }
}

/// The texts the values contribute, in order.
pub open spec fn combined_texts(vs: Seq<JsonView>) -> Seq<Seq<char>>
    decreases vs.len(),
{
    if vs.len() == 0 {
        Seq::empty()
    } else {
        combined_texts(vs.drop_last()).push(
            match combined_text(vs.last()) {
                Some(t) => t,
                None => Seq::empty(),
            },
        )
    }
}

/// Joins the texts of string values, null counting as empty, with
/// `separator` between each two; a value of any other kind is refused.
pub fn combine_with_separator(separator: &str, values: Vec<JsonValue>) -> (r: Result<JsonValue, EventStoreError>)
    ensures
        (forall|i: int| 0 <= i < values@.len() ==> combined_text(#[trigger] json_view(values@[i])).is_some())
            ==> (r matches Ok(JsonValue::String(s)) && s@ == joined(
            combined_texts(items_view(values@)),
            separator@,
        )),
        !(forall|i: int| 0 <= i < values@.len() ==> combined_text(#[trigger] json_view(values@[i])).is_some())
            ==> (r matches Err(EventStoreError::SchemaEvolutionError(m)) && m@ == "Can only combine string values"@),
{
    let ghost vs = items_view(values@);
    proof {
        crate::json::lemma_items_view(values@);
    }
    let mut strings: Vec<String> = Vec::new();
    let mut i: usize = 0;
    while i < values.len()
        invariant
            i <= values@.len(),
            vs == items_view(values@),
            vs.len() == values@.len(),
            forall|j: int| 0 <= j < values@.len() ==> #[trigger] vs[j] == json_view(values@[j]),
            forall|j: int| 0 <= j < i ==> combined_text(#[trigger] json_view(values@[j])).is_some(),
            strings@.map_values(|p: String| p@) == combined_texts(vs.take(i as int)),
        decreases values@.len() - i,
    {
        let ghost before = strings@.map_values(|p: String| p@);
        proof {
            assert(vs.take(i + 1).drop_last() =~= vs.take(i as int));
            assert(vs.take(i + 1).last() == json_view(values@[i as int]));
        }
        match &values[i] {
            JsonValue::String(s) => {
                strings.push(s.clone());
            },
            JsonValue::Null => {
                strings.push(String::new());
            },
            _ => {
                return Err(evolution_error("Can only combine string values".to_owned()));
            },
        }
        proof {
            assert(strings@.map_values(|p: String| p@) =~= before.push(
                match combined_text(json_view(values@[i as int])) {
                    Some(t) => t,
                    None => Seq::empty(),
                },
            ));
        }
        i = i + 1;
    }
    proof {
        assert(vs.take(values@.len() as int) =~= vs);
    }
    Ok(JsonValue::String(crate::text::join_strings(strings.as_slice(), separator)))
}

} // verus!
