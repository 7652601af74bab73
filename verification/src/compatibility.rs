//! Compatibility analysis between two versions of an event's schema: which
//! fields were added, removed or changed, how compatible the versions are,
//! and which migration steps can carry old data forward.

use vstd::prelude::*;

use crate::json::JsonValue;
use crate::types::EventStoreError;

verus! {

/// How two versions of a schema relate.
#[derive(Debug, Clone, Copy, PartialEq, Eq, Structural)]
pub enum CompatibilityLevel {
    /// No migration needed.
    FullyCompatible,
    /// Old readers can read new data.
    ForwardCompatible,
    /// New readers can read old data.
    BackwardCompatible,
    /// A manual migration is needed.
    Incompatible,
}

/// The type of a field, as far as compatibility analysis needs it. The
/// fields of an object are expected to have distinct names.
#[derive(Debug, PartialEq, Eq)]
pub enum SchemaFieldType {
    /// A string.
    String,
    /// A number.
    Number,
    /// A boolean.
    Boolean,
    /// An array of elements of one type.
    Array(Box<SchemaFieldType>),
    /// An object with named fields.
    Object(Vec<(String, SchemaFieldType)>),
    /// Null.
    Null,
    /// One of several types.
    Union(Vec<SchemaFieldType>),
}

/// Whether two field types are the same: objects compare as maps from
/// field name to type, unions member by member.
pub open spec fn same_type(a: SchemaFieldType, b: SchemaFieldType) -> bool
    decreases a, 2nat,
{
    match a {
        SchemaFieldType::String => b is String,
        SchemaFieldType::Number => b is Number,
        SchemaFieldType::Boolean => b is Boolean,
        SchemaFieldType::Null => b is Null,
        SchemaFieldType::Array(x) => match b {
            SchemaFieldType::Array(y) => same_type(*x, *y),
            _ => false,
        },
        SchemaFieldType::Object(fa) => match b {
            SchemaFieldType::Object(fb) => fa@.len() == fb@.len() && all_fields_matched(fa@, fb@),
            _ => false,
        },
        SchemaFieldType::Union(ua) => match b {
            SchemaFieldType::Union(ub) => ua@.len() == ub@.len() && members_same(ua@, ub@),
            _ => false,
        },
    }
}

/// Whether every field of `fa` has a field of the same name and type in
/// `fb`.
pub open spec fn all_fields_matched(fa: Seq<(String, SchemaFieldType)>, fb: Seq<(String, SchemaFieldType)>) -> bool
    decreases fa, 1nat,
{
    if fa.len() == 0 {
        true
    } else {
        field_matched_in(fa.last(), fb) && all_fields_matched(fa.drop_last(), fb)
    }
}

/// Whether `fb` has a field with the name and type of `f`.
pub open spec fn field_matched_in(f: (String, SchemaFieldType), fb: Seq<(String, SchemaFieldType)>) -> bool
    decreases f, fb.len(),
{
    if fb.len() == 0 {
        false
    } else {
        (f.0@ == fb.last().0@ && same_type(f.1, fb.last().1)) || field_matched_in(f, fb.drop_last())
    }
}

/// Whether each member of `ua` is the same as the member of `ub` at its
/// index.
pub open spec fn members_same(ua: Seq<SchemaFieldType>, ub: Seq<SchemaFieldType>) -> bool
    decreases ua, 1nat,
{
    if ua.len() == 0 {
        true
    } else {
        ub.len() >= ua.len() && same_type(ua.last(), ub[ua.len() - 1]) && members_same(ua.drop_last(), ub)
    }
}

fn same_type_exec(a: &SchemaFieldType, b: &SchemaFieldType) -> (r: bool)
    ensures
        r == same_type(*a, *b),
    decreases *a, 2nat,
{
    match a {
        SchemaFieldType::String => matches!(b, SchemaFieldType::String),
        SchemaFieldType::Number => matches!(b, SchemaFieldType::Number),
        SchemaFieldType::Boolean => matches!(b, SchemaFieldType::Boolean),
        SchemaFieldType::Null => matches!(b, SchemaFieldType::Null),
        SchemaFieldType::Array(x) => match b {
            SchemaFieldType::Array(y) => same_type_exec(x, y),
            _ => false,
        },
        SchemaFieldType::Object(fa) => match b {
            SchemaFieldType::Object(fb) => {
                if fa.len() != fb.len() {
                    return false;
                }
                proof {
                    assert(decreases_to!(*a => (*a)->Object_0));
                    assert(decreases_to!(*fa => fa@));
                    assert(fa@.take(fa@.len() as int) =~= fa@);
                }
                all_fields_matched_exec(fa, fa.len(), fb)
            },
            _ => false,
        },
        SchemaFieldType::Union(ua) => match b {
            SchemaFieldType::Union(ub) => {
                if ua.len() != ub.len() {
                    return false;
                }
                proof {
                    assert(decreases_to!(*a => (*a)->Union_0));
                    assert(decreases_to!(*ua => ua@));
                    assert(ua@.take(ua@.len() as int) =~= ua@);
                }
                members_same_exec(ua, ua.len(), ub)
            },
            _ => false,
        },
    }
}

fn all_fields_matched_exec(
    fa: &Vec<(String, SchemaFieldType)>,
    n: usize,
    fb: &Vec<(String, SchemaFieldType)>,
) -> (r: bool)
    requires
        n <= fa@.len(),
    ensures
        r == all_fields_matched(fa@.take(n as int), fb@),
    decreases fa@, n,
{
    if n == 0 {
        return true;
    }
    let ghost t = fa@.take(n as int);
    proof {
        assert(t.last() == fa@[n - 1]);
        assert(t.drop_last() =~= fa@.take(n - 1));
        assert(decreases_to!(fa@ => fa@[n - 1]));
        assert(fb@.take(fb@.len() as int) =~= fb@);
    }
    field_matched_exec(&fa[n - 1], fb, fb.len()) && all_fields_matched_exec(fa, n - 1, fb)
}

fn field_matched_exec(f: &(String, SchemaFieldType), fb: &Vec<(String, SchemaFieldType)>, m: usize) -> (r: bool)
    requires
        m <= fb@.len(),
    ensures
        r == field_matched_in(*f, fb@.take(m as int)),
    decreases *f, m,
{
    if m == 0 {
        return false;
    }
    let ghost t = fb@.take(m as int);
    proof {
        assert(t.last() == fb@[m - 1]);
        assert(t.drop_last() =~= fb@.take(m - 1));
        assert(decreases_to!(*f => f.1));
    }
    (f.0 == fb[m - 1].0 && same_type_exec(&f.1, &fb[m - 1].1)) || field_matched_exec(f, fb, m - 1)
}

fn members_same_exec(ua: &Vec<SchemaFieldType>, n: usize, ub: &Vec<SchemaFieldType>) -> (r: bool)
    requires
        n <= ua@.len(),
        ua@.len() == ub@.len(),
    ensures
        r == members_same(ua@.take(n as int), ub@),
    decreases ua@, n,
{
    if n == 0 {
        return true;
    }
    let ghost t = ua@.take(n as int);
    proof {
        assert(t.last() == ua@[n - 1]);
        assert(t.drop_last() =~= ua@.take(n - 1));
        assert(decreases_to!(ua@ => ua@[n - 1]));
    }
    same_type_exec(&ua[n - 1], &ub[n - 1]) && members_same_exec(ua, n - 1, ub)
}

/// Whether data of type `old` can be read as type `new`: the same type;
/// numbers, booleans and strings into one another (but not numbers and
/// booleans); null into anything; arrays whose elements are so.
pub open spec fn type_compatible(old: SchemaFieldType, new: SchemaFieldType) -> bool
    decreases old,
{
    if same_type(old, new) {
        true
    } else {
        match (old, new) {
            (SchemaFieldType::Number, SchemaFieldType::String) => true,
            (SchemaFieldType::String, SchemaFieldType::Number) => true,
            (SchemaFieldType::Boolean, SchemaFieldType::String) => true,
            (SchemaFieldType::String, SchemaFieldType::Boolean) => true,
            (SchemaFieldType::Null, _) => true,
            (SchemaFieldType::Array(x), SchemaFieldType::Array(y)) => type_compatible(*x, *y),
            _ => false,
        }
    }
}

/// A JSON value that can fill a new field.
#[derive(Debug, Clone, Copy, PartialEq, Eq, Structural)]
pub enum JsonDefault {
    /// `""`.
    EmptyString,
    /// `0`.
    Zero,
    /// `false`.
    False,
    /// `[]`.
    EmptyArray,
    /// `{}`.
    EmptyObject,
    /// `null`.
    Null,
}

/// The value a new field of type `t` is filled with.
pub open spec fn default_for(t: SchemaFieldType) -> JsonDefault {
    match t {
        SchemaFieldType::String => JsonDefault::EmptyString,
        SchemaFieldType::Number => JsonDefault::Zero,
        SchemaFieldType::Boolean => JsonDefault::False,
        SchemaFieldType::Array(_) => JsonDefault::EmptyArray,
        SchemaFieldType::Object(_) => JsonDefault::EmptyObject,
        SchemaFieldType::Null => JsonDefault::Null,
        SchemaFieldType::Union(_) => JsonDefault::Null,
    }
}

/// Whether `v` is the JSON value that `d` stands for.
pub open spec fn is_default_value(v: JsonValue, d: JsonDefault) -> bool {
    match d {
        JsonDefault::EmptyString => v matches JsonValue::String(s) && s@.len() == 0,
        JsonDefault::Zero => v matches JsonValue::Number(n) && n@ == "0"@,
        JsonDefault::False => v matches JsonValue::Bool(b) && !b,
        JsonDefault::EmptyArray => v matches JsonValue::Array(items) && items@.len() == 0,
        JsonDefault::EmptyObject => v matches JsonValue::Object(members) && members@.len() == 0,
        JsonDefault::Null => v is Null,
    }
}

/// The value that fills a new field has the field's type: the type
/// inferred for it is the field's own for a string, number, boolean or
/// null field, an empty array for an array field, an empty object for an
/// object field, and null for a union.
pub proof fn lemma_default_has_field_type(t: SchemaFieldType, v: JsonValue)
    requires
        is_default_value(v, default_for(t)),
    ensures
        is_scalar(t) || t is Null ==> inferred_shape(v) == shape_of(t),
        t is Array ==> inferred_shape(v) == TypeShape::Array(Box::new(TypeShape::Null)),
        t is Object ==> inferred_shape(v) == TypeShape::Object(Seq::empty()),
        t is Union ==> inferred_shape(v) == TypeShape::Null,
{
    if let JsonValue::Object(members) = v {
        assert(object_shape(members@) == Seq::<(Seq<char>, TypeShape)>::empty());
    }
}

/// A change between two versions of a schema.
#[derive(Debug)]
pub enum SchemaChange {
    /// A field was added; `default_value` fills it in old data.
    FieldAdded { field_name: String, field_type: SchemaFieldType, default_value: Option<JsonDefault> },
    /// A field was removed.
    FieldRemoved { field_name: String, field_type: SchemaFieldType },
    /// A field was renamed.
    FieldRenamed { old_name: String, new_name: String, field_type: SchemaFieldType },
    /// A field's type changed.
    FieldTypeChanged { field_name: String, old_type: SchemaFieldType, new_type: SchemaFieldType },
    /// A field became optional or required.
    FieldOptionalityChanged { field_name: String, field_type: SchemaFieldType, now_optional: bool },
    /// A nested object changed.
    NestedStructureChanged { field_name: String, nested_changes: Vec<SchemaChange> },
}

/// How a single change affects compatibility.
#[derive(Debug, Clone, Copy, PartialEq, Eq, Structural)]
pub enum ChangeEffect {
    /// Breaks readers.
    Breaking,
    /// Old readers can read new data.
    Forward,
    /// New readers can read old data.
    Backward,
}

/// The effect of one change: an added field with a default, and a field
/// made optional, are backward compatible; a type change to a compatible
/// type is forward compatible; everything else breaks.
pub open spec fn change_effect(c: SchemaChange) -> ChangeEffect {
    match c {
        SchemaChange::FieldAdded { default_value, .. } => if default_value.is_some() {
            ChangeEffect::Backward
        } else {
            ChangeEffect::Breaking
        },
        SchemaChange::FieldTypeChanged { old_type, new_type, .. } => if type_compatible(old_type, new_type) {
            ChangeEffect::Forward
        } else {
            ChangeEffect::Breaking
        },
        SchemaChange::FieldOptionalityChanged { now_optional, .. } => if now_optional {
            ChangeEffect::Backward
        } else {
            ChangeEffect::Breaking
        },
        _ => ChangeEffect::Breaking,
    }
}

/// Whether some change in `changes` has effect `e`.
pub open spec fn has_effect(changes: Seq<SchemaChange>, e: ChangeEffect) -> bool {
    exists|i: int| 0 <= i < changes.len() && change_effect(#[trigger] changes[i]) == e
}

/// The compatibility level of a list of changes: fully compatible without
/// changes; incompatible with any breaking change; otherwise fully
/// compatible when there are both forward and backward compatible changes,
/// and else forward or backward compatible as the changes are.
pub open spec fn level_of(changes: Seq<SchemaChange>) -> CompatibilityLevel {
    if changes.len() == 0 {
        CompatibilityLevel::FullyCompatible
    } else if has_effect(changes, ChangeEffect::Breaking) {
        CompatibilityLevel::Incompatible
    } else if has_effect(changes, ChangeEffect::Forward) && has_effect(changes, ChangeEffect::Backward) {
        CompatibilityLevel::FullyCompatible
    } else if has_effect(changes, ChangeEffect::Forward) {
        CompatibilityLevel::ForwardCompatible
    } else {
        CompatibilityLevel::BackwardCompatible
    }
}

/// A converter between the values of two field types.
#[derive(Debug, Clone, Copy, PartialEq, Eq, Structural)]
pub enum FieldConverter {
    /// Parses a string as a number.
    StringToNumber,
    /// Writes a number as a string.
    NumberToString,
    /// Parses a string as a boolean.
    StringToBoolean,
    /// Writes a boolean as a string.
    BooleanToString,
}

/// The converter from `old` to `new` values, if there is one.
pub open spec fn converter_for(old: SchemaFieldType, new: SchemaFieldType) -> Option<FieldConverter> {
    match (old, new) {
        (SchemaFieldType::String, SchemaFieldType::Number) => Some(FieldConverter::StringToNumber),
        (SchemaFieldType::Number, SchemaFieldType::String) => Some(FieldConverter::NumberToString),
        (SchemaFieldType::String, SchemaFieldType::Boolean) => Some(FieldConverter::StringToBoolean),
        (SchemaFieldType::Boolean, SchemaFieldType::String) => Some(FieldConverter::BooleanToString),
        _ => None,
    }
}

/// Whether `t` is a string, a number or a boolean.
pub open spec fn is_scalar(t: SchemaFieldType) -> bool {
    t is String || t is Number || t is Boolean
}

/// The shapes of the values a converter reads and writes.
pub open spec fn converter_types(c: FieldConverter) -> (TypeShape, TypeShape) {
    match c {
        FieldConverter::StringToNumber => (TypeShape::String, TypeShape::Number),
        FieldConverter::NumberToString => (TypeShape::Number, TypeShape::String),
        FieldConverter::StringToBoolean => (TypeShape::String, TypeShape::Boolean),
        FieldConverter::BooleanToString => (TypeShape::Boolean, TypeShape::String),
    }
}

/// Data of one type can be read as another only as the same type, through
/// a string (numbers and booleans into strings and back), from null, or as
/// arrays: numbers and booleans are never read as one another. Among
/// strings, numbers and booleans, compatibility goes both ways.
pub proof fn lemma_type_compatible_through_strings(old: SchemaFieldType, new: SchemaFieldType)
    ensures
        type_compatible(old, new) ==> same_type(old, new) || old is Null || (is_scalar(old) && is_scalar(new) && (
        old is String || new is String)) || (old is Array && new is Array),
        is_scalar(old) && is_scalar(new) ==> (type_compatible(old, new) <==> type_compatible(new, old)),
        (old is Number && new is Boolean) || (old is Boolean && new is Number) ==> !type_compatible(old, new),
        is_scalar(old) && is_scalar(new) && (old is String || new is String) ==> type_compatible(old, new),
        old is Null ==> type_compatible(old, new),
        same_type(old, new) ==> type_compatible(old, new),
        type_compatible(old, old),
        (match (old, new) {
            (SchemaFieldType::Array(x), SchemaFieldType::Array(y)) => type_compatible(old, new) <==> type_compatible(
                *x,
                *y,
            ),
            _ => true,
        }),
{
    lemma_same_type_reflexive(old);
    if let SchemaFieldType::Array(x) = old {
        if let SchemaFieldType::Array(y) = new {
            if same_type(old, new) {
                assert(same_type(*x, *y));
                assert(type_compatible(*x, *y));
            }
        }
    }
}

/// A converter reads the old type of a change and writes its new type, and
/// exists only for a change that can be read. Between two different
/// scalar types it exists exactly for the changes that can be read.
pub proof fn lemma_converters_follow_compatibility(old: SchemaFieldType, new: SchemaFieldType)
    ensures
        converter_for(old, new) matches Some(c) ==> converter_types(c) == (shape_of(old), shape_of(new))
            && type_compatible(old, new) && !same_type(old, new),
        is_scalar(old) && is_scalar(new) && !same_type(old, new) ==> (type_compatible(old, new) <==> converter_for(
            old,
            new,
        ) is Some),
{
}

/// A type change between two different scalar types is forward compatible
/// exactly when it yields a migration step, and never only backward
/// compatible: data that can be read is always converted.
pub proof fn lemma_forward_scalar_change_migrates(c: SchemaChange)
    requires
        c matches SchemaChange::FieldTypeChanged { old_type, new_type, .. } && is_scalar(old_type) && is_scalar(
            new_type,
        ) && !same_type(old_type, new_type),
    ensures
        change_effect(c) == ChangeEffect::Forward <==> step_for(c) is Some,
        change_effect(c) != ChangeEffect::Backward,
{
}

/// One step of a migration of a JSON object.
#[derive(Debug)]
pub enum MigrationStep {
    /// Sets `field_name` to `default_value`.
    AddField { field_name: String, default_value: JsonDefault },
    /// Moves the value of `old_name` to `new_name`.
    RenameField { old_name: String, new_name: String },
    /// Converts the value of `field_name`.
    ConvertField { field_name: String, converter: FieldConverter },
}

/// The migration step a change calls for, if any.
pub open spec fn step_for(c: SchemaChange) -> Option<(u8, Seq<char>, Seq<char>, Option<JsonDefault>, Option<FieldConverter>)> {
    match c {
        SchemaChange::FieldAdded { field_name, default_value, .. } => match default_value {
            Some(d) => Some((0u8, field_name@, Seq::empty(), Some(d), None)),
            None => None,
        },
        SchemaChange::FieldRenamed { old_name, new_name, .. } => Some((1u8, old_name@, new_name@, None, None)),
        SchemaChange::FieldTypeChanged { field_name, old_type, new_type } => match converter_for(old_type, new_type) {
            Some(k) => Some((2u8, field_name@, Seq::empty(), None, Some(k))),
            None => None,
        },
        _ => None,
    }
}

/// The view of a migration step, in the form [`step_for`] gives.
pub open spec fn step_view(s: MigrationStep) -> (u8, Seq<char>, Seq<char>, Option<JsonDefault>, Option<FieldConverter>) {
    match s {
        MigrationStep::AddField { field_name, default_value } => (0u8, field_name@, Seq::empty(), Some(default_value), None),
        MigrationStep::RenameField { old_name, new_name } => (1u8, old_name@, new_name@, None, None),
        MigrationStep::ConvertField { field_name, converter } => (2u8, field_name@, Seq::empty(), None, Some(converter)),
    }
}

/// The text of a field type, in the form its debug output takes.
pub open spec fn type_text(t: SchemaFieldType) -> Seq<char>
    decreases t, 2nat,
{
    match t {
        SchemaFieldType::String => "String"@,
        SchemaFieldType::Number => "Number"@,
        SchemaFieldType::Boolean => "Boolean"@,
        SchemaFieldType::Null => "Null"@,
        SchemaFieldType::Array(x) => "Array("@ + type_text(*x) + ")"@,
        SchemaFieldType::Object(fs) => "Object({"@ + fields_text(fs@) + "})"@,
        SchemaFieldType::Union(ts) => "Union(["@ + types_text(ts@) + "])"@,
    }
}

/// The fields of an object as `"name": Type`, separated by `", "`.
pub open spec fn fields_text(fs: Seq<(String, SchemaFieldType)>) -> Seq<char>
    decreases fs, 1nat,
{
    if fs.len() == 0 {
        Seq::empty()
    } else {
        let last = "\""@ + fs.last().0@ + "\": "@ + type_text(fs.last().1);
        if fs.len() == 1 {
            last
        } else {
            fields_text(fs.drop_last()) + ", "@ + last
        }
    }
}

/// The members of a union, separated by `", "`.
pub open spec fn types_text(ts: Seq<SchemaFieldType>) -> Seq<char>
    decreases ts, 1nat,
{
    if ts.len() == 0 {
        Seq::empty()
    } else if ts.len() == 1 {
        type_text(ts[0])
    } else {
        types_text(ts.drop_last()) + ", "@ + type_text(ts.last())
    }
}

/// The issue a change raises against an automatic migration, if any.
pub open spec fn issue_for(c: SchemaChange) -> Option<Seq<char>> {
    match c {
        SchemaChange::FieldAdded { field_name, default_value, .. } => if default_value.is_some() {
            None
        } else {
            Some("Cannot auto-migrate added field '"@ + field_name@ + "' without default value"@)
        },
        SchemaChange::FieldRemoved { field_name, .. } => Some(
            "Cannot auto-migrate removed field '"@ + field_name@ + "' - may break old readers"@,
        ),
        SchemaChange::FieldTypeChanged { field_name, old_type, new_type } => if converter_for(
            old_type,
            new_type,
        ).is_some() {
            None
        } else {
            Some(
                "Cannot auto-convert field '"@ + field_name@ + "' from "@ + type_text(old_type) + " to "@
                    + type_text(new_type),
            )
        },
        SchemaChange::NestedStructureChanged { field_name, .. } => Some(
            "Cannot auto-migrate nested structure changes in field '"@ + field_name@ + "'"@,
        ),
        _ => None,
    }
}

/// The migration steps for `changes`, in order.
pub open spec fn steps_for(changes: Seq<SchemaChange>) -> Seq<(u8, Seq<char>, Seq<char>, Option<JsonDefault>, Option<FieldConverter>)>
    decreases changes.len(),
{
    if changes.len() == 0 {
        Seq::empty()
    } else {
        let prev = steps_for(changes.drop_last());
        match step_for(changes.last()) {
            Some(s) => prev.push(s),
            None => prev,
        }
    }
}

/// The issues `changes` raise, in order.
pub open spec fn issues_for(changes: Seq<SchemaChange>) -> Seq<Seq<char>>
    decreases changes.len(),
{
    if changes.len() == 0 {
        Seq::empty()
    } else {
        let prev = issues_for(changes.drop_last());
        match issue_for(changes.last()) {
            Some(s) => prev.push(s),
            None => prev,
        }
    }
}


proof fn lemma_matched_at(f: (String, SchemaFieldType), fb: Seq<(String, SchemaFieldType)>, m: int)
    requires
        0 <= m < fb.len(),
        f.0@ == fb[m].0@,
        same_type(f.1, fb[m].1),
    ensures
        field_matched_in(f, fb),
    decreases fb.len(),
{
    if m < fb.len() - 1 {
        lemma_matched_at(f, fb.drop_last(), m);
    }
}

/// Copies a field type.
pub fn copy_type(t: &SchemaFieldType) -> (r: SchemaFieldType)
    ensures
        same_type(*t, r),
    decreases *t,
{
    match t {
        SchemaFieldType::String => SchemaFieldType::String,
        SchemaFieldType::Number => SchemaFieldType::Number,
        SchemaFieldType::Boolean => SchemaFieldType::Boolean,
        SchemaFieldType::Null => SchemaFieldType::Null,
        SchemaFieldType::Array(x) => SchemaFieldType::Array(Box::new(copy_type(x))),
        SchemaFieldType::Object(fa) => {
            let mut fb: Vec<(String, SchemaFieldType)> = Vec::new();
            let mut i: usize = 0;
            while i < fa.len()
                invariant
                    *t == SchemaFieldType::Object(*fa),
                    i <= fa@.len(),
                    fb@.len() == i,
                    forall|k: int| 0 <= k < i ==> (#[trigger] fb@[k]).0@ == fa@[k].0@ && same_type(fa@[k].1, fb@[k].1),
                decreases fa@.len() - i,
            {
                proof {
                    assert(decreases_to!(*t => (*t)->Object_0));
                    assert(decreases_to!(*fa => fa@));
                    assert(decreases_to!(fa@ => fa@[i as int]));
                    assert(decreases_to!(fa@[i as int] => fa@[i as int].1));
                }
                let c = copy_type(&fa[i].1);
                fb.push((fa[i].0.clone(), c));
                i = i + 1;
            }
            proof {
                lemma_all_matched_pairwise(fa@, fb@, fa@.len() as int);
                assert(fa@.take(fa@.len() as int) =~= fa@);
            }
            SchemaFieldType::Object(fb)
        },
        SchemaFieldType::Union(ua) => {
            let mut ub: Vec<SchemaFieldType> = Vec::new();
            let mut i: usize = 0;
            while i < ua.len()
                invariant
                    *t == SchemaFieldType::Union(*ua),
                    i <= ua@.len(),
                    ub@.len() == i,
                    forall|k: int| 0 <= k < i ==> same_type(ua@[k], #[trigger] ub@[k]),
                decreases ua@.len() - i,
            {
                proof {
                    assert(decreases_to!(*t => (*t)->Union_0));
                    assert(decreases_to!(*ua => ua@));
                    assert(decreases_to!(ua@ => ua@[i as int]));
                }
                let c = copy_type(&ua[i]);
                ub.push(c);
                i = i + 1;
            }
            proof {
                lemma_members_pairwise(ua@, ub@, ua@.len() as int);
                assert(ua@.take(ua@.len() as int) =~= ua@);
            }
            SchemaFieldType::Union(ub)
        },
    }
}

proof fn lemma_all_matched_pairwise(fa: Seq<(String, SchemaFieldType)>, fb: Seq<(String, SchemaFieldType)>, n: int)
    requires
        0 <= n <= fa.len(),
        fa.len() == fb.len(),
        forall|k: int| 0 <= k < fa.len() ==> (#[trigger] fb[k]).0@ == fa[k].0@ && same_type(fa[k].1, fb[k].1),
    ensures
        all_fields_matched(fa.take(n), fb),
    decreases n,
{
    if n > 0 {
        let t = fa.take(n);
        assert(t.drop_last() =~= fa.take(n - 1));
        assert(t.last() == fa[n - 1]);
        assert(fb[n - 1].0@ == fa[n - 1].0@);
        lemma_matched_at(fa[n - 1], fb, n - 1);
        lemma_all_matched_pairwise(fa, fb, n - 1);
    }
}

proof fn lemma_members_pairwise(ua: Seq<SchemaFieldType>, ub: Seq<SchemaFieldType>, n: int)
    requires
        0 <= n <= ua.len(),
        ua.len() == ub.len(),
        forall|k: int| 0 <= k < ua.len() ==> same_type(ua[k], #[trigger] ub[k]),
    ensures
        members_same(ua.take(n), ub),
    decreases n,
{
    if n > 0 {
        let t = ua.take(n);
        assert(t.drop_last() =~= ua.take(n - 1));
        assert(t.last() == ua[n - 1]);
        assert(same_type(ua[n - 1], ub[n - 1]));
        lemma_members_pairwise(ua, ub, n - 1);
    }
}

/// Whether data of type `old_type` can be read as `new_type`, as
/// [`type_compatible`] says.
pub fn is_type_compatible(old_type: &SchemaFieldType, new_type: &SchemaFieldType) -> (r: bool)
    ensures
        r == type_compatible(*old_type, *new_type),
    decreases *old_type,
{
    if same_type_exec(old_type, new_type) {
        return true;
    }
    match (old_type, new_type) {
        (SchemaFieldType::Number, SchemaFieldType::String) => true,
        (SchemaFieldType::String, SchemaFieldType::Number) => true,
        (SchemaFieldType::Boolean, SchemaFieldType::String) => true,
        (SchemaFieldType::String, SchemaFieldType::Boolean) => true,
        (SchemaFieldType::Null, _) => true,
        (SchemaFieldType::Array(x), SchemaFieldType::Array(y)) => is_type_compatible(x, y),
        _ => false,
    }
}

/// The text of a field type, as [`type_text`] gives it.
pub fn describe_type(t: &SchemaFieldType) -> (s: String)
    ensures
        s@ == type_text(*t),
    decreases *t, 2nat,
{
    match t {
        SchemaFieldType::String => "String".to_owned(),
        SchemaFieldType::Number => "Number".to_owned(),
        SchemaFieldType::Boolean => "Boolean".to_owned(),
        SchemaFieldType::Null => "Null".to_owned(),
        SchemaFieldType::Array(x) => "Array(".to_owned().concat(describe_type(x).as_str()).concat(")"),
        SchemaFieldType::Object(fs) => {
            proof {
                assert(decreases_to!(*t => (*t)->Object_0));
                assert(decreases_to!(*fs => fs@));
                assert(fs@.take(fs@.len() as int) =~= fs@);
            }
            "Object({".to_owned().concat(describe_fields(fs, fs.len()).as_str()).concat("})")
        },
        SchemaFieldType::Union(ts) => {
            proof {
                assert(decreases_to!(*t => (*t)->Union_0));
                assert(decreases_to!(*ts => ts@));
                assert(ts@.take(ts@.len() as int) =~= ts@);
            }
            "Union([".to_owned().concat(describe_members(ts, ts.len()).as_str()).concat("])")
        },
    }
}

fn describe_fields(fs: &Vec<(String, SchemaFieldType)>, n: usize) -> (s: String)
    requires
        n <= fs@.len(),
    ensures
        s@ == fields_text(fs@.take(n as int)),
    decreases fs@, n,
{
    if n == 0 {
        proof {
            reveal_strlit("");
        }
        return "".to_owned();
    }
    let ghost t = fs@.take(n as int);
    proof {
        assert(t.last() == fs@[n - 1]);
        assert(t.drop_last() =~= fs@.take(n - 1));
        assert(decreases_to!(fs@ => fs@[n - 1]));
        assert(decreases_to!(fs@[n - 1] => fs@[n - 1].1));
    }
    let last = "\"".to_owned().concat(fs[n - 1].0.as_str()).concat("\": ").concat(
        describe_type(&fs[n - 1].1).as_str(),
    );
    if n == 1 {
        last
    } else {
        describe_fields(fs, n - 1).concat(", ").concat(last.as_str())
    }
}

fn describe_members(ts: &Vec<SchemaFieldType>, n: usize) -> (s: String)
    requires
        n <= ts@.len(),
    ensures
        s@ == types_text(ts@.take(n as int)),
    decreases ts@, n,
{
    if n == 0 {
        proof {
            reveal_strlit("");
        }
        return "".to_owned();
    }
    let ghost t = ts@.take(n as int);
    proof {
        assert(t.last() == ts@[n - 1]);
        assert(t.drop_last() =~= ts@.take(n - 1));
        assert(decreases_to!(ts@ => ts@[n - 1]));
        assert(decreases_to!(ts@ => ts@[0]));
        assert(t[0] == ts@[0]);
    }
    if n == 1 {
        describe_type(&ts[0])
    } else {
        describe_members(ts, n - 1).concat(", ").concat(describe_type(&ts[n - 1]).as_str())
    }
}


/// The fields of a version of an event's schema, and which are required.
/// Field names are expected to be distinct.
#[derive(Debug)]
pub struct JsonSchema {
    /// Each field's name and type.
    pub fields: Vec<(String, SchemaFieldType)>,
    /// The names of the required fields.
    pub required_fields: Vec<String>,
}

/// The type of the first field named `name`, if any.
pub open spec fn lookup(fields: Seq<(String, SchemaFieldType)>, name: Seq<char>) -> Option<SchemaFieldType>
    decreases fields.len(),
{
    if fields.len() == 0 {
        None
    } else if fields[0].0@ == name {
        Some(fields[0].1)
    } else {
        lookup(fields.drop_first(), name)
    }
}

/// Whether no two of `fields` have the same name.
pub open spec fn field_names_distinct(fields: Seq<(String, SchemaFieldType)>) -> bool {
    forall|a: int, b: int| 0 <= a < b < fields.len() ==> (#[trigger] fields[a]).0@ != (#[trigger] fields[b]).0@
}

proof fn lemma_field_in(f: (String, SchemaFieldType), fb: Seq<(String, SchemaFieldType)>, j: int)
    requires
        0 <= j < fb.len(),
        fb[j] == f,
        same_type(f.1, f.1),
    ensures
        field_matched_in(f, fb),
    decreases fb.len(),
{
    if j < fb.len() - 1 {
        lemma_field_in(f, fb.drop_last(), j);
    }
}

proof fn lemma_fields_matched_self(fa: Seq<(String, SchemaFieldType)>, fb: Seq<(String, SchemaFieldType)>)
    requires
        fa.len() <= fb.len(),
        forall|i: int| 0 <= i < fa.len() ==> fa[i] == fb[i],
    ensures
        all_fields_matched(fa, fb),
    decreases fa, 1nat,
{
    if fa.len() > 0 {
        let f = fa[fa.len() - 1];
        assert(decreases_to!(fa => f));
        assert(decreases_to!(f => f.1));
        lemma_same_type_reflexive(f.1);
        lemma_field_in(f, fb, fa.len() - 1);
        lemma_fields_matched_self(fa.drop_last(), fb);
    }
}

proof fn lemma_members_self(ua: Seq<SchemaFieldType>, ub: Seq<SchemaFieldType>)
    requires
        ua.len() <= ub.len(),
        forall|i: int| 0 <= i < ua.len() ==> ua[i] == ub[i],
    ensures
        members_same(ua, ub),
    decreases ua, 1nat,
{
    if ua.len() > 0 {
        let m = ua[ua.len() - 1];
        assert(decreases_to!(ua => m));
        lemma_same_type_reflexive(m);
        lemma_members_self(ua.drop_last(), ub);
    }
}

/// Every field type is the same as itself.
pub proof fn lemma_same_type_reflexive(t: SchemaFieldType)
    ensures
        same_type(t, t),
    decreases t, 2nat,
{
    match t {
        SchemaFieldType::Array(x) => {
            lemma_same_type_reflexive(*x);
        },
        SchemaFieldType::Object(fa) => {
            lemma_fields_matched_self(fa@, fa@);
        },
        SchemaFieldType::Union(ua) => {
            lemma_members_self(ua@, ua@);
        },
        _ => {},
    }
}

proof fn lemma_lookup_distinct(fields: Seq<(String, SchemaFieldType)>, i: int)
    requires
        0 <= i < fields.len(),
        field_names_distinct(fields),
    ensures
        lookup(fields, fields[i].0@) == Some(fields[i].1),
    decreases fields.len(),
{
    if i > 0 {
        let rest = fields.drop_first();
        assert(fields[0].0@ != fields[i].0@);
        assert(rest[i - 1] == fields[i]);
        assert(field_names_distinct(rest)) by {
            assert forall|a: int, b: int| 0 <= a < b < rest.len() implies (#[trigger] rest[a]).0@
                != (#[trigger] rest[b]).0@ by {
                assert(rest[a] == fields[a + 1] && rest[b] == fields[b + 1]);
            }
        }
        lemma_lookup_distinct(rest, i - 1);
    }
}

proof fn lemma_added_none(old_fields: Seq<(String, SchemaFieldType)>, new_fields: Seq<(String, SchemaFieldType)>)
    requires
        forall|i: int| 0 <= i < new_fields.len() ==> lookup(old_fields, (#[trigger] new_fields[i]).0@).is_some(),
    ensures
        added_changes(old_fields, new_fields).len() == 0,
    decreases new_fields.len(),
{
    if new_fields.len() > 0 {
        let prefix = new_fields.drop_last();
        assert forall|i: int| 0 <= i < prefix.len() implies lookup(old_fields, (#[trigger] prefix[i]).0@).is_some() by {
            assert(prefix[i] == new_fields[i]);
        }
        lemma_added_none(old_fields, prefix);
        assert(lookup(old_fields, new_fields[new_fields.len() - 1].0@).is_some());
    }
}

proof fn lemma_removed_none(old_fields: Seq<(String, SchemaFieldType)>, new_fields: Seq<(String, SchemaFieldType)>)
    requires
        forall|i: int| 0 <= i < old_fields.len() ==> lookup(new_fields, (#[trigger] old_fields[i]).0@).is_some(),
    ensures
        removed_changes(old_fields, new_fields).len() == 0,
    decreases old_fields.len(),
{
    if old_fields.len() > 0 {
        let prefix = old_fields.drop_last();
        assert forall|i: int| 0 <= i < prefix.len() implies lookup(new_fields, (#[trigger] prefix[i]).0@).is_some() by {
            assert(prefix[i] == old_fields[i]);
        }
        lemma_removed_none(prefix, new_fields);
        assert(lookup(new_fields, old_fields[old_fields.len() - 1].0@).is_some());
    }
}

proof fn lemma_modified_none(s: JsonSchema, n: int)
    requires
        0 <= n <= s.fields@.len(),
        field_names_distinct(s.fields@),
    ensures
        modified_changes(s, s, n).len() == 0,
    decreases n,
{
    if n > 0 {
        lemma_modified_none(s, n - 1);
        let f = s.fields@[n - 1];
        lemma_lookup_distinct(s.fields@, n - 1);
        lemma_same_type_reflexive(f.1);
        assert(field_modifications(f, s, s).len() == 0);
    }
}

/// A schema with distinct field names compared with itself shows no
/// change, and is fully compatible with itself.
pub proof fn lemma_schema_compatible_with_itself(s: JsonSchema)
    requires
        field_names_distinct(s.fields@),
    ensures
        schema_changes(s, s).len() == 0,
        level_of(schema_changes(s, s)) == CompatibilityLevel::FullyCompatible,
{
    assert forall|i: int| 0 <= i < s.fields@.len() implies lookup(s.fields@, (#[trigger] s.fields@[i]).0@).is_some() by {
        lemma_lookup_distinct(s.fields@, i);
    }
    lemma_added_none(s.fields@, s.fields@);
    lemma_removed_none(s.fields@, s.fields@);
    lemma_modified_none(s, s.fields@.len() as int);
}

/// The shape of a field type, with names as text: what two types that are
/// the same share.
pub enum TypeShape {
    String,
    Number,
    Boolean,
    Null,
    Array(Box<TypeShape>),
    Object(Seq<(Seq<char>, TypeShape)>),
    Union(Seq<TypeShape>),
}

/// The shape of a field type.
pub open spec fn shape_of(t: SchemaFieldType) -> TypeShape
    decreases t, 2nat,
{
    match t {
        SchemaFieldType::String => TypeShape::String,
        SchemaFieldType::Number => TypeShape::Number,
        SchemaFieldType::Boolean => TypeShape::Boolean,
        SchemaFieldType::Null => TypeShape::Null,
        SchemaFieldType::Array(x) => TypeShape::Array(Box::new(shape_of(*x))),
        SchemaFieldType::Object(fa) => TypeShape::Object(fields_shape(fa@)),
        SchemaFieldType::Union(ua) => TypeShape::Union(members_shape(ua@)),
    }
}

/// The shapes of fields, in order.
pub open spec fn fields_shape(fs: Seq<(String, SchemaFieldType)>) -> Seq<(Seq<char>, TypeShape)>
    decreases fs, 1nat,
{
    if fs.len() == 0 {
        Seq::empty()
    } else {
        fields_shape(fs.drop_last()).push((fs.last().0@, shape_of(fs.last().1)))
    }
}

/// The shapes of union members, in order.
pub open spec fn members_shape(us: Seq<SchemaFieldType>) -> Seq<TypeShape>
    decreases us, 1nat,
{
    if us.len() == 0 {
        Seq::empty()
    } else {
        members_shape(us.drop_last()).push(shape_of(us.last()))
    }
}

proof fn lemma_fields_shape_at(fs: Seq<(String, SchemaFieldType)>)
    ensures
        fields_shape(fs).len() == fs.len(),
        forall|j: int| 0 <= j < fs.len() ==> #[trigger] fields_shape(fs)[j] == (fs[j].0@, shape_of(fs[j].1)),
    decreases fs.len(),
{
    if fs.len() > 0 {
        lemma_fields_shape_at(fs.drop_last());
        assert forall|j: int| 0 <= j < fs.len() implies #[trigger] fields_shape(fs)[j] == (fs[j].0@, shape_of(
            fs[j].1,
        )) by {
            if j < fs.len() - 1 {
                assert(fs.drop_last()[j] == fs[j]);
            }
        }
    }
}

proof fn lemma_fields_shape_ext(a: Seq<(String, SchemaFieldType)>, b: Seq<(Seq<char>, TypeShape)>)
    requires
        a.len() == b.len(),
        forall|j: int| 0 <= j < a.len() ==> b[j] == (a[j].0@, shape_of(a[j].1)),
    ensures
        fields_shape(a) == b,
{
    lemma_fields_shape_at(a);
    assert(fields_shape(a) =~= b);
}

/// The index of the first of `fields` named `name`, if any.
pub open spec fn shape_index(fields: Seq<(Seq<char>, TypeShape)>, name: Seq<char>) -> Option<int> {
    if exists|i: int| 0 <= i < fields.len() && (#[trigger] fields[i]).0 == name {
        Some(
            choose|i: int|
                0 <= i < fields.len() && fields[i].0 == name && forall|j: int|
                    0 <= j < i ==> (#[trigger] fields[j]).0 != name,
        )
    } else {
        None
    }
}

/// `fields` with shape `s` under `name`: the first field of that name takes
/// it, or it is added last.
pub open spec fn put_shape(fields: Seq<(Seq<char>, TypeShape)>, name: Seq<char>, s: TypeShape) -> Seq<
    (Seq<char>, TypeShape),
> {
    match shape_index(fields, name) {
        Some(i) => fields.update(i, (name, s)),
        None => fields.push((name, s)),
    }
}

/// The shape of the type inferred for the JSON value `v`: the type of a
/// scalar; for an array, an array of the type inferred for its first
/// element, or of null when it is empty; for an object, the fields its
/// members give, as [`object_shape`] says.
pub open spec fn inferred_shape(v: JsonValue) -> TypeShape
    decreases v, 2nat,
{
    match v {
        JsonValue::Null => TypeShape::Null,
        JsonValue::Bool(_) => TypeShape::Boolean,
        JsonValue::Number(_) => TypeShape::Number,
        JsonValue::String(_) => TypeShape::String,
        JsonValue::Array(items) => if items@.len() == 0 {
            TypeShape::Array(Box::new(TypeShape::Null))
        } else {
            TypeShape::Array(Box::new(inferred_shape(items@[0])))
        },
        JsonValue::Object(members) => TypeShape::Object(object_shape(members@)),
    }
}

/// The fields inferred for an object with `members`: each member, in
/// order, puts the shape inferred for its value under its name, a later
/// member replacing the type of an earlier one of that name.
pub open spec fn object_shape(members: Seq<(String, JsonValue)>) -> Seq<(Seq<char>, TypeShape)>
    decreases members, 1nat,
{
    if members.len() == 0 {
        Seq::empty()
    } else {
        put_shape(
            object_shape(members.drop_last()),
            members.last().0@,
            inferred_shape(members.last().1),
        )
    }
}

/// The names of the members whose value is not null, each once, in the
/// order they first appear.
pub open spec fn required_names(members: Seq<(String, JsonValue)>) -> Seq<Seq<char>>
    decreases members.len(),
{
    if members.len() == 0 {
        Seq::empty()
    } else {
        let prev = required_names(members.drop_last());
        let m = members.last();
        if !(m.1 is Null) && !prev.contains(m.0@) {
            prev.push(m.0@)
        } else {
            prev
        }
    }
}

fn put_field_exec(fields: &mut Vec<(String, SchemaFieldType)>, name: String, t: SchemaFieldType)
    ensures
        fields_shape(final(fields)@) == put_shape(fields_shape(old(fields)@), name@, shape_of(t)),
{
    let ghost start = fields@;
    let ghost shapes = fields_shape(start);
    let ghost gname = name@;
    let ghost gshape = shape_of(t);
    proof {
        lemma_fields_shape_at(start);
    }
    let mut i: usize = 0;
    while i < fields.len()
        invariant
            i <= fields@.len(),
            fields@ == start,
            shapes == fields_shape(start),
            shapes.len() == start.len(),
            forall|j: int| 0 <= j < start.len() ==> #[trigger] shapes[j] == (start[j].0@, shape_of(start[j].1)),
            forall|j: int| 0 <= j < i ==> (#[trigger] fields@[j]).0@ != gname,
            start == old(fields)@,
            gname == name@,
            gshape == shape_of(t),
        decreases fields@.len() - i,
    {
        if fields[i].0 == name {
            proof {
                assert(shapes[i as int].0 == gname);
                assert(forall|j: int| 0 <= j < i ==> (#[trigger] shapes[j]).0 != gname) by {
                    assert forall|j: int| 0 <= j < i implies (#[trigger] shapes[j]).0 != gname by {
                        assert(shapes[j] == (start[j].0@, shape_of(start[j].1)));
                        assert(fields@[j].0@ != gname);
                    }
                }
                let w = choose|k: int|
                    0 <= k < shapes.len() && shapes[k].0 == gname && forall|j: int|
                        0 <= j < k ==> (#[trigger] shapes[j]).0 != gname;
                if w > i {
                    assert(shapes[i as int].0 != gname);
                }
                assert(w == i);
                assert(shape_index(shapes, gname) == Some(i as int));
            }
            fields.set(i, (name, t));
            proof {
                lemma_fields_shape_ext(fields@, shapes.update(i as int, (gname, gshape)));
                assert(put_shape(shapes, gname, gshape) == shapes.update(i as int, (gname, gshape)));
            }
            return;
        }
        i = i + 1;
    }
    proof {
        if exists|k: int| 0 <= k < shapes.len() && (#[trigger] shapes[k]).0 == gname {
            let k = choose|k: int| 0 <= k < shapes.len() && (#[trigger] shapes[k]).0 == gname;
            assert(fields@[k].0@ != gname);
        }
    }
    fields.push((name, t));
    proof {
        lemma_fields_shape_ext(fields@, shapes.push((gname, gshape)));
    }
}

fn strings_contain(names: &Vec<String>, name: &String) -> (b: bool)
    ensures
        b == texts(names@).contains(name@),
{
    let mut i: usize = 0;
    while i < names.len()
        invariant
            i <= names@.len(),
            forall|j: int| 0 <= j < i ==> (#[trigger] names@[j])@ != name@,
        decreases names@.len() - i,
    {
        if names[i] == *name {
            proof {
                assert(texts(names@)[i as int] == name@);
            }
            return true;
        }
        i = i + 1;
    }
    proof {
        if texts(names@).contains(name@) {
            let k = choose|k: int| 0 <= k < texts(names@).len() && texts(names@)[k] == name@;
            assert(names@[k]@ == name@);
        }
    }
    false
}

/// Whether `names` holds `name`.
pub open spec fn names_contain(names: Seq<String>, name: Seq<char>) -> bool {
    exists|i: int| 0 <= i < names.len() && (#[trigger] names[i])@ == name
}

/// The fields of `new_fields` that `old_fields` lacks, as additions filled
/// with their type's default.
pub open spec fn added_changes(
    old_fields: Seq<(String, SchemaFieldType)>,
    new_fields: Seq<(String, SchemaFieldType)>,
) -> Seq<SchemaChange>
    decreases new_fields.len(),
{
    if new_fields.len() == 0 {
        Seq::empty()
    } else {
        let prev = added_changes(old_fields, new_fields.drop_last());
        let f = new_fields.last();
        if lookup(old_fields, f.0@).is_some() {
            prev
        } else {
            prev.push(
                SchemaChange::FieldAdded { field_name: f.0, field_type: f.1, default_value: Some(default_for(f.1)) },
            )
        }
    }
}

/// The fields of `old_fields` that `new_fields` lacks, as removals.
pub open spec fn removed_changes(
    old_fields: Seq<(String, SchemaFieldType)>,
    new_fields: Seq<(String, SchemaFieldType)>,
) -> Seq<SchemaChange>
    decreases old_fields.len(),
{
    if old_fields.len() == 0 {
        Seq::empty()
    } else {
        let prev = removed_changes(old_fields.drop_last(), new_fields);
        let f = old_fields.last();
        if lookup(new_fields, f.0@).is_some() {
            prev
        } else {
            prev.push(SchemaChange::FieldRemoved { field_name: f.0, field_type: f.1 })
        }
    }
}

/// The changes to a field `f` of the old schema that the new schema keeps:
/// a type change, then a change of whether it is required.
pub open spec fn field_modifications(f: (String, SchemaFieldType), old: JsonSchema, new: JsonSchema) -> Seq<SchemaChange> {
    match lookup(new.fields@, f.0@) {
        Some(nt) => {
            let typed: Seq<SchemaChange> = if same_type(f.1, nt) {
                Seq::empty()
            } else {
                seq![SchemaChange::FieldTypeChanged { field_name: f.0, old_type: f.1, new_type: nt }]
            };
            let old_required = names_contain(old.required_fields@, f.0@);
            let new_required = names_contain(new.required_fields@, f.0@);
            if old_required != new_required {
                typed.push(
                    SchemaChange::FieldOptionalityChanged { field_name: f.0, field_type: nt, now_optional: !new_required },
                )
            } else {
                typed
            }
        },
        None => Seq::empty(),
    }
}

/// The modifications to the first `n` fields of the old schema.
pub open spec fn modified_changes(old: JsonSchema, new: JsonSchema, n: int) -> Seq<SchemaChange>
    decreases n,
{
    if n <= 0 {
        Seq::empty()
    } else {
        modified_changes(old, new, n - 1) + field_modifications(old.fields@[n - 1], old, new)
    }
}

/// The changes from `old` to `new`: additions, in the order of the new
/// fields; removals, then modifications, in the order of the old fields.
pub open spec fn schema_changes(old: JsonSchema, new: JsonSchema) -> Seq<SchemaChange> {
    added_changes(old.fields@, new.fields@) + removed_changes(old.fields@, new.fields@) + modified_changes(
        old,
        new,
        old.fields@.len() as int,
    )
}

/// Whether change `c` is `d`, up to copies of names and types.
pub open spec fn change_agrees(c: SchemaChange, d: SchemaChange) -> bool {
    match (c, d) {
        (
            SchemaChange::FieldAdded { field_name: n1, field_type: t1, default_value: v1 },
            SchemaChange::FieldAdded { field_name: n2, field_type: t2, default_value: v2 },
        ) => n1@ == n2@ && same_type(t2, t1) && v1 == v2,
        (
            SchemaChange::FieldRemoved { field_name: n1, field_type: t1 },
            SchemaChange::FieldRemoved { field_name: n2, field_type: t2 },
        ) => n1@ == n2@ && same_type(t2, t1),
        (
            SchemaChange::FieldRenamed { old_name: a1, new_name: b1, field_type: t1 },
            SchemaChange::FieldRenamed { old_name: a2, new_name: b2, field_type: t2 },
        ) => a1@ == a2@ && b1@ == b2@ && same_type(t2, t1),
        (
            SchemaChange::FieldTypeChanged { field_name: n1, old_type: o1, new_type: w1 },
            SchemaChange::FieldTypeChanged { field_name: n2, old_type: o2, new_type: w2 },
        ) => n1@ == n2@ && same_type(o2, o1) && same_type(w2, w1),
        (
            SchemaChange::FieldOptionalityChanged { field_name: n1, field_type: t1, now_optional: p1 },
            SchemaChange::FieldOptionalityChanged { field_name: n2, field_type: t2, now_optional: p2 },
        ) => n1@ == n2@ && same_type(t2, t1) && p1 == p2,
        (
            SchemaChange::NestedStructureChanged { field_name: n1, .. },
            SchemaChange::NestedStructureChanged { field_name: n2, .. },
        ) => n1@ == n2@,
        _ => false,
    }
}

/// Whether each change of `r` agrees with the change of `s` at its index.
pub open spec fn changes_agree(r: Seq<SchemaChange>, s: Seq<SchemaChange>) -> bool {
    r.len() == s.len() && forall|i: int| 0 <= i < r.len() ==> change_agrees(#[trigger] r[i], s[i])
}

proof fn lemma_agree_push(r: Seq<SchemaChange>, s: Seq<SchemaChange>, c: SchemaChange, d: SchemaChange)
    requires
        changes_agree(r, s),
        change_agrees(c, d),
    ensures
        changes_agree(r.push(c), s.push(d)),
{
    assert forall|i: int| 0 <= i < r.push(c).len() implies change_agrees(#[trigger] r.push(c)[i], s.push(d)[i]) by {
        if i < r.len() {
            assert(r.push(c)[i] == r[i]);
            assert(s.push(d)[i] == s[i]);
        }
    }
}

proof fn lemma_agree_concat(r: Seq<SchemaChange>, s: Seq<SchemaChange>, r2: Seq<SchemaChange>, s2: Seq<SchemaChange>)
    requires
        changes_agree(r, s),
        changes_agree(r2, s2),
    ensures
        changes_agree(r + r2, s + s2),
{
    assert forall|i: int| 0 <= i < (r + r2).len() implies change_agrees(#[trigger] (r + r2)[i], (s + s2)[i]) by {
        if i < r.len() {
            assert((r + r2)[i] == r[i]);
            assert((s + s2)[i] == s[i]);
        } else {
            assert((r + r2)[i] == r2[i - r.len()]);
            assert((s + s2)[i] == s2[i - r.len()]);
        }
    }
}

proof fn lemma_lookup_skip(fields: Seq<(String, SchemaFieldType)>, name: Seq<char>, i: int)
    requires
        0 <= i <= fields.len(),
        forall|k: int| 0 <= k < i ==> (#[trigger] fields[k]).0@ != name,
    ensures
        lookup(fields, name) == lookup(fields.subrange(i, fields.len() as int), name),
    decreases i,
{
    if i > 0 {
        let rest = fields.drop_first();
        assert forall|k: int| 0 <= k < i - 1 implies (#[trigger] rest[k]).0@ != name by {
            assert(rest[k] == fields[k + 1]);
        }
        lemma_lookup_skip(rest, name, i - 1);
        assert(rest.subrange(i - 1, rest.len() as int) =~= fields.subrange(i, fields.len() as int));
    } else {
        assert(fields.subrange(0, fields.len() as int) =~= fields);
    }
}

fn find_field(fields: &Vec<(String, SchemaFieldType)>, name: &str) -> (r: Option<usize>)
    ensures
        match r {
            Some(i) => i < fields@.len() && lookup(fields@, name@) == Some(fields@[i as int].1) && fields@[i as int].0@ == name@,
            None => lookup(fields@, name@).is_none(),
        },
{
    let k = name.to_owned();
    let mut i: usize = 0;
    while i < fields.len()
        invariant
            i <= fields@.len(),
            k@ == name@,
            forall|j: int| 0 <= j < i ==> (#[trigger] fields@[j]).0@ != name@,
        decreases fields@.len() - i,
    {
        if fields[i].0 == k {
            proof {
                lemma_lookup_skip(fields@, name@, i as int);
                let rest = fields@.subrange(i as int, fields@.len() as int);
                assert(rest[0] == fields@[i as int]);
            }
            return Some(i);
        }
        i = i + 1;
    }
    proof {
        lemma_lookup_skip(fields@, name@, i as int);
        assert(fields@.subrange(i as int, fields@.len() as int).len() == 0);
    }
    None
}

fn contains_name(names: &Vec<String>, name: &str) -> (b: bool)
    ensures
        b == names_contain(names@, name@),
{
    let k = name.to_owned();
    let mut i: usize = 0;
    while i < names.len()
        invariant
            i <= names@.len(),
            k@ == name@,
            forall|j: int| 0 <= j < i ==> (#[trigger] names@[j])@ != name@,
        decreases names@.len() - i,
    {
        if names[i] == k {
            return true;
        }
        i = i + 1;
    }
    false
}

fn get_default_value_for_type(t: &SchemaFieldType) -> (d: JsonDefault)
    ensures
        d == default_for(*t),
{
    match t {
        SchemaFieldType::String => JsonDefault::EmptyString,
        SchemaFieldType::Number => JsonDefault::Zero,
        SchemaFieldType::Boolean => JsonDefault::False,
        SchemaFieldType::Array(_) => JsonDefault::EmptyArray,
        SchemaFieldType::Object(_) => JsonDefault::EmptyObject,
        SchemaFieldType::Null => JsonDefault::Null,
        SchemaFieldType::Union(_) => JsonDefault::Null,
    }
}

fn detect_added(old: &JsonSchema, new: &JsonSchema) -> (r: Vec<SchemaChange>)
    ensures
        changes_agree(r@, added_changes(old.fields@, new.fields@)),
{
    let mut r: Vec<SchemaChange> = Vec::new();
    let mut j: usize = 0;
    while j < new.fields.len()
        invariant
            j <= new.fields@.len(),
            changes_agree(r@, added_changes(old.fields@, new.fields@.take(j as int))),
        decreases new.fields@.len() - j,
    {
        let ghost t = new.fields@.take(j + 1);
        proof {
            assert(t.drop_last() =~= new.fields@.take(j as int));
            assert(t.last() == new.fields@[j as int]);
        }
        let f = &new.fields[j];
        if find_field(&old.fields, f.0.as_str()).is_none() {
            let c = SchemaChange::FieldAdded {
                field_name: f.0.clone(),
                field_type: copy_type(&f.1),
                default_value: Some(get_default_value_for_type(&f.1)),
            };
            proof {
                let d = SchemaChange::FieldAdded { field_name: f.0, field_type: f.1, default_value: Some(default_for(f.1)) };
                lemma_agree_push(r@, added_changes(old.fields@, new.fields@.take(j as int)), c, d);
            }
            r.push(c);
        }
        j = j + 1;
    }
    proof {
        assert(new.fields@.take(new.fields@.len() as int) =~= new.fields@);
    }
    r
}

fn detect_removed(old: &JsonSchema, new: &JsonSchema) -> (r: Vec<SchemaChange>)
    ensures
        changes_agree(r@, removed_changes(old.fields@, new.fields@)),
{
    let mut r: Vec<SchemaChange> = Vec::new();
    let mut j: usize = 0;
    while j < old.fields.len()
        invariant
            j <= old.fields@.len(),
            changes_agree(r@, removed_changes(old.fields@.take(j as int), new.fields@)),
        decreases old.fields@.len() - j,
    {
        let ghost t = old.fields@.take(j + 1);
        proof {
            assert(t.drop_last() =~= old.fields@.take(j as int));
            assert(t.last() == old.fields@[j as int]);
        }
        let f = &old.fields[j];
        if find_field(&new.fields, f.0.as_str()).is_none() {
            let c = SchemaChange::FieldRemoved { field_name: f.0.clone(), field_type: copy_type(&f.1) };
            proof {
                let d = SchemaChange::FieldRemoved { field_name: f.0, field_type: f.1 };
                lemma_agree_push(r@, removed_changes(old.fields@.take(j as int), new.fields@), c, d);
            }
            r.push(c);
        }
        j = j + 1;
    }
    proof {
        assert(old.fields@.take(old.fields@.len() as int) =~= old.fields@);
    }
    r
}

fn detect_modified(old: &JsonSchema, new: &JsonSchema) -> (r: Vec<SchemaChange>)
    ensures
        changes_agree(r@, modified_changes(*old, *new, old.fields@.len() as int)),
{
    let mut r: Vec<SchemaChange> = Vec::new();
    let mut j: usize = 0;
    while j < old.fields.len()
        invariant
            j <= old.fields@.len(),
            changes_agree(r@, modified_changes(*old, *new, j as int)),
        decreases old.fields@.len() - j,
    {
        let f = &old.fields[j];
        let ghost prev = modified_changes(*old, *new, j as int);
        let ghost mods = field_modifications(old.fields@[j as int], *old, *new);
        match find_field(&new.fields, f.0.as_str()) {
            Some(k) => {
                let nt = &new.fields[k].1;
                let mut local: Vec<SchemaChange> = Vec::new();
                let ghost mut expect: Seq<SchemaChange> = Seq::empty();
                if !same_type_exec(&f.1, nt) {
                    let c = SchemaChange::FieldTypeChanged {
                        field_name: f.0.clone(),
                        old_type: copy_type(&f.1),
                        new_type: copy_type(nt),
                    };
                    proof {
                        let d = SchemaChange::FieldTypeChanged { field_name: f.0, old_type: f.1, new_type: *nt };
                        lemma_agree_push(local@, expect, c, d);
                        expect = expect.push(d);
                    }
                    local.push(c);
                }
                let old_required = contains_name(&old.required_fields, f.0.as_str());
                let new_required = contains_name(&new.required_fields, f.0.as_str());
                if old_required != new_required {
                    let c = SchemaChange::FieldOptionalityChanged {
                        field_name: f.0.clone(),
                        field_type: copy_type(nt),
                        now_optional: !new_required,
                    };
                    proof {
                        let d = SchemaChange::FieldOptionalityChanged {
                            field_name: f.0,
                            field_type: *nt,
                            now_optional: !new_required,
                        };
                        lemma_agree_push(local@, expect, c, d);
                        expect = expect.push(d);
                    }
                    local.push(c);
                }
                proof {
                    assert(expect =~= mods);
                    lemma_agree_concat(r@, prev, local@, mods);
                }
                r.append(&mut local);
            },
            None => {
                proof {
                    assert(mods =~= Seq::<SchemaChange>::empty());
                    assert(prev + mods =~= prev);
                }
            },
        }
        proof {
            assert(modified_changes(*old, *new, j + 1) == prev + mods);
        }
        j = j + 1;
    }
    r
}

/// Analysis of and tools for schema compatibility.
pub struct CompatibilityValidator;

/// The outcome of comparing two schemas.
#[derive(Debug)]
pub struct CompatibilityAnalysis {
    /// How compatible the versions are.
    pub level: CompatibilityLevel,
    /// The changes between them.
    pub changes: Vec<SchemaChange>,
    /// Whether a migration can be generated.
    pub auto_migration_possible: bool,
    /// The migration's steps, when it can be generated and has any.
    pub migration: Option<Vec<MigrationStep>>,
    /// What prevents an automatic migration.
    pub issues: Vec<String>,
}


fn change_effect_exec(c: &SchemaChange) -> (e: ChangeEffect)
    ensures
        e == change_effect(*c),
{
    match c {
        SchemaChange::FieldAdded { default_value, .. } => if default_value.is_some() {
            ChangeEffect::Backward
        } else {
            ChangeEffect::Breaking
        },
        SchemaChange::FieldTypeChanged { old_type, new_type, .. } => if is_type_compatible(old_type, new_type) {
            ChangeEffect::Forward
        } else {
            ChangeEffect::Breaking
        },
        SchemaChange::FieldOptionalityChanged { now_optional, .. } => if *now_optional {
            ChangeEffect::Backward
        } else {
            ChangeEffect::Breaking
        },
        _ => ChangeEffect::Breaking,
    }
}

fn get_type_converter(old: &SchemaFieldType, new: &SchemaFieldType) -> (k: Option<FieldConverter>)
    ensures
        k == converter_for(*old, *new),
{
    match (old, new) {
        (SchemaFieldType::String, SchemaFieldType::Number) => Some(FieldConverter::StringToNumber),
        (SchemaFieldType::Number, SchemaFieldType::String) => Some(FieldConverter::NumberToString),
        (SchemaFieldType::String, SchemaFieldType::Boolean) => Some(FieldConverter::StringToBoolean),
        (SchemaFieldType::Boolean, SchemaFieldType::String) => Some(FieldConverter::BooleanToString),
        _ => None,
    }
}

/// The views of a list of migration steps.
pub open spec fn steps_view(steps: Seq<MigrationStep>) -> Seq<(u8, Seq<char>, Seq<char>, Option<JsonDefault>, Option<FieldConverter>)> {
    steps.map_values(|s: MigrationStep| step_view(s))
}

/// The texts of a list of strings.
pub open spec fn texts(v: Seq<String>) -> Seq<Seq<char>> {
    v.map_values(|s: String| s@)
}

impl CompatibilityValidator {
    /// The type inferred for a JSON value, as [`inferred_shape`] says.
    fn infer_field_type(value: &JsonValue) -> (r: Result<SchemaFieldType, EventStoreError>)
        ensures
            r matches Ok(t) && shape_of(t) == inferred_shape(*value),
        decreases *value, 2nat,
    {
        match value {
            JsonValue::String(_) => Ok(SchemaFieldType::String),
            JsonValue::Number(_) => Ok(SchemaFieldType::Number),
            JsonValue::Bool(_) => Ok(SchemaFieldType::Boolean),
            JsonValue::Null => Ok(SchemaFieldType::Null),
            JsonValue::Array(items) => {
                if items.len() == 0 {
                    let t = SchemaFieldType::Array(Box::new(SchemaFieldType::Null));
                    assert(shape_of(SchemaFieldType::Null) == TypeShape::Null);
                    Ok(t)
                } else {
                    proof {
                        assert(decreases_to!(*value => (*value)->Array_0));
                        assert(decreases_to!(*items => items@));
                        assert(decreases_to!(items@ => items@[0]));
                    }
                    match Self::infer_field_type(&items[0]) {
                        Ok(element_type) => {
                            let t = SchemaFieldType::Array(Box::new(element_type));
                            assert(shape_of(t) == TypeShape::Array(Box::new(inferred_shape(items@[0]))));
                            Ok(t)
                        },
                        Err(e) => Err(e),
                    }
                }
            },
            JsonValue::Object(members) => {
                proof {
                    assert(decreases_to!(*value => (*value)->Object_0));
                }
                match Self::infer_members(members) {
                    Ok(fields) => {
                        let t = SchemaFieldType::Object(fields);
                        assert(shape_of(t) == TypeShape::Object(object_shape(members@)));
                        Ok(t)
                    },
                    Err(e) => Err(e),
                }
            },
        }
    }

    /// The fields inferred for an object with `members`, as
    /// [`object_shape`] says.
    fn infer_members(members: &Vec<(String, JsonValue)>) -> (r: Result<Vec<(String, SchemaFieldType)>, EventStoreError>)
        ensures
            r matches Ok(fields) && fields_shape(fields@) == object_shape(members@),
        decreases *members, 1nat,
    {
        let mut fields: Vec<(String, SchemaFieldType)> = Vec::new();
        let mut i: usize = 0;
        while i < members.len()
            invariant
                i <= members@.len(),
                fields_shape(fields@) == object_shape(members@.take(i as int)),
            decreases members@.len() - i,
        {
            proof {
                assert(decreases_to!(*members => members@));
                assert(decreases_to!(members@ => members@[i as int]));
                assert(decreases_to!(members@[i as int] => members@[i as int].1));
            }
            let t = match Self::infer_field_type(&members[i].1) {
                Ok(t) => t,
                Err(e) => {
                    return Err(e);
                },
            };
            let ghost prev = fields@;
            let name = members[i].0.clone();
            put_field_exec(&mut fields, name, t);
            proof {
                let m = members@.take(i + 1);
                assert(m.drop_last() =~= members@.take(i as int));
                assert(m.last() == members@[i as int]);
            }
            i = i + 1;
        }
        proof {
            assert(members@.take(members@.len() as int) =~= members@);
        }
        Ok(fields)
    }

    /// The schema of a sample JSON object: the type inferred for each
    /// member, and as required the members whose value is not null. Anything
    /// but an object is refused.
    pub fn extract_schema(json_data: &JsonValue) -> (r: Result<JsonSchema, EventStoreError>)
        ensures
            match *json_data {
                JsonValue::Object(members) => r matches Ok(schema) && fields_shape(schema.fields@) == object_shape(
                    members@,
                ) && texts(schema.required_fields@) == required_names(members@),
                _ => r matches Err(EventStoreError::DeserializationFailed(m))
                    && m@ == "Can only extract schema from JSON objects"@,
            },
    {
        match json_data {
            JsonValue::Object(members) => {
                let fields = match Self::infer_members(members) {
                    Ok(fields) => fields,
                    Err(e) => {
                        return Err(e);
                    },
                };
                let mut required_fields: Vec<String> = Vec::new();
                let mut i: usize = 0;
                while i < members.len()
                    invariant
                        i <= members@.len(),
                        texts(required_fields@) == required_names(members@.take(i as int)),
                    decreases members@.len() - i,
                {
                    let ghost prev = texts(required_fields@);
                    proof {
                        let m = members@.take(i + 1);
                        assert(m.drop_last() =~= members@.take(i as int));
                        assert(m.last() == members@[i as int]);
                    }
                    let is_null = match &members[i].1 {
                        JsonValue::Null => true,
                        _ => false,
                    };
                    if !is_null {
                        let name = members[i].0.clone();
                        if !strings_contain(&required_fields, &name) {
                            required_fields.push(name);
                            proof {
                                assert(texts(required_fields@) =~= prev.push(members@[i as int].0@));
                            }
                        }
                    }
                    i = i + 1;
                }
                proof {
                    assert(members@.take(members@.len() as int) =~= members@);
                }
                Ok(JsonSchema { fields, required_fields })
            },
            _ => Err(EventStoreError::DeserializationFailed("Can only extract schema from JSON objects".to_owned())),
        }
    }

    /// The changes from `old_schema` to `new_schema`, as [`schema_changes`]
    /// lists them.
    pub fn detect_changes(old_schema: &JsonSchema, new_schema: &JsonSchema) -> (r: Vec<SchemaChange>)
        ensures
            changes_agree(r@, schema_changes(*old_schema, *new_schema)),
    {
        let mut r = detect_added(old_schema, new_schema);
        let mut removed = detect_removed(old_schema, new_schema);
        let mut modified = detect_modified(old_schema, new_schema);
        proof {
            lemma_agree_concat(
                r@,
                added_changes(old_schema.fields@, new_schema.fields@),
                removed@,
                removed_changes(old_schema.fields@, new_schema.fields@),
            );
            lemma_agree_concat(
                r@ + removed@,
                added_changes(old_schema.fields@, new_schema.fields@) + removed_changes(
                    old_schema.fields@,
                    new_schema.fields@,
                ),
                modified@,
                modified_changes(*old_schema, *new_schema, old_schema.fields@.len() as int),
            );
        }
        r.append(&mut removed);
        r.append(&mut modified);
        r
    }

    /// The compatibility level of `changes`, as [`level_of`] gives it.
    pub fn determine_compatibility_level(changes: &[SchemaChange]) -> (level: CompatibilityLevel)
        ensures
            level == level_of(changes@),
    {
        if changes.len() == 0 {
            return CompatibilityLevel::FullyCompatible;
        }
        let mut breaking = false;
        let mut forward = false;
        let mut backward = false;
        let mut i: usize = 0;
        while i < changes.len()
            invariant
                i <= changes@.len(),
                breaking == has_effect(changes@.take(i as int), ChangeEffect::Breaking),
                forward == has_effect(changes@.take(i as int), ChangeEffect::Forward),
                backward == has_effect(changes@.take(i as int), ChangeEffect::Backward),
            decreases changes@.len() - i,
        {
            let e = change_effect_exec(&changes[i]);
            proof {
                let t = changes@.take(i + 1);
                let p = changes@.take(i as int);
                assert(t[i as int] == changes@[i as int]);
                assert forall|x: ChangeEffect| has_effect(t, x) == (has_effect(p, x) || x == e) by {
                    if has_effect(t, x) {
                        let k = choose|k: int| 0 <= k < t.len() && change_effect(#[trigger] t[k]) == x;
                        if k < i {
                            assert(p[k] == t[k]);
                        }
                    }
                    if has_effect(p, x) {
                        let k = choose|k: int| 0 <= k < p.len() && change_effect(#[trigger] p[k]) == x;
                        assert(t[k] == p[k]);
                    }
                }
            }
            match e {
                ChangeEffect::Breaking => {
                    breaking = true;
                },
                ChangeEffect::Forward => {
                    forward = true;
                },
                ChangeEffect::Backward => {
                    backward = true;
                },
            }
            i = i + 1;
        }
        proof {
            assert(changes@.take(changes@.len() as int) =~= changes@);
        }
        if breaking {
            CompatibilityLevel::Incompatible
        } else if forward && backward {
            CompatibilityLevel::FullyCompatible
        } else if forward {
            CompatibilityLevel::ForwardCompatible
        } else {
            CompatibilityLevel::BackwardCompatible
        }
    }

    /// Whether data of `old_type` can be read as `new_type`.
    pub fn is_type_compatible(old_type: &SchemaFieldType, new_type: &SchemaFieldType) -> (r: bool)
        ensures
            r == type_compatible(*old_type, *new_type),
    {
        is_type_compatible(old_type, new_type)
    }

    /// The migration that `changes` call for: whether one can be generated
    /// (no change raises an issue), its steps when it can and has any, and
    /// the issues.
    pub fn try_generate_migration(changes: &[SchemaChange]) -> (r: (bool, Option<Vec<MigrationStep>>, Vec<String>))
        ensures
            texts(r.2@) == issues_for(changes@),
            r.0 == (issues_for(changes@).len() == 0),
            match r.1 {
                Some(steps) => r.0 && steps_for(changes@).len() > 0 && steps_view(steps@) == steps_for(changes@),
                None => !r.0 || steps_for(changes@).len() == 0,
            },
    {
        let mut steps: Vec<MigrationStep> = Vec::new();
        let mut issues: Vec<String> = Vec::new();
        let mut i: usize = 0;
        while i < changes.len()
            invariant
                i <= changes@.len(),
                steps_view(steps@) == steps_for(changes@.take(i as int)),
                texts(issues@) == issues_for(changes@.take(i as int)),
            decreases changes@.len() - i,
        {
            let ghost t = changes@.take(i + 1);
            proof {
                assert(t.drop_last() =~= changes@.take(i as int));
                assert(t.last() == changes@[i as int]);
            }
            let ghost steps_before = steps@;
            let ghost issues_before = issues@;
            match &changes[i] {
                SchemaChange::FieldAdded { field_name, default_value, .. } => match default_value {
                    Some(d) => {
                        steps.push(MigrationStep::AddField { field_name: field_name.clone(), default_value: *d });
                    },
                    None => {
                        issues.push(
                            "Cannot auto-migrate added field '".to_owned().concat(field_name.as_str()).concat(
                                "' without default value",
                            ),
                        );
                    },
                },
                SchemaChange::FieldRemoved { field_name, .. } => {
                    issues.push(
                        "Cannot auto-migrate removed field '".to_owned().concat(field_name.as_str()).concat(
                            "' - may break old readers",
                        ),
                    );
                },
                SchemaChange::FieldRenamed { old_name, new_name, .. } => {
                    steps.push(MigrationStep::RenameField { old_name: old_name.clone(), new_name: new_name.clone() });
                },
                SchemaChange::FieldTypeChanged { field_name, old_type, new_type } => match get_type_converter(
                    old_type,
                    new_type,
                ) {
                    Some(k) => {
                        steps.push(MigrationStep::ConvertField { field_name: field_name.clone(), converter: k });
                    },
                    None => {
                        issues.push(
                            "Cannot auto-convert field '".to_owned().concat(field_name.as_str()).concat(
                                "' from ",
                            ).concat(describe_type(old_type).as_str()).concat(" to ").concat(
                                describe_type(new_type).as_str(),
                            ),
                        );
                    },
                },
                SchemaChange::FieldOptionalityChanged { .. } => {},
                SchemaChange::NestedStructureChanged { field_name, .. } => {
                    issues.push(
                        "Cannot auto-migrate nested structure changes in field '".to_owned().concat(
                            field_name.as_str(),
                        ).concat("'"),
                    );
                },
            }
            proof {
                match step_for(changes@[i as int]) {
                    Some(x) => {
                        assert(steps@ == steps_before.push(steps@.last()));
                        assert(steps_view(steps@) =~= steps_view(steps_before).push(x));
                    },
                    None => {
                        assert(steps@ == steps_before);
                    },
                }
                match issue_for(changes@[i as int]) {
                    Some(x) => {
                        assert(issues@ == issues_before.push(issues@.last()));
                        assert(texts(issues@) =~= texts(issues_before).push(x));
                    },
                    None => {
                        assert(issues@ == issues_before);
                    },
                }
            }
            i = i + 1;
        }
        proof {
            assert(changes@.take(changes@.len() as int) =~= changes@);
        }
        let possible = issues.len() == 0;
        let migration = if possible && steps.len() > 0 {
            Some(steps)
        } else {
            None
        };
        (possible, migration, issues)
    }

    /// Compares two schemas: their changes, how compatible they are, and the
    /// migration the changes call for.
    pub fn analyze_compatibility(old_schema: &JsonSchema, new_schema: &JsonSchema) -> (a: CompatibilityAnalysis)
        ensures
            changes_agree(a.changes@, schema_changes(*old_schema, *new_schema)),
            a.level == level_of(a.changes@),
            texts(a.issues@) == issues_for(a.changes@),
            a.auto_migration_possible == (issues_for(a.changes@).len() == 0),
            match a.migration {
                Some(steps) => a.auto_migration_possible && steps_for(a.changes@).len() > 0 && steps_view(steps@)
                    == steps_for(a.changes@),
                None => !a.auto_migration_possible || steps_for(a.changes@).len() == 0,
            },
    {
        let changes = CompatibilityValidator::detect_changes(old_schema, new_schema);
        let level = CompatibilityValidator::determine_compatibility_level(changes.as_slice());
        let (auto_migration_possible, migration, issues) = CompatibilityValidator::try_generate_migration(
            changes.as_slice(),
        );
        CompatibilityAnalysis { level, changes, auto_migration_possible, migration, issues }
    }
}

} // verus!
