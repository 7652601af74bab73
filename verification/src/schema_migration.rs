//! Migrating serialized JSON events between schema versions: reading the
//! bytes, applying the registered migrations along the path between two
//! versions, and writing the result back; and what becomes of an event
//! newer than the current schema.

use vstd::prelude::*;

use crate::evolution::{migration_path, EvolutionStrategy, ForwardCompatibilityMode, SchemaRegistry};
use crate::text::{decimal, decimal_string};
use crate::types::{store_error_text, EventStoreError};

verus! {

/// `serde_json::Value`, a parsed JSON document. Verus sees nothing inside
/// it; the migrations registered by the library's users read and change it.
#[verifier::external_type_specification]
#[verifier::external_body]
pub struct ExJsonValue(serde_json::Value);

/// What reading `bytes` as a JSON document with `serde_json::from_slice`
/// reports: `None` when they are one, else the text of the error.
pub uninterp spec fn json_parse_error(bytes: Seq<u8>) -> Option<Seq<char>>;

/// Reads `data` with `serde_json::from_slice` into a `serde_json::Value`;
/// on failure it gives the error's text. Whether it succeeds, and the
/// error's text, are named by [`json_parse_error`]; the value read is not
/// stated.
#[verifier::external_body]
fn parse_json(data: &[u8]) -> (r: Result<serde_json::Value, String>)
    ensures
        match r {
            Ok(_) => json_parse_error(data@) is None,
            Err(e) => json_parse_error(data@) == Some(e@),
        },
{
    match serde_json::from_slice::<serde_json::Value>(data) {
        Ok(v) => Ok(v),
        Err(e) => Err(e.to_string()),
    }
}

/// Writes `value` with `serde_json::to_vec`; on failure it gives the
/// error's text. Nothing is stated of the bytes: the value is opaque here.
#[verifier::external_body]
fn write_json(value: &serde_json::Value) -> Result<Vec<u8>, String> {
    match serde_json::to_vec(value) {
        Ok(b) => Ok(b),
        Err(e) => Err(e.to_string()),
    }
}

/// Whether every migration of type `M` can be called on every value.
pub open spec fn migrations_total<M: Fn(serde_json::Value) -> Result<serde_json::Value, EventStoreError>>() -> bool {
    forall|m: M, v: serde_json::Value| call_requires(m, (v,))
}

/// Whether `values` are what the steps of `path` give one after the other,
/// starting from `values[0]`: each step's migration returned the next value.
pub open spec fn migrated_through<M: Fn(serde_json::Value) -> Result<serde_json::Value, EventStoreError>>(
    path: Seq<(u32, u32, &M)>,
    values: Seq<serde_json::Value>,
) -> bool {
    &&& values.len() == path.len() + 1
    &&& forall|i: int|
        0 <= i < path.len() ==> call_ensures(
            *path[i].2,
            (values[i],),
            Ok::<serde_json::Value, EventStoreError>(#[trigger] values[i + 1]),
        )
}

/// The message of a migration step from `from` to `to` that failed with `e`.
pub open spec fn step_failure_text(from: u32, to: u32, e: EventStoreError) -> Seq<char> {
    "Migration failed from version "@ + decimal(from as nat) + " to "@ + decimal(to as nat) + ": "@
        + store_error_text(e)
}

/// Whether the migrations of `path`, applied to `value`, went through the
/// values `vs` and then failed with `e0` at step `i`, which `e` reports.
pub open spec fn failed_at<M: Fn(serde_json::Value) -> Result<serde_json::Value, EventStoreError>>(
    path: Seq<(u32, u32, &M)>,
    value: serde_json::Value,
    i: int,
    vs: Seq<serde_json::Value>,
    e0: EventStoreError,
    e: EventStoreError,
) -> bool {
    &&& 0 <= i < path.len()
    &&& migrated_through(path.take(i), vs)
    &&& vs[0] == value
    &&& call_ensures(*path[i].2, (vs.last(),), Err::<serde_json::Value, EventStoreError>(e0))
    &&& e matches EventStoreError::SchemaEvolutionError(m) && m@ == step_failure_text(path[i].0, path[i].1, e0)
}

/// Whether `r` is what applying the migrations of `path` to `value` gives:
/// the last value when every step succeeds; else the first failure, as a
/// schema evolution error naming the step.
pub open spec fn migration_outcome<M: Fn(serde_json::Value) -> Result<serde_json::Value, EventStoreError>>(
    path: Seq<(u32, u32, &M)>,
    value: serde_json::Value,
    r: Result<serde_json::Value, EventStoreError>,
) -> bool {
    match r {
        Ok(w) => exists|vs: Seq<serde_json::Value>|
            migrated_through(path, vs) && vs[0] == value && vs.last() == w,
        Err(e) => exists|i: int, vs: Seq<serde_json::Value>, e0: EventStoreError|
            #[trigger] failed_at(path, value, i, vs, e0, e),
    }
}

fn step_failure(from: u32, to: u32, e: &EventStoreError) -> (r: EventStoreError)
    ensures
        r matches EventStoreError::SchemaEvolutionError(m) && m@ == step_failure_text(from, to, *e),
{
    let m = "Migration failed from version ".to_owned().concat(decimal_string(from as u64).as_str()).concat(
        " to ",
    ).concat(decimal_string(to as u64).as_str()).concat(": ").concat(e.message().as_str());
    EventStoreError::SchemaEvolutionError(m)
}

/// Applies the migrations of `path`, in order, to `value`; the first that
/// fails ends the run with an error naming its step.
pub fn apply_migrations<M: Fn(serde_json::Value) -> Result<serde_json::Value, EventStoreError>>(
    value: serde_json::Value,
    path: &Vec<(u32, u32, &M)>,
) -> (r: Result<serde_json::Value, EventStoreError>)
    requires
        migrations_total::<M>(),
    ensures
        migration_outcome(path@, value, r),
{
    let ghost start = value;
    let mut current = value;
    let ghost mut vs: Seq<serde_json::Value> = seq![value];
    let mut i: usize = 0;
    while i < path.len()
        invariant
            migrations_total::<M>(),
            i <= path@.len(),
            migrated_through(path@.take(i as int), vs),
            vs[0] == start,
            start == value,
            vs.last() == current,
        decreases path@.len() - i,
    {
        let step = path[i].2;
        let ghost before = current;
        proof {
            assert(call_requires(*step, (current,)));
        }
        match step(current) {
            Ok(next) => {
                proof {
                    let nvs = vs.push(next);
                    assert forall|k: int| 0 <= k < i + 1 implies call_ensures(
                        *path@.take(i + 1)[k].2,
                        (nvs[k],),
                        Ok::<serde_json::Value, EventStoreError>(#[trigger] nvs[k + 1]),
                    ) by {
                        if k < i {
                            assert(path@.take(i + 1)[k] == path@.take(i as int)[k]);
                            assert(nvs[k] == vs[k] && nvs[k + 1] == vs[k + 1]);
                        } else {
                            assert(nvs[k] == before);
                        }
                    }
                    vs = nvs;
                }
                current = next;
            },
            Err(e) => {
                let err = step_failure(path[i].0, path[i].1, &e);
                proof {
                    assert(path@[i as int].2 == step);
                    assert(call_ensures(*path@[i as int].2, (vs.last(),), Err::<serde_json::Value, EventStoreError>(e)));
                    assert(failed_at(path@, start, i as int, vs, e, err));
                }
                return Err(err);
            },
        }
        i = i + 1;
    }
    proof {
        assert(path@.take(path@.len() as int) =~= path@);
    }
    Ok(current)
}

/// The versions of the steps of a path found in a chain.
pub open spec fn step_versions<M>(path: Seq<(u32, u32, &M)>) -> Seq<(u32, u32)> {
    path.map_values(|s: (u32, u32, &M)| (s.0, s.1))
}

/// The message when no path leads from `from` to `to` for `event_type`.
pub open spec fn no_path_text(from: u32, to: u32, event_type: Seq<char>) -> Seq<char> {
    "No migration path found from version "@ + decimal(from as nat) + " to "@ + decimal(to as nat)
        + " for type: "@ + event_type
}

/// The message when no downgrade leads from `from` to `to` for `event_type`.
pub open spec fn no_downgrade_text(from: u32, to: u32, event_type: Seq<char>) -> Seq<char> {
    "No downgrade path available from version "@ + decimal(from as nat) + " to "@ + decimal(to as nat)
        + " for type: "@ + event_type
}

/// The message when the path from `from` to `to` takes more than `max`
/// steps.
pub open spec fn too_many_steps_text(from: u32, to: u32, max: usize) -> Seq<char> {
    "Migration path from version "@ + decimal(from as nat) + " to "@ + decimal(to as nat)
        + " exceeds maximum steps ("@ + decimal(max as nat) + ")"@
}

/// The message of an event newer than the current schema, refused.
pub open spec fn newer_version_text(event_version: u32, current_version: u32, event_type: Seq<char>) -> Seq<char> {
    "Event version "@ + decimal(event_version as nat) + " is newer than supported version "@ + decimal(
        current_version as nat,
    ) + " for type: "@ + event_type
}

/// A copy of `data`.
fn copy_bytes(data: &[u8]) -> (v: Vec<u8>)
    ensures
        v@ == data@,
{
    let mut v: Vec<u8> = Vec::new();
    let mut i: usize = 0;
    while i < data.len()
        invariant
            i <= data@.len(),
            v@ == data@.take(i as int),
        decreases data@.len() - i,
    {
        v.push(data[i]);
        proof {
            assert(data@.take(i + 1) =~= data@.take(i as int).push(data@[i as int]));
        }
        i = i + 1;
    }
    proof {
        assert(data@.take(data@.len() as int) =~= data@);
    }
    v
}

/// `a`, then the decimal digits of `x`, `b`, those of `y`, and `c`.
fn two_numbers(a: &str, x: u64, b: &str, y: u64, c: &str) -> (s: String)
    ensures
        s@ == a@ + decimal(x as nat) + b@ + decimal(y as nat) + c@,
{
    a.to_owned().concat(decimal_string(x).as_str()).concat(b).concat(decimal_string(y).as_str()).concat(c)
}

/// The message when the input of the step from `from` to `to` does not
/// read as JSON, with the reader's error text `t`.
pub open spec fn step_parse_text(from: u32, to: u32, t: Seq<char>) -> Seq<char> {
    "Failed to parse JSON for migration step "@ + decimal(from as nat) + "->"@ + decimal(to as nat) + ": "@ + t
}

/// The message when the result of the step from `from` to `to` cannot be
/// written, with the writer's error text `t`.
pub open spec fn step_write_text(from: u32, to: u32, t: Seq<char>) -> Seq<char> {
    "Failed to serialize after migration step "@ + decimal(from as nat) + "->"@ + decimal(to as nat) + ": "@ + t
}

/// The message when the migrated value cannot be written, with the
/// writer's error text `t`.
pub open spec fn write_failure_text(t: Seq<char>) -> Seq<char> {
    "Failed to serialize migrated data: "@ + t
}

/// Whether `e` is how a step from `from` to `to` of a path applied to bytes
/// fails: its input does not read as JSON, its migration fails, or its
/// result cannot be written.
pub open spec fn byte_step_error(e: EventStoreError, from: u32, to: u32) -> bool {
    ||| exists|t: Seq<char>|
        (e matches EventStoreError::DeserializationFailed(m) && m@ == #[trigger] step_parse_text(from, to, t))
    ||| exists|e0: EventStoreError|
        (e matches EventStoreError::SchemaEvolutionError(m) && m@ == #[trigger] step_failure_text(from, to, e0))
    ||| exists|t: Seq<char>|
        (e matches EventStoreError::SerializationFailed(m) && m@ == #[trigger] step_write_text(from, to, t))
}

/// Applies the migrations of `path` to the JSON document `data`, one step
/// at a time: each step reads the current bytes, migrates the value and
/// writes it back. An empty path gives the data as it is; the first step
/// that fails ends the run with an error naming it.
pub fn apply_migration_path<M: Fn(serde_json::Value) -> Result<serde_json::Value, EventStoreError>>(
    data: &[u8],
    path: &Vec<(u32, u32, &M)>,
) -> (r: Result<Vec<u8>, EventStoreError>)
    requires
        migrations_total::<M>(),
    ensures
        path@.len() == 0 ==> (r matches Ok(b) && b@ == data@),
        path@.len() > 0 && json_parse_error(data@) is Some ==> (r matches Err(
            EventStoreError::DeserializationFailed(m),
        ) && m@ == step_parse_text(path@[0].0, path@[0].1, json_parse_error(data@)->0)),
        r matches Err(e) ==> exists|i: int| #[trigger] byte_step_failed(step_versions(path@), i, e),
{
    let mut current: Vec<u8> = copy_bytes(data);
    let mut i: usize = 0;
    while i < path.len()
        invariant
            migrations_total::<M>(),
            i <= path@.len(),
            i == 0 ==> current@ == data@,
            i > 0 ==> json_parse_error(data@) is None,
        decreases path@.len() - i,
    {
        let from = path[i].0;
        let to = path[i].1;
        let value = match parse_json(current.as_slice()) {
            Ok(v) => v,
            Err(t) => {
                let m = two_numbers("Failed to parse JSON for migration step ", from as u64, "->", to as u64, ": ")
                    .concat(t.as_str());
                let e = EventStoreError::DeserializationFailed(m);
                proof {
                    assert(m@ == step_parse_text(from, to, t@));
                    assert(step_versions(path@)[i as int] == (path@[i as int].0, path@[i as int].1));
                    assert(byte_step_failed(step_versions(path@), i as int, e));
                }
                return Err(e);
            },
        };
        let step = path[i].2;
        proof {
            assert(call_requires(*step, (value,)));
        }
        let migrated = match step(value) {
            Ok(w) => w,
            Err(e0) => {
                let e = step_failure(from, to, &e0);
                proof {
                    assert(e->SchemaEvolutionError_0@ == step_failure_text(from, to, e0));
                    assert(step_versions(path@)[i as int] == (path@[i as int].0, path@[i as int].1));
                    assert(byte_step_failed(step_versions(path@), i as int, e));
                }
                return Err(e);
            },
        };
        current = match write_json(&migrated) {
            Ok(b) => b,
            Err(t) => {
                let m = two_numbers("Failed to serialize after migration step ", from as u64, "->", to as u64, ": ")
                    .concat(t.as_str());
                let e = EventStoreError::SerializationFailed(m);
                proof {
                    assert(m@ == step_write_text(from, to, t@));
                    assert(step_versions(path@)[i as int] == (path@[i as int].0, path@[i as int].1));
                    assert(byte_step_failed(step_versions(path@), i as int, e));
                }
                return Err(e);
            },
        };
        i = i + 1;
    }
    Ok(current)
}

/// Whether `e` reports that the migration of step `i` of the path `p`
/// failed with `e0`.
pub open spec fn step_failed(p: Seq<(u32, u32)>, i: int, e0: EventStoreError, e: EventStoreError) -> bool {
    &&& 0 <= i < p.len()
    &&& e matches EventStoreError::SchemaEvolutionError(m) && m@ == step_failure_text(p[i].0, p[i].1, e0)
}

/// Whether `e` reports that step `i` of the path `p`, applied to bytes,
/// failed.
pub open spec fn byte_step_failed(p: Seq<(u32, u32)>, i: int, e: EventStoreError) -> bool {
    0 <= i < p.len() && byte_step_error(e, p[i].0, p[i].1)
}

/// What migrating the JSON document `data` of type `event_type` from
/// `from_version` to `to_version` gives, with `chains` the registered
/// migrations' versions by type: the document must read as JSON, migrations
/// must be registered for the type and a path must lead between the
/// versions; then either every migration on the path succeeds and the
/// result is written back, or the first that fails is reported, or writing
/// fails.
pub open spec fn migrate_json_post(
    chains: Map<Seq<char>, Map<u32, u32>>,
    data: Seq<u8>,
    event_type: Seq<char>,
    from_version: u32,
    to_version: u32,
    r: Result<Vec<u8>, EventStoreError>,
) -> bool {
    match json_parse_error(data) {
        Some(t) => r matches Err(EventStoreError::DeserializationFailed(m)) && m@
            == "Failed to parse JSON for migration: "@ + t,
        None => if !chains.contains_key(event_type) {
            r matches Err(EventStoreError::SchemaEvolutionError(m)) && m@ == "No migrations registered for type: "@
                + event_type
        } else {
            match migration_path(chains[event_type], from_version, to_version) {
                None => r matches Err(EventStoreError::SchemaEvolutionError(m)) && m@ == no_path_text(
                    from_version,
                    to_version,
                    event_type,
                ),
                Some(p) => match r {
                    Ok(_) => true,
                    Err(e) => {
                        ||| exists|i: int, e0: EventStoreError| #[trigger] step_failed(p, i, e0, e)
                        ||| exists|t: Seq<char>|
                            (e matches EventStoreError::SerializationFailed(m) && m@ == #[trigger] write_failure_text(t))
                    },
                },
            }
        },
    }
}

/// Migrates the JSON document `data` of an event of type `event_type` from
/// schema version `from_version` to `to_version` along the path of the
/// migrations registered for the type, as [`migrate_json_post`] says; the
/// value passes through the migrations as [`apply_migrations`] says.
pub fn migrate_json<M: Fn(serde_json::Value) -> Result<serde_json::Value, EventStoreError>>(
    registry: &SchemaRegistry<M>,
    data: &[u8],
    event_type: &str,
    from_version: u32,
    to_version: u32,
) -> (r: Result<Vec<u8>, EventStoreError>)
    requires
        migrations_total::<M>(),
    ensures
        migrate_json_post(registry.spec_chains(), data@, event_type@, from_version, to_version, r),
{
    let value = match parse_json(data) {
        Ok(v) => v,
        Err(t) => {
            return Err(EventStoreError::DeserializationFailed("Failed to parse JSON for migration: ".to_owned().concat(t.as_str())));
        },
    };
    let chain = match registry.get_chain(event_type) {
        Some(c) => c,
        None => {
            return Err(
                EventStoreError::SchemaEvolutionError("No migrations registered for type: ".to_owned().concat(event_type)),
            );
        },
    };
    let path = match chain.find_migration_path(from_version, to_version) {
        Some(p) => p,
        None => {
            let m = two_numbers(
                "No migration path found from version ",
                from_version as u64,
                " to ",
                to_version as u64,
                " for type: ",
            ).concat(event_type);
            return Err(EventStoreError::SchemaEvolutionError(m));
        },
    };
    let ghost versions = step_versions(path@);
    proof {
        assert(versions =~= path@.map_values(|s: (u32, u32, &M)| (s.0, s.1)));
        assert(migration_path(registry.spec_chains()[event_type@], from_version, to_version) == Some(versions));
    }
    let ghost start = value;
    let migrated = match apply_migrations(value, &path) {
        Ok(w) => w,
        Err(e) => {
            proof {
                let (i, vs, e0) = choose|i: int, vs: Seq<serde_json::Value>, e0: EventStoreError|
                    #[trigger] failed_at(path@, start, i, vs, e0, e);
                assert(versions[i] == (path@[i].0, path@[i].1));
                assert(e->SchemaEvolutionError_0@ == step_failure_text(versions[i].0, versions[i].1, e0));
                assert(step_failed(versions, i, e0, e));
                assert(json_parse_error(data@) is None);
                assert(registry.spec_chains().contains_key(event_type@));
                let p = migration_path(registry.spec_chains()[event_type@], from_version, to_version)->0;
                assert(p == versions);
                assert(step_failed(p, i, e0, e));
            }
            return Err(e);
        },
    };
    match write_json(&migrated) {
        Ok(b) => Ok(b),
        Err(t) => {
            let m = "Failed to serialize migrated data: ".to_owned().concat(t.as_str());
            proof {
                assert(m@ == write_failure_text(t@));
            }
            Err(EventStoreError::SerializationFailed(m))
        },
    }
}

/// The path of the migrations registered for `event_type` from `from` to
/// `to`; `None` when none are registered or no path leads there.
pub open spec fn registered_path(
    chains: Map<Seq<char>, Map<u32, u32>>,
    event_type: Seq<char>,
    from: u32,
    to: u32,
) -> Option<Seq<(u32, u32)>> {
    if chains.contains_key(event_type) {
        migration_path(chains[event_type], from, to)
    } else {
        None
    }
}

/// What becomes of the JSON document `data` of an event of type
/// `event_type` in schema version `event_version`, newer than the current
/// version `current_version`, under `strategy`: refused in strict mode,
/// kept as it is in preserve mode, and in downgrade mode migrated down along
/// the registered path, refused when there is none or it takes more than the
/// strategy's maximum steps.
pub open spec fn forward_post(
    strategy: EvolutionStrategy,
    chains: Map<Seq<char>, Map<u32, u32>>,
    data: Seq<u8>,
    event_type: Seq<char>,
    event_version: u32,
    current_version: u32,
    r: Result<Vec<u8>, EventStoreError>,
) -> bool {
    match strategy.forward_compatibility {
        ForwardCompatibilityMode::Strict => r matches Err(EventStoreError::SchemaEvolutionError(m)) && m@
            == newer_version_text(event_version, current_version, event_type),
        ForwardCompatibilityMode::Preserve => r matches Ok(b) && b@ == data,
        ForwardCompatibilityMode::Downgrade => if event_version == current_version {
            r matches Ok(b) && b@ == data
        } else {
            match registered_path(chains, event_type, event_version, current_version) {
                None => r matches Err(EventStoreError::SchemaEvolutionError(m)) && m@ == no_downgrade_text(
                    event_version,
                    current_version,
                    event_type,
                ),
                Some(p) => if p.len() > strategy.max_migration_steps {
                    r matches Err(EventStoreError::SchemaEvolutionError(m)) && m@ == too_many_steps_text(
                        event_version,
                        current_version,
                        strategy.max_migration_steps,
                    )
                } else {
                    &&& p.len() == 0 ==> (r matches Ok(b) && b@ == data)
                    &&& p.len() > 0 && json_parse_error(data) is Some ==> (r matches Err(
                        EventStoreError::DeserializationFailed(m),
                    ) && m@ == step_parse_text(p[0].0, p[0].1, json_parse_error(data)->0))
                    &&& r matches Err(e) ==> exists|i: int| #[trigger] byte_step_failed(p, i, e)
                },
            }
        },
    }
}

/// Handles the JSON document `data` of an event newer than the current
/// schema, as [`forward_post`] says.
pub fn handle_forward_compatibility<M: Fn(serde_json::Value) -> Result<serde_json::Value, EventStoreError>>(
    registry: &SchemaRegistry<M>,
    strategy: &EvolutionStrategy,
    data: &[u8],
    event_type: &str,
    event_version: u32,
    current_version: u32,
) -> (r: Result<Vec<u8>, EventStoreError>)
    requires
        migrations_total::<M>(),
    ensures
        forward_post(*strategy, registry.spec_chains(), data@, event_type@, event_version, current_version, r),
{
    match strategy.forward_compatibility {
        ForwardCompatibilityMode::Strict => {
            let m = two_numbers(
                "Event version ",
                event_version as u64,
                " is newer than supported version ",
                current_version as u64,
                " for type: ",
            ).concat(event_type);
            proof {
                assert(m@ == newer_version_text(event_version, current_version, event_type@));
            }
            Err(EventStoreError::SchemaEvolutionError(m))
        },
        ForwardCompatibilityMode::Preserve => Ok(copy_bytes(data)),
        ForwardCompatibilityMode::Downgrade => {
            if event_version == current_version {
                return Ok(copy_bytes(data));
            }
            let found = match registry.get_chain(event_type) {
                Some(chain) => chain.find_migration_path(event_version, current_version),
                None => None,
            };
            let ghost expected = registered_path(registry.spec_chains(), event_type@, event_version, current_version);
            proof {
                if found is Some {
                    let p = found->0;
                    assert(step_versions(p@) =~= p@.map_values(|s: (u32, u32, &M)| (s.0, s.1)));
                    assert(expected == Some(step_versions(p@)));
                } else {
                    assert(expected is None);
                }
            }
            let path = match found {
                Some(p) => p,
                None => {
                    let m = two_numbers(
                        "No downgrade path available from version ",
                        event_version as u64,
                        " to ",
                        current_version as u64,
                        " for type: ",
                    ).concat(event_type);
                    proof {
                        assert(m@ == no_downgrade_text(event_version, current_version, event_type@));
                    }
                    return Err(EventStoreError::SchemaEvolutionError(m));
                },
            };
            proof {
                assert(step_versions(path@).len() == path@.len());
            }
            if path.len() > strategy.max_migration_steps {
                let m = two_numbers(
                    "Migration path from version ",
                    event_version as u64,
                    " to ",
                    current_version as u64,
                    " exceeds maximum steps (",
                ).concat(decimal_string(strategy.max_migration_steps as u64).as_str()).concat(")");
                proof {
                    assert(m@ == too_many_steps_text(event_version, current_version, strategy.max_migration_steps));
                }
                return Err(EventStoreError::SchemaEvolutionError(m));
            }
            let r = apply_migration_path(data, &path);
            proof {
                let p = step_versions(path@);
                assert forall|i: int| 0 <= i < p.len() implies #[trigger] p[i] == (path@[i].0, path@[i].1) by {}
                if path@.len() > 0 {
                    assert(p[0] == (path@[0].0, path@[0].1));
                }
                assert(expected == Some(p));
                if r is Err {
                    let e = r->Err_0;
                    let i = choose|i: int| #[trigger] byte_step_failed(step_versions(path@), i, e);
                    assert(byte_step_failed(p, i, e));
                }
            }
            r
        },
    }
}

} // verus!
