//! Schema evolution: the strategy for events of other schema versions, and
//! the chains of migrations that lead from one version to another.

use std::collections::HashMap;
use vstd::prelude::*;

use crate::assoc::{assoc_map, keys_distinct, lemma_assoc_at, lemma_assoc_contains, lemma_assoc_update};
use crate::metadata::Metadata;
use crate::text::{decimal, decimal_string};
use crate::types::{EventId, EventStoreError, StreamId};

verus! {

/// How events newer than the current schema are treated.
#[derive(Debug, Clone, Copy, PartialEq, Eq, Structural)]
pub enum ForwardCompatibilityMode {
    /// They are refused.
    Strict,
    /// They are kept as they are, as unknown events.
    Preserve,
    /// They are migrated down, where a path exists.
    Downgrade,
}

/// How schema evolution behaves.
#[derive(Debug, Clone, Copy, PartialEq, Eq, Structural)]
pub struct EvolutionStrategy {
    /// Treatment of events newer than the current schema.
    pub forward_compatibility: ForwardCompatibilityMode,
    /// Whether migrated events are validated against the current schema.
    pub validate_after_migration: bool,
    /// The most steps a migration path may take.
    pub max_migration_steps: usize,
    /// Whether migration paths are cached.
    pub enable_migration_cache: bool,
}

impl Default for EvolutionStrategy {
    /// Strict, validating, at most ten steps, cached.
    fn default() -> (s: Self)
        ensures
            s.forward_compatibility == ForwardCompatibilityMode::Strict,
            s.validate_after_migration,
            s.max_migration_steps == 10,
            s.enable_migration_cache,
    {
        EvolutionStrategy {
            forward_compatibility: ForwardCompatibilityMode::Strict,
            validate_after_migration: true,
            max_migration_steps: 10,
            enable_migration_cache: true,
        }
    }
}

/// An event type with a versioned schema.
pub trait VersionedEvent {
    /// The current schema version.
    fn current_version() -> u32;

    /// The name the type is serialized under.
    fn serialized_name() -> String;

    /// Checks an instance against the current schema; by default every
    /// instance passes.
    fn validate_schema(&self) -> (r: Result<(), String>)
        default_ensures
            r is Ok,
    {
        Ok(())
    }
}

/// The migrations registered for one event type: from each version, the
/// version it leads to and the migration `M` that performs it.
pub struct MigrationChain<M> {
    migrations: HashMap<u32, (u32, M)>,
}

/// The version that the migration registered from `v` leads to, if any.
pub open spec fn edge_from(edges: Map<u32, u32>, v: u32) -> Option<u32> {
    if edges.contains_key(v) {
        Some(edges[v])
    } else {
        None
    }
}

/// The path of migrations from `from` to `to` within `fuel` steps: follow
/// the migration from the current version while it is below `to`, as long
/// as the next version does not pass `to`; `None` when some version on the
/// way has no migration, the next one passes `to`, `from` is above `to`, or
/// the steps run out.
pub open spec fn path_within(edges: Map<u32, u32>, from: u32, to: u32, fuel: nat) -> Option<Seq<(u32, u32)>>
    decreases fuel,
{
    if from >= to {
        if from == to {
            Some(Seq::empty())
        } else {
            None
        }
    } else if fuel == 0 {
        None
    } else {
        match edge_from(edges, from) {
            None => None,
            Some(next) => if next > to {
                None
            } else {
                match path_within(edges, next, to, (fuel - 1) as nat) {
                    Some(rest) => Some(seq![(from, next)] + rest),
                    None => None,
                }
            },
        }
    }
}

/// The path of migrations from `from` to `to`. A path that ends visits
/// each version once, so it takes at most one step for each registered
/// migration; following migrations that lead round in a circle never
/// reaches `to`, and gives `None`.
pub open spec fn migration_path(edges: Map<u32, u32>, from: u32, to: u32) -> Option<Seq<(u32, u32)>> {
    path_within(edges, from, to, edges.dom().len() + 1)
}

/// Whether `p` is a chain of registered migrations from `from` to `to`:
/// empty exactly when the versions are equal, starting at `from` and ending
/// at `to`, each step a migration registered from its version, each step
/// starting where the one before ended.
pub open spec fn is_chain(edges: Map<u32, u32>, p: Seq<(u32, u32)>, from: u32, to: u32) -> bool {
    &&& (p.len() == 0 <==> from == to)
    &&& p.len() > 0 ==> p[0].0 == from && p.last().1 == to
    &&& forall|i: int| 0 <= i < p.len() ==> edge_from(edges, (#[trigger] p[i]).0) == Some(p[i].1)
    &&& forall|i: int| 0 <= i < p.len() - 1 ==> (#[trigger] p[i]).1 == p[i + 1].0
}

proof fn lemma_path_within_chains(edges: Map<u32, u32>, from: u32, to: u32, fuel: nat)
    ensures
        path_within(edges, from, to, fuel) matches Some(p) ==> is_chain(edges, p, from, to),
    decreases fuel,
{
    if from < to && fuel > 0 {
        match edge_from(edges, from) {
            None => {},
            Some(next) => {
                if next <= to {
                    lemma_path_within_chains(edges, next, to, (fuel - 1) as nat);
                    match path_within(edges, next, to, (fuel - 1) as nat) {
                        Some(rest) => {
                            let p = seq![(from, next)] + rest;
                            assert(p[0] == (from, next));
                            assert forall|i: int| 0 <= i < p.len() implies edge_from(edges, (#[trigger] p[i]).0) == Some(
                                p[i].1,
                            ) by {
                                if i > 0 {
                                    assert(p[i] == rest[i - 1]);
                                }
                            }
                            assert forall|i: int| 0 <= i < p.len() - 1 implies (#[trigger] p[i]).1 == p[i
                                + 1].0 by {
                                if i > 0 {
                                    assert(p[i] == rest[i - 1]);
                                    assert(p[i + 1] == rest[i]);
                                } else {
                                    assert(p[1] == rest[0]);
                                }
                            }
                            if rest.len() > 0 {
                                assert(p.last() == rest.last());
                            } else {
                                assert(next == to);
                            }
                        },
                        None => {},
                    }
                }
            },
        }
    }
}

/// A migration path found from `from` to `to` is a chain of registered
/// migrations leading from `from` to `to`.
pub proof fn lemma_migration_path_chains(edges: Map<u32, u32>, from: u32, to: u32)
    ensures
        migration_path(edges, from, to) matches Some(p) ==> is_chain(edges, p, from, to),
{
    lemma_path_within_chains(edges, from, to, edges.dom().len() + 1);
}

impl<M> MigrationChain<M> {
    /// The registered migrations' versions: from each version, the version
    /// it leads to.
    pub closed spec fn spec_edges(&self) -> Map<u32, u32> {
        self.migrations@.map_values(|m: (u32, M)| m.0)
    }

    /// A chain without migrations.
    pub fn new() -> (c: Self)
        ensures
            c.spec_edges() == Map::<u32, u32>::empty(),
    {
        let c = MigrationChain { migrations: HashMap::new() };
        proof {
            assert(c.spec_edges() =~= Map::<u32, u32>::empty());
        }
        c
    }

    /// Registers `migration` from `from_version` to `to_version`, replacing
    /// the migration from `from_version`.
    pub fn add_migration(&mut self, from_version: u32, to_version: u32, migration: M)
        ensures
            final(self).spec_edges() == old(self).spec_edges().insert(from_version, to_version),
    {
        broadcast use vstd::std_specs::hash::group_hash_axioms;

        self.migrations.insert(from_version, (to_version, migration));
        proof {
            assert(self.spec_edges() =~= old(self).spec_edges().insert(from_version, to_version));
        }
    }

    /// The migrations from `from` to `to`, as `(from, to)` versions with the
    /// migration, in the order they apply; see [`migration_path`].
    pub fn find_migration_path(&self, from: u32, to: u32) -> (r: Option<Vec<(u32, u32, &M)>>)
        ensures
            match r {
                Some(v) => migration_path(self.spec_edges(), from, to) == Some(
                    v@.map_values(|s: (u32, u32, &M)| (s.0, s.1)),
                ),
                None => migration_path(self.spec_edges(), from, to).is_none(),
            },
    {
        broadcast use vstd::std_specs::hash::group_hash_axioms;

        if from == to {
            let v: Vec<(u32, u32, &M)> = Vec::new();
            proof {
                assert(v@.map_values(|s: (u32, u32, &M)| (s.0, s.1)) =~= Seq::<(u32, u32)>::empty());
            }
            return Some(v);
        }
        if from > to {
            return None;
        }
        let ghost edges = self.spec_edges();
        let ghost total = (edges.dom().len() + 1) as nat;
        proof {
            assert(edges.dom() =~= self.migrations@.dom());
        }
        let mut path: Vec<(u32, u32, &M)> = Vec::new();
        let mut current: u32 = from;
        let mut fuel: u128 = self.migrations.len() as u128 + 1;
        proof {
            assert(path@.map_values(|s: (u32, u32, &M)| (s.0, s.1)) =~= Seq::<(u32, u32)>::empty());
            match path_within(edges, from, to, total) {
                Some(rest) => {
                    assert(Seq::<(u32, u32)>::empty() + rest =~= rest);
                },
                None => {},
            }
        }
        while current < to
            invariant
                from < to,
                current <= to,
                edges == self.spec_edges(),
                fuel <= total,
                total == edges.dom().len() + 1,
                path_within(edges, from, to, total) == match path_within(edges, current, to, fuel as nat) {
                    Some(rest) => Some(path@.map_values(|s: (u32, u32, &M)| (s.0, s.1)) + rest),
                    None => None,
                },
            decreases fuel,
        {
            if fuel == 0 {
                return None;
            }
            match self.migrations.get(&current) {
                Some(entry) => {
                    let next = entry.0;
                    if next > to {
                        return None;
                    }
                    let ghost before = path@.map_values(|s: (u32, u32, &M)| (s.0, s.1));
                    path.push((current, next, &entry.1));
                    proof {
                        assert(edge_from(edges, current) == Some(next));
                        assert(path@.map_values(|s: (u32, u32, &M)| (s.0, s.1)) =~= before.push((current, next)));
                        match path_within(edges, next, to, (fuel - 1) as nat) {
                            Some(rest) => {
                                assert(before + (seq![(current, next)] + rest) =~= before.push((current, next)) + rest);
                            },
                            None => {},
                        }
                    }
                    current = next;
                    fuel = fuel - 1;
                },
                None => {
                    proof {
                        assert(edge_from(edges, current) is None);
                    }
                    return None;
                },
            }
        }
        proof {
            assert(path@.map_values(|s: (u32, u32, &M)| (s.0, s.1)) + Seq::<(u32, u32)>::empty()
                =~= path@.map_values(|s: (u32, u32, &M)| (s.0, s.1)));
        }
        Some(path)
    }
}

/// What to do with an event of version `event_version`, newer than the
/// current version `current_version`.
#[derive(Debug, PartialEq, Eq)]
pub enum ForwardDecision {
    /// Refuse it, with this message.
    Refuse(String),
    /// Keep its data as it is.
    Preserve,
    /// Migrate it down along a path from its version to the current one.
    Downgrade,
}

/// The decision the strategy's forward compatibility mode makes for an
/// event of type `event_type` and version `event_version`, newer than
/// `current_version`.
pub fn forward_decision(
    strategy: &EvolutionStrategy,
    event_type: &str,
    event_version: u32,
    current_version: u32,
) -> (d: ForwardDecision)
    ensures
        match strategy.forward_compatibility {
            ForwardCompatibilityMode::Strict => d matches ForwardDecision::Refuse(m) && m@ == "Event version "@ + decimal(
                event_version as nat,
            ) + " is newer than supported version "@ + decimal(current_version as nat) + " for type: "@
                + event_type@,
            ForwardCompatibilityMode::Preserve => d == ForwardDecision::Preserve,
            ForwardCompatibilityMode::Downgrade => d == ForwardDecision::Downgrade,
        },
{
    match strategy.forward_compatibility {
        ForwardCompatibilityMode::Strict => ForwardDecision::Refuse(
            "Event version ".to_owned().concat(decimal_string(event_version as u64).as_str()).concat(
                " is newer than supported version ",
            ).concat(decimal_string(current_version as u64).as_str()).concat(" for type: ").concat(event_type),
        ),
        ForwardCompatibilityMode::Preserve => ForwardDecision::Preserve,
        ForwardCompatibilityMode::Downgrade => ForwardDecision::Downgrade,
    }
}

/// Migrates serialized events from one schema version to another.
pub trait SchemaEvolution {
    /// The data of an event of type `event_type`, serialized in schema
    /// version `from_version`, migrated to `to_version`.
    fn migrate(&self, data: &[u8], event_type: &str, from_version: u32, to_version: u32) -> Result<
        Vec<u8>,
        EventStoreError,
    >;
}

/// A serialized event with what is needed to read it back: its schema
/// version and type, its payload, and where and when it was stored.
/// Timestamps are in nanoseconds since the Unix epoch.
#[derive(Debug)]
pub struct SerializedEventEnvelope {
    /// The schema version the payload was written in.
    pub schema_version: u32,
    /// The name of the event's type.
    pub event_type: String,
    /// The serialized event.
    pub payload_data: Vec<u8>,
    /// The event's id.
    pub event_id: EventId,
    /// The stream it belongs to.
    pub stream_id: StreamId,
    /// Its metadata.
    pub event_metadata: Metadata,
    /// When the event was created.
    pub created_at: i64,
    /// The stream's version after it.
    pub version: u64,
    /// When it was stored.
    pub stored_at: i64,
}

/// The migration chains of event types, by type name.
pub struct SchemaRegistry<M> {
    chains: Vec<(String, MigrationChain<M>)>,
}

impl<M> SchemaRegistry<M> {
    /// The registered chains' type names and migrations, in order of first
    /// registration.
    pub closed spec fn spec_pairs(&self) -> Seq<(Seq<char>, Map<u32, u32>)> {
        self.chains@.map_values(|c: (String, MigrationChain<M>)| (c.0@, c.1.spec_edges()))
    }

    /// The migrations of each registered type, by type name.
    pub open spec fn spec_chains(&self) -> Map<Seq<char>, Map<u32, u32>> {
        assoc_map(self.spec_pairs())
    }

    #[verifier::type_invariant]
    spec fn names_distinct(&self) -> bool {
        keys_distinct(self.spec_pairs())
    }

    /// A registry without migrations.
    pub fn new() -> (r: Self)
        ensures
            r.spec_chains() == Map::<Seq<char>, Map<u32, u32>>::empty(),
    {
        let r = SchemaRegistry { chains: Vec::new() };
        proof {
            assert(r.spec_pairs().len() == 0);
        }
        r
    }

    fn position(&self, event_type: &str) -> (r: Option<usize>)
        ensures
            match r {
                Some(i) => i < self.spec_pairs().len() && self.spec_pairs()[i as int].0 == event_type@,
                None => forall|i: int| 0 <= i < self.spec_pairs().len() ==> (#[trigger] self.spec_pairs()[i]).0
                    != event_type@,
            },
    {
        let k = event_type.to_owned();
        let mut i: usize = 0;
        while i < self.chains.len()
            invariant
                i <= self.chains@.len(),
                k@ == event_type@,
                forall|j: int| 0 <= j < i ==> (#[trigger] self.spec_pairs()[j]).0 != event_type@,
            decreases self.chains@.len() - i,
        {
            if self.chains[i].0 == k {
                return Some(i);
            }
            i = i + 1;
        }
        None
    }

    /// Registers `migration` from `from_version` to `to_version` for events
    /// of type `event_type`.
    pub fn register_migration(&mut self, event_type: String, from_version: u32, to_version: u32, migration: M)
        ensures
            final(self).spec_chains() == old(self).spec_chains().insert(
                event_type@,
                if old(self).spec_chains().contains_key(event_type@) {
                    old(self).spec_chains()[event_type@]
                } else {
                    Map::empty()
                }.insert(from_version, to_version),
            ),
    {
        proof {
            use_type_invariant(&*self);
        }
        let ghost pairs = self.spec_pairs();
        let found = self.position(event_type.as_str());
        let mut chains: Vec<(String, MigrationChain<M>)> = Vec::new();
        std::mem::swap(&mut chains, &mut self.chains);
        match found {
            Some(i) => {
                proof {
                    lemma_assoc_at(pairs, i as int);
                }
                let (name, mut chain) = chains.remove(i);
                let ghost edges = chain.spec_edges();
                chain.add_migration(from_version, to_version, migration);
                chains.insert(i, (name, chain));
                proof {
                    let np = chains@.map_values(|c: (String, MigrationChain<M>)| (c.0@, c.1.spec_edges()));
                    assert(np =~= pairs.update(i as int, (pairs[i as int].0, edges.insert(from_version, to_version))));
                    lemma_assoc_update(pairs, i as int, edges.insert(from_version, to_version));
                }
            },
            None => {
                proof {
                    lemma_assoc_contains(pairs, event_type@);
                }
                let mut chain = MigrationChain::new();
                chain.add_migration(from_version, to_version, migration);
                let ghost key = event_type@;
                let ghost edges = chain.spec_edges();
                chains.push((event_type, chain));
                proof {
                    let np = chains@.map_values(|c: (String, MigrationChain<M>)| (c.0@, c.1.spec_edges()));
                    assert(np =~= pairs.push((key, edges)));
                    assert(np.drop_last() =~= pairs);
                    assert forall|a: int, b: int| 0 <= a < b < np.len() implies (#[trigger] np[a]).0 != (#[trigger] np[b]).0 by {
                        if b == np.len() - 1 {
                            assert(np[a] == pairs[a]);
                        } else {
                            assert(np[a] == pairs[a] && np[b] == pairs[b]);
                        }
                    }
                    assert(Map::<u32, u32>::empty().insert(from_version, to_version) =~= edges);
                }
            },
        }
        self.chains = chains;
    }

    /// The migration chain of events of type `event_type`, if any migration
    /// was registered for it.
    pub fn get_chain(&self, event_type: &str) -> (c: Option<&MigrationChain<M>>)
        ensures
            match c {
                Some(chain) => self.spec_chains().contains_key(event_type@) && chain.spec_edges()
                    == self.spec_chains()[event_type@],
                None => !self.spec_chains().contains_key(event_type@),
            },
    {
        proof {
            use_type_invariant(self);
        }
        match self.position(event_type) {
            Some(i) => {
                proof {
                    lemma_assoc_at(self.spec_pairs(), i as int);
                }
                Some(&self.chains[i].1)
            },
            None => {
                proof {
                    lemma_assoc_contains(self.spec_pairs(), event_type@);
                }
                None
            },
        }
    }
}

} // verus!
