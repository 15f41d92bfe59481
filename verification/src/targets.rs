//! The normalized representation of target execution environments: a map
//! from engine to the minimum version that generated output must support,
//! with at most one entry — the lowest known floor — per engine.
//!
//! Absence of an engine means that engine is unconstrained for this
//! configuration, not "support the latest version"; an empty map ("any
//! target") means no engine-specific constraint exists at all.

use vstd::prelude::*;

use crate::engine::{
    lemma_engine_index_at, spec_engine_at, spec_engine_index, spec_engine_of, Engine, ENGINE_COUNT,
};
use crate::errors::{ConfigConversionError, QueryResolutionError};
use crate::version::{spec_parse_version, spec_version_lt, Version};

verus! {

/// A map of engine names to minimum supported versions, held as one
/// optional floor per engine of the closed set.
pub struct EngineTargets {
    floors: Vec<Option<Version>>,
}

/// The minimum-merge of one floor into a map: inserted when the engine is
/// absent, replacing the stored version only when the new one is strictly
/// lower.
pub open spec fn spec_merge_floor(
    m: Map<Engine, Version>,
    e: Engine,
    v: Version,
) -> Map<Engine, Version> {
    if m.dom().contains(e) && !spec_version_lt(v, m[e]) {
        m
    } else {
        m.insert(e, v)
    }
}

/// The minimum-merge of one raw `(name, version)` pair: pairs whose name
/// does not resolve or whose version does not parse are dropped silently.
pub open spec fn spec_merge_pair(
    m: Map<Engine, Version>,
    name: Seq<char>,
    ver: Seq<char>,
) -> Map<Engine, Version> {
    match spec_engine_of(name) {
        Some(e) => match spec_parse_version(ver) {
            Some(v) => spec_merge_floor(m, e, v),
            None => m,
        },
        None => m,
    }
}

/// The minimum-merge of a whole list of raw pairs, in order.
pub open spec fn spec_merged(
    m: Map<Engine, Version>,
    pairs: Seq<(Seq<char>, Seq<char>)>,
) -> Map<Engine, Version>
    decreases pairs.len(),
{
    if pairs.len() == 0 {
        m
    } else {
        spec_merge_pair(spec_merged(m, pairs.drop_last()), pairs.last().0, pairs.last().1)
    }
}

/// A list of owned string pairs, seen as a list of character-sequence
/// pairs.
pub open spec fn spec_pairs_view(pairs: Seq<(String, String)>) -> Seq<(Seq<char>, Seq<char>)> {
    pairs.map_values(|p: (String, String)| (p.0@, p.1@))
}

/// A list of explicit entries read as a map, later entries overwriting
/// earlier ones.
pub open spec fn spec_map_of_entries(entries: Seq<(Engine, Version)>) -> Map<Engine, Version>
    decreases entries.len(),
{
    if entries.len() == 0 {
        Map::empty()
    } else {
        spec_map_of_entries(entries.drop_last()).insert(entries.last().0, entries.last().1)
    }
}

/// The strict reading of a config map: every key must name an engine and
/// every value must parse as a version, the first offending entry failing
/// the whole conversion; accepted entries minimum-merge.
pub open spec fn spec_from_config(
    m: Map<Engine, Version>,
    entries: Seq<(Seq<char>, Seq<char>)>,
) -> Result<Map<Engine, Version>, ConfigConversionError>
    decreases entries.len(),
{
    if entries.len() == 0 {
        Ok(m)
    } else {
        match spec_engine_of(entries.first().0) {
            None => Err(ConfigConversionError::UnknownEngine),
            Some(e) => match spec_parse_version(entries.first().1) {
                None => Err(ConfigConversionError::InvalidVersion),
                Some(v) => spec_from_config(spec_merge_floor(m, e, v), entries.drop_first()),
            },
        }
    }
}

/// True when some engine constrained by both maps has its ambient floor
/// strictly below the required floor.
pub open spec fn spec_should_enable(
    ambient: Map<Engine, Version>,
    required: Map<Engine, Version>,
) -> bool {
    exists|e: Engine|
        #[trigger] required.dom().contains(e) && ambient.dom().contains(e) && spec_version_lt(
            ambient[e],
            required[e],
        )
}

impl View for EngineTargets {
    type V = Map<Engine, Version>;

    closed spec fn view(&self) -> Map<Engine, Version> {
        Map::new(
            |e: Engine|
                0 <= spec_engine_index(e) < self.floors@.len() && self.floors@[spec_engine_index(
                    e,
                )] is Some,
            |e: Engine| self.floors@[spec_engine_index(e)]->Some_0,
        )
    }
}

impl EngineTargets {
    #[verifier::type_invariant]
    spec fn wf(self) -> bool {
        self.floors@.len() == ENGINE_COUNT
    }

    /// Every engine of every map of targets lies inside the floor table.
    proof fn lemma_all_indexed(&self)
        ensures
            forall|e: Engine| 0 <= #[trigger] spec_engine_index(e) < ENGINE_COUNT,
    {
        assert forall|e: Engine| 0 <= #[trigger] spec_engine_index(e) < ENGINE_COUNT by {
            lemma_engine_index_at(e);
        }
    }

    /// Builds the map out of a list of explicit entries, later entries
    /// overwriting earlier ones.
    pub fn new(entries: Vec<(Engine, Version)>) -> (r: EngineTargets)
        ensures
            r@ == spec_map_of_entries(entries@),
    {
        let mut targets = EngineTargets::default();
        let n = entries.len();
        for i in 0..n
            invariant
                n == entries@.len(),
                targets@ == spec_map_of_entries(entries@.take(i as int)),
        {
            let (engine, version) = entries[i];
            targets.insert(engine, version);
            proof {
                assert(entries@.take(i + 1).drop_last() =~= entries@.take(i as int));
                assert(entries@.take(i + 1).last() == entries@[i as int]);
            }
        }
        proof {
            assert(entries@.take(n as int) =~= entries@);
        }
        targets
    }

    /// The floor stored for an engine, when one is.
    pub fn get(&self, engine: Engine) -> (r: Option<Version>)
        ensures
            match r {
                Some(v) => self@.dom().contains(engine) && self@[engine] == v,
                None => !self@.dom().contains(engine),
            },
    {
        proof {
            use_type_invariant(self);
            lemma_engine_index_at(engine);
        }
        let i = engine.index();
        self.floors[i]
    }

    /// Sets the floor for an engine, replacing any stored one.
    pub fn insert(&mut self, engine: Engine, version: Version)
        ensures
            final(self)@ == old(self)@.insert(engine, version),
    {
        proof {
            use_type_invariant(&*self);
            lemma_engine_index_at(engine);
        }
        let i = engine.index();
        vstd::std_specs::core::index_set(&mut self.floors, i, Some(version));
        proof {
            assert forall|e: Engine|
                e != engine implies spec_engine_index(e) != spec_engine_index(engine) by {
                lemma_engine_index_at(e);
                lemma_engine_index_at(engine);
            }
            assert(self@ =~= old(self)@.insert(engine, version));
        }
    }

    /// Lowers the floor for an engine: inserts it when absent, and on a
    /// collision keeps the smaller of the stored and the offered version.
    pub fn merge_floor(&mut self, engine: Engine, version: Version)
        ensures
            final(self)@ == spec_merge_floor(old(self)@, engine, version),
    {
        match self.get(engine) {
            Some(stored) => {
                if version.lt(&stored) {
                    self.insert(engine, version);
                    proof {
                        assert(old(self)@[engine] == stored);
                    }
                }
            },
            None => {
                self.insert(engine, version);
            },
        }
    }

    /// True iff the map is empty, i.e. no engine-specific constraint exists
    /// at all.
    pub fn is_any_target(&self) -> (r: bool)
        ensures
            r == (self@ == Map::<Engine, Version>::empty()),
    {
        proof {
            use_type_invariant(self);
            self.lemma_all_indexed();
        }
        for i in 0..ENGINE_COUNT
            invariant
                self.floors@.len() == ENGINE_COUNT,
                forall|j: int| 0 <= j < i ==> self.floors@[j] is None,
        {
            if self.floors[i].is_some() {
                proof {
                    lemma_engine_at_index_contained(self, i as int);
                }
                return false;
            }
        }
        proof {
            assert forall|e: Engine| !self@.dom().contains(e) by {
                lemma_engine_index_at(e);
            }
            assert(self@ =~= Map::<Engine, Version>::empty());
        }
        true
    }

    /// True when, for some engine present in both maps, this map's floor is
    /// strictly below the required floor: the ambient targets then include
    /// an engine version below the feature's native-support floor, and a
    /// compatibility transform is needed. Engines required but absent from
    /// this map are out of scope and impose no constraint.
    pub fn should_enable(&self, engine_targets: &EngineTargets) -> (r: bool)
        ensures
            r == spec_should_enable(self@, engine_targets@),
    {
        proof {
            use_type_invariant(self);
            use_type_invariant(engine_targets);
        }
        for i in 0..ENGINE_COUNT
            invariant
                self.floors@.len() == ENGINE_COUNT,
                engine_targets.floors@.len() == ENGINE_COUNT,
                forall|e: Engine|
                    0 <= spec_engine_index(e) < i ==> !(engine_targets@.dom().contains(e)
                        && self@.dom().contains(e) && spec_version_lt(
                        self@[e],
                        engine_targets@[e],
                    )),
        {
            if let Some(required) = engine_targets.floors[i] {
                if let Some(ambient) = self.floors[i] {
                    if ambient.lt(&required) {
                        proof {
                            let e = spec_engine_at(i as int);
                            lemma_engine_at_index_contained(self, i as int);
                            lemma_engine_at_index_contained(engine_targets, i as int);
                            assert(engine_targets@.dom().contains(e) && self@.dom().contains(e)
                                && spec_version_lt(self@[e], engine_targets@[e]));
                        }
                        return true;
                    }
                }
            }
            proof {
                assert forall|e: Engine| 0 <= spec_engine_index(e) < i + 1 implies !(
                engine_targets@.dom().contains(e) && self@.dom().contains(e) && spec_version_lt(
                    self@[e],
                    engine_targets@[e],
                )) by {
                    lemma_engine_index_at(e);
                    if spec_engine_index(e) == i {
                        assert(spec_engine_at(i as int) == e);
                    }
                }
            }
        }
        proof {
            self.lemma_all_indexed();
        }
        false
    }

    /// The engines this map constrains, with their floors, in the fixed
    /// order of the closed engine set: exactly one entry per constrained
    /// engine and none for any other.
    pub fn entries(&self) -> (r: Vec<(Engine, Version)>)
        ensures
            forall|i: int|
                0 <= i < r@.len() ==> self@.dom().contains(#[trigger] r@[i].0) && self@[r@[i].0]
                    == r@[i].1,
            forall|e: Engine| #[trigger]
                self@.dom().contains(e) ==> exists|i: int| 0 <= i < r@.len() && #[trigger] r@[i].0
                    == e,
            forall|i: int, j: int|
                0 <= i < j < r@.len() ==> spec_engine_index(#[trigger] r@[i].0) < spec_engine_index(
                    #[trigger] r@[j].0,
                ),
    {
        proof {
            use_type_invariant(self);
        }
        let mut r: Vec<(Engine, Version)> = Vec::new();
        for k in 0..ENGINE_COUNT
            invariant
                self.floors@.len() == ENGINE_COUNT,
                forall|i: int|
                    0 <= i < r@.len() ==> self@.dom().contains(#[trigger] r@[i].0) && self@[r@[i].0]
                        == r@[i].1 && spec_engine_index(r@[i].0) < k,
                forall|e: Engine| #[trigger]
                    self@.dom().contains(e) && spec_engine_index(e) < k ==> exists|i: int|
                        0 <= i < r@.len() && #[trigger] r@[i].0 == e,
                forall|i: int, j: int|
                    0 <= i < j < r@.len() ==> spec_engine_index(#[trigger] r@[i].0)
                        < spec_engine_index(#[trigger] r@[j].0),
        {
            let ghost r0 = r@;
            if let Some(version) = self.floors[k] {
                let engine = Engine::at_index(k);
                proof {
                    lemma_engine_at_index_contained(self, k as int);
                }
                r.push((engine, version));
                proof {
                    assert forall|e: Engine| #[trigger]
                        self@.dom().contains(e) && spec_engine_index(e) < k + 1 implies exists|
                        i: int,
                    |
                        0 <= i < r@.len() && #[trigger] r@[i].0 == e by {
                        lemma_engine_index_at(e);
                        if spec_engine_index(e) == k {
                            assert(spec_engine_at(k as int) == e);
                            assert(r@[r@.len() - 1].0 == e);
                        } else {
                            let i = choose|i: int| 0 <= i < r0.len() && #[trigger] r0[i].0 == e;
                            assert(r@[i] == r0[i]);
                            assert(r@[i].0 == e);
                        }
                    }
                }
            } else {
                proof {
                    assert forall|e: Engine| #[trigger]
                        self@.dom().contains(e) && spec_engine_index(e) < k + 1 implies exists|
                        i: int,
                    |
                        0 <= i < r@.len() && #[trigger] r@[i].0 == e by {
                        lemma_engine_index_at(e);
                    }
                }
            }
        }
        proof {
            self.lemma_all_indexed();
        }
        r
    }

    /// An owned copy holding the same floors: compilation units that run
    /// concurrently each take their own copy instead of sharing one
    /// mutable instance.
    pub fn duplicate(&self) -> (r: EngineTargets)
        ensures
            r@ == self@,
    {
        proof {
            use_type_invariant(self);
        }
        let mut floors: Vec<Option<Version>> = Vec::new();
        for k in 0..ENGINE_COUNT
            invariant
                self.floors@.len() == ENGINE_COUNT,
                floors@.len() == k,
                forall|j: int| 0 <= j < k ==> floors@[j] == self.floors@[j],
        {
            floors.push(self.floors[k]);
        }
        let r = EngineTargets { floors };
        proof {
            assert(r.floors@ =~= self.floors@);
            assert(r@ =~= self@);
        }
        r
    }

    /// Parses the raw pairs a resolved query yields, minimum-merging them
    /// into a fresh map. Unknown engine names and unparsable versions drop
    /// their pair silently and never fail the caller: the data source is an
    /// externally maintained feed expected to hold entries unknown here.
    pub fn parse_versions(versions: Vec<(String, String)>) -> (r: EngineTargets)
        ensures
            r@ == spec_merged(Map::empty(), spec_pairs_view(versions@)),
    {
        let mut targets = EngineTargets::default();
        let n = versions.len();
        for i in 0..n
            invariant
                n == versions@.len(),
                targets@ == spec_merged(Map::empty(), spec_pairs_view(versions@).take(i as int)),
        {
            let pair = &versions[i];
            if let Some(engine) = Engine::resolve_alias(pair.0.as_str()) {
                if let Some(version) = Version::from_str(pair.1.as_str()) {
                    targets.merge_floor(engine, version);
                }
            }
            proof {
                let pv = spec_pairs_view(versions@);
                assert(pv.take(i + 1).drop_last() =~= pv.take(i as int));
                assert(pv.take(i + 1).last() == (versions@[i as int].0@, versions@[i as int].1@));
            }
        }
        proof {
            assert(spec_pairs_view(versions@).take(n as int) =~= spec_pairs_view(versions@));
        }
        targets
    }

    /// Strict conversion from a structured config shape: lowercase engine
    /// name keys and version-like values. Unlike the lenient pair merge,
    /// the whole conversion fails on the first unrecognized key or
    /// unparsable version, since the input reflects programmer-authored
    /// configuration where silent degradation would hide mistakes.
    pub fn from_config(entries: &Vec<(String, String)>) -> (r: Result<
        EngineTargets,
        ConfigConversionError,
    >)
        ensures
            match r {
                Ok(t) => spec_from_config(Map::empty(), spec_pairs_view(entries@))
                    == Ok::<Map<Engine, Version>, ConfigConversionError>(t@),
                Err(e) => spec_from_config(Map::empty(), spec_pairs_view(entries@))
                    == Err::<Map<Engine, Version>, ConfigConversionError>(e),
            },
    {
        let mut targets = EngineTargets::default();
        let n = entries.len();
        let ghost pv = spec_pairs_view(entries@);
        proof {
            assert(pv.skip(0) =~= pv);
        }
        for i in 0..n
            invariant
                n == entries@.len(),
                pv == spec_pairs_view(entries@),
                spec_from_config(Map::empty(), pv) == spec_from_config(targets@, pv.skip(i as int)),
        {
            proof {
                assert(pv.skip(i as int).first() == (entries@[i as int].0@, entries@[i as int].1@));
                assert(pv.skip(i as int).drop_first() =~= pv.skip(i + 1));
            }
            let pair = &entries[i];
            let engine = match Engine::from_str(pair.0.as_str()) {
                Ok(engine) => engine,
                Err(_) => {
                    return Err(ConfigConversionError::UnknownEngine);
                },
            };
            let version = match Version::from_str(pair.1.as_str()) {
                Some(version) => version,
                None => {
                    return Err(ConfigConversionError::InvalidVersion);
                },
            };
            targets.merge_floor(engine, version);
        }
        proof {
            assert(pv.skip(n as int) =~= Seq::<(Seq<char>, Seq<char>)>::empty());
        }
        Ok(targets)
    }

    /// Resolves a target query string through the external resolver, then
    /// minimum-merges the raw pairs it yields; a query the resolver cannot
    /// resolve fails with the resolver's message.
    pub fn try_from_query(query: &str) -> (r: Result<EngineTargets, QueryResolutionError>)
        ensures
            r is Ok ==> exists|pairs: Seq<(Seq<char>, Seq<char>)>|
                (r->Ok_0)@ == #[trigger] spec_merged(Map::empty(), pairs),
    {
        match resolve_query(query) {
            Ok(pairs) => {
                let targets = EngineTargets::parse_versions(pairs);
                Ok(targets)
            },
            Err(message) => Err(QueryResolutionError { message }),
        }
    }
}

impl Default for EngineTargets {
    /// The empty map: "any target", no engine-specific constraint.
    fn default() -> (r: EngineTargets)
        ensures
            r@ == Map::<Engine, Version>::empty(),
    {
        let mut floors: Vec<Option<Version>> = Vec::new();
        for i in 0..ENGINE_COUNT
            invariant
                floors@.len() == i,
                forall|j: int| 0 <= j < i ==> floors@[j] is None,
        {
            floors.push(None);
        }
        let targets = EngineTargets { floors };
        proof {
            assert forall|e: Engine| !targets@.dom().contains(e) by {
                lemma_engine_index_at(e);
            }
            assert(targets@ =~= Map::<Engine, Version>::empty());
        }
        targets
    }
}

/// A stored floor at position `i` of the table puts the engine at `i` in
/// the map, bound to that floor.
proof fn lemma_engine_at_index_contained(targets: &EngineTargets, i: int)
    requires
        targets.wf(),
        0 <= i < ENGINE_COUNT,
        targets.floors@[i] is Some,
    ensures
        targets@.dom().contains(spec_engine_at(i)),
        targets@[spec_engine_at(i)] == targets.floors@[i]->Some_0,
{
}

/// Relies on `browserslist::resolve` to turn a target query string into
/// distributions, and on `Distrib::name` and `Distrib::version` to read
/// each one back as a raw (name, version) pair of strings; an unresolvable
/// query comes back as the resolver's error message.
#[verifier::external_body]
fn resolve_query(query: &str) -> (r: Result<Vec<(String, String)>, String>) {
    match browserslist::resolve([query], &browserslist::Opts::default()) {
        Ok(distribs) => Ok(
            distribs.iter().map(
                |d| (d.name().to_string(), d.version().to_string()),
            ).collect(),
        ),
        Err(e) => Err(format!("{e}")),
    }
}

} // verus!
