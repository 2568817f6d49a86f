//! Which definitions the tests reach, at what call distance, and through
//! what unsafety.
//!
//! What the compiler knows of the program (which definitions exist, what
//! each body calls once its generic parameters are fixed) is handed in as
//! plain tables, [`Resolutions`]. The search itself is a breadth-first walk
//! over those tables, one call distance at a time.

use vstd::prelude::*;
use rustc_hash::FxHashMap;
use rustc_hash::FxHashSet;
use crate::fx::map_new;
use crate::fx::map_get;
use crate::fx::map_insert;
use crate::fx::map_remove;
use crate::fx::map_drain;
use crate::fx::map_into_values;
use crate::fx::pairs_of;
use crate::fx::values_of;
use crate::fx::set_new;
use crate::fx::set_insert;
use crate::unsafety::Safety;
use crate::unsafety::UnsafeSource;
use crate::unsafety::Unsafety;
use crate::unsafety::UnsafeTargeting;
use crate::unsafety::max_call_path;
use crate::unsafety::spec_max_call_path;

verus! {

/// A definition of any crate: the crate's number (0 for the crate under
/// test) and the definition's index in it.
#[derive(Copy, Clone, Debug, PartialEq, Eq, Hash, Structural)]
pub struct DefId {
    pub krate: u32,
    pub index: u32,
}

/// A definition of the crate under test.
#[derive(Copy, Clone, Debug, PartialEq, Eq, Hash, Structural)]
pub struct LocalDefId(pub u32);

/// An interned list of generic arguments; 0 is the empty list.
#[derive(Copy, Clone, Debug, PartialEq, Eq, Hash, Structural)]
pub struct GenericArgs(pub u32);

/// A callee key: crate, definition index, generic arguments.
pub type CalleeKey = (u32, u32, u32);

impl DefId {
    /// The definition as one of the crate under test, if it is one.
    pub fn as_local(&self) -> (local: Option<LocalDefId>)
        ensures
            local == (if self.krate == 0 { Some(LocalDefId(self.index)) } else { None }),
    {
        if self.krate == 0 {
            Some(LocalDefId(self.index))
        } else {
            None
        }
    }
}

impl LocalDefId {
    pub open spec fn spec_to_def_id(self) -> DefId {
        DefId { krate: 0, index: self.0 }
    }

    /// The definition as a definition of any crate.
    pub fn to_def_id(&self) -> (def_id: DefId)
        ensures
            def_id == self.spec_to_def_id(),
    {
        DefId { krate: 0, index: self.0 }
    }
}

/// A function with its generic parameters fixed: what a call resolves to.
#[derive(Copy, Clone, Debug, PartialEq, Eq, Hash, Structural)]
pub struct Callee {
    pub def_id: DefId,
    pub generic_args: GenericArgs,
}

impl Callee {
    pub fn new(def_id: DefId, generic_args: GenericArgs) -> (callee: Callee)
        ensures
            callee == (Callee { def_id, generic_args }),
    {
        Callee { def_id, generic_args }
    }

    pub open spec fn spec_key(self) -> CalleeKey {
        (self.def_id.krate, self.def_id.index, self.generic_args.0)
    }

    pub open spec fn spec_from_key(key: CalleeKey) -> Callee {
        Callee { def_id: DefId { krate: key.0, index: key.1 }, generic_args: GenericArgs(key.2) }
    }

    /// The callee as a tuple of integers.
    pub fn key(&self) -> (key: CalleeKey)
        ensures
            key == self.spec_key(),
            Self::spec_from_key(key) == *self,
    {
        (self.def_id.krate, self.def_id.index, self.generic_args.0)
    }

    /// The callee that a tuple of integers stands for.
    pub fn from_key(key: CalleeKey) -> (callee: Callee)
        ensures
            callee == Self::spec_from_key(key),
            callee.spec_key() == key,
    {
        Callee { def_id: DefId { krate: key.0, index: key.1 }, generic_args: GenericArgs(key.2) }
    }

    /// The path under which the tables know the callee, or the empty string
    /// where they do not know it.
    pub fn display_str(&self, resolutions: &Resolutions) -> (path: String)
        ensures
            path@ == (match resolutions.spec_body(*self) {
                Some(body) => body.display@,
                None => Seq::<char>::empty(),
            }),
    {
        match resolutions.body(*self) {
            Some(body) => body.display.clone(),
            None => String::new(),
        }
    }
}

/// A test: the entry point of a search.
#[derive(Copy, Clone, Debug, PartialEq, Eq, Hash, Structural)]
pub struct Test {
    pub def_id: LocalDefId,
    /// An ignored test reaches nothing.
    pub ignore: bool,
}

impl Test {
    /// The body of the test as a callee: the test's definition with no
    /// generic arguments.
    pub open spec fn spec_callee(self) -> Callee {
        Callee { def_id: self.def_id.spec_to_def_id(), generic_args: GenericArgs(0) }
    }

    pub fn callee(&self) -> (callee: Callee)
        ensures
            callee == self.spec_callee(),
    {
        Callee::new(self.def_id.to_def_id(), GenericArgs(0))
    }
}

/// One call in a body, resolved with the generic arguments of that body.
#[derive(Copy, Clone, Debug, PartialEq, Eq, Structural)]
pub struct CallSite {
    pub callee: Callee,
    /// `Unsafe` where the call stands inside an `unsafe` block.
    pub safety: Safety,
    /// The target is only known at run time. Such a call is not followed.
    pub is_virtual: bool,
}

/// What is known of one definition.
#[derive(Copy, Clone, Debug, PartialEq, Eq, Structural)]
pub struct DefInfo {
    pub def_id: DefId,
    /// The definition is a function or a method.
    pub is_fn: bool,
    /// The definition is the entry point of the program.
    pub is_entry_fn: bool,
    pub is_const_fn: bool,
    /// The definition has a body that can be inspected.
    pub has_body: bool,
    /// The definition lies inside a test, is compiled for tests only, or is
    /// marked to be skipped.
    pub excluded: bool,
    /// The unsafety of the item as written, where the item was found in the
    /// syntax tree.
    pub item_unsafety: Option<Unsafety>,
}

/// The calls of one body whose code is available.
pub struct BodyInfo {
    pub instance: Callee,
    pub display: String,
    pub calls: Vec<CallSite>,
}

/// What the compiler resolved: definitions and bodies. Where a definition
/// or a body is listed twice, the first entry counts.
pub struct Resolutions {
    pub defs: Vec<DefInfo>,
    pub bodies: Vec<BodyInfo>,
}

/// The first entry for `def_id` at or after `from`.
pub open spec fn find_def(defs: Seq<DefInfo>, def_id: DefId, from: int) -> Option<DefInfo>
    decreases defs.len() - from,
{
    if from < 0 || from >= defs.len() {
        None
    } else if defs[from].def_id == def_id {
        Some(defs[from])
    } else {
        find_def(defs, def_id, from + 1)
    }
}

/// The first entry for `instance` at or after `from`.
pub open spec fn find_body(bodies: Seq<BodyInfo>, instance: Callee, from: int) -> Option<BodyInfo>
    decreases bodies.len() - from,
{
    if from < 0 || from >= bodies.len() {
        None
    } else if bodies[from].instance == instance {
        Some(bodies[from])
    } else {
        find_body(bodies, instance, from + 1)
    }
}

impl Resolutions {
    pub open spec fn spec_def_info(&self, def_id: DefId) -> Option<DefInfo> {
        find_def(self.defs@, def_id, 0)
    }

    pub open spec fn spec_body(&self, instance: Callee) -> Option<BodyInfo> {
        find_body(self.bodies@, instance, 0)
    }

    /// The calls that the body of `instance` makes; none where its code is
    /// not available.
    pub open spec fn calls(&self, instance: Callee) -> Seq<CallSite> {
        match self.spec_body(instance) {
            Some(body) => body.calls@,
            None => Seq::empty(),
        }
    }

    /// Compile-time functions cannot be mutated and are not searched.
    pub open spec fn is_const(&self, def_id: DefId) -> bool {
        match self.spec_def_info(def_id) {
            Some(info) => info.is_const_fn,
            None => false,
        }
    }

    /// Whether the search goes on through `callee`: it is no compile-time
    /// function and, where it belongs to the crate under test, it is known
    /// and has a body.
    pub open spec fn followed(&self, callee: Callee) -> bool {
        &&& !self.is_const(callee.def_id)
        &&& callee.def_id.krate == 0 ==> (match self.spec_def_info(callee.def_id) {
            Some(info) => info.has_body,
            None => false,
        })
    }

    /// Whether `def_id` can become a target: a function of the crate under
    /// test that is searched, that is none of the tests, not excluded, and
    /// found in the syntax tree.
    pub open spec fn targetable(&self, tests: Seq<Test>, def_id: DefId) -> bool {
        &&& def_id.krate == 0
        &&& !is_test(tests, def_id.index)
        &&& match self.spec_def_info(def_id) {
            Some(info) => !info.is_const_fn && info.has_body && !info.excluded
                && info.item_unsafety is Some,
            None => false,
        }
    }

    /// The unsafety of the item as written.
    pub open spec fn item_unsafety(&self, def_id: DefId) -> Unsafety {
        match self.spec_def_info(def_id) {
            Some(DefInfo { item_unsafety: Some(unsafety), .. }) => unsafety,
            _ => Unsafety::Safe,
        }
    }

    /// What is known of a definition.
    pub fn def_info(&self, def_id: DefId) -> (info: Option<DefInfo>)
        ensures
            info == self.spec_def_info(def_id),
    {
        let mut i: usize = 0;
        while i < self.defs.len()
            invariant
                0 <= i <= self.defs.len(),
                find_def(self.defs@, def_id, 0) == find_def(self.defs@, def_id, i as int),
            decreases self.defs.len() - i,
        {
            if self.defs[i].def_id == def_id {
                return Some(self.defs[i]);
            }
            i += 1;
        }
        None
    }

    /// The body of a callee, where its code is available.
    pub fn body(&self, instance: Callee) -> (body: Option<&BodyInfo>)
        ensures
            body == (match self.spec_body(instance) {
                Some(b) => Some(&b),
                None => None,
            }),
    {
        let mut i: usize = 0;
        while i < self.bodies.len()
            invariant
                0 <= i <= self.bodies.len(),
                find_body(self.bodies@, instance, 0) == find_body(self.bodies@, instance, i as int),
            decreases self.bodies.len() - i,
        {
            if self.bodies[i].instance == instance {
                return Some(&self.bodies[i]);
            }
            i += 1;
        }
        None
    }
}


/// How a test reaches a target: the shortest call distance, and the most
/// severe unsafe source on any call path from the test.
#[derive(Copy, Clone, Debug, PartialEq, Eq, Structural)]
pub struct EntryPointAssociation {
    pub distance: usize,
    pub unsafe_call_path: Option<UnsafeSource>,
}

/// A function of the crate under test that the tests reach.
pub struct Target {
    pub def_id: LocalDefId,
    /// The most severe unsafety of the item itself and of the call paths
    /// that reach it.
    pub unsafety: Unsafety,
    /// The tests that reach the target, by the index of their definition.
    pub reachable_from: FxHashMap<u32, EntryPointAssociation>,
    /// The shortest call distance from any test.
    pub distance: usize,
}

impl Target {
    /// Whether the call paths from `entry_point` make a mutation of this
    /// target count as unsafe under the policy.
    pub fn is_tainted(&self, entry_point: &Test, unsafe_targeting: UnsafeTargeting) -> (r: bool)
        ensures
            r == (self.reachable_from@.contains_key(entry_point.def_id.0)
                && Unsafety::spec_tainted_by(
                self.reachable_from@[entry_point.def_id.0].unsafe_call_path,
            ).spec_is_unsafe(unsafe_targeting)),
    {
        match map_get(&self.reachable_from, entry_point.def_id.0) {
            Some(entry_point) => Unsafety::tainted_by(entry_point.unsafe_call_path).is_unsafe(
                unsafe_targeting,
            ),
            None => false,
        }
    }
}

/// One arrival of the search: from test `test`, at definition `def` of the
/// crate under test, after `distance` calls beyond the test's own, over a
/// call path that is `tainted` where it crosses an `unsafe` block.
pub ghost struct Visit {
    pub def: u32,
    pub test: u32,
    pub distance: nat,
    pub tainted: bool,
}

/// The unsafe source that is recorded for a call path.
pub open spec fn call_path_of(tainted: bool) -> Option<UnsafeSource> {
    if tainted {
        Some(UnsafeSource::Unsafe)
    } else {
        None
    }
}

pub open spec fn visited(log: Seq<Visit>, def: u32) -> bool {
    exists|i: int| 0 <= i < log.len() && (#[trigger] log[i]).def == def
}

pub open spec fn visited_tainted(log: Seq<Visit>, def: u32) -> bool {
    exists|i: int| 0 <= i < log.len() && (#[trigger] log[i]).def == def && log[i].tainted
}

pub open spec fn visited_from(log: Seq<Visit>, def: u32, test: u32) -> bool {
    exists|i: int| 0 <= i < log.len() && (#[trigger] log[i]).def == def && log[i].test == test
}

pub open spec fn visited_tainted_from(log: Seq<Visit>, def: u32, test: u32) -> bool {
    exists|i: int|
        0 <= i < log.len() && (#[trigger] log[i]).def == def && log[i].test == test
            && log[i].tainted
}

/// `d` is the shortest distance of any visit of `def`.
pub open spec fn least_distance(log: Seq<Visit>, def: u32, d: nat) -> bool {
    &&& exists|i: int| 0 <= i < log.len() && (#[trigger] log[i]).def == def && log[i].distance == d
    &&& forall|i: int| 0 <= i < log.len() && (#[trigger] log[i]).def == def ==> d <= log[i].distance
}

/// `d` is the shortest distance of any visit of `def` from `test`.
pub open spec fn least_distance_from(log: Seq<Visit>, def: u32, test: u32, d: nat) -> bool {
    &&& exists|i: int|
        0 <= i < log.len() && (#[trigger] log[i]).def == def && log[i].test == test
            && log[i].distance == d
    &&& forall|i: int|
        0 <= i < log.len() && (#[trigger] log[i]).def == def && log[i].test == test ==> d
            <= log[i].distance
}

impl Target {
    /// The target records exactly what the visits of `def` in `log` amount
    /// to, for an item whose own unsafety is `base`.
    pub open spec fn summarizes(&self, def: u32, base: Unsafety, log: Seq<Visit>) -> bool {
        &&& self.def_id == LocalDefId(def)
        &&& least_distance(log, def, self.distance as nat)
        &&& self.unsafety == Unsafety::spec_tainted_by(
            call_path_of(visited_tainted(log, def)),
        ).spec_most_severe(base)
        &&& forall|test: u32| #[trigger]
            self.reachable_from@.contains_key(test) <==> visited_from(log, def, test)
        &&& forall|test: u32| #[trigger]
            self.reachable_from@.contains_key(test) ==> {
                &&& least_distance_from(log, def, test, self.reachable_from@[test].distance as nat)
                &&& self.reachable_from@[test].unsafe_call_path == call_path_of(
                    visited_tainted_from(log, def, test),
                )
            }
    }
}

/// The targets, by the index of their definition, record exactly what the
/// visits in `log` amount to.
pub open spec fn targets_summarize(
    targets: Map<u32, Target>,
    resolutions: Resolutions,
    log: Seq<Visit>,
) -> bool {
    &&& forall|def: u32| #[trigger] targets.contains_key(def) <==> visited(log, def)
    &&& forall|def: u32| #[trigger]
        targets.contains_key(def) ==> targets[def].summarizes(
            def,
            resolutions.item_unsafety(DefId { krate: 0, index: def }),
            log,
        )
}

proof fn lemma_push_visit(log: Seq<Visit>, visit: Visit)
    ensures
        forall|def: u32| #[trigger]
            visited(log.push(visit), def) <==> visited(log, def) || visit.def == def,
        forall|def: u32| #[trigger]
            visited_tainted(log.push(visit), def) <==> visited_tainted(log, def) || (visit.def
                == def && visit.tainted),
        forall|def: u32, test: u32| #[trigger]
            visited_from(log.push(visit), def, test) <==> visited_from(log, def, test) || (
            visit.def == def && visit.test == test),
        forall|def: u32, test: u32| #[trigger]
            visited_tainted_from(log.push(visit), def, test) <==> visited_tainted_from(
                log,
                def,
                test,
            ) || (visit.def == def && visit.test == test && visit.tainted),
        forall|def: u32, d: nat|
            #[trigger] least_distance(log, def, d) ==> least_distance(
                log.push(visit),
                def,
                if visit.def == def && visit.distance < d {
                    visit.distance
                } else {
                    d
                },
            ),
        forall|def: u32, test: u32, d: nat|
            #[trigger] least_distance_from(log, def, test, d) ==> least_distance_from(
                log.push(visit),
                def,
                test,
                if visit.def == def && visit.test == test && visit.distance < d {
                    visit.distance
                } else {
                    d
                },
            ),
        !visited(log, visit.def) ==> least_distance(log.push(visit), visit.def, visit.distance),
        !visited_from(log, visit.def, visit.test) ==> least_distance_from(
            log.push(visit),
            visit.def,
            visit.test,
            visit.distance,
        ),
{
    let after = log.push(visit);
    let last = log.len() as int;
    assert(after[last] == visit);
    assert forall|i: int| 0 <= i < log.len() implies #[trigger] after[i] == log[i] by {}
    assert forall|def: u32| #[trigger] visited(after, def) <==> visited(log, def) || visit.def
        == def by {
        if visited(log, def) {
            let i = choose|i: int| 0 <= i < log.len() && (#[trigger] log[i]).def == def;
            assert(after[i].def == def);
        }
        if visit.def == def {
            assert(after[last].def == def);
        }
    }
    assert forall|def: u32| #[trigger]
        visited_tainted(after, def) <==> visited_tainted(log, def) || (visit.def == def
            && visit.tainted) by {
        if visited_tainted(log, def) {
            let i = choose|i: int|
                0 <= i < log.len() && (#[trigger] log[i]).def == def && log[i].tainted;
            assert(after[i].def == def && after[i].tainted);
        }
        if visit.def == def && visit.tainted {
            assert(after[last].def == def && after[last].tainted);
        }
    }
    assert forall|def: u32, test: u32| #[trigger]
        visited_from(after, def, test) <==> visited_from(log, def, test) || (visit.def == def
            && visit.test == test) by {
        if visited_from(log, def, test) {
            let i = choose|i: int|
                0 <= i < log.len() && (#[trigger] log[i]).def == def && log[i].test == test;
            assert(after[i].def == def && after[i].test == test);
        }
        if visit.def == def && visit.test == test {
            assert(after[last].def == def && after[last].test == test);
        }
    }
    assert forall|def: u32, test: u32| #[trigger]
        visited_tainted_from(after, def, test) <==> visited_tainted_from(log, def, test) || (
        visit.def == def && visit.test == test && visit.tainted) by {
        if visited_tainted_from(log, def, test) {
            let i = choose|i: int|
                0 <= i < log.len() && (#[trigger] log[i]).def == def && log[i].test == test
                    && log[i].tainted;
            assert(after[i].def == def && after[i].test == test && after[i].tainted);
        }
        if visit.def == def && visit.test == test && visit.tainted {
            assert(after[last].def == def && after[last].test == test && after[last].tainted);
        }
    }
    assert forall|def: u32, d: nat| #[trigger] least_distance(log, def, d) implies least_distance(
        after,
        def,
        if visit.def == def && visit.distance < d {
            visit.distance
        } else {
            d
        },
    ) by {
        let i = choose|i: int|
            0 <= i < log.len() && (#[trigger] log[i]).def == def && log[i].distance == d;
        if visit.def == def && visit.distance < d {
            assert(after[last].def == def && after[last].distance == visit.distance);
        } else {
            assert(after[i].def == def && after[i].distance == d);
        }
    }
    assert forall|def: u32, test: u32, d: nat|
        #[trigger] least_distance_from(log, def, test, d) implies least_distance_from(
        after,
        def,
        test,
        if visit.def == def && visit.test == test && visit.distance < d {
            visit.distance
        } else {
            d
        },
    ) by {
        let i = choose|i: int|
            0 <= i < log.len() && (#[trigger] log[i]).def == def && log[i].test == test
                && log[i].distance == d;
        if visit.def == def && visit.test == test && visit.distance < d {
            assert(after[last].def == def && after[last].test == test && after[last].distance
                == visit.distance);
        } else {
            assert(after[i].def == def && after[i].test == test && after[i].distance == d);
        }
    }
    if !visited(log, visit.def) {
        assert(after[last].def == visit.def && after[last].distance == visit.distance);
    }
    if !visited_from(log, visit.def, visit.test) {
        assert(after[last].def == visit.def && after[last].test == visit.test
            && after[last].distance == visit.distance);
    }
}


/// Records that `test` reaches `def` at `distance`: creates the target if
/// it is new, and keeps the shortest distances and the most severe
/// unsafety seen so far.
fn record_visit(
    targets: &mut FxHashMap<u32, Target>,
    resolutions: &Resolutions,
    def: LocalDefId,
    item_unsafety: Unsafety,
    test: u32,
    tainted: bool,
    distance: usize,
    Ghost(log): Ghost<Seq<Visit>>,
)
    requires
        targets_summarize(old(targets)@, *resolutions, log),
        item_unsafety == resolutions.item_unsafety(def.spec_to_def_id()),
    ensures
        targets_summarize(
            final(targets)@,
            *resolutions,
            log.push(Visit { def: def.0, test, distance: distance as nat, tainted }),
        ),
{
    let ghost visit = Visit { def: def.0, test, distance: distance as nat, tainted };
    let ghost before = targets@;
    let call_path = if tainted {
        Some(UnsafeSource::Unsafe)
    } else {
        None
    };
    let existing = map_remove(targets, def.0);
    let mut target = match existing {
        Some(target) => target,
        None => Target { def_id: def, unsafety: item_unsafety, reachable_from: map_new(), distance },
    };
    let ghost found = target;
    target.unsafety = Unsafety::tainted_by(call_path).most_severe(target.unsafety);
    if distance < target.distance {
        target.distance = distance;
    }
    let association = match map_get(&target.reachable_from, test) {
        Some(association) => EntryPointAssociation {
            distance: if distance < association.distance {
                distance
            } else {
                association.distance
            },
            unsafe_call_path: max_call_path(call_path, association.unsafe_call_path),
        },
        None => EntryPointAssociation { distance, unsafe_call_path: call_path },
    };
    map_insert(&mut target.reachable_from, test, association);
    proof {
        lemma_push_visit(log, visit);
        let after = log.push(visit);
        let base = resolutions.item_unsafety(DefId { krate: 0, index: def.0 });
        assert(def.spec_to_def_id() == DefId { krate: 0, index: def.0 });
        if before.contains_key(def.0) {
            assert(found == before[def.0]);
            assert(found.summarizes(def.0, base, log));
        } else {
            assert(!visited(log, def.0));
            assert(!visited_tainted(log, def.0));
            assert forall|t: u32| !visited_from(log, def.0, t) by {
                if visited_from(log, def.0, t) {
                    let i = choose|i: int|
                        0 <= i < log.len() && (#[trigger] log[i]).def == def.0 && log[i].test
                            == t;
                    assert(visited(log, def.0));
                }
            }
        }
        assert(least_distance(after, def.0, target.distance as nat));
        assert forall|t: u32| #[trigger]
            target.reachable_from@.contains_key(t) <==> visited_from(after, def.0, t) by {
            assert(found.reachable_from@.contains_key(t) <==> visited_from(log, def.0, t));
        }
        assert forall|t: u32| #[trigger] target.reachable_from@.contains_key(t) implies {
            &&& least_distance_from(after, def.0, t, target.reachable_from@[t].distance as nat)
            &&& target.reachable_from@[t].unsafe_call_path == call_path_of(
                visited_tainted_from(after, def.0, t),
            )
        } by {
            if t == test {
                if found.reachable_from@.contains_key(test) {
                    assert(least_distance_from(
                        log,
                        def.0,
                        test,
                        found.reachable_from@[test].distance as nat,
                    ));
                } else {
                    assert(!visited_from(log, def.0, test));
                    assert(!visited_tainted_from(log, def.0, test)) by {
                        if visited_tainted_from(log, def.0, test) {
                            let i = choose|i: int|
                                0 <= i < log.len() && (#[trigger] log[i]).def == def.0
                                    && log[i].test == test && log[i].tainted;
                            assert(visited_from(log, def.0, test));
                        }
                    }
                }
            } else {
                assert(found.reachable_from@.contains_key(t));
                assert(least_distance_from(
                    log,
                    def.0,
                    t,
                    found.reachable_from@[t].distance as nat,
                ));
            }
        }
        assert(target.summarizes(def.0, base, after));
    }
    map_insert(targets, def.0, target);
    proof {
        let after = log.push(visit);
        assert forall|other: u32| #[trigger] targets@.contains_key(other) implies targets@[other].summarizes(

            other,
            resolutions.item_unsafety(DefId { krate: 0, index: other }),
            after,
        ) by {
            if other != def.0 {
                let kept = before[other];
                let base = resolutions.item_unsafety(DefId { krate: 0, index: other });
                assert(targets@[other] == kept);
                assert(kept.summarizes(other, base, log));
                assert(least_distance(log, other, kept.distance as nat));
                assert forall|t: u32| #[trigger] kept.reachable_from@.contains_key(t) implies {
                    &&& least_distance_from(after, other, t, kept.reachable_from@[t].distance as nat)
                    &&& kept.reachable_from@[t].unsafe_call_path == call_path_of(
                        visited_tainted_from(after, other, t),
                    )
                } by {
                    assert(least_distance_from(
                        log,
                        other,
                        t,
                        kept.reachable_from@[t].distance as nat,
                    ));
                }
            }
        }
    }
}


/// A frontier key: a callee and the test from which it was reached.
pub type FrontierKey = (CalleeKey, u32);

/// The body of `caller` makes, as its call number `k`, a call to `callee`
/// whose target is known.
pub open spec fn call_at(resolutions: Resolutions, caller: Callee, k: int, callee: Callee) -> bool {
    &&& 0 <= k < resolutions.calls(caller).len()
    &&& !resolutions.calls(caller)[k].is_virtual
    &&& resolutions.calls(caller)[k].callee == callee
}

/// The body of the test with definition index `test`.
pub open spec fn test_callee(test: u32) -> Callee {
    Callee { def_id: DefId { krate: 0, index: test }, generic_args: GenericArgs(0) }
}

/// A test with definition index `test` is among `tests` and is not ignored.
pub open spec fn runs(tests: Seq<Test>, test: u32) -> bool {
    exists|t: int| 0 <= t < tests.len() && (#[trigger] tests[t]).def_id.0 == test && !tests[t].ignore
}

/// There is a chain of calls from the test `test` to `callee` with
/// `distance` calls after the test's own, every caller on it one through
/// which the search goes on, and `tainted` says whether one of the calls
/// after the test's own stands in an `unsafe` block.
pub open spec fn reached(
    resolutions: Resolutions,
    tests: Seq<Test>,
    test: u32,
    callee: Callee,
    distance: nat,
    tainted: bool,
) -> bool
    decreases distance,
{
    if distance == 0 {
        &&& !tainted
        &&& runs(tests, test)
        &&& exists|k: int| call_at(resolutions, test_callee(test), k, callee)
    } else {
        exists|caller: Callee, k: int, before: bool|
            {
                &&& reached(resolutions, tests, test, caller, (distance - 1) as nat, before)
                &&& resolutions.followed(caller)
                &&& #[trigger] link(resolutions, caller, k, callee, before, tainted)
            }
    }
}

/// Call number `k` of `caller` goes to `callee` and turns a call path that
/// was tainted or not (`before`) into one that is tainted or not (`after`).
pub open spec fn link(
    resolutions: Resolutions,
    caller: Callee,
    k: int,
    callee: Callee,
    before: bool,
    after: bool,
) -> bool {
    &&& call_at(resolutions, caller, k, callee)
    &&& after == (before || resolutions.calls(caller)[k].safety == Safety::Unsafe)
}

/// `frontier` holds exactly the pairs of callee and test that are `distance`
/// calls apart, each with whether some such call path is tainted.
pub open spec fn frontier_at(
    frontier: Map<FrontierKey, bool>,
    resolutions: Resolutions,
    tests: Seq<Test>,
    distance: nat,
) -> bool {
    forall|key: FrontierKey|
        {
            &&& #[trigger] frontier.contains_key(key) <==> (reached(
                resolutions,
                tests,
                key.1,
                Callee::spec_from_key(key.0),
                distance,
                true,
            ) || reached(resolutions, tests, key.1, Callee::spec_from_key(key.0), distance, false))
            &&& frontier.contains_key(key) ==> (frontier[key] <==> reached(
                resolutions,
                tests,
                key.1,
                Callee::spec_from_key(key.0),
                distance,
                true,
            ))
        }
}

/// The calls that the tests themselves make.
pub open spec fn root_edge(resolutions: Resolutions, tests: Seq<Test>, edge: (u32, CalleeKey)) -> bool {
    &&& runs(tests, edge.0)
    &&& exists|k: int| call_at(resolutions, test_callee(edge.0), k, Callee::spec_from_key(edge.1))
}

/// The calls made at `distance` calls from a test, by the callers through
/// which the search goes on.
pub open spec fn nested_edge(
    resolutions: Resolutions,
    tests: Seq<Test>,
    distance: nat,
    edge: (CalleeKey, CalleeKey),
) -> bool {
    &&& exists|test: u32, tainted: bool| #[trigger]
        reached(resolutions, tests, test, Callee::spec_from_key(edge.0), distance, tainted)
    &&& resolutions.followed(Callee::spec_from_key(edge.0))
    &&& exists|k: int|
        call_at(resolutions, Callee::spec_from_key(edge.0), k, Callee::spec_from_key(edge.1))
}

spec fn earlier(j: int, k: int, i: int, n: int) -> bool {
    j < i || (j == i && k < n)
}

spec fn seeds(resolutions: Resolutions, tests: Seq<Test>, t: int, k: int, key: FrontierKey) -> bool {
    &&& 0 <= t < tests.len()
    &&& !tests[t].ignore
    &&& tests[t].def_id.0 == key.1
    &&& call_at(resolutions, test_callee(key.1), k, Callee::spec_from_key(key.0))
}

proof fn lemma_key_round_trip()
    ensures
        forall|key: CalleeKey| #[trigger] Callee::spec_from_key(key).spec_key() == key,
        forall|callee: Callee| #[trigger] Callee::spec_from_key(callee.spec_key()) == callee,
{
}

/// The calls of the tests: the edges from the tests, and the frontier at
/// distance 0.
fn seed_call_paths(resolutions: &Resolutions, tests: &[Test]) -> (out: (
    FxHashSet<(u32, CalleeKey)>,
    FxHashMap<FrontierKey, bool>,
))
    ensures
        frontier_at(out.1@, *resolutions, tests@, 0),
        forall|edge: (u32, CalleeKey)| #[trigger]
            out.0@.contains(edge) <==> root_edge(*resolutions, tests@, edge),
{
    let mut root_calls: FxHashSet<(u32, CalleeKey)> = set_new();
    let mut frontier: FxHashMap<FrontierKey, bool> = map_new();
    let mut t: usize = 0;
    proof {
        lemma_key_round_trip();
    }
    while t < tests.len()
        invariant
            0 <= t <= tests.len(),
            forall|key: FrontierKey| #[trigger]
                frontier@.contains_key(key) <==> exists|j: int, k: int|
                    j < t && #[trigger] seeds(*resolutions, tests@, j, k, key),
            forall|key: FrontierKey| #[trigger] frontier@.contains_key(key) ==> !frontier@[key],
            forall|edge: (u32, CalleeKey)| #[trigger]
                root_calls@.contains(edge) <==> exists|j: int, k: int|
                    j < t && #[trigger] seeds(*resolutions, tests@, j, k, (edge.1, edge.0)),
        decreases tests.len() - t,
    {
        let test = tests[t];
        let ghost caller = test_callee(test.def_id.0);
        let ghost start = frontier@;
        let ghost start_edges = root_calls@;
        if !test.ignore {
            match resolutions.body(test.callee()) {
                Some(body) => {
                    let mut k: usize = 0;
                    assert(body.calls@ == resolutions.calls(caller));
                    while k < body.calls.len()
                        invariant
                            0 <= k <= body.calls.len(),
                            0 <= t < tests.len(),
                            test == tests@[t as int],
                            !test.ignore,
                            caller == test_callee(test.def_id.0),
                            body.calls@ == resolutions.calls(caller),
                            forall|key: CalleeKey| #[trigger]
                                Callee::spec_from_key(key).spec_key() == key,
                            forall|key: FrontierKey| #[trigger]
                                frontier@.contains_key(key) <==> exists|j: int, n: int|
                                    earlier(j, n, t as int, k as int) && #[trigger] seeds(
                                        *resolutions,
                                        tests@,
                                        j,
                                        n,
                                        key,
                                    ),
                            forall|key: FrontierKey| #[trigger]
                                frontier@.contains_key(key) ==> !frontier@[key],
                            forall|edge: (u32, CalleeKey)| #[trigger]
                                root_calls@.contains(edge) <==> exists|j: int, n: int|
                                    earlier(j, n, t as int, k as int) && #[trigger] seeds(
                                        *resolutions,
                                        tests@,
                                        j,
                                        n,
                                        (edge.1, edge.0),
                                    ),
                        decreases body.calls.len() - k,
                    {
                        let call = body.calls[k];
                        let ghost was = frontier@;
                        let ghost was_edges = root_calls@;
                        if !call.is_virtual {
                            let key = (call.callee.key(), test.def_id.0);
                            set_insert(&mut root_calls, (test.def_id.0, call.callee.key()));
                            map_insert(&mut frontier, key, false);
                            assert(seeds(*resolutions, tests@, t as int, k as int, key));
                        }
                        assert forall|key: FrontierKey| #[trigger]
                            frontier@.contains_key(key) <==> exists|j: int, n: int|
                                earlier(j, n, t as int, k + 1) && #[trigger] seeds(
                                    *resolutions,
                                    tests@,
                                    j,
                                    n,
                                    key,
                                ) by {
                            if frontier@.contains_key(key) {
                                if was.contains_key(key) {
                                    let (j, n) = choose|j: int, n: int|
                                        earlier(j, n, t as int, k as int) && #[trigger] seeds(
                                            *resolutions,
                                            tests@,
                                            j,
                                            n,
                                            key,
                                        );
                                    assert(earlier(j, n, t as int, k + 1));
                                } else {
                                    assert(earlier(t as int, k as int, t as int, k + 1));
                                    assert(seeds(*resolutions, tests@, t as int, k as int, key));
                                }
                            }
                            if exists|j: int, n: int|
                                earlier(j, n, t as int, k + 1) && #[trigger] seeds(
                                    *resolutions,
                                    tests@,
                                    j,
                                    n,
                                    key,
                                ) {
                                let (j, n) = choose|j: int, n: int|
                                    earlier(j, n, t as int, k + 1) && #[trigger] seeds(
                                        *resolutions,
                                        tests@,
                                        j,
                                        n,
                                        key,
                                    );
                                if earlier(j, n, t as int, k as int) {
                                    assert(was.contains_key(key));
                                } else {
                                    assert(j == t && n == k);
                                    assert(key.0 == call.callee.spec_key());
                                }
                            }
                        }
                        assert forall|edge: (u32, CalleeKey)| #[trigger]
                            root_calls@.contains(edge) <==> exists|j: int, n: int|
                                earlier(j, n, t as int, k + 1) && #[trigger] seeds(
                                    *resolutions,
                                    tests@,
                                    j,
                                    n,
                                    (edge.1, edge.0),
                                ) by {
                            let key = (edge.1, edge.0);
                            if root_calls@.contains(edge) {
                                if was_edges.contains(edge) {
                                    let (j, n) = choose|j: int, n: int|
                                        earlier(j, n, t as int, k as int) && #[trigger] seeds(
                                            *resolutions,
                                            tests@,
                                            j,
                                            n,
                                            key,
                                        );
                                    assert(earlier(j, n, t as int, k + 1));
                                } else {
                                    assert(earlier(t as int, k as int, t as int, k + 1));
                                    assert(seeds(*resolutions, tests@, t as int, k as int, key));
                                }
                            }
                            if exists|j: int, n: int|
                                earlier(j, n, t as int, k + 1) && #[trigger] seeds(
                                    *resolutions,
                                    tests@,
                                    j,
                                    n,
                                    key,
                                ) {
                                let (j, n) = choose|j: int, n: int|
                                    earlier(j, n, t as int, k + 1) && #[trigger] seeds(
                                        *resolutions,
                                        tests@,
                                        j,
                                        n,
                                        key,
                                    );
                                if earlier(j, n, t as int, k as int) {
                                    assert(was_edges.contains(edge));
                                } else {
                                    assert(j == t && n == k);
                                    assert(key.0 == call.callee.spec_key());
                                }
                            }
                        }
                        k += 1;
                    }
                    assert(resolutions.calls(caller).len() == k);
                },
                None => {
                    assert(resolutions.calls(caller).len() == 0);
                },
            }
        }
        proof {
            // Every call of test `t` has been taken, or it has none that counts.
            assert forall|key: FrontierKey| #[trigger]
                frontier@.contains_key(key) <==> exists|j: int, k: int|
                    j < t + 1 && #[trigger] seeds(*resolutions, tests@, j, k, key) by {
                lemma_seed_step(*resolutions, tests@, t as int, key, test.ignore);
            }
            assert forall|edge: (u32, CalleeKey)| #[trigger]
                root_calls@.contains(edge) <==> exists|j: int, k: int|
                    j < t + 1 && #[trigger] seeds(*resolutions, tests@, j, k, (edge.1, edge.0)) by {
                lemma_seed_step(*resolutions, tests@, t as int, (edge.1, edge.0), test.ignore);
            }
        }
        t += 1;
    }
    proof {
        assert forall|key: FrontierKey| #[trigger]
            frontier@.contains_key(key) <==> reached(
                *resolutions,
                tests@,
                key.1,
                Callee::spec_from_key(key.0),
                0,
                false,
            ) by {
            lemma_seeds_reach(*resolutions, tests@, key);
        }
        assert forall|edge: (u32, CalleeKey)| #[trigger]
            root_calls@.contains(edge) <==> root_edge(*resolutions, tests@, edge) by {
            lemma_seeds_reach(*resolutions, tests@, (edge.1, edge.0));
        }
    }
    (root_calls, frontier)
}

/// Once test `t` is done, "a call of a test before `t`, or one of `t`
/// itself" is "a call of a test before `t + 1`".
proof fn lemma_seed_step(resolutions: Resolutions, tests: Seq<Test>, t: int, key: FrontierKey, ignored: bool)
    requires
        0 <= t < tests.len(),
        ignored == tests[t].ignore,
    ensures
        (exists|j: int, k: int| j < t + 1 && #[trigger] seeds(resolutions, tests, j, k, key)) <==> (
        exists|j: int, k: int|
            earlier(j, k, t, if ignored { 0 } else { resolutions.calls(test_callee(tests[t].def_id.0)).len() as int })
                && #[trigger] seeds(resolutions, tests, j, k, key)),
{
    let n = if ignored { 0 } else { resolutions.calls(test_callee(tests[t].def_id.0)).len() as int };
    if exists|j: int, k: int| j < t + 1 && #[trigger] seeds(resolutions, tests, j, k, key) {
        let (j, k) = choose|j: int, k: int| j < t + 1 && #[trigger] seeds(resolutions, tests, j, k, key);
        assert(earlier(j, k, t, n));
    }
    if exists|j: int, k: int| earlier(j, k, t, n) && #[trigger] seeds(resolutions, tests, j, k, key) {
        let (j, k) = choose|j: int, k: int|
            earlier(j, k, t, n) && #[trigger] seeds(resolutions, tests, j, k, key);
        assert(j < t + 1);
    }
}

proof fn lemma_seeds_reach(resolutions: Resolutions, tests: Seq<Test>, key: FrontierKey)
    ensures
        (exists|j: int, k: int| j < tests.len() && #[trigger] seeds(resolutions, tests, j, k, key))
            <==> reached(resolutions, tests, key.1, Callee::spec_from_key(key.0), 0, false),
        reached(resolutions, tests, key.1, Callee::spec_from_key(key.0), 0, false) <==> root_edge(
            resolutions,
            tests,
            (key.1, key.0),
        ),
        !reached(resolutions, tests, key.1, Callee::spec_from_key(key.0), 0, true),
{
    let callee = Callee::spec_from_key(key.0);
    if exists|j: int, k: int| j < tests.len() && #[trigger] seeds(resolutions, tests, j, k, key) {
        let (j, k) = choose|j: int, k: int|
            j < tests.len() && #[trigger] seeds(resolutions, tests, j, k, key);
        assert(tests[j].def_id.0 == key.1);
        assert(runs(tests, key.1));
        assert(call_at(resolutions, test_callee(key.1), k, callee));
    }
    if reached(resolutions, tests, key.1, callee, 0, false) {
        let j = choose|t: int| 0 <= t < tests.len() && (#[trigger] tests[t]).def_id.0 == key.1 && !tests[t].ignore;
        let k = choose|k: int| call_at(resolutions, test_callee(key.1), k, callee);
        assert(seeds(resolutions, tests, j, k, key));
        assert(runs(tests, key.1));
        assert(call_at(resolutions, test_callee(key.1), k, Callee::spec_from_key(key.0)));
        let edge = (key.1, key.0);
        assert(edge.0 == key.1 && edge.1 == key.0);
        assert(call_at(resolutions, test_callee(edge.0), k, Callee::spec_from_key(edge.1)));
        assert(runs(tests, edge.0));
        assert(root_edge(resolutions, tests, edge));
    }
    if root_edge(resolutions, tests, (key.1, key.0)) {
        let k = choose|k: int| call_at(resolutions, test_callee(key.1), k, callee);
        assert(call_at(resolutions, test_callee(key.1), k, callee));
        assert(reached(resolutions, tests, key.1, callee, 0, false));
    }
}


impl Resolutions {
    /// Whether the search goes on through `callee`.
    pub fn is_followed(&self, callee: Callee) -> (r: bool)
        ensures
            r == self.followed(callee),
    {
        match self.def_info(callee.def_id) {
            Some(info) => !info.is_const_fn && (callee.def_id.krate != 0 || info.has_body),
            None => callee.def_id.krate != 0,
        }
    }
}

/// The search goes on through the callee, and the tables lack its body.
pub open spec fn wants_body(resolutions: Resolutions, callee: Callee) -> bool {
    resolutions.followed(callee) && resolutions.spec_body(callee) is None
}

/// The callees among those reached through which the search goes on and
/// whose bodies the tables lack, in their order. A search that is to go a
/// call further reads the bodies of these; where one stays out of the
/// tables, the search ends there.
pub fn bodies_wanted(resolutions: &Resolutions, reached: &Vec<Callee>) -> (wanted: Vec<Callee>)
    ensures
        wanted@ == reached@.filter(|callee: Callee| wants_body(*resolutions, callee)),
{
    let ghost pred = |callee: Callee| wants_body(*resolutions, callee);
    let mut wanted: Vec<Callee> = Vec::new();
    let mut i: usize = 0;
    assert(reached@.take(0).filter(pred) =~= Seq::<Callee>::empty()) by {
        reveal(Seq::filter);
    }
    while i < reached.len()
        invariant
            0 <= i <= reached.len(),
            pred == (|callee: Callee| wants_body(*resolutions, callee)),
            wanted@ == reached@.take(i as int).filter(pred),
        decreases reached.len() - i,
    {
        let callee = reached[i];
        proof {
            crate::text::lemma_filter_next(reached@, pred, i as int);
        }
        if resolutions.is_followed(callee) && resolutions.body(callee).is_none() {
            wanted.push(callee);
        }
        i += 1;
    }
    assert(reached@.take(reached@.len() as int) =~= reached@);
    wanted
}

/// The callee of entry `j` of a drained frontier.
spec fn entry_callee(entries: Seq<(FrontierKey, bool)>, j: int) -> Callee {
    Callee::spec_from_key(entries[j].0.0)
}

/// Call `k` of entry `j` leads to the callee and test of `key`, over a call
/// path that is tainted or not.
spec fn extends(
    resolutions: Resolutions,
    entries: Seq<(FrontierKey, bool)>,
    j: int,
    k: int,
    key: FrontierKey,
    tainted: bool,
) -> bool {
    &&& 0 <= j < entries.len()
    &&& entries[j].0.1 == key.1
    &&& resolutions.followed(entry_callee(entries, j))
    &&& link(
        resolutions,
        entry_callee(entries, j),
        k,
        Callee::spec_from_key(key.0),
        entries[j].1,
        tainted,
    )
}

/// Call `k` of entry `j` is the edge `edge`.
spec fn edge_from(
    resolutions: Resolutions,
    entries: Seq<(FrontierKey, bool)>,
    j: int,
    k: int,
    edge: (CalleeKey, CalleeKey),
) -> bool {
    &&& 0 <= j < entries.len()
    &&& entries[j].0.0 == edge.0
    &&& resolutions.followed(entry_callee(entries, j))
    &&& call_at(resolutions, entry_callee(entries, j), k, Callee::spec_from_key(edge.1))
}

/// `next` and `edges` hold what the calls before call `n` of entry `i` give.
spec fn expanded_upto(
    next: Map<FrontierKey, bool>,
    edges: Set<(CalleeKey, CalleeKey)>,
    resolutions: Resolutions,
    entries: Seq<(FrontierKey, bool)>,
    i: int,
    n: int,
) -> bool {
    &&& forall|key: FrontierKey| #[trigger]
        next.contains_key(key) <==> exists|j: int, k: int, b: bool|
            earlier(j, k, i, n) && #[trigger] extends(resolutions, entries, j, k, key, b)
    &&& forall|key: FrontierKey| #[trigger]
        next.contains_key(key) ==> (next[key] <==> exists|j: int, k: int|
            earlier(j, k, i, n) && #[trigger] extends(resolutions, entries, j, k, key, true))
    &&& forall|edge: (CalleeKey, CalleeKey)| #[trigger]
        edges.contains(edge) <==> exists|j: int, k: int|
            earlier(j, k, i, n) && #[trigger] edge_from(resolutions, entries, j, k, edge)
}

/// One more call taken: what holds before call `n` of entry `i`, with what
/// call `n` gives where it counts, holds before call `n + 1`.
proof fn lemma_expand_step(
    was: Map<FrontierKey, bool>,
    was_edges: Set<(CalleeKey, CalleeKey)>,
    now: Map<FrontierKey, bool>,
    now_edges: Set<(CalleeKey, CalleeKey)>,
    resolutions: Resolutions,
    entries: Seq<(FrontierKey, bool)>,
    i: int,
    n: int,
)
    requires
        0 <= i < entries.len(),
        0 <= n < resolutions.calls(entry_callee(entries, i)).len(),
        resolutions.followed(entry_callee(entries, i)),
        expanded_upto(was, was_edges, resolutions, entries, i, n),
        ({
            let call = resolutions.calls(entry_callee(entries, i))[n];
            let key = (call.callee.spec_key(), entries[i].0.1);
            let tainted = entries[i].1 || call.safety == Safety::Unsafe;
            if call.is_virtual {
                now == was && now_edges == was_edges
            } else {
                &&& now == was.insert(key, (was.contains_key(key) && was[key]) || tainted)
                &&& now_edges == was_edges.insert((entries[i].0.0, call.callee.spec_key()))
            }
        }),
    ensures
        expanded_upto(now, now_edges, resolutions, entries, i, n + 1),
{
    lemma_key_round_trip();
    let caller = entry_callee(entries, i);
    let call = resolutions.calls(caller)[n];
    let new_key = (call.callee.spec_key(), entries[i].0.1);
    let new_tainted = entries[i].1 || call.safety == Safety::Unsafe;
    let new_edge = (entries[i].0.0, call.callee.spec_key());
    if !call.is_virtual {
        assert(extends(resolutions, entries, i, n, new_key, new_tainted));
        assert(edge_from(resolutions, entries, i, n, new_edge));
    }
    assert forall|key: FrontierKey| #[trigger]
        now.contains_key(key) <==> exists|j: int, k: int, b: bool|
            earlier(j, k, i, n + 1) && #[trigger] extends(resolutions, entries, j, k, key, b) by {
        if now.contains_key(key) {
            if was.contains_key(key) {
                let (j, k, b) = choose|j: int, k: int, b: bool|
                    earlier(j, k, i, n) && #[trigger] extends(resolutions, entries, j, k, key, b);
                assert(earlier(j, k, i, n + 1));
            } else {
                assert(key == new_key);
                assert(earlier(i, n, i, n + 1));
            }
        }
        if exists|j: int, k: int, b: bool|
            earlier(j, k, i, n + 1) && #[trigger] extends(resolutions, entries, j, k, key, b) {
            let (j, k, b) = choose|j: int, k: int, b: bool|
                earlier(j, k, i, n + 1) && #[trigger] extends(resolutions, entries, j, k, key, b);
            if earlier(j, k, i, n) {
                assert(was.contains_key(key));
            } else {
                assert(j == i && k == n);
                assert(key.0 == call.callee.spec_key());
                assert(key == new_key);
            }
        }
    }
    assert forall|key: FrontierKey| #[trigger] now.contains_key(key) implies (now[key] <==> exists|
        j: int,
        k: int,
    |
        earlier(j, k, i, n + 1) && #[trigger] extends(resolutions, entries, j, k, key, true)) by {
        if now[key] {
            if was.contains_key(key) && was[key] {
                let (j, k) = choose|j: int, k: int|
                    earlier(j, k, i, n) && #[trigger] extends(resolutions, entries, j, k, key, true);
                assert(earlier(j, k, i, n + 1));
            } else {
                assert(key == new_key && new_tainted);
                assert(earlier(i, n, i, n + 1));
                assert(extends(resolutions, entries, i, n, key, true));
            }
        }
        if exists|j: int, k: int|
            earlier(j, k, i, n + 1) && #[trigger] extends(resolutions, entries, j, k, key, true) {
            let (j, k) = choose|j: int, k: int|
                earlier(j, k, i, n + 1) && #[trigger] extends(resolutions, entries, j, k, key, true);
            if earlier(j, k, i, n) {
                assert(was.contains_key(key));
                assert(was[key]);
            } else {
                assert(j == i && k == n);
                assert(key.0 == call.callee.spec_key());
                assert(key == new_key);
                assert(new_tainted);
            }
        }
    }
    assert forall|edge: (CalleeKey, CalleeKey)| #[trigger]
        now_edges.contains(edge) <==> exists|j: int, k: int|
            earlier(j, k, i, n + 1) && #[trigger] edge_from(resolutions, entries, j, k, edge) by {
        if now_edges.contains(edge) {
            if was_edges.contains(edge) {
                let (j, k) = choose|j: int, k: int|
                    earlier(j, k, i, n) && #[trigger] edge_from(resolutions, entries, j, k, edge);
                assert(earlier(j, k, i, n + 1));
            } else {
                assert(edge == new_edge);
                assert(earlier(i, n, i, n + 1));
            }
        }
        if exists|j: int, k: int|
            earlier(j, k, i, n + 1) && #[trigger] edge_from(resolutions, entries, j, k, edge) {
            let (j, k) = choose|j: int, k: int|
                earlier(j, k, i, n + 1) && #[trigger] edge_from(resolutions, entries, j, k, edge);
            if earlier(j, k, i, n) {
                assert(was_edges.contains(edge));
            } else {
                assert(j == i && k == n);
                assert(edge.1 == call.callee.spec_key());
                assert(edge == new_edge);
            }
        }
    }
}

/// Entry `i` is done: what holds before call `n` of entry `i`, where no
/// call of entry `i` from `n` on counts, holds before entry `i + 1`.
proof fn lemma_expand_entry_done(
    next: Map<FrontierKey, bool>,
    edges: Set<(CalleeKey, CalleeKey)>,
    resolutions: Resolutions,
    entries: Seq<(FrontierKey, bool)>,
    i: int,
    n: int,
)
    requires
        0 <= i < entries.len(),
        expanded_upto(next, edges, resolutions, entries, i, n),
        !resolutions.followed(entry_callee(entries, i)) || n >= resolutions.calls(
            entry_callee(entries, i),
        ).len(),
    ensures
        expanded_upto(next, edges, resolutions, entries, i + 1, 0),
{
    assert forall|key: FrontierKey| #[trigger]
        next.contains_key(key) <==> exists|j: int, k: int, b: bool|
            earlier(j, k, i + 1, 0) && #[trigger] extends(resolutions, entries, j, k, key, b) by {
        if next.contains_key(key) {
            let (j, k, b) = choose|j: int, k: int, b: bool|
                earlier(j, k, i, n) && #[trigger] extends(resolutions, entries, j, k, key, b);
            assert(earlier(j, k, i + 1, 0));
        }
        if exists|j: int, k: int, b: bool|
            earlier(j, k, i + 1, 0) && #[trigger] extends(resolutions, entries, j, k, key, b) {
            let (j, k, b) = choose|j: int, k: int, b: bool|
                earlier(j, k, i + 1, 0) && #[trigger] extends(resolutions, entries, j, k, key, b);
            assert(earlier(j, k, i, n));
        }
    }
    assert forall|key: FrontierKey| #[trigger] next.contains_key(key) implies (next[key] <==> exists|
        j: int,
        k: int,
    |
        earlier(j, k, i + 1, 0) && #[trigger] extends(resolutions, entries, j, k, key, true)) by {
        if next[key] {
            let (j, k) = choose|j: int, k: int|
                earlier(j, k, i, n) && #[trigger] extends(resolutions, entries, j, k, key, true);
            assert(earlier(j, k, i + 1, 0));
        }
        if exists|j: int, k: int|
            earlier(j, k, i + 1, 0) && #[trigger] extends(resolutions, entries, j, k, key, true) {
            let (j, k) = choose|j: int, k: int|
                earlier(j, k, i + 1, 0) && #[trigger] extends(resolutions, entries, j, k, key, true);
            assert(earlier(j, k, i, n));
        }
    }
    assert forall|edge: (CalleeKey, CalleeKey)| #[trigger]
        edges.contains(edge) <==> exists|j: int, k: int|
            earlier(j, k, i + 1, 0) && #[trigger] edge_from(resolutions, entries, j, k, edge) by {
        if edges.contains(edge) {
            let (j, k) = choose|j: int, k: int|
                earlier(j, k, i, n) && #[trigger] edge_from(resolutions, entries, j, k, edge);
            assert(earlier(j, k, i + 1, 0));
        }
        if exists|j: int, k: int|
            earlier(j, k, i + 1, 0) && #[trigger] edge_from(resolutions, entries, j, k, edge) {
            let (j, k) = choose|j: int, k: int|
                earlier(j, k, i + 1, 0) && #[trigger] edge_from(resolutions, entries, j, k, edge);
            assert(earlier(j, k, i, n));
        }
    }
}

/// Takes the calls of entry `i`: each call whose target is known becomes an
/// edge, and its callee joins the next frontier for the entry's test,
/// tainted where the entry is or the call stands in an `unsafe` block.
fn follow_calls(
    resolutions: &Resolutions,
    entries: &Vec<(FrontierKey, bool)>,
    i: usize,
    next: &mut FxHashMap<FrontierKey, bool>,
    edges: &mut FxHashSet<(CalleeKey, CalleeKey)>,
)
    requires
        i < entries.len(),
        expanded_upto(old(next)@, old(edges)@, *resolutions, entries@, i as int, 0),
    ensures
        expanded_upto(final(next)@, final(edges)@, *resolutions, entries@, i + 1, 0),
{
    let (key, tainted) = entries[i];
    let caller = Callee::from_key(key.0);
    assert(caller == entry_callee(entries@, i as int));
    if !resolutions.is_followed(caller) {
        proof {
            lemma_expand_entry_done(next@, edges@, *resolutions, entries@, i as int, 0);
        }
        return ;
    }
    match resolutions.body(caller) {
        Some(body) => {
            let mut k: usize = 0;
            while k < body.calls.len()
                invariant
                    0 <= k <= body.calls.len(),
                    i < entries.len(),
                    (key, tainted) == entries@[i as int],
                    caller == entry_callee(entries@, i as int),
                    caller.spec_key() == key.0,
                    resolutions.followed(caller),
                    body.calls@ == resolutions.calls(caller),
                    expanded_upto(next@, edges@, *resolutions, entries@, i as int, k as int),
                decreases body.calls.len() - k,
            {
                let call = body.calls[k];
                let ghost was = next@;
                let ghost was_edges = edges@;
                if !call.is_virtual {
                    let reached_key = (call.callee.key(), key.1);
                    let before = match map_get(next, reached_key) {
                        Some(before) => *before,
                        None => false,
                    };
                    set_insert(edges, (key.0, call.callee.key()));
                    map_insert(
                        next,
                        reached_key,
                        before || tainted || matches!(call.safety, Safety::Unsafe),
                    );
                }
                proof {
                    lemma_expand_step(
                        was,
                        was_edges,
                        next@,
                        edges@,
                        *resolutions,
                        entries@,
                        i as int,
                        k as int,
                    );
                }
                k += 1;
            }
            proof {
                lemma_expand_entry_done(next@, edges@, *resolutions, entries@, i as int, k as int);
            }
        },
        None => {
            proof {
                lemma_expand_entry_done(next@, edges@, *resolutions, entries@, i as int, 0);
            }
        },
    }
}


/// Test `test` reaches some instance of the definition with index `def` of
/// the crate under test at `distance`, over a call path that is tainted or
/// not.
pub open spec fn reaches(
    resolutions: Resolutions,
    tests: Seq<Test>,
    test: u32,
    def: u32,
    distance: nat,
    tainted: bool,
) -> bool {
    exists|args: u32| #[trigger]
        reached(
            resolutions,
            tests,
            test,
            Callee { def_id: DefId { krate: 0, index: def }, generic_args: GenericArgs(args) },
            distance,
            tainted,
        )
}

/// Every visit in the log is the arrival of a test at a definition that can
/// be a target, at a distance below `bound`.
spec fn log_sound(log: Seq<Visit>, resolutions: Resolutions, tests: Seq<Test>, bound: nat) -> bool {
    forall|i: int|
        0 <= i < log.len() ==> {
            &&& (#[trigger] log[i]).distance < bound
            &&& resolutions.targetable(tests, DefId { krate: 0, index: log[i].def })
            &&& reaches(resolutions, tests, log[i].test, log[i].def, log[i].distance, log[i].tainted)
        }
}

/// The visit `log[i]` stands for the arrival of `test` at `def` at
/// `distance`, and is tainted where the arrival is.
spec fn records(log: Seq<Visit>, i: int, test: u32, def: u32, distance: nat, tainted: bool) -> bool {
    &&& 0 <= i < log.len()
    &&& log[i].def == def
    &&& log[i].test == test
    &&& log[i].distance == distance
    &&& tainted ==> log[i].tainted
}

/// Every arrival below `bound` at a definition that can be a target has its
/// visit in the log.
spec fn log_complete(log: Seq<Visit>, resolutions: Resolutions, tests: Seq<Test>, bound: nat) -> bool {
    forall|test: u32, def: u32, distance: nat, tainted: bool|
        distance < bound && resolutions.targetable(tests, DefId { krate: 0, index: def })
            && #[trigger] reaches(resolutions, tests, test, def, distance, tainted)
            ==> exists|i: int| #[trigger] records(log, i, test, def, distance, tainted)
}

/// Every entry before `upto` whose definition can be a target has its visit
/// in the log.
spec fn log_covers(
    log: Seq<Visit>,
    resolutions: Resolutions,
    tests: Seq<Test>,
    entries: Seq<(FrontierKey, bool)>,
    upto: int,
    distance: nat,
) -> bool {
    forall|j: int|
        0 <= j < upto && resolutions.targetable(tests, entry_callee(entries, j).def_id)
            ==> exists|i: int| #[trigger]
            records(log, i, (#[trigger] entries[j]).0.1, entries[j].0.0.1, distance, entries[j].1)
}

proof fn lemma_log_push(
    log: Seq<Visit>,
    visit: Visit,
    resolutions: Resolutions,
    tests: Seq<Test>,
    entries: Seq<(FrontierKey, bool)>,
    upto: int,
    distance: nat,
)
    requires
        log_sound(log, resolutions, tests, distance + 1),
        log_complete(log, resolutions, tests, distance),
        log_covers(log, resolutions, tests, entries, upto, distance),
        visit.distance < distance + 1,
        resolutions.targetable(tests, DefId { krate: 0, index: visit.def }),
        reaches(resolutions, tests, visit.test, visit.def, visit.distance, visit.tainted),
    ensures
        log_sound(log.push(visit), resolutions, tests, distance + 1),
        log_complete(log.push(visit), resolutions, tests, distance),
        log_covers(log.push(visit), resolutions, tests, entries, upto, distance),
        records(
            log.push(visit),
            log.len() as int,
            visit.test,
            visit.def,
            visit.distance,
            visit.tainted,
        ),
{
    let after = log.push(visit);
    assert forall|i: int| 0 <= i < log.len() implies #[trigger] after[i] == log[i] by {}
    assert forall|test: u32, def: u32, d: nat, tainted: bool|
        d < distance && resolutions.targetable(tests, DefId { krate: 0, index: def })
            && #[trigger] reaches(resolutions, tests, test, def, d, tainted) implies exists|i: int| #[trigger]
        records(after, i, test, def, d, tainted) by {
        let i = choose|i: int| #[trigger] records(log, i, test, def, d, tainted);
        assert(records(after, i, test, def, d, tainted));
    }
    assert forall|j: int|
        0 <= j < upto && resolutions.targetable(tests, entry_callee(entries, j).def_id,
        ) implies exists|i: int| #[trigger]
        records(after, i, (#[trigger] entries[j]).0.1, entries[j].0.0.1, distance, entries[j].1) by {
        let i = choose|i: int| #[trigger]
            records(log, i, entries[j].0.1, entries[j].0.0.1, distance, entries[j].1);
        assert(records(after, i, entries[j].0.1, entries[j].0.0.1, distance, entries[j].1));
    }
}

/// An entry of the drained frontier at `distance` is an arrival at
/// `distance`, tainted exactly where the entry says.
proof fn lemma_entry_reached(
    frontier: Map<FrontierKey, bool>,
    entries: Seq<(FrontierKey, bool)>,
    resolutions: Resolutions,
    tests: Seq<Test>,
    distance: nat,
    j: int,
)
    requires
        frontier_at(frontier, resolutions, tests, distance),
        pairs_of(entries, frontier),
        0 <= j < entries.len(),
    ensures
        reached(resolutions, tests, entries[j].0.1, entry_callee(entries, j), distance, entries[j].1),
        entries[j].1 <==> reached(
            resolutions,
            tests,
            entries[j].0.1,
            entry_callee(entries, j),
            distance,
            true,
        ),
{
    let key = entries[j].0;
    assert(frontier.contains_pair(key, entries[j].1));
    assert(frontier.contains_key(key));
}

/// An arrival at `distance` is among the entries of the drained frontier.
proof fn lemma_reached_entry(
    frontier: Map<FrontierKey, bool>,
    entries: Seq<(FrontierKey, bool)>,
    resolutions: Resolutions,
    tests: Seq<Test>,
    distance: nat,
    test: u32,
    callee: Callee,
    tainted: bool,
) -> (j: int)
    requires
        frontier_at(frontier, resolutions, tests, distance),
        pairs_of(entries, frontier),
        reached(resolutions, tests, test, callee, distance, tainted),
    ensures
        0 <= j < entries.len(),
        entries[j].0 == (callee.spec_key(), test),
        entry_callee(entries, j) == callee,
        tainted ==> entries[j].1,
{
    lemma_key_round_trip();
    let key = (callee.spec_key(), test);
    assert(Callee::spec_from_key(key.0) == callee);
    assert(frontier.contains_key(key));
    let j = choose|j: int| 0 <= j < entries.len() && (#[trigger] entries[j]).0 == key;
    assert(frontier.contains_pair(entries[j].0, entries[j].1));
    j
}

/// What all calls of all entries of the frontier at `distance` give is the
/// frontier at `distance + 1`, and the edges at `distance`.
proof fn lemma_next_frontier(
    frontier: Map<FrontierKey, bool>,
    entries: Seq<(FrontierKey, bool)>,
    next: Map<FrontierKey, bool>,
    edges: Set<(CalleeKey, CalleeKey)>,
    resolutions: Resolutions,
    tests: Seq<Test>,
    distance: nat,
)
    requires
        frontier_at(frontier, resolutions, tests, distance),
        pairs_of(entries, frontier),
        expanded_upto(next, edges, resolutions, entries, entries.len() as int, 0),
    ensures
        frontier_at(next, resolutions, tests, distance + 1),
        forall|edge: (CalleeKey, CalleeKey)| #[trigger]
            edges.contains(edge) <==> nested_edge(resolutions, tests, distance, edge),
{
    lemma_key_round_trip();
    let len = entries.len() as int;
    assert forall|key: FrontierKey| #[trigger] next.contains_key(key) implies (reached(
        resolutions,
        tests,
        key.1,
        Callee::spec_from_key(key.0),
        distance + 1,
        true,
    ) || reached(resolutions, tests, key.1, Callee::spec_from_key(key.0), distance + 1, false)) by {
        let (j, k, b) = choose|j: int, k: int, b: bool|
            earlier(j, k, len, 0) && #[trigger] extends(resolutions, entries, j, k, key, b);
        lemma_entry_reached(frontier, entries, resolutions, tests, distance, j);
        assert(link(
            resolutions,
            entry_callee(entries, j),
            k,
            Callee::spec_from_key(key.0),
            entries[j].1,
            b,
        ));
        assert(reached(resolutions, tests, key.1, Callee::spec_from_key(key.0), distance + 1, b));
    }
    assert forall|key: FrontierKey, b: bool| #[trigger]
        reached(
            resolutions,
            tests,
            key.1,
            Callee::spec_from_key(key.0),
            distance + 1,
            b,
        ) implies next.contains_key(key) && (b ==> next[key]) by {
        let callee = Callee::spec_from_key(key.0);
        let (caller, k, before) = choose|caller: Callee, k: int, before: bool|
            {
                &&& reached(resolutions, tests, key.1, caller, distance, before)
                &&& resolutions.followed(caller)
                &&& #[trigger] link(resolutions, caller, k, callee, before, b)
            };
        let j = lemma_reached_entry(
            frontier,
            entries,
            resolutions,
            tests,
            distance,
            key.1,
            caller,
            before,
        );
        let tainted = entries[j].1 || resolutions.calls(caller)[k].safety == Safety::Unsafe;
        assert(extends(resolutions, entries, j, k, key, tainted));
        assert(earlier(j, k, len, 0));
        assert(next.contains_key(key));
        if b {
            assert(tainted);
            assert(extends(resolutions, entries, j, k, key, true));
        }
    }
    assert forall|key: FrontierKey| #[trigger] next.contains_key(key) && next[key] implies reached(
        resolutions,
        tests,
        key.1,
        Callee::spec_from_key(key.0),
        distance + 1,
        true,
    ) by {
        let (j, k) = choose|j: int, k: int|
            earlier(j, k, len, 0) && #[trigger] extends(resolutions, entries, j, k, key, true);
        lemma_entry_reached(frontier, entries, resolutions, tests, distance, j);
        assert(link(
            resolutions,
            entry_callee(entries, j),
            k,
            Callee::spec_from_key(key.0),
            entries[j].1,
            true,
        ));
    }
    assert forall|edge: (CalleeKey, CalleeKey)| #[trigger]
        edges.contains(edge) <==> nested_edge(resolutions, tests, distance, edge) by {
        let caller = Callee::spec_from_key(edge.0);
        if edges.contains(edge) {
            let (j, k) = choose|j: int, k: int|
                earlier(j, k, len, 0) && #[trigger] edge_from(resolutions, entries, j, k, edge);
            lemma_entry_reached(frontier, entries, resolutions, tests, distance, j);
            assert(reached(resolutions, tests, entries[j].0.1, caller, distance, entries[j].1));
            assert(call_at(resolutions, caller, k, Callee::spec_from_key(edge.1)));
        }
        if nested_edge(resolutions, tests, distance, edge) {
            let (test, tainted) = choose|test: u32, tainted: bool| #[trigger]
                reached(resolutions, tests, test, caller, distance, tainted);
            let k = choose|k: int| call_at(resolutions, caller, k, Callee::spec_from_key(edge.1));
            let j = lemma_reached_entry(
                frontier,
                entries,
                resolutions,
                tests,
                distance,
                test,
                caller,
                tainted,
            );
            assert(edge_from(resolutions, entries, j, k, edge));
            assert(earlier(j, k, len, 0));
        }
    }
}

/// Once every entry of the frontier at `distance` is covered, the log is
/// complete below `distance + 1`.
proof fn lemma_round_complete(
    log: Seq<Visit>,
    frontier: Map<FrontierKey, bool>,
    entries: Seq<(FrontierKey, bool)>,
    resolutions: Resolutions,
    tests: Seq<Test>,
    distance: nat,
)
    requires
        frontier_at(frontier, resolutions, tests, distance),
        pairs_of(entries, frontier),
        log_complete(log, resolutions, tests, distance),
        log_covers(log, resolutions, tests, entries, entries.len() as int, distance),
    ensures
        log_complete(log, resolutions, tests, distance + 1),
{
    assert forall|test: u32, def: u32, d: nat, tainted: bool|
        d < distance + 1 && resolutions.targetable(tests, DefId { krate: 0, index: def })
            && #[trigger] reaches(resolutions, tests, test, def, d, tainted) implies exists|i: int| #[trigger]
        records(log, i, test, def, d, tainted) by {
        if d == distance {
            let args = choose|args: u32| #[trigger]
                reached(
                    resolutions,
                    tests,
                    test,
                    Callee {
                        def_id: DefId { krate: 0, index: def },
                        generic_args: GenericArgs(args),
                    },
                    d,
                    tainted,
                );
            let callee = Callee {
                def_id: DefId { krate: 0, index: def },
                generic_args: GenericArgs(args),
            };
            let j = lemma_reached_entry(
                frontier,
                entries,
                resolutions,
                tests,
                distance,
                test,
                callee,
                tainted,
            );
            let i = choose|i: int| #[trigger]
                records(log, i, entries[j].0.1, entries[j].0.0.1, distance, entries[j].1);
            assert(records(log, i, test, def, d, tainted));
        }
    }
}


/// One round of the search: every pair of callee and test in the frontier at
/// `distance` is recorded with its target, where its definition can be one,
/// and, unless this is the last round, its calls make up the edges at
/// `distance` and the frontier at `distance + 1`.
fn visit_round(
    resolutions: &Resolutions,
    tests: &[Test],
    frontier: &mut FxHashMap<FrontierKey, bool>,
    targets: &mut FxHashMap<u32, Target>,
    distance: usize,
    last: bool,
    Ghost(log): Ghost<Seq<Visit>>,
) -> (out: (FxHashSet<(CalleeKey, CalleeKey)>, Ghost<Seq<Visit>>))
    requires
        frontier_at(old(frontier)@, *resolutions, tests@, distance as nat),
        targets_summarize(old(targets)@, *resolutions, log),
        log_sound(log, *resolutions, tests@, distance as nat),
        log_complete(log, *resolutions, tests@, distance as nat),
    ensures
        targets_summarize(final(targets)@, *resolutions, out.1@),
        log_sound(out.1@, *resolutions, tests@, (distance + 1) as nat),
        log_complete(out.1@, *resolutions, tests@, (distance + 1) as nat),
        !last ==> frontier_at(final(frontier)@, *resolutions, tests@, (distance + 1) as nat),
        !last ==> forall|edge: (CalleeKey, CalleeKey)| #[trigger]
            out.0@.contains(edge) <==> nested_edge(*resolutions, tests@, distance as nat, edge),
{
    let ghost found = frontier@;
    let entries = map_drain(frontier);
    let mut next: FxHashMap<FrontierKey, bool> = map_new();
    let mut edges: FxHashSet<(CalleeKey, CalleeKey)> = set_new();
    let ghost mut log = log;
    let mut i: usize = 0;
    while i < entries.len()
        invariant
            0 <= i <= entries.len(),
            pairs_of(entries@, found),
            frontier_at(found, *resolutions, tests@, distance as nat),
            targets_summarize(targets@, *resolutions, log),
            log_sound(log, *resolutions, tests@, (distance + 1) as nat),
            log_complete(log, *resolutions, tests@, distance as nat),
            log_covers(log, *resolutions, tests@, entries@, i as int, distance as nat),
            !last ==> expanded_upto(next@, edges@, *resolutions, entries@, i as int, 0),
        decreases entries.len() - i,
    {
        let (key, tainted) = entries[i];
        let callee = Callee::from_key(key.0);
        let ghost log_before = log;
        proof {
            lemma_entry_reached(found, entries@, *resolutions, tests@, distance as nat, i as int);
        }
        match callee.def_id.as_local() {
            Some(local) => {
                match resolutions.def_info(callee.def_id) {
                    Some(info) => {
                        if !info.is_const_fn && info.has_body && !info.excluded && !is_test_def(
                            tests,
                            local.0,
                        ) {
                            match info.item_unsafety {
                                Some(item_unsafety) => {
                                    record_visit(
                                        targets,
                                        resolutions,
                                        local,
                                        item_unsafety,
                                        key.1,
                                        tainted,
                                        distance,
                                        Ghost(log),
                                    );
                                    proof {
                                        let visit = Visit {
                                            def: local.0,
                                            test: key.1,
                                            distance: distance as nat,
                                            tainted,
                                        };
                                        assert(callee == Callee {
                                            def_id: DefId { krate: 0, index: local.0 },
                                            generic_args: GenericArgs(callee.generic_args.0),
                                        });
                                        assert(reaches(
                                            *resolutions,
                                            tests@,
                                            key.1,
                                            local.0,
                                            distance as nat,
                                            tainted,
                                        ));
                                        lemma_log_push(
                                            log,
                                            visit,
                                            *resolutions,
                                            tests@,
                                            entries@,
                                            i as int,
                                            distance as nat,
                                        );
                                        log = log.push(visit);
                                    }
                                },
                                None => {},
                            }
                        }
                    },
                    None => {},
                }
            },
            None => {},
        }
        proof {
            assert forall|j: int|
                0 <= j < i + 1 && resolutions.targetable(tests@, entry_callee(entries@, j).def_id,
                ) implies exists|l: int| #[trigger]
                records(
                    log,
                    l,
                    (#[trigger] entries@[j]).0.1,
                    entries@[j].0.0.1,
                    distance as nat,
                    entries@[j].1,
                ) by {
                if j == i {
                    assert(records(
                        log,
                        log_before.len() as int,
                        key.1,
                        key.0.1,
                        distance as nat,
                        tainted,
                    ));
                }
            }
        }
        if !last {
            follow_calls(resolutions, &entries, i, &mut next, &mut edges);
        }
        i += 1;
    }
    proof {
        lemma_round_complete(log, found, entries@, *resolutions, tests@, distance as nat);
        if !last {
            lemma_next_frontier(found, entries@, next@, edges@, *resolutions, tests@, distance as nat);
        }
    }
    *frontier = next;
    (edges, Ghost(log))
}

/// The calls that the search found: those of the tests, and those made at
/// each distance but the last.
pub struct CallGraph {
    /// Pairs of a test's definition index and a callee's key.
    pub root_calls: FxHashSet<(u32, CalleeKey)>,
    /// For each distance, pairs of a caller's and a callee's key.
    pub nested_calls: Vec<FxHashSet<(CalleeKey, CalleeKey)>>,
}

/// The call graph holds exactly the calls of a search to `depth`.
pub open spec fn call_graph_matches(
    graph: CallGraph,
    resolutions: Resolutions,
    tests: Seq<Test>,
    depth: nat,
) -> bool {
    &&& forall|edge: (u32, CalleeKey)| #[trigger]
        graph.root_calls@.contains(edge) <==> root_edge(resolutions, tests, edge)
    &&& graph.nested_calls@.len() == depth - 1
    &&& forall|n: int, edge: (CalleeKey, CalleeKey)|
        0 <= n < depth - 1 ==> (#[trigger] graph.nested_calls@[n]@.contains(edge) <==> nested_edge(
            resolutions,
            tests,
            n as nat,
            edge,
        ))
}

/// Some test reaches the definition within `depth`, and the definition can
/// be a target.
pub open spec fn is_target(resolutions: Resolutions, tests: Seq<Test>, depth: nat, def: u32) -> bool {
    &&& resolutions.targetable(tests, DefId { krate: 0, index: def })
    &&& exists|test: u32, distance: nat, tainted: bool|
        distance < depth && #[trigger] reaches(resolutions, tests, test, def, distance, tainted)
}

/// `test` reaches the definition within `depth`, over a call path that is
/// tainted or not.
pub open spec fn reaches_within(
    resolutions: Resolutions,
    tests: Seq<Test>,
    depth: nat,
    test: u32,
    def: u32,
    tainted: bool,
) -> bool {
    exists|distance: nat|
        distance < depth && #[trigger] reaches(resolutions, tests, test, def, distance, tainted)
}

/// Some test reaches the definition within `depth` over a tainted call path.
pub open spec fn tainted_within(resolutions: Resolutions, tests: Seq<Test>, depth: nat, def: u32) -> bool {
    exists|test: u32, distance: nat|
        distance < depth && #[trigger] reaches(resolutions, tests, test, def, distance, true)
}

/// `distance` is the shortest at which any test reaches the definition.
pub open spec fn shortest(resolutions: Resolutions, tests: Seq<Test>, def: u32, distance: nat) -> bool {
    &&& exists|test: u32, tainted: bool| #[trigger]
        reaches(resolutions, tests, test, def, distance, tainted)
    &&& forall|test: u32, other: nat, tainted: bool| #[trigger]
        reaches(resolutions, tests, test, def, other, tainted) ==> distance <= other
}

/// `distance` is the shortest at which `test` reaches the definition.
pub open spec fn shortest_from(
    resolutions: Resolutions,
    tests: Seq<Test>,
    test: u32,
    def: u32,
    distance: nat,
) -> bool {
    &&& exists|tainted: bool| #[trigger] reaches(resolutions, tests, test, def, distance, tainted)
    &&& forall|other: nat, tainted: bool| #[trigger]
        reaches(resolutions, tests, test, def, other, tainted) ==> distance <= other
}

/// The target is what a search to `depth` finds of its definition: the
/// shortest distances, the tests that reach it, and the most severe
/// unsafety of the item and of the call paths.
pub open spec fn target_matches(
    target: Target,
    resolutions: Resolutions,
    tests: Seq<Test>,
    depth: nat,
) -> bool {
    let def = target.def_id.0;
    &&& is_target(resolutions, tests, depth, def)
    &&& target.distance < depth
    &&& shortest(resolutions, tests, def, target.distance as nat)
    &&& target.unsafety == Unsafety::spec_tainted_by(
        call_path_of(tainted_within(resolutions, tests, depth, def)),
    ).spec_most_severe(resolutions.item_unsafety(DefId { krate: 0, index: def }))
    &&& forall|test: u32| #[trigger]
        target.reachable_from@.contains_key(test) <==> (reaches_within(
            resolutions,
            tests,
            depth,
            test,
            def,
            true,
        ) || reaches_within(resolutions, tests, depth, test, def, false))
    &&& forall|test: u32| #[trigger]
        target.reachable_from@.contains_key(test) ==> {
            &&& target.reachable_from@[test].distance < depth
            &&& shortest_from(
                resolutions,
                tests,
                test,
                def,
                target.reachable_from@[test].distance as nat,
            )
            &&& target.reachable_from@[test].unsafe_call_path == call_path_of(
                reaches_within(resolutions, tests, depth, test, def, true),
            )
        }
}

/// The targets are those of a search to `depth`, each once.
pub open spec fn targets_match(
    targets: Seq<Target>,
    resolutions: Resolutions,
    tests: Seq<Test>,
    depth: nat,
) -> bool {
    &&& forall|i: int, j: int|
        0 <= i < j < targets.len() ==> (#[trigger] targets[i]).def_id != (#[trigger] targets[j]).def_id
    &&& forall|i: int|
        0 <= i < targets.len() ==> target_matches(#[trigger] targets[i], resolutions, tests, depth)
    &&& forall|def: u32|
        is_target(resolutions, tests, depth, def) ==> exists|i: int|
            0 <= i < targets.len() && (#[trigger] targets[i]).def_id == LocalDefId(def)
}

proof fn lemma_summary_matches(
    target: Target,
    def: u32,
    resolutions: Resolutions,
    tests: Seq<Test>,
    depth: nat,
    log: Seq<Visit>,
)
    requires
        visited(log, def),
        target.summarizes(def, resolutions.item_unsafety(DefId { krate: 0, index: def }), log),
        log_sound(log, resolutions, tests, depth),
        log_complete(log, resolutions, tests, depth),
    ensures
        target_matches(target, resolutions, tests, depth),
{
    let some = choose|i: int| 0 <= i < log.len() && (#[trigger] log[i]).def == def;
    assert(reaches(resolutions, tests, log[some].test, def, log[some].distance, log[some].tainted));
    assert(is_target(resolutions, tests, depth, def));
    let least = choose|i: int|
        0 <= i < log.len() && (#[trigger] log[i]).def == def && log[i].distance
            == target.distance as nat;
    assert(reaches(resolutions, tests, log[least].test, def, target.distance as nat, log[least].tainted));
    assert forall|test: u32, other: nat, tainted: bool| #[trigger]
        reaches(resolutions, tests, test, def, other, tainted) implies target.distance as nat
        <= other by {
        if other < depth {
            let i = choose|i: int| #[trigger] records(log, i, test, def, other, tainted);
            assert(log[i].def == def);
        }
    }
    assert(visited_tainted(log, def) <==> tainted_within(resolutions, tests, depth, def)) by {
        if visited_tainted(log, def) {
            let i = choose|i: int|
                0 <= i < log.len() && (#[trigger] log[i]).def == def && log[i].tainted;
            assert(reaches(resolutions, tests, log[i].test, def, log[i].distance, true));
        }
        if tainted_within(resolutions, tests, depth, def) {
            let (test, distance) = choose|test: u32, distance: nat|
                distance < depth && #[trigger] reaches(resolutions, tests, test, def, distance, true);
            let i = choose|i: int| #[trigger] records(log, i, test, def, distance, true);
            assert(log[i].def == def && log[i].tainted);
        }
    }
    assert forall|test: u32|
        #![trigger target.reachable_from@.contains_key(test)]
        {
            &&& visited_from(log, def, test) <==> (reaches_within(
                resolutions,
                tests,
                depth,
                test,
                def,
                true,
            ) || reaches_within(resolutions, tests, depth, test, def, false))
            &&& visited_tainted_from(log, def, test) <==> reaches_within(
                resolutions,
                tests,
                depth,
                test,
                def,
                true,
            )
        } by {
        if visited_from(log, def, test) {
            let i = choose|i: int|
                0 <= i < log.len() && (#[trigger] log[i]).def == def && log[i].test == test;
            assert(reaches(resolutions, tests, test, def, log[i].distance, log[i].tainted));
        }
        if reaches_within(resolutions, tests, depth, test, def, true) {
            let distance = choose|distance: nat|
                distance < depth && #[trigger] reaches(resolutions, tests, test, def, distance, true);
            let i = choose|i: int| #[trigger] records(log, i, test, def, distance, true);
            assert(log[i].def == def && log[i].test == test && log[i].tainted);
        }
        if reaches_within(resolutions, tests, depth, test, def, false) {
            let distance = choose|distance: nat|
                distance < depth && #[trigger] reaches(resolutions, tests, test, def, distance, false);
            let i = choose|i: int| #[trigger] records(log, i, test, def, distance, false);
            assert(log[i].def == def && log[i].test == test);
        }
        if visited_tainted_from(log, def, test) {
            let i = choose|i: int|
                0 <= i < log.len() && (#[trigger] log[i]).def == def && log[i].test == test
                    && log[i].tainted;
            assert(reaches(resolutions, tests, test, def, log[i].distance, true));
        }
    }
    assert forall|test: u32| #[trigger] target.reachable_from@.contains_key(test) implies {
        &&& target.reachable_from@[test].distance < depth
        &&& shortest_from(resolutions, tests, test, def, target.reachable_from@[test].distance as nat)
    } by {
        let recorded = target.reachable_from@[test].distance as nat;
        assert(least_distance_from(log, def, test, recorded));
        let i = choose|i: int|
            0 <= i < log.len() && (#[trigger] log[i]).def == def && log[i].test == test
                && log[i].distance == recorded;
        assert(reaches(resolutions, tests, test, def, recorded, log[i].tainted));
        assert forall|other: nat, tainted: bool| #[trigger]
            reaches(resolutions, tests, test, def, other, tainted) implies recorded <= other by {
            if other < depth {
                let l = choose|l: int| #[trigger] records(log, l, test, def, other, tainted);
                assert(log[l].def == def && log[l].test == test);
            }
        }
    }
}

/// The functions of the crate under test that the tests reach within
/// `depth` calls, and the calls that lead there.
///
/// A test that is not ignored reaches the callees of its own body at
/// distance 0, and from a callee at distance `d` the callees of its body at
/// distance `d + 1`, unless the callee is a compile-time function or a
/// function of the crate under test without a body. A call whose target is
/// only known at run time is not followed. A callee becomes a target where
/// it is a function of the crate under test with a body, not excluded, and
/// found in the syntax tree. Each target records the shortest distances and
/// the most severe unsafety over all call paths. The order of the targets is
/// not determined.
pub fn reachable_fns(resolutions: &Resolutions, tests: &[Test], depth: usize) -> (out: (
    CallGraph,
    Vec<Target>,
))
    requires
        depth >= 1,
    ensures
        call_graph_matches(out.0, *resolutions, tests@, depth as nat),
        targets_match(out.1@, *resolutions, tests@, depth as nat),
{
    let (root_calls, mut frontier) = seed_call_paths(resolutions, tests);
    let mut nested_calls: Vec<FxHashSet<(CalleeKey, CalleeKey)>> = Vec::new();
    let mut targets: FxHashMap<u32, Target> = map_new();
    let ghost mut log: Seq<Visit> = Seq::empty();
    let mut distance: usize = 0;
    while distance < depth
        invariant
            0 <= distance <= depth,
            depth >= 1,
            distance < depth ==> frontier_at(frontier@, *resolutions, tests@, distance as nat),
            targets_summarize(targets@, *resolutions, log),
            log_sound(log, *resolutions, tests@, distance as nat),
            log_complete(log, *resolutions, tests@, distance as nat),
            nested_calls@.len() == (if distance < depth {
                distance as int
            } else {
                depth - 1
            }),
            forall|n: int, edge: (CalleeKey, CalleeKey)|
                0 <= n < nested_calls@.len() ==> (#[trigger] nested_calls@[n]@.contains(edge)
                    <==> nested_edge(*resolutions, tests@, n as nat, edge)),
        decreases depth - distance,
    {
        let last = distance == depth - 1;
        let (edges, Ghost(extended)) = visit_round(
            resolutions,
            tests,
            &mut frontier,
            &mut targets,
            distance,
            last,
            Ghost(log),
        );
        proof {
            log = extended;
        }
        if !last {
            nested_calls.push(edges);
        }
        distance += 1;
    }
    let ghost by_def = targets@;
    let found = map_into_values(targets);
    proof {
        let keys = choose|keys: Seq<u32>|
            {
                &&& #[trigger] keys.len() == found@.len()
                &&& keys.no_duplicates()
                &&& keys.to_set() == by_def.dom()
                &&& forall|i: int| 0 <= i < keys.len() ==> by_def[keys[i]] == #[trigger] found@[i]
            };
        assert forall|i: int| 0 <= i < found@.len() implies {
            &&& (#[trigger] found@[i]).def_id == LocalDefId(keys[i])
            &&& target_matches(found@[i], *resolutions, tests@, depth as nat)
        } by {
            assert(keys.to_set().contains(keys[i]));
            assert(by_def.contains_key(keys[i]));
            lemma_summary_matches(found@[i], keys[i], *resolutions, tests@, depth as nat, log);
        }
        assert forall|def: u32|
            is_target(*resolutions, tests@, depth as nat, def) implies exists|i: int|
            0 <= i < found@.len() && (#[trigger] found@[i]).def_id == LocalDefId(def) by {
            let (test, d, tainted) = choose|test: u32, d: nat, tainted: bool|
                d < depth && #[trigger] reaches(*resolutions, tests@, test, def, d, tainted);
            let l = choose|l: int| #[trigger] records(log, l, test, def, d, tainted);
            assert(log[l].def == def);
            assert(visited(log, def));
            assert(by_def.contains_key(def));
            assert(keys.to_set().contains(def));
            let i = choose|i: int| 0 <= i < keys.len() && keys[i] == def;
            assert(found@[i].def_id == LocalDefId(def));
        }
    }
    (CallGraph { root_calls, nested_calls }, found)
}


/// The distance recorded for a test is the shortest at which the test
/// reaches the target, whatever other, longer call paths there are; and the
/// target's own distance is the shortest over all tests.
pub proof fn lemma_recorded_distance_is_shortest(
    target: Target,
    resolutions: Resolutions,
    tests: Seq<Test>,
    depth: nat,
    test: u32,
    distance: nat,
    tainted: bool,
)
    requires
        target_matches(target, resolutions, tests, depth),
        reaches(resolutions, tests, test, target.def_id.0, distance, tainted),
        distance < depth,
    ensures
        target.reachable_from@.contains_key(test),
        target.reachable_from@[test].distance <= distance,
        target.distance <= target.reachable_from@[test].distance,
{
    let def = target.def_id.0;
    assert(reaches_within(resolutions, tests, depth, test, def, tainted));
    assert(target.reachable_from@.contains_key(test));
    let recorded = target.reachable_from@[test].distance as nat;
    assert(shortest_from(resolutions, tests, test, def, recorded));
    let b = choose|b: bool| #[trigger] reaches(resolutions, tests, test, def, recorded, b);
    assert(reaches(resolutions, tests, test, def, recorded, b));
}

/// No target is itself a test. The search still goes on through a test that
/// a test calls.
pub proof fn lemma_no_target_is_a_test(
    target: Target,
    resolutions: Resolutions,
    tests: Seq<Test>,
    depth: nat,
)
    requires
        target_matches(target, resolutions, tests, depth),
    ensures
        !is_test(tests, target.def_id.0),
{
}

/// The second tables know every definition as the first do, and every call
/// of the first is a call of the second, in an `unsafe` block where it was.
pub open spec fn adds_calls(first: Resolutions, second: Resolutions) -> bool {
    &&& forall|def_id: DefId| #[trigger] first.spec_def_info(def_id) == second.spec_def_info(def_id)
    &&& forall|caller: Callee, k: int, callee: Callee| #[trigger]
        call_at(first, caller, k, callee) ==> exists|n: int|
            {
                &&& #[trigger] call_at(second, caller, n, callee)
                &&& first.calls(caller)[k].safety == Safety::Unsafe ==> second.calls(caller)[n].safety
                    == Safety::Unsafe
            }
}

/// With more calls, whatever was reached is still reached at the same
/// distance, and tainted where it was.
pub proof fn lemma_reached_with_more_calls(
    first: Resolutions,
    second: Resolutions,
    tests: Seq<Test>,
    test: u32,
    callee: Callee,
    distance: nat,
    tainted: bool,
) -> (still: bool)
    requires
        adds_calls(first, second),
        reached(first, tests, test, callee, distance, tainted),
    ensures
        reached(second, tests, test, callee, distance, still),
        tainted ==> still,
    decreases distance,
{
    if distance == 0 {
        let k = choose|k: int| call_at(first, test_callee(test), k, callee);
        assert(call_at(first, test_callee(test), k, callee));
        let n = choose|n: int| #[trigger] call_at(second, test_callee(test), n, callee);
        assert(call_at(second, test_callee(test), n, callee));
        false
    } else {
        let (caller, k, before) = choose|caller: Callee, k: int, before: bool|
            {
                &&& reached(first, tests, test, caller, (distance - 1) as nat, before)
                &&& first.followed(caller)
                &&& #[trigger] link(first, caller, k, callee, before, tainted)
            };
        let still_before = lemma_reached_with_more_calls(
            first,
            second,
            tests,
            test,
            caller,
            (distance - 1) as nat,
            before,
        );
        assert(call_at(first, caller, k, callee));
        let n = choose|n: int|
            {
                &&& #[trigger] call_at(second, caller, n, callee)
                &&& first.calls(caller)[k].safety == Safety::Unsafe ==> second.calls(caller)[n].safety
                    == Safety::Unsafe
            };
        let still = still_before || second.calls(caller)[n].safety == Safety::Unsafe;
        assert(first.spec_def_info(caller.def_id) == second.spec_def_info(caller.def_id));
        assert(second.followed(caller));
        assert(link(second, caller, n, callee, still_before, still));
        still
    }
}

/// A search over more calls, or to a greater depth, never lowers the
/// unsafety that is recorded for a target.
pub proof fn lemma_unsafety_never_lowered(
    before: Target,
    after: Target,
    first: Resolutions,
    second: Resolutions,
    tests: Seq<Test>,
    depth: nat,
    deeper: nat,
)
    requires
        adds_calls(first, second),
        depth <= deeper,
        before.def_id == after.def_id,
        target_matches(before, first, tests, depth),
        target_matches(after, second, tests, deeper),
    ensures
        before.unsafety.rank() <= after.unsafety.rank(),
{
    let def = before.def_id.0;
    let def_id = DefId { krate: 0, index: def };
    assert(first.spec_def_info(def_id) == second.spec_def_info(def_id));
    if tainted_within(first, tests, depth, def) {
        let (test, distance) = choose|test: u32, distance: nat|
            distance < depth && #[trigger] reaches(first, tests, test, def, distance, true);
        let args = choose|args: u32| #[trigger]
            reached(
                first,
                tests,
                test,
                Callee { def_id, generic_args: GenericArgs(args) },
                distance,
                true,
            );
        let still = lemma_reached_with_more_calls(
            first,
            second,
            tests,
            test,
            Callee { def_id, generic_args: GenericArgs(args) },
            distance,
            true,
        );
        assert(reaches(second, tests, test, def, distance, true));
        assert(tainted_within(second, tests, deeper, def));
    }
}


/// Some test of the list has the definition index.
pub open spec fn is_test(tests: Seq<Test>, index: u32) -> bool {
    exists|t: int| 0 <= t < tests.len() && (#[trigger] tests[t]).def_id.0 == index
}

/// Whether mutations can be put into a definition: it is a function of the
/// crate under test with a body, not the entry point of the program, no
/// compile-time function, no test, and not excluded.
pub open spec fn is_mutable_fn(info: DefInfo, tests: Seq<Test>) -> bool {
    &&& info.def_id.krate == 0
    &&& info.is_fn
    &&& !info.is_entry_fn
    &&& !info.is_const_fn
    &&& info.has_body
    &&& !is_test(tests, info.def_id.index)
    &&& !info.excluded
}

fn is_test_def(tests: &[Test], index: u32) -> (r: bool)
    ensures
        r == is_test(tests@, index),
{
    let mut t: usize = 0;
    while t < tests.len()
        invariant
            0 <= t <= tests.len(),
            forall|k: int| 0 <= k < t ==> (#[trigger] tests@[k]).def_id.0 != index,
        decreases tests.len() - t,
    {
        if tests[t].def_id.0 == index {
            return true;
        }
        t += 1;
    }
    false
}

/// All functions that mutations can be put into, in the order of the
/// definitions. Closures are not among them: they count as parts of the
/// functions that hold them.
pub fn all_mutable_fns(resolutions: &Resolutions, tests: &[Test]) -> (fns: Vec<LocalDefId>)
    ensures
        fns@ == resolutions.defs@.filter(|info: DefInfo| is_mutable_fn(info, tests@)).map_values(
            |info: DefInfo| LocalDefId(info.def_id.index),
        ),
{
    let ghost pred = |info: DefInfo| is_mutable_fn(info, tests@);
    let ghost index = |info: DefInfo| LocalDefId(info.def_id.index);
    let mut fns: Vec<LocalDefId> = Vec::new();
    let mut i: usize = 0;
    proof {
        assert(resolutions.defs@.take(0).filter(pred) =~= Seq::empty()) by {
            reveal(Seq::filter);
        }
        assert(fns@ =~= resolutions.defs@.take(0).filter(pred).map_values(index));
    }
    while i < resolutions.defs.len()
        invariant
            0 <= i <= resolutions.defs.len(),
            pred == |info: DefInfo| is_mutable_fn(info, tests@),
            index == |info: DefInfo| LocalDefId(info.def_id.index),
            fns@ == resolutions.defs@.take(i as int).filter(pred).map_values(index),
        decreases resolutions.defs.len() - i,
    {
        let info = resolutions.defs[i];
        let ghost before = resolutions.defs@.take(i as int).filter(pred);
        proof {
            crate::text::lemma_filter_next(resolutions.defs@, pred, i as int);
        }
        if info.def_id.krate == 0 && info.is_fn && !info.is_entry_fn && !info.is_const_fn
            && info.has_body && !is_test_def(tests, info.def_id.index) && !info.excluded {
            fns.push(LocalDefId(info.def_id.index));
            proof {
                assert(before.push(info).map_values(index) =~= before.map_values(index).push(
                    index(info),
                ));
            }
        }
        i += 1;
    }
    assert(resolutions.defs@.take(i as int) =~= resolutions.defs@);
    fns
}

} // verus!
