//! What a built program knows of its mutants and mutations.
//!
//! The tests that reach a mutation, with their call distances, are held in
//! a static map of `phf`, keyed by the paths of the tests. The functions
//! that look into such a map take only maps of `phf`'s making.

use vstd::prelude::*;

verus! {

#[verifier::external_type_specification]
#[verifier::external_body]
#[verifier::reject_recursive_types(K)]
#[verifier::reject_recursive_types(V)]
pub struct ExPhfMap<K: 'static, V: 'static>(phf::Map<K, V>);

/// The distances that a map of tests holds, by the paths of the tests.
pub uninterp spec fn distances(map: phf::Map<&'static str, usize>) -> Map<Seq<char>, usize>;

/// The map is of `phf`'s making: its tables are those that the macros or
/// the generator of `phf` made of fewer than 2^32 keys, or it is the empty
/// map of `phf::Map::new`. A lookup in any other map may fail; the fields
/// of the type are open to every caller.
pub uninterp spec fn made_by_phf(map: phf::Map<&'static str, usize>) -> bool;

/// `phf::Map::new`: a map of `phf`'s making that holds nothing.
#[verifier::external_body]
pub(crate) fn no_distances() -> (map: phf::Map<&'static str, usize>)
    ensures
        made_by_phf(map),
        distances(map) == (Map::<Seq<char>, usize>::empty()),
{
    phf::Map::new()
}

/// `phf::Map::get` on a map of `phf`'s making: the distance of the test
/// with the path, where the map holds it.
#[verifier::external_body]
pub(crate) fn distance_of(map: &phf::Map<&'static str, usize>, test: &str) -> (distance: Option<usize>)
    requires
        made_by_phf(*map),
    ensures
        distance == (if distances(*map).contains_key(test@) {
            Some(distances(*map)[test@])
        } else {
            None
        }),
{
    map.get(test).copied()
}

/// How unsafe code bears on a mutation.
#[derive(Clone, Copy, Debug, PartialEq, Eq, Structural)]
pub enum MutationSafety {
    Safe,
    Tainted,
    Unsafe,
}

/// A mutation of a built program.
pub struct MutationMeta {
    pub id: u32,
    pub safety: MutationSafety,
    pub op_name: &'static str,
    pub display_name: &'static str,
    pub display_location: &'static str,
    /// The tests that reach the mutation, with their call distances.
    pub reachable_from: phf::Map<&'static str, usize>,
    pub undetected_diagnostic: &'static str,
}

impl MutationMeta {
    /// The map of the tests that reach the mutation is of `phf`'s making.
    pub open spec fn wf(&self) -> bool {
        made_by_phf(self.reachable_from)
    }

    /// The test with the path reaches the mutation.
    pub open spec fn reached_by(&self, test: Seq<char>) -> bool {
        distances(self.reachable_from).contains_key(test)
    }

    /// A mutation that no test reaches.
    pub fn reached_by_none(
        id: u32,
        safety: MutationSafety,
        op_name: &'static str,
        display_name: &'static str,
        display_location: &'static str,
        undetected_diagnostic: &'static str,
    ) -> (meta: Self)
        ensures
            meta.wf(),
            forall|test: Seq<char>| !meta.reached_by(test),
            meta.id == id,
            meta.safety == safety,
            meta.op_name == op_name,
            meta.display_name == display_name,
            meta.display_location == display_location,
            meta.undetected_diagnostic == undetected_diagnostic,
    {
        MutationMeta {
            id,
            safety,
            op_name,
            display_name,
            display_location,
            reachable_from: no_distances(),
            undetected_diagnostic,
        }
    }

    /// The call distance from the test with the path, where the test
    /// reaches the mutation.
    pub fn distance_from(&self, test: &str) -> (distance: Option<usize>)
        requires
            self.wf(),
        ensures
            distance == (if self.reached_by(test@) {
                Some(distances(self.reachable_from)[test@])
            } else {
                None
            }),
    {
        distance_of(&self.reachable_from, test)
    }

    /// Whether the test with the path reaches the mutation.
    pub fn is_reached_by(&self, test: &str) -> (r: bool)
        requires
            self.wf(),
        ensures
            r == self.reached_by(test@),
    {
        distance_of(&self.reachable_from, test).is_some()
    }
}

/// What stands at a place of a built program while a mutant is active: the
/// mutation whose substitution is in force there.
pub struct SubstMeta {
    pub mutation: &'static MutationMeta,
}

/// The maps of all the mutations are of `phf`'s making.
pub open spec fn all_wf(mutations: Seq<&'static MutationMeta>) -> bool {
    forall|i: int| 0 <= i < mutations.len() ==> (#[trigger] mutations[i]).wf()
}

/// The position of the first mutation at or after `from` that the test with
/// the path reaches.
pub open spec fn first_reached(mutations: Seq<&'static MutationMeta>, test: Seq<char>, from: int) -> Option<
    int,
>
    decreases mutations.len() - from,
{
    if from < 0 || from >= mutations.len() {
        None
    } else if mutations[from].reached_by(test) {
        Some(from)
    } else {
        first_reached(mutations, test, from + 1)
    }
}

/// A mutant of a built program: its mutations, and the substitutions that
/// activate them.
pub struct MutantMeta<S: 'static> {
    pub id: u32,
    pub mutations: &'static [&'static MutationMeta],
    pub substitutions: S,
}

impl<S> MutantMeta<S> {
    /// The maps of the mutations of the mutant are of `phf`'s making.
    pub open spec fn wf(&self) -> bool {
        all_wf(self.mutations@)
    }

    /// Some mutation of the mutant is not safe.
    pub open spec fn spec_is_unsafe(&self) -> bool {
        exists|i: int|
            0 <= i < self.mutations@.len() && (#[trigger] self.mutations@[i]).safety
                != MutationSafety::Safe
    }

    /// Whether some mutation of the mutant is not safe. Such a mutant is
    /// run apart from the process that drives the tests.
    pub fn is_unsafe(&self) -> (r: bool)
        ensures
            r == self.spec_is_unsafe(),
    {
        let mut i: usize = 0;
        while i < self.mutations.len()
            invariant
                0 <= i <= self.mutations.len(),
                forall|k: int|
                    0 <= k < i ==> (#[trigger] self.mutations@[k]).safety == MutationSafety::Safe,
            decreases self.mutations.len() - i,
        {
            if !matches!(self.mutations[i].safety, MutationSafety::Safe) {
                return true;
            }
            i += 1;
        }
        false
    }

    /// Some mutation of the mutant is reached by the test with the path.
    pub open spec fn reached_by(&self, test: Seq<char>) -> bool {
        exists|i: int|
            0 <= i < self.mutations@.len() && (#[trigger] self.mutations@[i]).reached_by(test)
    }

    /// The position of the first mutation of the mutant that the test with
    /// the path reaches.
    pub open spec fn spec_first_reached_by(&self, test: Seq<char>) -> Option<int> {
        first_reached(self.mutations@, test, 0)
    }

    /// The position of the first mutation of the mutant that the test with
    /// the path reaches.
    pub fn first_reached_by(&self, test: &str) -> (found: Option<usize>)
        requires
            self.wf(),
        ensures
            found is Some <==> self.reached_by(test@),
            found matches Some(i) ==> {
                &&& self.spec_first_reached_by(test@) == Some(i as int)
                &&& i < self.mutations@.len()
                &&& self.mutations@[i as int].reached_by(test@)
            },
    {
        let mut i: usize = 0;
        while i < self.mutations.len()
            invariant
                0 <= i <= self.mutations.len(),
                self.wf(),
                forall|k: int| 0 <= k < i ==> !(#[trigger] self.mutations@[k]).reached_by(test@),
                first_reached(self.mutations@, test@, 0) == first_reached(
                    self.mutations@,
                    test@,
                    i as int,
                ),
            decreases self.mutations.len() - i,
        {
            if self.mutations[i].is_reached_by(test) {
                return Some(i);
            }
            i += 1;
        }
        None
    }
}

} // verus!
