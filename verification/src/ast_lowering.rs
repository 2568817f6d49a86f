//! The correspondence between the nodes of the syntax tree and the nodes of
//! the resolved tree of a body, found by walking both trees side by side.

use vstd::prelude::*;
use rustc_hash::FxHashMap;
use crate::fx::map_get;
use crate::fx::map_insert;
use crate::fx::map_new;
use visit::fits_fn;
use visit::Pair;
use visit::pairs_fn;
use visit::walk_fn;

pub mod ast;
pub mod hir;
pub mod visit;

verus! {

/// No node was paired with two different nodes of the other tree.
pub open spec fn consistent(pairs: Seq<Pair>) -> bool {
    forall|i: int, j: int|
        0 <= i < pairs.len() && 0 <= j < pairs.len() ==> ((#[trigger] pairs[i]).0 == (
        #[trigger] pairs[j]).0 <==> pairs[i].1 == pairs[j].1)
}

/// Why the nodes of a body could not be resolved.
#[derive(Clone, Copy, Debug, PartialEq, Eq)]
pub enum BodyResolutionError {
    /// The trees do not fit each other.
    Unmatched,
    /// A node goes with two different nodes of the other tree.
    Ambiguous,
}

/// For the nodes of the syntax tree of a body, the nodes of the resolved
/// tree that were made of them, and the other way round.
pub struct BodyResolutions {
    node_id_to_hir_id: FxHashMap<u32, (u32, u32)>,
    hir_id_to_node_id: FxHashMap<(u32, u32), u32>,
}

impl BodyResolutions {
    /// The node of the resolved tree for each node of the syntax tree that
    /// has one.
    pub closed spec fn by_node(&self) -> Map<u32, (u32, u32)> {
        self.node_id_to_hir_id@
    }

    /// The node of the syntax tree for each node of the resolved tree that
    /// has one.
    pub closed spec fn by_hir(&self) -> Map<(u32, u32), u32> {
        self.hir_id_to_node_id@
    }

    /// The two directions hold exactly the given pairs.
    pub open spec fn holds(&self, pairs: Seq<Pair>) -> bool {
        &&& forall|node_id: u32, hir_id: (u32, u32)|
            #![trigger pairs.contains((node_id, hir_id))]
            pairs.contains((node_id, hir_id)) <==> self.by_node().contains_key(node_id)
                && self.by_node()[node_id] == hir_id
        &&& forall|node_id: u32, hir_id: (u32, u32)|
            #![trigger pairs.contains((node_id, hir_id))]
            pairs.contains((node_id, hir_id)) <==> self.by_hir().contains_key(hir_id)
                && self.by_hir()[hir_id] == node_id
    }

    /// The node of the syntax tree that the given node of the resolved
    /// tree was made of.
    pub fn ast_id(&self, hir_id: hir::HirId) -> (node_id: Option<u32>)
        ensures
            node_id == if self.by_hir().contains_key(hir_id.spec_key()) {
                Some(self.by_hir()[hir_id.spec_key()])
            } else {
                None
            },
    {
        match map_get(&self.hir_id_to_node_id, hir_id.key()) {
            Some(node_id) => Some(*node_id),
            None => None,
        }
    }

    /// The node of the resolved tree that was made of the given node of
    /// the syntax tree.
    pub fn hir_id(&self, node_id: u32) -> (hir_id: Option<hir::HirId>)
        ensures
            hir_id == if self.by_node().contains_key(node_id) {
                Some(
                    (hir::HirId {
                        owner: self.by_node()[node_id].0,
                        local_id: self.by_node()[node_id].1,
                    }),
                )
            } else {
                None
            },
    {
        match map_get(&self.node_id_to_hir_id, node_id) {
            Some(key) => Some(hir::HirId { owner: key.0, local_id: key.1 }),
            None => None,
        }
    }
}

/// The two directions of a list of pairs, if no node goes with two
/// different nodes of the other tree.
pub fn index_pairs(pairs: &Vec<Pair>) -> (found: Option<BodyResolutions>)
    ensures
        found is Some <==> consistent(pairs@),
        found matches Some(resolutions) ==> resolutions.holds(pairs@),
{
    let mut resolutions = BodyResolutions { node_id_to_hir_id: map_new(), hir_id_to_node_id: map_new() };
    let mut i: usize = 0;
    while i < pairs.len()
        invariant
            i <= pairs.len(),
            consistent(pairs@.take(i as int)),
            resolutions.holds(pairs@.take(i as int)),
        decreases pairs.len() - i,
    {
        let (node_id, hir_id) = pairs[i];
        let ghost seen = pairs@.take(i as int);
        let ghost next = pairs@.take(i + 1);
        let ghost before = resolutions;
        assert(next =~= seen.push((node_id, hir_id)));
        let known_hir_id = match map_get(&resolutions.node_id_to_hir_id, node_id) {
            Some(known) => Some(*known),
            None => None,
        };
        let known_node_id = match map_get(&resolutions.hir_id_to_node_id, hir_id) {
            Some(known) => Some(*known),
            None => None,
        };
        let clash = match known_hir_id {
            Some(known) => known.0 != hir_id.0 || known.1 != hir_id.1,
            None => false,
        } || match known_node_id {
            Some(known) => known != node_id,
            None => false,
        };
        if clash {
            proof {
                let other = if known_hir_id is Some && known_hir_id->0 != hir_id {
                    (node_id, known_hir_id->0)
                } else {
                    (known_node_id->0, hir_id)
                };
                assert(seen.contains(other));
                let j = choose|j: int| 0 <= j < seen.len() && seen[j] == other;
                assert(pairs@[j] == other);
                assert(pairs@[i as int] == (node_id, hir_id));
            }
            return None;
        }
        map_insert(&mut resolutions.node_id_to_hir_id, node_id, hir_id);
        map_insert(&mut resolutions.hir_id_to_node_id, hir_id, node_id);
        proof {
            assert forall|a: int, b: int| 0 <= a < next.len() && 0 <= b < next.len() implies ((
            #[trigger] next[a]).0 == (#[trigger] next[b]).0 <==> next[a].1 == next[b].1) by {
                if a < i {
                    assert(seen[a] == next[a]);
                    assert(seen.contains((next[a].0, next[a].1)));
                }
                if b < i {
                    assert(seen[b] == next[b]);
                    assert(seen.contains((next[b].0, next[b].1)));
                }
            }
            assert forall|n: u32, h: (u32, u32)| #![trigger next.contains((n, h))]
                (next.contains((n, h)) <==> resolutions.by_node().contains_key(n)
                    && resolutions.by_node()[n] == h) && (next.contains((n, h))
                    <==> resolutions.by_hir().contains_key(h) && resolutions.by_hir()[h] == n) by {
                if next.contains((n, h)) {
                    let k = choose|k: int| 0 <= k < next.len() && next[k] == (n, h);
                    if k < i {
                        assert(seen[k] == (n, h));
                        assert(seen.contains((n, h)));
                    }
                }
                if seen.contains((n, h)) {
                    let k = choose|k: int| 0 <= k < seen.len() && seen[k] == (n, h);
                    assert(next[k] == (n, h));
                }
                assert(next[i as int] == (node_id, hir_id));
            }
        }
        i += 1;
    }
    assert(pairs@.take(pairs@.len() as int) =~= pairs@);
    Some(resolutions)
}

/// The two directions of a correspondence agree: a node of the syntax tree
/// leads to a node of the resolved tree exactly if that node leads back to
/// it.
pub proof fn lemma_directions_agree(
    resolutions: BodyResolutions,
    pairs: Seq<Pair>,
    node_id: u32,
    hir_id: (u32, u32),
)
    requires
        resolutions.holds(pairs),
    ensures
        resolutions.by_node().contains_key(node_id) && resolutions.by_node()[node_id] == hir_id
            <==> resolutions.by_hir().contains_key(hir_id) && resolutions.by_hir()[hir_id]
            == node_id,
{
    if pairs.contains((node_id, hir_id)) {
    }
}

/// What resolving the nodes of a function comes to: the pairs of the walk,
/// where the trees fit each other and no node goes with two different
/// nodes of the other tree.
pub open spec fn resolved(fn_ast: ast::FnItem, fn_hir: hir::FnItem) -> Result<Seq<Pair>, BodyResolutionError> {
    match pairs_fn(fn_ast.spec_kind(), fn_hir.kind, fn_hir.body) {
        Some(pairs) => if consistent(pairs) {
            Ok(pairs)
        } else {
            Err(BodyResolutionError::Ambiguous)
        },
        None => Err(BodyResolutionError::Unmatched),
    }
}

/// Resolves the nodes of a function: walks its syntax tree and its resolved
/// tree side by side and keeps the pairs of nodes in both directions.
pub fn resolve_body(fn_ast: &ast::FnItem, fn_hir: &hir::FnItem) -> (result: Result<
    BodyResolutions,
    BodyResolutionError,
>)
    ensures
        match result {
            Ok(resolutions) => resolved(*fn_ast, *fn_hir) is Ok && resolutions.holds(
                resolved(*fn_ast, *fn_hir)->Ok_0,
            ),
            Err(error) => resolved(*fn_ast, *fn_hir) == Err::<Seq<Pair>, _>(error),
        },
{
    let kind_ast = fn_ast.kind();
    if !fits_fn(kind_ast, fn_hir.kind, &fn_hir.body) {
        return Err(BodyResolutionError::Unmatched);
    }
    let mut pairs: Vec<Pair> = Vec::new();
    walk_fn(&mut pairs, kind_ast, fn_hir.kind, &fn_hir.body);
    assert(pairs@ =~= pairs_fn(kind_ast, fn_hir.kind, fn_hir.body)->0);
    match index_pairs(&pairs) {
        Some(resolutions) => Ok(resolutions),
        None => Err(BodyResolutionError::Ambiguous),
    }
}

} // verus!
