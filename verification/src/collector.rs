//! The walk over a target that finds the places where mutations may apply
//! and asks every operator what it proposes there.
//!
//! The walk goes over the function, then its parameters, then the
//! statements and expressions of its body, each before what it holds. The
//! mutations are numbered from 1 in the order in which the walk finds them.

use vstd::prelude::*;
use crate::mutation::Mut;
use crate::mutation::MutCtxt;
use crate::mutation::MutId;
use crate::mutation::MutLoc;
use crate::mutation::Mutations;
use crate::mutation::Operator;
use crate::reachability::Target;
use crate::subst::SubstDef;
use crate::subst::Substs;
use crate::syntax::Arm;
use crate::syntax::Block;
use crate::syntax::Crate;
use crate::syntax::Else;
use crate::syntax::Expr;
use crate::syntax::ExprKind;
use crate::syntax::FnItem;
use crate::syntax::IfExpr;
use crate::syntax::Operand;
use crate::syntax::Param;
use crate::syntax::Span;
use crate::syntax::Stmt;
use crate::syntax::StmtKind;
use crate::unsafety::UnsafeSource;
use crate::unsafety::UnsafeTargeting;
use crate::unsafety::Unsafety;

verus! {

/// Where the walk stands.
#[derive(Clone, Copy)]
pub struct WalkCtxt<'trg> {
    /// The target that is walked.
    pub target: &'trg Target,
    pub unsafe_targeting: UnsafeTargeting,
    /// The walk is inside an `unsafe` block or an unsafe function.
    pub is_in_unsafe_block: bool,
    /// The walk is inside an expression that the compiler resolved to a
    /// closure. Nothing in there is a place for a mutation.
    pub in_closure: bool,
}

/// A place that the walk found in a target, with whether it lies in unsafe
/// code.
pub struct Site<'trg, 'ast> {
    pub target: &'trg Target,
    pub location: MutLoc<'ast>,
    pub is_in_unsafe_block: bool,
}

/// The places in a function: the function itself, then the places in its
/// parameters, then those in its body.
pub open spec fn sites_fn<'trg, 'ast>(fn_item: &'ast FnItem, cx: WalkCtxt<'trg>) -> Seq<Site<'trg, 'ast>> {
    seq![
        Site {
            target: cx.target,
            location: MutLoc::Fn(fn_item),
            is_in_unsafe_block: cx.is_in_unsafe_block,
        },
    ]
        + sites_params(fn_item.params@, fn_item, cx, 0) + (match &fn_item.body {
        Some(body) => sites_block(body, fn_item, cx),
        None => Seq::empty(),
    })
}

/// A parameter is a place if it has a resolved counterpart, lies in source
/// text, is not marked to be left alone, and is not inside a closure.
pub open spec fn sites_param<'trg, 'ast>(param: &'ast Param, fn_item: &'ast FnItem, cx: WalkCtxt<'trg>) -> Seq<
    Site<'trg, 'ast>,
> {
    match param.hir {
        Some(hir) => if !param.span.local || hir.ignore || cx.in_closure {
            Seq::empty()
        } else {
            seq![
                Site {
                    target: cx.target,
                    location: MutLoc::FnParam(param, fn_item),
                    is_in_unsafe_block: cx.is_in_unsafe_block,
                },
            ]
        },
        None => Seq::empty(),
    }
}

pub open spec fn sites_params<'trg, 'ast>(
    params: Seq<Param>,
    fn_item: &'ast FnItem,
    cx: WalkCtxt<'trg>,
    from: int,
) -> Seq<Site<'trg, 'ast>>
    decreases params.len() - from,
{
    if from < 0 || from >= params.len() {
        Seq::empty()
    } else {
        sites_param(&params[from], fn_item, cx) + sites_params(params, fn_item, cx, from + 1)
    }
}

/// The places in a block: those in its statements, in order. A block
/// without resolved counterpart, outside source text or marked to be left
/// alone holds none, and neither does an `unsafe` block unless the policy
/// opens unsafe code to mutation. Inside an `unsafe` block every place
/// counts as lying in unsafe code.
pub open spec fn sites_block<'trg, 'ast>(block: &'ast Block, fn_item: &'ast FnItem, cx: WalkCtxt<'trg>) -> Seq<
    Site<'trg, 'ast>,
>
    decreases block,
{
    match block.hir {
        Some(hir) => if !block.span.local || hir.ignore || (cx.unsafe_targeting
            != UnsafeTargeting::All && block.rules.spec_is_unsafe()) {
            Seq::empty()
        } else {
            sites_stmts(
                block.stmts@,
                fn_item,
                WalkCtxt {
                    is_in_unsafe_block: cx.is_in_unsafe_block || block.rules.spec_is_unsafe(),
                    ..cx
                },
                0,
            )
        },
        None => Seq::empty(),
    }
}

pub open spec fn sites_stmts<'trg, 'ast>(
    stmts: Seq<Stmt>,
    fn_item: &'ast FnItem,
    cx: WalkCtxt<'trg>,
    from: int,
) -> Seq<Site<'trg, 'ast>>
    decreases stmts, stmts.len() - from,
{
    if from < 0 || from >= stmts.len() {
        Seq::empty()
    } else {
        sites_stmt(&stmts[from], fn_item, cx) + sites_stmts(stmts, fn_item, cx, from + 1)
    }
}

/// The places in a statement. A lone semicolon and a nested item hold none.
/// An expression without semicolon is no place of its own: its places are
/// those of the expression. Any other statement is a place under the
/// conditions of a parameter, followed by the places in its expression and,
/// for a `let`, in its `else` block.
pub open spec fn sites_stmt<'trg, 'ast>(stmt: &'ast Stmt, fn_item: &'ast FnItem, cx: WalkCtxt<'trg>) -> Seq<
    Site<'trg, 'ast>,
>
    decreases stmt,
{
    match &stmt.kind {
        StmtKind::Empty => Seq::empty(),
        StmtKind::Item => Seq::empty(),
        StmtKind::Expr(expr) => sites_expr(expr, fn_item, cx),
        _ => match stmt.hir {
            Some(hir) => if !stmt.span.local || hir.ignore || cx.in_closure {
                Seq::empty()
            } else {
                seq![
                    Site {
                        target: cx.target,
                        location: MutLoc::FnBodyStmt(stmt, fn_item),
                        is_in_unsafe_block: cx.is_in_unsafe_block,
                    },
                ] + (match &stmt.kind {
                    StmtKind::Local(init, els) => (match init {
                        Some(init) => sites_expr(init, fn_item, cx),
                        None => Seq::empty(),
                    }) + (match els {
                        Some(els) => sites_block(els, fn_item, cx),
                        None => Seq::empty(),
                    }),
                    StmtKind::Semi(expr) => sites_expr(expr, fn_item, cx),
                    _ => Seq::empty(),
                })
            },
            None => Seq::empty(),
        },
    }
}

/// The places in an expression. Parentheses are looked through. An
/// expression is a place under the conditions of a parameter, except that a
/// block of a single statement is no place of its own; the places in its
/// operands follow. Of an assignment only the right-hand side is walked, of
/// a `match` the scrutinee and the guards and bodies of the arms, and of a
/// closure nothing.
pub open spec fn sites_expr<'trg, 'ast>(expr: &'ast Expr, fn_item: &'ast FnItem, cx: WalkCtxt<'trg>) -> Seq<
    Site<'trg, 'ast>,
>
    decreases expr,
{
    match &expr.kind {
        ExprKind::Paren(inner) => sites_expr(inner, fn_item, cx),
        _ => match &expr.hir {
            Some(hir) => if !expr.span.local || hir.ignore || cx.in_closure {
                Seq::empty()
            } else if is_single_stmt_block(expr) {
                sites_operands_of(expr, fn_item, cx)
            } else {
                seq![
                    Site {
                        target: cx.target,
                        location: MutLoc::FnBodyExpr(expr, fn_item),
                        is_in_unsafe_block: cx.is_in_unsafe_block,
                    },
                ] + sites_operands_of(
                    expr,
                    fn_item,
                    WalkCtxt { in_closure: cx.in_closure || hir.is_closure, ..cx },
                )
            },
            None => Seq::empty(),
        },
    }
}

/// The expression is a block that holds exactly one statement.
pub open spec fn is_single_stmt_block(expr: &Expr) -> bool {
    match &expr.kind {
        ExprKind::Block(block) => block.stmts@.len() == 1,
        _ => false,
    }
}

/// The places in what an expression holds.
pub open spec fn sites_operands_of<'trg, 'ast>(expr: &'ast Expr, fn_item: &'ast FnItem, cx: WalkCtxt<'trg>) -> Seq<
    Site<'trg, 'ast>,
>
    decreases expr, 0nat,
{
    match &expr.kind {
        ExprKind::Paren(inner) => sites_expr(inner, fn_item, cx),
        ExprKind::Binary(_, lhs, rhs) => sites_expr(lhs, fn_item, cx) + sites_expr(
            rhs,
            fn_item,
            cx,
        ),
        ExprKind::Assign(_, rhs) => sites_expr(rhs, fn_item, cx),
        ExprKind::AssignOp(_, _, rhs) => sites_expr(rhs, fn_item, cx),
        ExprKind::Block(block) => sites_block(block, fn_item, cx),
        ExprKind::If(if_expr) => sites_if(if_expr, fn_item, cx),
        ExprKind::Match(scrutinee, arms) => sites_expr(scrutinee, fn_item, cx) + sites_arms(
            arms@,
            fn_item,
            cx,
            0,
        ),
        ExprKind::Closure(_, _) => Seq::empty(),
        ExprKind::Other(operands) => sites_operands(operands@, fn_item, cx, 0),
    }
}

/// The places in an `if`: those in the condition, in the block, and in the
/// `else` branch, which is no place of its own.
pub open spec fn sites_if<'trg, 'ast>(if_expr: &'ast IfExpr, fn_item: &'ast FnItem, cx: WalkCtxt<'trg>) -> Seq<
    Site<'trg, 'ast>,
>
    decreases if_expr,
{
    sites_expr(&if_expr.cond, fn_item, cx) + sites_block(&if_expr.then_block, fn_item, cx) + (
    match &if_expr.els {
        Some(Else::If(nested)) => sites_if(nested, fn_item, cx),
        Some(Else::Block(block)) => sites_block(block, fn_item, cx),
        None => Seq::empty(),
    })
}

pub open spec fn sites_arm<'trg, 'ast>(arm: &'ast Arm, fn_item: &'ast FnItem, cx: WalkCtxt<'trg>) -> Seq<Site<'trg, 'ast>>
    decreases arm,
{
    (match &arm.guard {
        Some(guard) => sites_expr(guard, fn_item, cx),
        None => Seq::empty(),
    }) + (match &arm.body {
        Some(body) => sites_expr(body, fn_item, cx),
        None => Seq::empty(),
    })
}

pub open spec fn sites_arms<'trg, 'ast>(
    arms: Seq<Arm>,
    fn_item: &'ast FnItem,
    cx: WalkCtxt<'trg>,
    from: int,
) -> Seq<Site<'trg, 'ast>>
    decreases arms, arms.len() - from,
{
    if from < 0 || from >= arms.len() {
        Seq::empty()
    } else {
        sites_arm(&arms[from], fn_item, cx) + sites_arms(arms, fn_item, cx, from + 1)
    }
}

pub open spec fn sites_operand<'trg, 'ast>(operand: &'ast Operand, fn_item: &'ast FnItem, cx: WalkCtxt<'trg>) -> Seq<
    Site<'trg, 'ast>,
>
    decreases operand,
{
    match operand {
        Operand::Expr(expr) => sites_expr(expr, fn_item, cx),
        Operand::Block(block) => sites_block(block, fn_item, cx),
    }
}

pub open spec fn sites_operands<'trg, 'ast>(
    operands: Seq<Operand>,
    fn_item: &'ast FnItem,
    cx: WalkCtxt<'trg>,
    from: int,
) -> Seq<Site<'trg, 'ast>>
    decreases operands, operands.len() - from,
{
    if from < 0 || from >= operands.len() {
        Seq::empty()
    } else {
        sites_operand(&operands[from], fn_item, cx) + sites_operands(
            operands,
            fn_item,
            cx,
            from + 1,
        )
    }
}


/// What an operator proposed at a place: a mutation with its substitutions.
pub ghost struct Proposal<'trg, 'ast, M> {
    pub site: Site<'trg, 'ast>,
    pub mutation: M,
    pub substs: Seq<SubstDef<'ast>>,
}

/// What one operator's answer at a place amounts to.
pub open spec fn made<'trg, 'ast, M>(
    site: Site<'trg, 'ast>,
    answer: Seq<(M, Seq<SubstDef<'ast>>)>,
) -> Seq<Proposal<'trg, 'ast, M>> {
    Seq::new(
        answer.len(),
        |i: int| Proposal { site, mutation: answer[i].0, substs: answer[i].1 },
    )
}

/// What the first `upto` operators propose at a place, operator by
/// operator.
pub open spec fn proposals_at<'trg, 'ast, O: Operator>(
    operators: Seq<O>,
    def_site: Span,
    site: Site<'trg, 'ast>,
    upto: int,
) -> Seq<Proposal<'trg, 'ast, O::Mutation>>
    decreases upto,
{
    if upto <= 0 {
        Seq::empty()
    } else {
        proposals_at(operators, def_site, site, upto - 1) + made(
            site,
            operators[upto - 1].proposes(MutCtxt { def_site, location: site.location }),
        )
    }
}

/// What the operators propose at the places, place by place.
pub open spec fn proposals_of<'trg, 'ast, O: Operator>(
    operators: Seq<O>,
    def_site: Span,
    sites: Seq<Site<'trg, 'ast>>,
) -> Seq<Proposal<'trg, 'ast, O::Mutation>>
    decreases sites.len(),
{
    if sites.len() == 0 {
        Seq::empty()
    } else {
        proposals_of(operators, def_site, sites.drop_last()) + proposals_at(
            operators,
            def_site,
            sites.last(),
            operators.len() as int,
        )
    }
}

/// The mutation is the proposal, numbered `id`.
pub open spec fn realizes<'trg, 'ast, M>(
    mutation: Mut<'trg, 'ast, M>,
    proposal: Proposal<'trg, 'ast, M>,
    id: int,
) -> bool {
    &&& mutation.id.0 == id
    &&& mutation.target == proposal.site.target
    &&& mutation.span == proposal.site.location.spec_span()
    &&& mutation.is_in_unsafe_block == proposal.site.is_in_unsafe_block
    &&& mutation.mutation == proposal.mutation
    &&& mutation.substs@ == proposal.substs
}

/// The mutations are the first of the proposals, numbered from 1; all of
/// them unless the numbers ran out.
pub open spec fn tracks<'trg, 'ast, M>(
    mutations: Seq<Mut<'trg, 'ast, M>>,
    next_mut_index: u32,
    exhausted: bool,
    proposals: Seq<Proposal<'trg, 'ast, M>>,
) -> bool {
    &&& next_mut_index == mutations.len() + 1
    &&& mutations.len() <= proposals.len()
    &&& exhausted <==> mutations.len() < proposals.len()
    &&& exhausted ==> next_mut_index == u32::MAX
    &&& forall|i: int|
        0 <= i < mutations.len() ==> realizes(#[trigger] mutations[i], proposals[i], i + 1)
}

/// What the operators propose at the places of two lists, one after the
/// other, is what they propose at the first and then at the second.
pub proof fn lemma_proposals_of_concat<'trg, 'ast, O: Operator>(
    operators: Seq<O>,
    def_site: Span,
    first: Seq<Site<'trg, 'ast>>,
    second: Seq<Site<'trg, 'ast>>,
)
    ensures
        proposals_of(operators, def_site, first + second) == proposals_of(operators, def_site, first)
            + proposals_of(operators, def_site, second),
    decreases second.len(),
{
    if second.len() == 0 {
        assert(first + second =~= first);
        assert(proposals_of(operators, def_site, first) + proposals_of(operators, def_site, second)
            =~= proposals_of(operators, def_site, first));
    } else {
        let all = first + second;
        assert(all.drop_last() =~= first + second.drop_last());
        assert(all.last() == second.last());
        lemma_proposals_of_concat(operators, def_site, first, second.drop_last());
        let head = proposals_of(operators, def_site, first);
        let middle = proposals_of(operators, def_site, second.drop_last());
        let tail = proposals_at(operators, def_site, second.last(), operators.len() as int);
        assert((head + middle) + tail =~= head + (middle + tail));
    }
}

struct MutationCollector<'trg, 'ast, 'op, O: Operator> {
    operators: &'op [O],
    def_site: Span,
    next_mut_index: u32,
    exhausted: bool,
    mutations: Vec<Mut<'trg, 'ast, O::Mutation>>,
    visited: Ghost<Seq<Site<'trg, 'ast>>>,
}

impl<'trg, 'ast, 'op, O: Operator> MutationCollector<'trg, 'ast, 'op, O> {
    spec fn wf(&self) -> bool {
        tracks(
            self.mutations@,
            self.next_mut_index,
            self.exhausted,
            proposals_of(self.operators@, self.def_site, self.visited@),
        )
    }

    /// The collector went on from `before` over `sites`.
    spec fn went_over(&self, before: &Self, sites: Seq<Site<'trg, 'ast>>) -> bool {
        &&& self.wf()
        &&& self.operators == before.operators
        &&& self.def_site == before.def_site
        &&& self.visited@ == before.visited@ + sites
    }

    fn new(operators: &'op [O], def_site: Span) -> (collector: Self)
        ensures
            collector.wf(),
            collector.operators == operators,
            collector.def_site == def_site,
            collector.visited@ == Seq::<Site<'trg, 'ast>>::empty(),
    {
        MutationCollector {
            operators,
            def_site,
            next_mut_index: 1,
            exhausted: false,
            mutations: Vec::new(),
            visited: Ghost(Seq::empty()),
        }
    }

    /// Asks every operator in turn what it proposes at the place, and makes
    /// a mutation of each proposal, with the next number.
    fn register(&mut self, target: &'trg Target, location: MutLoc<'ast>, is_in_unsafe_block: bool)
        requires
            old(self).wf(),
        ensures
            final(self).went_over(old(self), seq![Site { target, location, is_in_unsafe_block }]),
    {
        let mcx = MutCtxt { def_site: self.def_site, location };
        let ghost site = Site { target, location, is_in_unsafe_block };
        let ghost operators = self.operators@;
        let ghost def_site = self.def_site;
        let ghost base = proposals_of(operators, def_site, self.visited@);
        let mut k: usize = 0;
        assert(base + proposals_at(operators, def_site, site, 0) =~= base);
        while k < self.operators.len()
            invariant
                0 <= k <= self.operators.len(),
                self.operators == old(self).operators,
                self.def_site == old(self).def_site,
                self.visited@ == old(self).visited@,
                operators == self.operators@,
                def_site == self.def_site,
                mcx == (MutCtxt { def_site, location }),
                site == (Site { target, location, is_in_unsafe_block }),
                tracks(
                    self.mutations@,
                    self.next_mut_index,
                    self.exhausted,
                    base + proposals_at(operators, def_site, site, k as int),
                ),
            decreases self.operators.len() - k,
        {
            let proposed = self.operators[k].try_apply(&mcx);
            let ghost answer = operators[k as int].proposes(mcx);
            let ghost start = base + proposals_at(operators, def_site, site, k as int);
            let list = proposed.0;
            let ghost all = list@;
            proof {
                assert(proposed@ == answer);
                assert(made(site, answer.take(0)) =~= Seq::empty());
                assert(start + made(site, answer.take(0)) =~= start);
                assert forall|j: int| 0 <= j < all.len() implies (#[trigger] all[j]).0
                    == answer[j].0 && all[j].1@ == answer[j].1 by {
                    assert(proposed@[j] == (all[j].0, all[j].1@));
                }
            }
            for item in it: list
                invariant
                    it.seq() == all,
                    all.len() == answer.len(),
                    forall|j: int|
                        0 <= j < all.len() ==> (#[trigger] all[j]).0 == answer[j].0 && all[j].1@
                            == answer[j].1,
                    self.operators == old(self).operators,
                    self.def_site == old(self).def_site,
                    self.visited@ == old(self).visited@,
                    site == (Site { target, location, is_in_unsafe_block }),
                    tracks(
                        self.mutations@,
                        self.next_mut_index,
                        self.exhausted,
                        start + made(site, answer.take(it.index() as int)),
                    ),
            {
                let ghost j = it.index() as int;
                let ghost before = start + made(site, answer.take(j));
                let ghost proposal = Proposal { site, mutation: item.0, substs: item.1@ };
                proof {
                    assert(all[j] == item);
                    assert(start + made(site, answer.take(j + 1)) =~= before.push(proposal));
                }
                let (mutation, substs) = item;
                if self.next_mut_index < u32::MAX {
                    self.mutations.push(
                        Mut {
                            id: MutId(self.next_mut_index),
                            target,
                            span: location.span(),
                            is_in_unsafe_block,
                            mutation,
                            substs,
                        },
                    );
                    self.next_mut_index += 1;
                } else {
                    self.exhausted = true;
                }
            }
            proof {
                assert(answer.take(answer.len() as int) =~= answer);
                assert(start + made(site, answer) =~= base + proposals_at(
                    operators,
                    def_site,
                    site,
                    k + 1,
                ));
            }
            k += 1;
        }
        proof {
            let after = self.visited@.push(site);
            assert(after.drop_last() =~= self.visited@);
            assert(after.last() == site);
            assert(self.visited@ + seq![site] =~= after);
            self.visited = Ghost(after);
        }
    }

    fn visit_fn(&mut self, fn_item: &'ast FnItem, cx: WalkCtxt<'trg>)
        requires
            old(self).wf(),
        ensures
            final(self).went_over(old(self), sites_fn(fn_item, cx)),
    {
        let ghost start = self.visited@;
        self.register(cx.target, MutLoc::Fn(fn_item), cx.is_in_unsafe_block);
        let ghost own = seq![
            Site {
                target: cx.target,
                location: MutLoc::Fn(fn_item),
                is_in_unsafe_block: cx.is_in_unsafe_block,
            },
        ];
        let mut i: usize = 0;
        while i < fn_item.params.len()
            invariant
                0 <= i <= fn_item.params.len(),
                self.wf(),
                self.operators == old(self).operators,
                self.def_site == old(self).def_site,
                start == old(self).visited@,
                self.visited@ + sites_params(fn_item.params@, fn_item, cx, i as int) == start + own
                    + sites_params(fn_item.params@, fn_item, cx, 0),
            decreases fn_item.params.len() - i,
        {
            let ghost before = self.visited@;
            self.visit_param(&fn_item.params[i], fn_item, cx);
            proof {
                let one = sites_param(&fn_item.params@[i as int], fn_item, cx);
                let rest = sites_params(fn_item.params@, fn_item, cx, i + 1);
                assert((before + one) + rest =~= before + (one + rest));
            }
            i += 1;
        }
        proof {
            assert(self.visited@ + Seq::<Site<'trg, 'ast>>::empty() =~= self.visited@);
        }
        let ghost after_params = self.visited@;
        match &fn_item.body {
            Some(body) => {
                self.visit_block(body, fn_item, cx);
            },
            None => {
                proof {
                    assert(after_params + Seq::<Site<'trg, 'ast>>::empty() =~= after_params);
                }
            },
        }
        proof {
            let params = sites_params(fn_item.params@, fn_item, cx, 0);
            let body = match &fn_item.body {
                Some(body) => sites_block(body, fn_item, cx),
                None => Seq::empty(),
            };
            assert(((start + own) + params) + body =~= start + ((own + params) + body));
        }
    }

    fn visit_param(&mut self, param: &'ast Param, fn_item: &'ast FnItem, cx: WalkCtxt<'trg>)
        requires
            old(self).wf(),
        ensures
            final(self).went_over(old(self), sites_param(param, fn_item, cx)),
    {
        proof {
            assert(self.visited@ + Seq::<Site<'trg, 'ast>>::empty() =~= self.visited@);
        }
        let hir = match param.hir {
            Some(hir) => hir,
            None => {
                return ;
            },
        };
        if !param.span.local {
            return ;
        }
        if hir.ignore {
            return ;
        }
        // Nested function bodies are no part of a location.
        if cx.in_closure {
            return ;
        }
        self.register(cx.target, MutLoc::FnParam(param, fn_item), cx.is_in_unsafe_block);
    }

    fn visit_block(&mut self, block: &'ast Block, fn_item: &'ast FnItem, cx: WalkCtxt<'trg>)
        requires
            old(self).wf(),
        ensures
            final(self).went_over(old(self), sites_block(block, fn_item, cx)),
        decreases block,
    {
        proof {
            assert(self.visited@ + Seq::<Site<'trg, 'ast>>::empty() =~= self.visited@);
        }
        let hir = match block.hir {
            Some(hir) => hir,
            None => {
                return ;
            },
        };
        if !block.span.local {
            return ;
        }
        if hir.ignore {
            return ;
        }
        if !cx.unsafe_targeting.inside_unsafe() && block.rules.is_unsafe() {
            return ;
        }
        let inner = WalkCtxt {
            target: cx.target,
            unsafe_targeting: cx.unsafe_targeting,
            is_in_unsafe_block: cx.is_in_unsafe_block || block.rules.is_unsafe(),
            in_closure: cx.in_closure,
        };
        let ghost start = self.visited@;
        let mut i: usize = 0;
        while i < block.stmts.len()
            invariant
                0 <= i <= block.stmts.len(),
                self.wf(),
                self.operators == old(self).operators,
                self.def_site == old(self).def_site,
                start == old(self).visited@,
                self.visited@ + sites_stmts(block.stmts@, fn_item, inner, i as int) == start
                    + sites_stmts(block.stmts@, fn_item, inner, 0),
            decreases block.stmts.len() - i,
        {
            let ghost before = self.visited@;
            self.visit_stmt(&block.stmts[i], fn_item, inner);
            proof {
                let one = sites_stmt(&block.stmts@[i as int], fn_item, inner);
                let rest = sites_stmts(block.stmts@, fn_item, inner, i + 1);
                assert((before + one) + rest =~= before + (one + rest));
            }
            i += 1;
        }
        proof {
            assert(self.visited@ + Seq::<Site<'trg, 'ast>>::empty() =~= self.visited@);
        }
    }

    fn visit_stmt(&mut self, stmt: &'ast Stmt, fn_item: &'ast FnItem, cx: WalkCtxt<'trg>)
        requires
            old(self).wf(),
        ensures
            final(self).went_over(old(self), sites_stmt(stmt, fn_item, cx)),
        decreases stmt,
    {
        proof {
            assert(self.visited@ + Seq::<Site<'trg, 'ast>>::empty() =~= self.visited@);
        }
        let ghost start = self.visited@;
        // The following nodes have no resolved counterpart of their own.
        match &stmt.kind {
            StmtKind::Empty => {
                return ;
            },
            // Nested items are definitions of their own, not parts of the body.
            StmtKind::Item => {
                return ;
            },
            // Trailing expression statements go with the expression.
            StmtKind::Expr(expr) => {
                self.visit_expr(expr, fn_item, cx);
                return ;
            },
            _ => {},
        }
        let hir = match stmt.hir {
            Some(hir) => hir,
            None => {
                return ;
            },
        };
        if !stmt.span.local {
            return ;
        }
        if hir.ignore {
            return ;
        }
        if cx.in_closure {
            return ;
        }
        self.register(cx.target, MutLoc::FnBodyStmt(stmt, fn_item), cx.is_in_unsafe_block);
        let ghost own = seq![
            Site {
                target: cx.target,
                location: MutLoc::FnBodyStmt(stmt, fn_item),
                is_in_unsafe_block: cx.is_in_unsafe_block,
            },
        ];
        match &stmt.kind {
            StmtKind::Local(init, els) => {
                let ghost first = match init {
                    Some(init) => sites_expr(init, fn_item, cx),
                    None => Seq::empty(),
                };
                let ghost second = match els {
                    Some(els) => sites_block(els, fn_item, cx),
                    None => Seq::empty(),
                };
                match init {
                    Some(init) => {
                        self.visit_expr(init, fn_item, cx);
                    },
                    None => {
                        proof {
                            assert(self.visited@ + first =~= self.visited@);
                        }
                    },
                }
                match els {
                    Some(els) => {
                        self.visit_block(els, fn_item, cx);
                    },
                    None => {
                        proof {
                            assert(self.visited@ + second =~= self.visited@);
                        }
                    },
                }
                proof {
                    assert(((start + own) + first) + second =~= start + (own + (first + second)));
                }
            },
            StmtKind::Semi(expr) => {
                self.visit_expr(expr, fn_item, cx);
                proof {
                    let inner = sites_expr(expr, fn_item, cx);
                    assert((start + own) + inner =~= start + (own + inner));
                }
            },
            _ => {
                proof {
                    assert(start + own =~= start + (own + Seq::<Site<'trg, 'ast>>::empty()));
                }
            },
        }
    }

    fn visit_expr(&mut self, expr: &'ast Expr, fn_item: &'ast FnItem, cx: WalkCtxt<'trg>)
        requires
            old(self).wf(),
        ensures
            final(self).went_over(old(self), sites_expr(expr, fn_item, cx)),
        decreases expr, 1nat,
    {
        proof {
            assert(self.visited@ + Seq::<Site<'trg, 'ast>>::empty() =~= self.visited@);
        }
        let ghost start = self.visited@;
        // Parentheses have no resolved counterpart of their own.
        match &expr.kind {
            ExprKind::Paren(inner) => {
                self.visit_expr(inner, fn_item, cx);
                return ;
            },
            _ => {},
        }
        let hir = match &expr.hir {
            Some(hir) => hir,
            None => {
                return ;
            },
        };
        if !expr.span.local {
            return ;
        }
        if hir.ignore {
            return ;
        }
        if cx.in_closure {
            return ;
        }
        // A block of a single statement is passed over for what it holds.
        let single = match &expr.kind {
            ExprKind::Block(block) => block.stmts.len() == 1,
            _ => false,
        };
        if single {
            self.walk_expr(expr, fn_item, cx);
            return ;
        }
        self.register(cx.target, MutLoc::FnBodyExpr(expr, fn_item), cx.is_in_unsafe_block);
        let inner = WalkCtxt {
            target: cx.target,
            unsafe_targeting: cx.unsafe_targeting,
            is_in_unsafe_block: cx.is_in_unsafe_block,
            in_closure: cx.in_closure || hir.is_closure,
        };
        self.walk_expr(expr, fn_item, inner);
        proof {
            let own = seq![
                Site {
                    target: cx.target,
                    location: MutLoc::FnBodyExpr(expr, fn_item),
                    is_in_unsafe_block: cx.is_in_unsafe_block,
                },
            ];
            let held = sites_operands_of(expr, fn_item, inner);
            assert((start + own) + held =~= start + (own + held));
        }
    }

    /// Walks what an expression holds.
    fn walk_expr(&mut self, expr: &'ast Expr, fn_item: &'ast FnItem, cx: WalkCtxt<'trg>)
        requires
            old(self).wf(),
        ensures
            final(self).went_over(old(self), sites_operands_of(expr, fn_item, cx)),
        decreases expr, 0nat,
    {
        let ghost start = self.visited@;
        match &expr.kind {
            ExprKind::Paren(inner) => {
                self.visit_expr(inner, fn_item, cx);
            },
            ExprKind::Binary(_, lhs, rhs) => {
                self.visit_expr(lhs, fn_item, cx);
                self.visit_expr(rhs, fn_item, cx);
                proof {
                    let first = sites_expr(lhs, fn_item, cx);
                    let second = sites_expr(rhs, fn_item, cx);
                    assert((start + first) + second =~= start + (first + second));
                }
            },
            // The left-hand side of an assignment takes fewer kinds of expression
            // than a substitution needs, so only the right-hand side is walked.
            ExprKind::Assign(_, rhs) => {
                self.visit_expr(rhs, fn_item, cx);
            },
            ExprKind::AssignOp(_, _, rhs) => {
                self.visit_expr(rhs, fn_item, cx);
            },
            ExprKind::Block(block) => {
                self.visit_block(block, fn_item, cx);
            },
            // The else branch of an `if` is another `if` or a block: it is walked
            // for what it holds.
            ExprKind::If(if_expr) => {
                self.visit_if(if_expr, fn_item, cx);
            },
            // Only the matched expression and each arm's guard and body.
            ExprKind::Match(scrutinee, arms) => {
                self.visit_expr(scrutinee, fn_item, cx);
                self.visit_arms(arms, fn_item, cx);
                proof {
                    let first = sites_expr(scrutinee, fn_item, cx);
                    let second = sites_arms(arms@, fn_item, cx, 0);
                    assert((start + first) + second =~= start + (first + second));
                }
            },
            ExprKind::Closure(_, _) => {
                proof {
                    assert(start + Seq::<Site<'trg, 'ast>>::empty() =~= start);
                }
            },
            ExprKind::Other(operands) => {
                self.visit_operands(operands, fn_item, cx);
            },
        }
    }

    fn visit_if(&mut self, if_expr: &'ast IfExpr, fn_item: &'ast FnItem, cx: WalkCtxt<'trg>)
        requires
            old(self).wf(),
        ensures
            final(self).went_over(old(self), sites_if(if_expr, fn_item, cx)),
        decreases if_expr,
    {
        let ghost start = self.visited@;
        self.visit_expr(&if_expr.cond, fn_item, cx);
        self.visit_block(&if_expr.then_block, fn_item, cx);
        let ghost middle = self.visited@;
        match &if_expr.els {
            Some(Else::If(nested)) => {
                self.visit_if(nested, fn_item, cx);
            },
            Some(Else::Block(block)) => {
                self.visit_block(block, fn_item, cx);
            },
            None => {
                proof {
                    assert(middle + Seq::<Site<'trg, 'ast>>::empty() =~= middle);
                }
            },
        }
        proof {
            let first = sites_expr(&if_expr.cond, fn_item, cx);
            let second = sites_block(&if_expr.then_block, fn_item, cx);
            let third = match &if_expr.els {
                Some(Else::If(nested)) => sites_if(nested, fn_item, cx),
                Some(Else::Block(block)) => sites_block(block, fn_item, cx),
                None => Seq::empty(),
            };
            assert(((start + first) + second) + third =~= start + ((first + second) + third));
        }
    }

    fn visit_arms(&mut self, arms: &'ast Vec<Arm>, fn_item: &'ast FnItem, cx: WalkCtxt<'trg>)
        requires
            old(self).wf(),
        ensures
            final(self).went_over(old(self), sites_arms(arms@, fn_item, cx, 0)),
        decreases arms,
    {
        let ghost start = self.visited@;
        let mut i: usize = 0;
        while i < arms.len()
            invariant
                0 <= i <= arms.len(),
                self.wf(),
                self.operators == old(self).operators,
                self.def_site == old(self).def_site,
                start == old(self).visited@,
                self.visited@ + sites_arms(arms@, fn_item, cx, i as int) == start + sites_arms(
                    arms@,
                    fn_item,
                    cx,
                    0,
                ),
            decreases arms.len() - i,
        {
            let ghost before = self.visited@;
            let arm = &arms[i];
            let ghost first = match &arm.guard {
                Some(guard) => sites_expr(guard, fn_item, cx),
                None => Seq::empty(),
            };
            let ghost second = match &arm.body {
                Some(body) => sites_expr(body, fn_item, cx),
                None => Seq::empty(),
            };
            match &arm.guard {
                Some(guard) => {
                    self.visit_expr(guard, fn_item, cx);
                },
                None => {
                    proof {
                        assert(before + first =~= before);
                    }
                },
            }
            match &arm.body {
                Some(body) => {
                    self.visit_expr(body, fn_item, cx);
                },
                None => {
                    proof {
                        assert(self.visited@ + second =~= self.visited@);
                    }
                },
            }
            proof {
                let rest = sites_arms(arms@, fn_item, cx, i + 1);
                assert(sites_arm(arm, fn_item, cx) == first + second);
                assert(((before + first) + second) + rest =~= before + ((first + second) + rest));
            }
            i += 1;
        }
        proof {
            assert(self.visited@ + Seq::<Site<'trg, 'ast>>::empty() =~= self.visited@);
        }
    }

    fn visit_operands(&mut self, operands: &'ast Vec<Operand>, fn_item: &'ast FnItem, cx: WalkCtxt<'trg>)
        requires
            old(self).wf(),
        ensures
            final(self).went_over(old(self), sites_operands(operands@, fn_item, cx, 0)),
        decreases operands,
    {
        let ghost start = self.visited@;
        let mut i: usize = 0;
        while i < operands.len()
            invariant
                0 <= i <= operands.len(),
                self.wf(),
                self.operators == old(self).operators,
                self.def_site == old(self).def_site,
                start == old(self).visited@,
                self.visited@ + sites_operands(operands@, fn_item, cx, i as int) == start
                    + sites_operands(operands@, fn_item, cx, 0),
            decreases operands.len() - i,
        {
            let ghost before = self.visited@;
            match &operands[i] {
                Operand::Expr(expr) => {
                    self.visit_expr(expr, fn_item, cx);
                },
                Operand::Block(block) => {
                    self.visit_block(block, fn_item, cx);
                },
            }
            proof {
                let one = sites_operand(&operands@[i as int], fn_item, cx);
                let rest = sites_operands(operands@, fn_item, cx, i + 1);
                assert((before + one) + rest =~= before + (one + rest));
            }
            i += 1;
        }
        proof {
            assert(self.visited@ + Seq::<Site<'trg, 'ast>>::empty() =~= self.visited@);
        }
    }
}


/// The places in a target. A target holds none where the policy closes it
/// to mutation: any target that unsafety touches under the policy `Safe`,
/// and one whose unsafety comes from an unsafe function or call unless the
/// policy is `All`. Neither does a target that the crate does not hold. In
/// an unsafe function every place counts as lying in unsafe code.
pub open spec fn sites_target<'trg, 'ast>(
    krate: &'ast Crate,
    target: &'trg Target,
    unsafe_targeting: UnsafeTargeting,
) -> Seq<Site<'trg, 'ast>> {
    if unsafe_targeting == UnsafeTargeting::Safe && target.unsafety != Unsafety::Safe {
        Seq::empty()
    } else if unsafe_targeting != UnsafeTargeting::All && (target.unsafety == Unsafety::Unsafe(
        UnsafeSource::Unsafe,
    ) || target.unsafety == Unsafety::Tainted(UnsafeSource::Unsafe)) {
        Seq::empty()
    } else {
        match krate.spec_find_def(target.def_id) {
            Some(fn_item) => sites_fn(
                fn_item,
                WalkCtxt {
                    target,
                    unsafe_targeting,
                    is_in_unsafe_block: target.unsafety == Unsafety::Unsafe(UnsafeSource::Unsafe),
                    in_closure: false,
                },
            ),
            None => Seq::empty(),
        }
    }
}

/// The places in the first `upto` targets, target by target.
pub open spec fn sites_targets<'trg, 'ast>(
    krate: &'ast Crate,
    targets: &'trg [Target],
    unsafe_targeting: UnsafeTargeting,
    upto: int,
) -> Seq<Site<'trg, 'ast>>
    decreases upto,
{
    if upto <= 0 {
        Seq::empty()
    } else {
        sites_targets(krate, targets, unsafe_targeting, upto - 1) + sites_target(
            krate,
            &targets@[upto - 1],
            unsafe_targeting,
        )
    }
}

/// The mutations of the targets: what the operators propose at the places
/// of the targets, in the order of the walk, numbered from 1.
///
/// There is no result where the numbers run out, that is where the
/// operators propose `u32::MAX` mutations or more.
pub fn apply_mutation_operators<'trg, 'ast, 'op, O: Operator>(
    krate: &'ast Crate,
    targets: &'trg [Target],
    ops: &'op [O],
    unsafe_targeting: UnsafeTargeting,
    def_site: Span,
) -> (result: Option<Vec<Mut<'trg, 'ast, O::Mutation>>>)
    ensures
        result is Some <==> proposals_of(
            ops@,
            def_site,
            sites_targets(krate, targets, unsafe_targeting, targets@.len() as int),
        ).len() < u32::MAX,
        result matches Some(mutations) ==> mutations@.len() == proposals_of(
            ops@,
            def_site,
            sites_targets(krate, targets, unsafe_targeting, targets@.len() as int),
        ).len(),
        result matches Some(mutations) ==> forall|i: int|
            0 <= i < mutations@.len() ==> realizes(
                #[trigger] mutations@[i],
                proposals_of(
                    ops@,
                    def_site,
                    sites_targets(krate, targets, unsafe_targeting, targets@.len() as int),
                )[i],
                i + 1,
            ),
{
    let mut collector: MutationCollector<'trg, 'ast, 'op, O> = MutationCollector::new(ops, def_site);
    let mut i: usize = 0;
    while i < targets.len()
        invariant
            0 <= i <= targets.len(),
            collector.wf(),
            collector.operators == ops,
            collector.def_site == def_site,
            collector.visited@ == sites_targets(krate, targets, unsafe_targeting, i as int),
        decreases targets.len() - i,
    {
        let target = &targets[i];
        let ghost before = collector.visited@;
        proof {
            assert(before + Seq::<Site<'trg, 'ast>>::empty() =~= before);
        }
        let closed = (!unsafe_targeting.any() && target.unsafety.any())
            || (!unsafe_targeting.inside_unsafe() && matches!(
            target.unsafety,
            Unsafety::Unsafe(UnsafeSource::Unsafe) | Unsafety::Tainted(UnsafeSource::Unsafe)
        ));
        if !closed {
            match krate.find_def_in_ast(target.def_id) {
                Some(fn_item) => {
                    let cx = WalkCtxt {
                        target,
                        unsafe_targeting,
                        is_in_unsafe_block: matches!(
                            target.unsafety,
                            Unsafety::Unsafe(UnsafeSource::Unsafe)
                        ),
                        in_closure: false,
                    };
                    collector.visit_fn(fn_item, cx);
                },
                None => {},
            }
        }
        i += 1;
    }
    let ghost all = proposals_of(
        ops@,
        def_site,
        sites_targets(krate, targets, unsafe_targeting, targets@.len() as int),
    );
    if collector.exhausted {
        None
    } else {
        let mutations = collector.mutations;
        Some(mutations)
    }
}

} // verus!
