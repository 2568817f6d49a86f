//! Operators that swap a binary operator for a related one.
//!
//! An arithmetic or bitwise operator is only swapped where the types of the
//! operands implement the trait of the replacement, and, outside an
//! assignment, where that trait gives the type of the whole expression.

use vstd::prelude::*;
use vstd::string::StringExecFns;
use crate::collector::lemma_proposals_of_concat;
use crate::collector::made;
use crate::collector::proposals_at;
use crate::collector::proposals_of;
use crate::collector::sites_expr;
use crate::collector::sites_fn;
use crate::collector::sites_operands;
use crate::collector::sites_operands_of;
use crate::collector::sites_params;
use crate::collector::sites_block;
use crate::collector::sites_stmt;
use crate::collector::sites_stmts;
use crate::collector::sites_target;
use crate::collector::sites_targets;
use crate::collector::Proposal;
use crate::collector::Site;
use crate::collector::WalkCtxt;
use crate::mutation::MutCtxt;
use crate::mutation::MutLoc;
use crate::mutation::Mutation;
use crate::mutation::Mutations;
use crate::mutation::Operator;
use crate::subst::Subst;
use crate::subst::SubstDef;
use crate::subst::SubstExpr;
use crate::subst::SubstLoc;
use crate::subst::Substs;
use crate::syntax::BinOpKind;
use crate::syntax::Expr;
use crate::syntax::ExprKind;
use crate::syntax::Crate;
use crate::syntax::FnItem;
use crate::syntax::OpTraitFact;
use crate::syntax::Span;
use crate::syntax::StmtKind;
use crate::reachability::Target;
use crate::unsafety::UnsafeTargeting;
use crate::unsafety::Unsafety;

verus! {

/// Whether a binary operator stands alone or in an assignment.
#[derive(Clone, Copy, Debug, PartialEq, Eq, Structural)]
pub enum OpKind {
    Standalone,
    Assign,
}

impl OpKind {
    pub open spec fn spec_desc(self) -> Seq<char> {
        match self {
            OpKind::Standalone => "operator"@,
            OpKind::Assign => "assignment operator"@,
        }
    }

    /// The kind in words.
    pub fn desc(&self) -> (desc: &'static str)
        ensures
            desc@ == self.spec_desc(),
    {
        match self {
            OpKind::Standalone => "operator",
            OpKind::Assign => "assignment operator",
        }
    }
}

/// The first fact about `op` at or after `from`.
pub open spec fn find_fact(facts: Seq<OpTraitFact>, op: BinOpKind, from: int) -> Option<OpTraitFact>
    decreases facts.len() - from,
{
    if from < 0 || from >= facts.len() {
        None
    } else if facts[from].op == op {
        Some(facts[from])
    } else {
        find_fact(facts, op, from + 1)
    }
}

/// Whether the operands take the operator `op`: the trait of the operator
/// is known to be implemented, and, for an operator that stands alone, its
/// output is known to be the type of the whole expression.
pub open spec fn spec_impls_matching_op(facts: Seq<OpTraitFact>, op: BinOpKind, op_kind: OpKind) -> bool {
    match find_fact(facts, op, 0) {
        Some(fact) => fact.implemented && (match op_kind {
            OpKind::Standalone => fact.output_is_expr_ty == Some(true),
            OpKind::Assign => true,
        }),
        None => false,
    }
}

/// Whether the operands take the operator `op`.
pub fn impls_matching_op(facts: &Vec<OpTraitFact>, op: BinOpKind, op_kind: OpKind) -> (r: bool)
    ensures
        r == spec_impls_matching_op(facts@, op, op_kind),
{
    let mut i: usize = 0;
    while i < facts.len()
        invariant
            0 <= i <= facts.len(),
            find_fact(facts@, op, 0) == find_fact(facts@, op, i as int),
        decreases facts.len() - i,
    {
        if facts[i].op == op {
            let fact = facts[i];
            if !fact.implemented {
                return false;
            }
            return match op_kind {
                OpKind::Standalone => match fact.output_is_expr_ty {
                    Some(matches) => matches,
                    None => false,
                },
                OpKind::Assign => true,
            };
        }
        i += 1;
    }
    false
}

/// The operators that swap binary operators.
#[derive(Clone, Copy, Debug, PartialEq, Eq, Structural)]
pub enum OpSwap {
    /// Swap addition for subtraction and vice versa.
    OpAddSubSwap,
    /// Swap addition for multiplication and vice versa.
    OpAddMulSwap,
    /// Swap multiplication for division and vice versa.
    OpMulDivSwap,
    /// Swap division for modulus and vice versa.
    OpDivRemSwap,
    /// Swap bitwise OR for bitwise XOR and vice versa.
    BitOpOrXorSwap,
    /// Swap bitwise OR for bitwise AND and vice versa.
    BitOpOrAndSwap,
    /// Swap bitwise XOR for bitwise AND and vice versa.
    BitOpXorAndSwap,
    /// Swap the direction of bitwise shift operators.
    BitOpShiftDirSwap,
    /// Swap logical && for logical || and vice versa.
    LogicalOpAndOrSwap,
}

impl OpSwap {
    /// The two operators that the operator swaps.
    pub open spec fn pair(self) -> (BinOpKind, BinOpKind) {
        match self {
            OpSwap::OpAddSubSwap => (BinOpKind::Add, BinOpKind::Sub),
            OpSwap::OpAddMulSwap => (BinOpKind::Add, BinOpKind::Mul),
            OpSwap::OpMulDivSwap => (BinOpKind::Mul, BinOpKind::Div),
            OpSwap::OpDivRemSwap => (BinOpKind::Div, BinOpKind::Rem),
            OpSwap::BitOpOrXorSwap => (BinOpKind::BitOr, BinOpKind::BitXor),
            OpSwap::BitOpOrAndSwap => (BinOpKind::BitOr, BinOpKind::BitAnd),
            OpSwap::BitOpXorAndSwap => (BinOpKind::BitXor, BinOpKind::BitAnd),
            OpSwap::BitOpShiftDirSwap => (BinOpKind::Shl, BinOpKind::Shr),
            OpSwap::LogicalOpAndOrSwap => (BinOpKind::And, BinOpKind::Or),
        }
    }

    fn operators(&self) -> (pair: (BinOpKind, BinOpKind))
        ensures
            pair == self.pair(),
    {
        match self {
            OpSwap::OpAddSubSwap => (BinOpKind::Add, BinOpKind::Sub),
            OpSwap::OpAddMulSwap => (BinOpKind::Add, BinOpKind::Mul),
            OpSwap::OpMulDivSwap => (BinOpKind::Mul, BinOpKind::Div),
            OpSwap::OpDivRemSwap => (BinOpKind::Div, BinOpKind::Rem),
            OpSwap::BitOpOrXorSwap => (BinOpKind::BitOr, BinOpKind::BitXor),
            OpSwap::BitOpOrAndSwap => (BinOpKind::BitOr, BinOpKind::BitAnd),
            OpSwap::BitOpXorAndSwap => (BinOpKind::BitXor, BinOpKind::BitAnd),
            OpSwap::BitOpShiftDirSwap => (BinOpKind::Shl, BinOpKind::Shr),
            OpSwap::LogicalOpAndOrSwap => (BinOpKind::And, BinOpKind::Or),
        }
    }

    /// The operator that `op` is swapped for, if it is one of the two.
    pub open spec fn swapped(self, op: BinOpKind) -> Option<BinOpKind> {
        if op == self.pair().0 {
            Some(self.pair().1)
        } else if op == self.pair().1 {
            Some(self.pair().0)
        } else {
            None
        }
    }

    /// Whether the swap asks that the operand types take the replacement.
    /// The logical operators are defined on booleans only and need no
    /// check.
    pub open spec fn checks_types(self) -> bool {
        self != OpSwap::LogicalOpAndOrSwap
    }

    /// The family of the operators, as it is named in descriptions.
    pub open spec fn spec_group(self) -> Seq<char> {
        match self {
            OpSwap::OpAddSubSwap | OpSwap::OpAddMulSwap | OpSwap::OpMulDivSwap
            | OpSwap::OpDivRemSwap => Seq::empty(),
            OpSwap::BitOpOrXorSwap | OpSwap::BitOpOrAndSwap | OpSwap::BitOpXorAndSwap
            | OpSwap::BitOpShiftDirSwap => "bitwise "@,
            OpSwap::LogicalOpAndOrSwap => "logical "@,
        }
    }

    fn group(&self) -> (group: &'static str)
        ensures
            group@ == self.spec_group(),
    {
        proof {
            reveal_strlit("");
        }
        let group = match self {
            OpSwap::OpAddSubSwap | OpSwap::OpAddMulSwap | OpSwap::OpMulDivSwap
            | OpSwap::OpDivRemSwap => "",
            OpSwap::BitOpOrXorSwap | OpSwap::BitOpOrAndSwap | OpSwap::BitOpXorAndSwap
            | OpSwap::BitOpShiftDirSwap => "bitwise ",
            OpSwap::LogicalOpAndOrSwap => "logical ",
        };
        assert(""@ =~= Seq::<char>::empty());
        group
    }

    /// The name of the operator.
    pub open spec fn spec_name(self) -> Seq<char> {
        match self {
            OpSwap::OpAddSubSwap => "op_add_sub_swap"@,
            OpSwap::OpAddMulSwap => "op_add_mul_swap"@,
            OpSwap::OpMulDivSwap => "op_mul_div_swap"@,
            OpSwap::OpDivRemSwap => "op_div_rem_swap"@,
            OpSwap::BitOpOrXorSwap => "bit_op_or_xor_swap"@,
            OpSwap::BitOpOrAndSwap => "bit_op_or_and_swap"@,
            OpSwap::BitOpXorAndSwap => "bit_op_xor_and_swap"@,
            OpSwap::BitOpShiftDirSwap => "bit_op_shift_dir_swap"@,
            OpSwap::LogicalOpAndOrSwap => "logical_op_and_or_swap"@,
        }
    }

    /// The name of the operator.
    pub fn name(&self) -> (name: &'static str)
        ensures
            name@ == self.spec_name(),
    {
        match self {
            OpSwap::OpAddSubSwap => "op_add_sub_swap",
            OpSwap::OpAddMulSwap => "op_add_mul_swap",
            OpSwap::OpMulDivSwap => "op_mul_div_swap",
            OpSwap::OpDivRemSwap => "op_div_rem_swap",
            OpSwap::BitOpOrXorSwap => "bit_op_or_xor_swap",
            OpSwap::BitOpOrAndSwap => "bit_op_or_and_swap",
            OpSwap::BitOpXorAndSwap => "bit_op_xor_and_swap",
            OpSwap::BitOpShiftDirSwap => "bit_op_shift_dir_swap",
            OpSwap::LogicalOpAndOrSwap => "logical_op_and_or_swap",
        }
    }

    /// What the operator proposes for a binary operation `op` of kind
    /// `op_kind` at expression `expr` with operands `lhs` and `rhs`: the
    /// same operation with the operator swapped, in place of the
    /// expression, where `op` is one of the two operators and the operand
    /// types take the other.
    pub open spec fn proposes_for<'ast>(
        self,
        expr: &'ast Expr,
        op: BinOpKind,
        op_kind: OpKind,
        lhs: &'ast Expr,
        rhs: &'ast Expr,
    ) -> Seq<(OpSwapMutation, Seq<SubstDef<'ast>>)> {
        let facts = match &expr.hir {
            Some(hir) => hir.op_traits@,
            None => Seq::empty(),
        };
        match self.swapped(op) {
            Some(mapped) => if self.checks_types() && !spec_impls_matching_op(
                facts,
                mapped,
                op_kind,
            ) {
                Seq::empty()
            } else {
                seq![
                    (
                        OpSwapMutation {
                            operator: self,
                            op_kind,
                            original_bin_op: op,
                            replacement_bin_op: mapped,
                        },
                        seq![
                            SubstDef {
                                location: SubstLoc::Replace(expr.id),
                                substitute: Subst::AstExpr(
                                    match op_kind {
                                        OpKind::Standalone => SubstExpr::Binary(mapped, lhs, rhs),
                                        OpKind::Assign => SubstExpr::AssignOp(mapped, lhs, rhs),
                                    },
                                ),
                            },
                        ],
                    ),
                ]
            },
            None => Seq::empty(),
        }
    }

    fn apply_to<'ast>(
        &self,
        expr: &'ast Expr,
        op: BinOpKind,
        op_kind: OpKind,
        lhs: &'ast Expr,
        rhs: &'ast Expr,
    ) -> (mutations: Mutations<'ast, OpSwapMutation>)
        ensures
            mutations@ == self.proposes_for(expr, op, op_kind, lhs, rhs),
    {
        let (first, second) = self.operators();
        let mapped = if op == first {
            second
        } else if op == second {
            first
        } else {
            return Mutations::none();
        };
        if !matches!(self, OpSwap::LogicalOpAndOrSwap) {
            let takes = match &expr.hir {
                Some(hir) => impls_matching_op(&hir.op_traits, mapped, op_kind),
                None => false,
            };
            if !takes {
                return Mutations::none();
            }
        }
        let mapped_expr = match op_kind {
            OpKind::Standalone => SubstExpr::Binary(mapped, lhs, rhs),
            OpKind::Assign => SubstExpr::AssignOp(mapped, lhs, rhs),
        };
        let mutation = OpSwapMutation {
            operator: *self,
            op_kind,
            original_bin_op: op,
            replacement_bin_op: mapped,
        };
        Mutations::new_one(
            mutation,
            Substs::one(SubstDef::new(SubstLoc::Replace(expr.id), Subst::AstExpr(mapped_expr))),
        )
    }
}

/// The swap of one binary operator for another.
#[derive(Clone, Copy, Debug, PartialEq, Eq, Structural)]
pub struct OpSwapMutation {
    pub operator: OpSwap,
    pub op_kind: OpKind,
    pub original_bin_op: BinOpKind,
    pub replacement_bin_op: BinOpKind,
}

impl OpSwapMutation {
    /// The mutation in words, such as ``swap operator `+` for `-` ``.
    pub open spec fn spec_display_name(self) -> Seq<char> {
        "swap "@ + self.operator.spec_group() + self.op_kind.spec_desc() + " `"@
            + self.original_bin_op.spec_as_str() + "` for `"@
            + self.replacement_bin_op.spec_as_str() + "`"@
    }

    /// The words shown at the mutated code, such as ``swap operator for `-` ``.
    pub open spec fn spec_span_label(self) -> Seq<char> {
        "swap "@ + self.operator.spec_group() + self.op_kind.spec_desc() + " for `"@
            + self.replacement_bin_op.spec_as_str() + "`"@
    }

    /// The mutation in words.
    pub fn describe(&self) -> (name: String)
        ensures
            name@ == self.spec_display_name(),
    {
        let mut name = String::from_str("swap ");
        name.append(self.operator.group());
        name.append(self.op_kind.desc());
        name.append(" `");
        name.append(self.original_bin_op.as_str());
        name.append("` for `");
        name.append(self.replacement_bin_op.as_str());
        name.append("`");
        name
    }

    /// The words shown at the mutated code.
    pub fn label(&self) -> (label: String)
        ensures
            label@ == self.spec_span_label(),
    {
        let mut label = String::from_str("swap ");
        label.append(self.operator.group());
        label.append(self.op_kind.desc());
        label.append(" for `");
        label.append(self.replacement_bin_op.as_str());
        label.append("`");
        label
    }
}

impl Mutation for OpSwapMutation {
    open spec fn op_name_text(&self) -> Seq<char> {
        self.operator.spec_name()
    }

    open spec fn display_name_text(&self) -> Seq<char> {
        self.spec_display_name()
    }

    open spec fn span_label_text(&self) -> Seq<char> {
        self.spec_span_label()
    }

    fn op_name(&self) -> (name: String) {
        String::from_str(self.operator.name())
    }

    fn display_name(&self) -> (name: String) {
        self.describe()
    }

    fn span_label(&self) -> (label: String) {
        self.label()
    }
}

impl Operator for OpSwap {
    type Mutation = OpSwapMutation;

    /// A swap is proposed at an expression that is a binary operation or an
    /// assignment with operator, and nowhere else.
    open spec fn proposes<'ast>(&self, mcx: MutCtxt<'ast>) -> Seq<
        (OpSwapMutation, Seq<SubstDef<'ast>>),
    > {
        match mcx.location {
            MutLoc::FnBodyExpr(expr, _) => match &expr.kind {
                ExprKind::Binary(op, lhs, rhs) => self.proposes_for(
                    expr,
                    *op,
                    OpKind::Standalone,
                    lhs,
                    rhs,
                ),
                ExprKind::AssignOp(op, lhs, rhs) => self.proposes_for(
                    expr,
                    *op,
                    OpKind::Assign,
                    lhs,
                    rhs,
                ),
                _ => Seq::empty(),
            },
            _ => Seq::empty(),
        }
    }

    fn try_apply<'ast>(&self, mcx: &MutCtxt<'ast>) -> (mutations: Mutations<'ast, OpSwapMutation>) {
        match mcx.location {
            MutLoc::FnBodyExpr(expr, _) => match &expr.kind {
                ExprKind::Binary(op, lhs, rhs) => self.apply_to(
                    expr,
                    *op,
                    OpKind::Standalone,
                    lhs,
                    rhs,
                ),
                ExprKind::AssignOp(op, lhs, rhs) => self.apply_to(
                    expr,
                    *op,
                    OpKind::Assign,
                    lhs,
                    rhs,
                ),
                _ => Mutations::none(),
            },
            _ => Mutations::none(),
        }
    }
}

/// The location is a binary operation or an assignment with operator in
/// the body of a function.
pub open spec fn is_operation(location: MutLoc) -> bool {
    match location {
        MutLoc::FnBodyExpr(expr, _) => expr.kind is Binary || expr.kind is AssignOp,
        _ => false,
    }
}

/// A swap proposes nothing at a place that is no operation.
pub proof fn lemma_swaps_need_an_operation<'trg, 'ast>(
    operators: Seq<OpSwap>,
    def_site: Span,
    site: Site<'trg, 'ast>,
    upto: int,
)
    requires
        !is_operation(site.location),
        upto <= operators.len(),
    ensures
        proposals_at(operators, def_site, site, upto) == Seq::<
            Proposal<'trg, 'ast, OpSwapMutation>,
        >::empty(),
    decreases upto,
{
    if upto > 0 {
        lemma_swaps_need_an_operation(operators, def_site, site, upto - 1);
        let answer = operators[upto - 1].proposes(MutCtxt { def_site, location: site.location });
        assert(answer.len() == 0);
        assert(proposals_at(operators, def_site, site, upto) =~= Seq::<
            Proposal<'trg, 'ast, OpSwapMutation>,
        >::empty());
    }
}

/// Swaps propose nothing in code without operations.
pub proof fn lemma_swaps_need_operations<'trg, 'ast>(
    operators: Seq<OpSwap>,
    def_site: Span,
    sites: Seq<Site<'trg, 'ast>>,
)
    requires
        forall|i: int| 0 <= i < sites.len() ==> !is_operation((#[trigger] sites[i]).location),
    ensures
        proposals_of(operators, def_site, sites) == Seq::<
            Proposal<'trg, 'ast, OpSwapMutation>,
        >::empty(),
    decreases sites.len(),
{
    if sites.len() > 0 {
        assert forall|i: int| 0 <= i < sites.drop_last().len() implies !is_operation(
            (#[trigger] sites.drop_last()[i]).location,
        ) by {
            assert(sites.drop_last()[i] == sites[i]);
        }
        lemma_swaps_need_operations(operators, def_site, sites.drop_last());
        lemma_swaps_need_an_operation(operators, def_site, sites.last(), operators.len() as int);
        assert(proposals_of(operators, def_site, sites) =~= Seq::<
            Proposal<'trg, 'ast, OpSwapMutation>,
        >::empty());
    }
}

/// The expression can be walked: it has a resolved counterpart that is no
/// closure, lies in source text, and is not marked to be left alone.
pub open spec fn is_walked(expr: &Expr) -> bool {
    match &expr.hir {
        Some(hir) => !hir.ignore && !hir.is_closure && expr.span.local,
        None => false,
    }
}

/// The expression holds nothing: it has no operands.
pub open spec fn is_plain(expr: &Expr) -> bool {
    match &expr.kind {
        ExprKind::Other(operands) => operands@.len() == 0,
        _ => false,
    }
}

/// The function has no parameters, and its body is the expression `sum`
/// alone, which is the binary operation `op` on the operands `lhs` and
/// `rhs`, which hold nothing. All of it can be walked.
pub open spec fn is_single_operation(
    fn_item: &FnItem,
    sum: &Expr,
    op: BinOpKind,
    lhs: &Expr,
    rhs: &Expr,
) -> bool {
    &&& fn_item.params@.len() == 0
    &&& match &fn_item.body {
        Some(body) => {
            &&& match body.hir {
                Some(hir) => !hir.ignore,
                None => false,
            }
            &&& body.span.local
            &&& !body.rules.spec_is_unsafe()
            &&& body.stmts@.len() == 1
            &&& match &body.stmts@[0].kind {
                StmtKind::Expr(expr) => **expr == *sum,
                _ => false,
            }
        },
        None => false,
    }
    &&& match &sum.kind {
        ExprKind::Binary(found, left, right) => *found == op && **left == *lhs && **right == *rhs,
        _ => false,
    }
    &&& is_walked(sum)
    &&& is_walked(lhs)
    &&& is_walked(rhs)
    &&& is_plain(lhs)
    &&& is_plain(rhs)
}

/// One operation, one mutation. Of two targets, let the first hold no
/// operation, and let the second be a safe function whose body is a single
/// binary operation. A swap that takes the operator, on operands whose
/// types take the replacement, then proposes exactly one mutation for the
/// two targets: the same operation with the other operator in place of the
/// expression, in the second target, outside unsafe code.
pub proof fn lemma_one_operation_one_mutation<'trg, 'ast>(
    krate: &'ast Crate,
    targets: &'trg [Target],
    unsafe_targeting: UnsafeTargeting,
    swap: OpSwap,
    def_site: Span,
    fn_item: &'ast FnItem,
    sum: &'ast Expr,
    op: BinOpKind,
    lhs: &'ast Expr,
    rhs: &'ast Expr,
)
    requires
        targets@.len() == 2,
        forall|i: int|
            0 <= i < sites_target(krate, &targets@[0], unsafe_targeting).len() ==> !is_operation(
                (#[trigger] sites_target(krate, &targets@[0], unsafe_targeting)[i]).location,
            ),
        targets@[1].unsafety == Unsafety::Safe,
        krate.spec_find_def(targets@[1].def_id) == Some(fn_item),
        is_single_operation(fn_item, sum, op, lhs, rhs),
        swap.swapped(op) is Some,
        !swap.checks_types() || spec_impls_matching_op(
            sum.hir->0.op_traits@,
            swap.swapped(op)->0,
            OpKind::Standalone,
        ),
    ensures
        proposals_of(
            seq![swap],
            def_site,
            sites_targets(krate, targets, unsafe_targeting, 2),
        ) == seq![
            Proposal {
                site: Site {
                    target: &targets@[1],
                    location: MutLoc::FnBodyExpr(sum, fn_item),
                    is_in_unsafe_block: false,
                },
                mutation: OpSwapMutation {
                    operator: swap,
                    op_kind: OpKind::Standalone,
                    original_bin_op: op,
                    replacement_bin_op: swap.swapped(op)->0,
                },
                substs: seq![
                    SubstDef {
                        location: SubstLoc::Replace(sum.id),
                        substitute: Subst::AstExpr(
                            SubstExpr::Binary(swap.swapped(op)->0, lhs, rhs),
                        ),
                    },
                ],
            },
        ],
{
    let operators = seq![swap];
    let target = &targets@[1];
    let cx = WalkCtxt { target, unsafe_targeting, is_in_unsafe_block: false, in_closure: false };
    let body = fn_item.body->0;
    let at_fn = Site { target, location: MutLoc::Fn(fn_item), is_in_unsafe_block: false };
    let at_sum = Site { target, location: MutLoc::FnBodyExpr(sum, fn_item), is_in_unsafe_block: false };
    let at_lhs = Site { target, location: MutLoc::FnBodyExpr(lhs, fn_item), is_in_unsafe_block: false };
    let at_rhs = Site { target, location: MutLoc::FnBodyExpr(rhs, fn_item), is_in_unsafe_block: false };
    // The places of the second target.
    assert(sites_expr(lhs, fn_item, cx) =~= seq![at_lhs]) by {
        reveal_with_fuel(sites_operands, 2);
        assert(sites_operands_of(lhs, fn_item, cx) =~= Seq::<Site<'trg, 'ast>>::empty());
    }
    assert(sites_expr(rhs, fn_item, cx) =~= seq![at_rhs]) by {
        reveal_with_fuel(sites_operands, 2);
        assert(sites_operands_of(rhs, fn_item, cx) =~= Seq::<Site<'trg, 'ast>>::empty());
    }
    assert(sites_operands_of(sum, fn_item, cx) =~= seq![at_lhs, at_rhs]);
    assert(sites_expr(sum, fn_item, cx) =~= seq![at_sum, at_lhs, at_rhs]);
    assert(sites_stmts(body.stmts@, fn_item, cx, 0) =~= seq![at_sum, at_lhs, at_rhs]) by {
        reveal_with_fuel(sites_stmts, 3);
        assert(sites_stmt(&body.stmts@[0], fn_item, cx) == sites_expr(sum, fn_item, cx));
    }
    assert(sites_block(&body, fn_item, cx) =~= seq![at_sum, at_lhs, at_rhs]);
    assert(sites_params(fn_item.params@, fn_item, cx, 0) =~= Seq::<Site<'trg, 'ast>>::empty());
    let second = sites_target(krate, target, unsafe_targeting);
    assert(second =~= seq![at_fn, at_sum, at_lhs, at_rhs]);
    // The places of both targets.
    let first = sites_target(krate, &targets@[0], unsafe_targeting);
    assert(sites_targets(krate, targets, unsafe_targeting, 2) =~= first + second) by {
        reveal_with_fuel(sites_targets, 3);
    }
    assert(second =~= (seq![at_fn] + seq![at_sum]) + seq![at_lhs, at_rhs]);
    // What the swap proposes there.
    lemma_swaps_need_operations(operators, def_site, first);
    lemma_swaps_need_operations(operators, def_site, seq![at_fn]);
    lemma_swaps_need_operations(operators, def_site, seq![at_lhs, at_rhs]);
    lemma_proposals_of_concat(operators, def_site, first, second);
    lemma_proposals_of_concat(operators, def_site, seq![at_fn] + seq![at_sum], seq![at_lhs, at_rhs]);
    lemma_proposals_of_concat(operators, def_site, seq![at_fn], seq![at_sum]);
    let answer = swap.proposes(MutCtxt { def_site, location: at_sum.location });
    assert(answer == swap.proposes_for(sum, op, OpKind::Standalone, lhs, rhs));
    assert(proposals_of(operators, def_site, seq![at_sum]) =~= made(at_sum, answer)) by {
        reveal_with_fuel(proposals_of, 2);
        reveal_with_fuel(proposals_at, 2);
        assert(seq![at_sum].drop_last() =~= Seq::<Site<'trg, 'ast>>::empty());
        assert(seq![at_sum].last() == at_sum);
    }
    assert(made(at_sum, answer) =~= seq![
        Proposal { site: at_sum, mutation: answer[0].0, substs: answer[0].1 },
    ]);
    let only = proposals_of(operators, def_site, seq![at_sum]);
    let none = Seq::<Proposal<'trg, 'ast, OpSwapMutation>>::empty();
    assert(none + ((none + only) + none) =~= only);
}

} // verus!
