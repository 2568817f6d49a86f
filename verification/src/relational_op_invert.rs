//! The operator that inverts a relational operator, boundary included:
//! `<` becomes `>=`, not `>`.

use vstd::prelude::*;
use vstd::string::StringExecFns;
use crate::mutation::MutCtxt;
use crate::mutation::MutLoc;
use crate::mutation::Mutation;
use crate::mutation::Mutations;
use crate::mutation::Operator;
use crate::subst::Subst;
use crate::subst::SubstDef;
use crate::subst::SubstExpr;
use crate::subst::SubstLoc;
use crate::subst::Substs;
use crate::syntax::BinOpKind;
use crate::syntax::ExprKind;

verus! {

/// The inversion of one relational operator.
#[derive(Clone, Copy, Debug, PartialEq, Eq, Structural)]
pub struct RelationalOpInvertMutation {
    pub original_bin_op: BinOpKind,
    pub replacement_bin_op: BinOpKind,
}

impl RelationalOpInvertMutation {
    /// The mutation in words, such as
    /// ``invert relational operator `<` for `>=` ``.
    pub open spec fn spec_display_name(self) -> Seq<char> {
        "invert relational operator `"@ + self.original_bin_op.spec_as_str() + "` for `"@
            + self.replacement_bin_op.spec_as_str() + "`"@
    }

    /// The mutation in words.
    pub fn describe(&self) -> (name: String)
        ensures
            name@ == self.spec_display_name(),
    {
        let mut name = String::from_str("invert relational operator `");
        name.append(self.original_bin_op.as_str());
        name.append("` for `");
        name.append(self.replacement_bin_op.as_str());
        name.append("`");
        name
    }
}

impl Mutation for RelationalOpInvertMutation {
    open spec fn op_name_text(&self) -> Seq<char> {
        "relational_op_invert"@
    }

    open spec fn display_name_text(&self) -> Seq<char> {
        self.spec_display_name()
    }

    /// The words at the mutated code are the mutation in words.
    open spec fn span_label_text(&self) -> Seq<char> {
        self.spec_display_name()
    }

    fn op_name(&self) -> (name: String) {
        String::from_str("relational_op_invert")
    }

    fn display_name(&self) -> (name: String) {
        self.describe()
    }

    fn span_label(&self) -> (label: String) {
        self.describe()
    }
}

/// Invert relational operators, also changing their boundary (equality).
#[derive(Clone, Copy, Debug, PartialEq, Eq, Structural)]
pub struct RelationalOpInvert;

/// The operator that holds exactly where `op` does not, if `op` compares by
/// order.
pub open spec fn spec_inverted(op: BinOpKind) -> Option<BinOpKind> {
    match op {
        BinOpKind::Lt => Some(BinOpKind::Ge),
        BinOpKind::Le => Some(BinOpKind::Gt),
        BinOpKind::Gt => Some(BinOpKind::Le),
        BinOpKind::Ge => Some(BinOpKind::Lt),
        _ => None,
    }
}

/// The operator that holds exactly where `op` does not.
pub fn inverted(op: BinOpKind) -> (inverse: Option<BinOpKind>)
    ensures
        inverse == spec_inverted(op),
{
    match op {
        BinOpKind::Lt => Some(BinOpKind::Ge),
        BinOpKind::Le => Some(BinOpKind::Gt),
        BinOpKind::Gt => Some(BinOpKind::Le),
        BinOpKind::Ge => Some(BinOpKind::Lt),
        _ => None,
    }
}

/// Inverting twice gives the operator back.
pub proof fn lemma_inverted_twice(op: BinOpKind)
    requires
        spec_inverted(op) is Some,
    ensures
        spec_inverted(spec_inverted(op)->0) == Some(op),
{
}

impl Operator for RelationalOpInvert {
    type Mutation = RelationalOpInvertMutation;

    /// At a comparison by order, the same comparison with the operator
    /// inverted, in place of the expression; nothing anywhere else.
    open spec fn proposes<'ast>(&self, mcx: MutCtxt<'ast>) -> Seq<
        (RelationalOpInvertMutation, Seq<SubstDef<'ast>>),
    > {
        match mcx.location {
            MutLoc::FnBodyExpr(expr, _) => match &expr.kind {
                ExprKind::Binary(op, lhs, rhs) => match spec_inverted(*op) {
                    Some(inverse) => seq![
                        (
                            RelationalOpInvertMutation {
                                original_bin_op: *op,
                                replacement_bin_op: inverse,
                            },
                            seq![
                                SubstDef {
                                    location: SubstLoc::Replace(expr.id),
                                    substitute: Subst::AstExpr(
                                        SubstExpr::Binary(inverse, lhs, rhs),
                                    ),
                                },
                            ],
                        ),
                    ],
                    None => Seq::empty(),
                },
                _ => Seq::empty(),
            },
            _ => Seq::empty(),
        }
    }

    fn try_apply<'ast>(&self, mcx: &MutCtxt<'ast>) -> (mutations: Mutations<
        'ast,
        RelationalOpInvertMutation,
    >) {
        match mcx.location {
            MutLoc::FnBodyExpr(expr, _) => match &expr.kind {
                ExprKind::Binary(op, lhs, rhs) => match inverted(*op) {
                    Some(inverse) => {
                        let mutation = RelationalOpInvertMutation {
                            original_bin_op: *op,
                            replacement_bin_op: inverse,
                        };
                        Mutations::new_one(
                            mutation,
                            Substs::one(
                                SubstDef::new(
                                    SubstLoc::Replace(expr.id),
                                    Subst::AstExpr(SubstExpr::Binary(inverse, lhs, rhs)),
                                ),
                            ),
                        )
                    },
                    None => Mutations::none(),
                },
                _ => Mutations::none(),
            },
            _ => Mutations::none(),
        }
    }
}

} // verus!
