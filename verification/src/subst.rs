//! Substitutions: where a mutation changes the program, and what it puts
//! there.

use vstd::prelude::*;
use vstd::string::StringExecFns;
use smallvec::SmallVec;
use crate::syntax::BinOpKind;
use crate::syntax::Expr;
use crate::syntax::Mutability;
use crate::syntax::NodeId;

verus! {

/// The place of a substitution: before, after, or in place of a node.
#[derive(Copy, Clone, Debug, Hash, PartialEq, Eq, Structural)]
pub enum SubstLoc {
    InsertBefore(NodeId),
    InsertAfter(NodeId),
    Replace(NodeId),
}

impl SubstLoc {
    /// The node at which the substitution is anchored.
    pub open spec fn anchor(self) -> NodeId {
        match self {
            SubstLoc::InsertBefore(node_id) => node_id,
            SubstLoc::InsertAfter(node_id) => node_id,
            SubstLoc::Replace(node_id) => node_id,
        }
    }

    /// The node at which the substitution is anchored.
    pub fn anchor_id(&self) -> (node_id: NodeId)
        ensures
            node_id == self.anchor(),
    {
        match *self {
            SubstLoc::InsertBefore(node_id) => node_id,
            SubstLoc::InsertAfter(node_id) => node_id,
            SubstLoc::Replace(node_id) => node_id,
        }
    }

    /// Whether the substitution is anchored at the placeholder node, that
    /// is at no node of the program.
    pub fn is_dummy(&self) -> (r: bool)
        ensures
            r == self.anchor().spec_is_dummy(),
    {
        match *self {
            SubstLoc::InsertBefore(node_id) => node_id.is_dummy(),
            SubstLoc::InsertAfter(node_id) => node_id.is_dummy(),
            SubstLoc::Replace(node_id) => node_id.is_dummy(),
        }
    }
}

/// A new expression, built over operands of the program.
#[derive(Debug)]
pub enum SubstExpr<'ast> {
    Binary(BinOpKind, &'ast Expr, &'ast Expr),
    AssignOp(BinOpKind, &'ast Expr, &'ast Expr),
    /// Code given as text.
    Verbatim(String),
}

impl<'ast> SubstExpr<'ast> {
    /// The expression as source text: the operands as written, around the
    /// operator.
    pub open spec fn spec_source(self) -> Seq<char> {
        match self {
            SubstExpr::Binary(op, lhs, rhs) => lhs.source@ + " "@ + op.spec_as_str() + " "@
                + rhs.source@,
            SubstExpr::AssignOp(op, lhs, rhs) => lhs.source@ + " "@ + op.spec_as_str() + "= "@
                + rhs.source@,
            SubstExpr::Verbatim(source) => source@,
        }
    }

    /// The expression as source text.
    pub fn to_source_string(&self) -> (source: String)
        ensures
            source@ == self.spec_source(),
    {
        match self {
            SubstExpr::Binary(op, lhs, rhs) => {
                let mut source = lhs.source.clone();
                source.append(" ");
                source.append(op.as_str());
                source.append(" ");
                source.append(rhs.source.as_str());
                source
            },
            SubstExpr::AssignOp(op, lhs, rhs) => {
                let mut source = lhs.source.clone();
                source.append(" ");
                source.append(op.as_str());
                source.append("= ");
                source.append(rhs.source.as_str());
                source
            },
            SubstExpr::Verbatim(source) => source.clone(),
        }
    }
}

/// What a substitution puts into the program.
#[derive(Debug)]
pub enum Subst<'ast> {
    AstExpr(SubstExpr<'ast>),
    /// A statement, as source text.
    AstStmt(String),
    /// A new local variable: name, mutability, type as written where it is
    /// given, initializer, and the expression to fall back to where the
    /// mutation is not active.
    AstLocal(String, Mutability, Option<String>, SubstExpr<'ast>, Option<SubstExpr<'ast>>),
}

impl<'ast> Subst<'ast> {
    /// The kind of node, in words.
    pub open spec fn spec_descr(self) -> Seq<char> {
        match self {
            Subst::AstExpr(_) => "expression"@,
            Subst::AstStmt(_) => "statement"@,
            Subst::AstLocal(ident, _, _, _, _) => "local `"@ + ident@ + "`"@,
        }
    }

    /// The kind of node, in words.
    pub fn descr(&self) -> (descr: String)
        ensures
            descr@ == self.spec_descr(),
    {
        match self {
            Subst::AstExpr(_) => String::from_str("expression"),
            Subst::AstStmt(_) => String::from_str("statement"),
            Subst::AstLocal(ident, _, _, _, _) => {
                let mut descr = String::from_str("local `");
                descr.append(ident.as_str());
                descr.append("`");
                descr
            },
        }
    }

    /// The new node as source text. A local variable reads
    /// `let [mut ]name[: type] = initializer;`.
    pub open spec fn spec_source(self) -> Seq<char> {
        match self {
            Subst::AstExpr(expr) => expr.spec_source(),
            Subst::AstStmt(source) => source@,
            Subst::AstLocal(ident, mutbl, ty, init, _) => "let "@ + (if mutbl == Mutability::Mut {
                "mut "@
            } else {
                Seq::<char>::empty()
            }) + ident@ + (match ty {
                Some(ty) => ": "@ + ty@,
                None => Seq::<char>::empty(),
            }) + " = "@ + init.spec_source() + ";"@,
        }
    }

    /// The new node as source text.
    pub fn to_source_string(&self) -> (source: String)
        ensures
            source@ == self.spec_source(),
    {
        match self {
            Subst::AstExpr(expr) => expr.to_source_string(),
            Subst::AstStmt(source) => source.clone(),
            Subst::AstLocal(ident, mutbl, ty, init, _default) => {
                let mut source = String::from_str("let ");
                if mutbl.is_mut() {
                    source.append("mut ");
                }
                source.append(ident.as_str());
                match ty {
                    Some(ty) => {
                        source.append(": ");
                        source.append(ty.as_str());
                    },
                    None => {},
                }
                source.append(" = ");
                let init = init.to_source_string();
                source.append(init.as_str());
                source.append(";");
                source
            },
        }
    }
}

/// One substitution: a place and what goes there.
#[derive(Debug)]
pub struct SubstDef<'ast> {
    pub location: SubstLoc,
    pub substitute: Subst<'ast>,
}

impl<'ast> SubstDef<'ast> {
    pub fn new(location: SubstLoc, substitute: Subst<'ast>) -> (def: Self)
        ensures
            def == (SubstDef { location, substitute }),
    {
        SubstDef { location, substitute }
    }
}

/// Two substitutions conflict where they are anchored at the same node,
/// whether they insert or replace.
pub open spec fn spec_conflicting_substs(a: SubstDef, b: SubstDef) -> bool {
    a.location.anchor() == b.location.anchor()
}

/// Whether two substitutions are anchored at the same node.
pub fn conflicting_substs(a: &SubstDef, b: &SubstDef) -> (r: bool)
    ensures
        r == spec_conflicting_substs(*a, *b),
{
    a.location.anchor_id() == b.location.anchor_id()
}

/// The substitutions of one mutation: a `SmallVec` that holds one of them
/// without allocating.
#[verifier::external_body]
pub struct Substs<'ast> {
    items: SmallVec<[SubstDef<'ast>; 1]>,
}

/// The substitutions that the list holds, in order.
pub uninterp spec fn substs_view(substs: Substs) -> Seq<SubstDef>;

impl<'ast> View for Substs<'ast> {
    type V = Seq<SubstDef<'ast>>;

    open spec fn view(&self) -> Seq<SubstDef<'ast>> {
        substs_view(*self)
    }
}

/// `SmallVec::new`: a list that holds nothing.
#[verifier::external_body]
fn substs_empty<'ast>() -> (substs: Substs<'ast>)
    ensures
        substs_view(substs) == Seq::<SubstDef>::empty(),
{
    Substs { items: SmallVec::new() }
}

/// `SmallVec::push`: the item is appended.
#[verifier::external_body]
fn substs_push<'ast>(substs: &mut Substs<'ast>, def: SubstDef<'ast>)
    ensures
        substs_view(*final(substs)) == substs_view(*old(substs)).push(def),
{
    substs.items.push(def)
}

/// `SmallVec::as_slice`: the items as a slice.
#[verifier::external_body]
fn substs_as_slice<'a, 'ast>(substs: &'a Substs<'ast>) -> (items: &'a [SubstDef<'ast>])
    ensures
        items@ == substs_view(*substs),
{
    substs.items.as_slice()
}

impl<'ast> Substs<'ast> {
    /// A list without substitutions.
    pub fn new() -> (substs: Self)
        ensures
            substs@ == Seq::<SubstDef>::empty(),
    {
        substs_empty()
    }

    /// A list of one substitution.
    pub fn one(def: SubstDef<'ast>) -> (substs: Self)
        ensures
            substs@ == seq![def],
    {
        let mut substs = substs_empty();
        substs_push(&mut substs, def);
        substs
    }

    /// Appends a substitution.
    pub fn push(&mut self, def: SubstDef<'ast>)
        ensures
            final(self)@ == old(self)@.push(def),
    {
        substs_push(self, def)
    }

    /// The substitutions as a slice.
    pub fn as_slice(&self) -> (items: &[SubstDef<'ast>])
        ensures
            items@ == self@,
    {
        substs_as_slice(self)
    }

    /// The number of substitutions.
    pub fn len(&self) -> (n: usize)
        ensures
            n == self@.len(),
    {
        substs_as_slice(self).len()
    }
}

} // verus!
