//! Mutations: what an operator proposes at a location, and the numbered
//! mutation that the engine makes of it.

use vstd::prelude::*;
use vstd::string::StrSliceExecFns;
use vstd::string::StringExecFns;
use crate::reachability::Target;
use crate::subst::SubstDef;
use crate::subst::SubstLoc;
use crate::subst::Substs;
use crate::syntax::Expr;
use crate::syntax::FnItem;
use crate::syntax::Param;
use crate::syntax::Span;
use crate::syntax::Stmt;
use crate::text::decimal;
use crate::text::decimal_string;
use crate::text::lemma_filter_next;
use crate::unsafety::UnsafeTargeting;

verus! {

/// A place in a target where a mutation may apply, with the function that
/// holds it.
#[derive(Clone, Copy)]
pub enum MutLoc<'ast> {
    Fn(&'ast FnItem),
    FnParam(&'ast Param, &'ast FnItem),
    FnBodyStmt(&'ast Stmt, &'ast FnItem),
    FnBodyExpr(&'ast Expr, &'ast FnItem),
}

impl<'ast> MutLoc<'ast> {
    pub open spec fn spec_span(self) -> Span {
        match self {
            MutLoc::Fn(fn_item) => fn_item.span,
            MutLoc::FnParam(param, _) => param.span,
            MutLoc::FnBodyStmt(stmt, _) => stmt.span,
            MutLoc::FnBodyExpr(expr, _) => expr.span,
        }
    }

    /// The span of the node at the location.
    pub fn span(&self) -> (span: Span)
        ensures
            span == self.spec_span(),
    {
        match self {
            MutLoc::Fn(fn_item) => fn_item.span,
            MutLoc::FnParam(param, _) => param.span,
            MutLoc::FnBodyStmt(stmt, _) => stmt.span,
            MutLoc::FnBodyExpr(expr, _) => expr.span,
        }
    }

    pub open spec fn spec_containing_fn(self) -> &'ast FnItem {
        match self {
            MutLoc::Fn(fn_item) => fn_item,
            MutLoc::FnParam(_, fn_item) => fn_item,
            MutLoc::FnBodyStmt(_, fn_item) => fn_item,
            MutLoc::FnBodyExpr(_, fn_item) => fn_item,
        }
    }

    /// The function that holds the location.
    pub fn containing_fn(&self) -> (fn_item: Option<&'ast FnItem>)
        ensures
            fn_item == Some(self.spec_containing_fn()),
    {
        match self {
            MutLoc::Fn(fn_item) => Some(fn_item),
            MutLoc::FnParam(_, fn_item) => Some(fn_item),
            MutLoc::FnBodyStmt(_, fn_item) => Some(fn_item),
            MutLoc::FnBodyExpr(_, fn_item) => Some(fn_item),
        }
    }
}

/// What an operator is given: the location, and the span that marks code
/// made by the engine.
#[derive(Clone, Copy)]
pub struct MutCtxt<'ast> {
    pub def_site: Span,
    pub location: MutLoc<'ast>,
}

/// What a mutation says of itself. Each text depends on the mutation alone;
/// a mutation that does not say more of a text leaves open which it is: the
/// three texts are then chosen apart from each other.
pub trait Mutation {
    /// The name of the operator that proposed the mutation.
    open spec fn op_name_text(&self) -> Seq<char> {
        (choose|answer: (Seq<char>, &Self, int)| answer.1 == self && answer.2 == 0).0
    }

    /// The mutation in words.
    open spec fn display_name_text(&self) -> Seq<char> {
        (choose|answer: (Seq<char>, &Self, int)| answer.1 == self && answer.2 == 1).0
    }

    /// The words shown at the mutated code.
    open spec fn span_label_text(&self) -> Seq<char> {
        (choose|answer: (Seq<char>, &Self, int)| answer.1 == self && answer.2 == 2).0
    }

    /// The name of the operator that proposed the mutation.
    fn op_name(&self) -> (name: String)
        ensures
            name@ == self.op_name_text(),
    ;

    /// The mutation in words.
    fn display_name(&self) -> (name: String)
        ensures
            name@ == self.display_name_text(),
    ;

    /// The words shown at the mutated code.
    fn span_label(&self) -> (label: String)
        ensures
            label@ == self.span_label_text(),
    ;
}

/// The mutations that an operator proposes at one location, each with its
/// substitutions.
pub struct Mutations<'ast, M>(pub Vec<(M, Substs<'ast>)>);

impl<'ast, M> View for Mutations<'ast, M> {
    type V = Seq<(M, Seq<SubstDef<'ast>>)>;

    open spec fn view(&self) -> Seq<(M, Seq<SubstDef<'ast>>)> {
        Seq::new(self.0@.len(), |i: int| (self.0@[i].0, self.0@[i].1@))
    }
}

impl<'ast, M> Mutations<'ast, M> {
    /// No mutation.
    pub fn none() -> (mutations: Self)
        ensures
            mutations@.len() == 0,
    {
        Mutations(Vec::new())
    }

    /// One mutation.
    pub fn new_one(mutation: M, substs: Substs<'ast>) -> (mutations: Self)
        ensures
            mutations@ == seq![(mutation, substs@)],
    {
        let mut list = Vec::new();
        list.push((mutation, substs));
        let mutations = Mutations(list);
        assert(mutations@ =~= seq![(mutation, substs@)]);
        mutations
    }

    /// The given mutations.
    pub fn new(mutations: Vec<(M, Substs<'ast>)>) -> (out: Self)
        ensures
            out.0 == mutations,
    {
        Mutations(mutations)
    }
}

/// A strategy that looks at a location and proposes mutations there. What
/// it proposes depends on the location alone.
pub trait Operator {
    type Mutation: Mutation;

    /// What the operator proposes at a location. For an operator that does
    /// not say more, this is some answer that the operator and the location
    /// determine.
    open spec fn proposes<'ast>(&self, mcx: MutCtxt<'ast>) -> Seq<
        (Self::Mutation, Seq<SubstDef<'ast>>),
    > {
        (choose|answer: (Seq<(Self::Mutation, Seq<SubstDef<'ast>>)>, &Self, MutCtxt<'ast>)|
            answer.1 == self && answer.2 == mcx).0
    }

    fn try_apply<'ast>(&self, mcx: &MutCtxt<'ast>) -> (mutations: Mutations<'ast, Self::Mutation>)
        ensures
            mutations@ == self.proposes(*mcx),
    ;
}

/// The number of a mutation. The engine numbers mutations from 1 in the
/// order in which it finds them.
#[derive(Clone, Copy, Debug, Hash, PartialEq, Eq, Structural)]
pub struct MutId(pub u32);

/// A name in generated code.
#[derive(Debug)]
pub struct Symbol(pub String);

impl MutId {
    pub fn index(&self) -> (index: u32)
        ensures
            index == self.0,
    {
        self.0
    }

    /// The name of the mutation in generated code: `mut_` and the number.
    pub open spec fn spec_symbol_name(self) -> Seq<char> {
        "mut_"@ + decimal(self.0 as nat)
    }

    /// The name of the mutation in generated code.
    pub fn into_symbol_name(&self) -> (name: String)
        ensures
            name@ == self.spec_symbol_name(),
    {
        let mut name = String::from_str("mut_");
        let number = decimal_string(self.0);
        name.append(number.as_str());
        name
    }

    /// The name of the mutation in generated code, as a symbol.
    pub fn into_symbol(&self) -> (symbol: Symbol)
        ensures
            symbol.0@ == self.spec_symbol_name(),
    {
        Symbol(self.into_symbol_name())
    }
}

/// A numbered mutation of a target.
pub struct Mut<'trg, 'ast, M> {
    pub id: MutId,
    pub target: &'trg Target,
    pub span: Span,
    /// The mutated code lies inside an `unsafe` block or an unsafe function.
    pub is_in_unsafe_block: bool,
    pub mutation: M,
    pub substs: Substs<'ast>,
}

impl<'trg, 'ast, M> Mut<'trg, 'ast, M> {
    /// Whether the mutation counts as unsafe under the policy: it lies in an
    /// `unsafe` block, or the unsafety of its target counts as unsafe.
    pub open spec fn spec_is_unsafe(self, unsafe_targeting: UnsafeTargeting) -> bool {
        self.is_in_unsafe_block || self.target.unsafety.spec_is_unsafe(unsafe_targeting)
    }

    /// Whether the mutation counts as unsafe under the policy.
    pub fn is_unsafe(&self, unsafe_targeting: UnsafeTargeting) -> (r: bool)
        ensures
            r == self.spec_is_unsafe(unsafe_targeting),
    {
        self.is_in_unsafe_block || self.target.unsafety.is_unsafe(unsafe_targeting)
    }

    /// The substitutions of the mutation that are anchored at no node.
    pub open spec fn dummy_substs(self) -> Seq<SubstDef<'ast>> {
        self.substs@.filter(|s: SubstDef| s.location.anchor().spec_is_dummy())
    }
}

impl<'trg, 'ast, M: Mutation> Mut<'trg, 'ast, M> {
    /// The name of the operator that proposed the mutation.
    pub fn op_name(&self) -> (name: String)
        ensures
            name@ == self.mutation.op_name_text(),
    {
        self.mutation.op_name()
    }

    /// The mutation in words.
    pub fn display_name(&self) -> (name: String)
        ensures
            name@ == self.mutation.display_name_text(),
    {
        self.mutation.display_name()
    }
}

/// What is wrong with a mutation.
pub enum MutationError<'m, 'trg, 'ast, M> {
    /// The mutation has substitutions that are anchored at no node; these
    /// are listed.
    DummySubsts(&'m Mut<'trg, 'ast, M>, Vec<&'m SubstDef<'ast>>),
}

impl<'m, 'trg, 'ast, M> MutationError<'m, 'trg, 'ast, M> {
    /// The mutation at fault.
    pub open spec fn mutation(self) -> Mut<'trg, 'ast, M> {
        match self {
            MutationError::DummySubsts(mutation, _) => *mutation,
        }
    }

    /// The substitutions at fault.
    pub open spec fn substs(self) -> Seq<SubstDef<'ast>> {
        match self {
            MutationError::DummySubsts(_, substs) => Seq::new(substs@.len(), |i: int| *substs@[i]),
        }
    }
}

/// The mutations that have a substitution anchored at no node, in order.
pub open spec fn faulty_mutations<'trg, 'ast, M>(mutations: Seq<Mut<'trg, 'ast, M>>) -> Seq<
    Mut<'trg, 'ast, M>,
> {
    mutations.filter(|m: Mut<'trg, 'ast, M>| m.dummy_substs().len() > 0)
}

fn dummy_substs_of<'m, 'trg, 'ast, M>(mutation: &'m Mut<'trg, 'ast, M>) -> (found: Vec<
    &'m SubstDef<'ast>,
>)
    ensures
        found@.len() == mutation.dummy_substs().len(),
        forall|i: int| 0 <= i < found@.len() ==> *#[trigger] found@[i] == mutation.dummy_substs()[i],
{
    let substs = mutation.substs.as_slice();
    let ghost pred = |s: SubstDef| s.location.anchor().spec_is_dummy();
    let mut found: Vec<&'m SubstDef<'ast>> = Vec::new();
    let mut i: usize = 0;
    assert(substs@.take(0).filter(pred) =~= Seq::empty()) by {
        reveal(Seq::filter);
    }
    while i < substs.len()
        invariant
            0 <= i <= substs.len(),
            substs@ == mutation.substs@,
            pred == |s: SubstDef| s.location.anchor().spec_is_dummy(),
            found@.len() == substs@.take(i as int).filter(pred).len(),
            forall|k: int|
                0 <= k < found@.len() ==> *#[trigger] found@[k] == substs@.take(i as int).filter(
                    pred,
                )[k],
        decreases substs.len() - i,
    {
        proof {
            lemma_filter_next(substs@, pred, i as int);
        }
        if substs[i].location.is_dummy() {
            found.push(&substs[i]);
        }
        i += 1;
    }
    assert(substs@.take(i as int) =~= substs@);
    found
}

/// Checks that every substitution of every mutation is anchored at a node
/// of the program. Where some are not, the result lists, in order, each
/// mutation that has such substitutions, with those substitutions.
pub fn validate_mutations<'m, 'trg, 'ast, M>(mutations: &'m [Mut<'trg, 'ast, M>]) -> (result: Result<
    (),
    Vec<MutationError<'m, 'trg, 'ast, M>>,
>)
    ensures
        result is Ok <==> faulty_mutations(mutations@).len() == 0,
        result matches Err(errors) ==> {
            &&& errors@.len() == faulty_mutations(mutations@).len()
            &&& forall|k: int|
                0 <= k < errors@.len() ==> {
                    &&& (#[trigger] errors@[k]).mutation() == faulty_mutations(mutations@)[k]
                    &&& errors@[k].substs() == errors@[k].mutation().dummy_substs()
                }
        },
{
    let ghost pred = |m: Mut<'trg, 'ast, M>| m.dummy_substs().len() > 0;
    let mut errors: Vec<MutationError<'m, 'trg, 'ast, M>> = Vec::new();
    let mut i: usize = 0;
    assert(mutations@.take(0).filter(pred) =~= Seq::empty()) by {
        reveal(Seq::filter);
    }
    while i < mutations.len()
        invariant
            0 <= i <= mutations.len(),
            pred == |m: Mut<'trg, 'ast, M>| m.dummy_substs().len() > 0,
            errors@.len() == mutations@.take(i as int).filter(pred).len(),
            forall|k: int|
                0 <= k < errors@.len() ==> {
                    &&& (#[trigger] errors@[k]).mutation() == mutations@.take(i as int).filter(
                        pred,
                    )[k]
                    &&& errors@[k].substs() == errors@[k].mutation().dummy_substs()
                },
        decreases mutations.len() - i,
    {
        proof {
            lemma_filter_next(mutations@, pred, i as int);
        }
        let dummy_substs = dummy_substs_of(&mutations[i]);
        if dummy_substs.len() > 0 {
            let error = MutationError::DummySubsts(&mutations[i], dummy_substs);
            assert(error.substs() =~= mutations@[i as int].dummy_substs());
            errors.push(error);
        }
        i += 1;
    }
    assert(mutations@.take(i as int) =~= mutations@);
    if errors.len() == 0 {
        return Ok(());
    }
    Err(errors)
}


/// The text has at most one line: no line break but, at most, a last one.
pub open spec fn is_single_line(text: Seq<char>) -> bool {
    forall|i: int| 0 <= i < text.len() - 1 ==> text[i] != '\n'
}

/// New code as a diagnostic shows it: a placeholder for no code, one line
/// between backticks, several lines in a fence.
pub open spec fn spec_quoted(text: Seq<char>) -> Seq<char> {
    if text.len() == 0 {
        "<empty>"@
    } else if is_single_line(text) {
        "`"@ + text + "`"@
    } else {
        "\n```\n"@ + text + "\n```"@
    }
}

/// New code as a diagnostic shows it.
pub fn quoted(text: &str) -> (shown: String)
    ensures
        shown@ == spec_quoted(text@),
{
    let len = text.unicode_len();
    if len == 0 {
        return String::from_str("<empty>");
    }
    let mut single = true;
    let mut i: usize = 0;
    while i < len - 1
        invariant
            0 <= i <= len - 1,
            len == text@.len(),
            single == (forall|k: int| 0 <= k < i ==> text@[k] != '\n'),
        decreases len - i,
    {
        if text.get_char(i) == '\n' {
            single = false;
        }
        i += 1;
    }
    if single {
        let mut shown = String::from_str("`");
        shown.append(text);
        shown.append("`");
        shown
    } else {
        let mut shown = String::from_str("\n```\n");
        shown.append(text);
        shown.append("\n```");
        shown
    }
}

/// What a diagnostic notes of a substitution: the kind of the new node,
/// whether it is inserted or replaces code, and the new code.
pub open spec fn spec_note(subst: SubstDef) -> Seq<char> {
    subst.substitute.spec_descr() + " "@ + (match subst.location {
        SubstLoc::InsertBefore(_) | SubstLoc::InsertAfter(_) => "inserted"@,
        SubstLoc::Replace(_) => "replaced with"@,
    }) + ": "@ + spec_quoted(subst.substitute.spec_source())
}

/// What a diagnostic notes of a substitution.
pub fn note(subst: &SubstDef) -> (text: String)
    ensures
        text@ == spec_note(*subst),
{
    let mut text = subst.substitute.descr();
    text.append(" ");
    match &subst.location {
        SubstLoc::InsertBefore(_) | SubstLoc::InsertAfter(_) => text.append("inserted"),
        SubstLoc::Replace(_) => text.append("replaced with"),
    }
    text.append(": ");
    let new_node = subst.substitute.to_source_string();
    let shown = quoted(new_node.as_str());
    text.append(shown.as_str());
    text
}

/// The first line of the diagnostic of a mutation that no test detected.
pub open spec fn spec_undetected_message(op_name: Seq<char>) -> Seq<char> {
    "["@ + op_name + "] mutation was not detected"@
}

/// The first line of the diagnostic of a mutation that no test detected.
pub fn undetected_message(op_name: &str) -> (message: String)
    ensures
        message@ == spec_undetected_message(op_name@),
{
    let mut message = String::from_str("[");
    message.append(op_name);
    message.append("] mutation was not detected");
    message
}

/// What is shown of a mutation that no test detected.
pub struct UndetectedDiagnostic {
    pub span: Span,
    pub message: String,
    /// The words at the mutated code.
    pub label: String,
    /// One note for each substitution.
    pub notes: Vec<String>,
}

impl<'trg, 'ast, M> Mut<'trg, 'ast, M> {
    /// One note for each substitution of the mutation, in order.
    pub fn undetected_notes(&self) -> (notes: Vec<String>)
        ensures
            notes@.len() == self.substs@.len(),
            forall|i: int| 0 <= i < notes@.len() ==> (#[trigger] notes@[i])@ == spec_note(self.substs@[i]),
    {
        let substs = self.substs.as_slice();
        let mut notes: Vec<String> = Vec::new();
        let mut i: usize = 0;
        while i < substs.len()
            invariant
                0 <= i <= substs.len(),
                substs@ == self.substs@,
                notes@.len() == i,
                forall|k: int| 0 <= k < i ==> (#[trigger] notes@[k])@ == spec_note(substs@[k]),
            decreases substs.len() - i,
        {
            notes.push(note(&substs[i]));
            i += 1;
        }
        notes
    }
}

impl<'trg, 'ast, M: Mutation> Mut<'trg, 'ast, M> {
    /// What is shown of the mutation where no test detected it: the name of
    /// the operator in the message, the mutation's own words at the code,
    /// and a note for each substitution.
    pub fn undetected_diagnostic(&self) -> (diagnostic: UndetectedDiagnostic)
        ensures
            diagnostic.span == self.span,
            diagnostic.message@ == spec_undetected_message(self.mutation.op_name_text()),
            diagnostic.label@ == self.mutation.span_label_text(),
            diagnostic.notes@.len() == self.substs@.len(),
            forall|i: int|
                0 <= i < diagnostic.notes@.len() ==> (#[trigger] diagnostic.notes@[i])@ == spec_note(
                    self.substs@[i],
                ),
    {
        let op_name = self.mutation.op_name();
        UndetectedDiagnostic {
            span: self.span,
            message: undetected_message(op_name.as_str()),
            label: self.mutation.span_label(),
            notes: self.undetected_notes(),
        }
    }
}

} // verus!
