//! How unsafe code bears on a definition or a mutation, and which of it may
//! be mutated.

use vstd::prelude::*;

verus! {

/// Whether a function header, a block or a call site is marked `unsafe`.
#[derive(Copy, Clone, Debug, PartialEq, Eq, Structural)]
pub enum Safety {
    Normal,
    Unsafe,
}

/// Where unsafety comes from: a block marked `unsafe` inside an otherwise
/// safe definition, or a definition or call that is itself unsafe.
#[derive(Copy, Clone, Debug, PartialEq, Eq, PartialOrd, Ord, Structural)]
pub enum UnsafeSource {
    EnclosingUnsafe,
    Unsafe,
}

/// The unsafety of a definition, a call path or a mutation. The values are
/// ordered by severity: `Safe`, then `Tainted`, then `Unsafe`, and within
/// each of the latter two `EnclosingUnsafe` before `Unsafe`.
#[derive(Copy, Clone, Debug, PartialEq, Eq, PartialOrd, Ord, Structural)]
pub enum Unsafety {
    Safe,
    /// Safe code called from an unsafe context.
    Tainted(UnsafeSource),
    Unsafe(UnsafeSource),
}

/// Which unsafe code is open to mutation.
///
/// | policy                  | `unsafe {}` | `{ unsafe {} }` | `{}` |
/// | ----------------------- | ----------- | --------------- | ---- |
/// | `Safe`                  |             |                 | M    |
/// | `OnlyEnclosing(Unsafe)` |             | unsafe M        | M    |
/// | `OnlyEnclosing(Normal)` |             | M               | M    |
/// | `All`                   | unsafe M    | M               | M    |
#[derive(Copy, Clone, Debug, PartialEq, Eq, Structural)]
pub enum UnsafeTargeting {
    Safe,
    OnlyEnclosing(Safety),
    All,
}

impl UnsafeSource {
    /// Position in the order of severity.
    pub open spec fn rank(self) -> int {
        match self {
            UnsafeSource::EnclosingUnsafe => 0,
            UnsafeSource::Unsafe => 1,
        }
    }
}

/// Severity of the unsafe source of a call path; a path without one is the
/// least severe.
pub open spec fn call_path_rank(path: Option<UnsafeSource>) -> int {
    match path {
        None => 0,
        Some(source) => 1 + source.rank(),
    }
}

/// The more severe of two call paths.
pub open spec fn spec_max_call_path(a: Option<UnsafeSource>, b: Option<UnsafeSource>) -> Option<
    UnsafeSource,
> {
    if call_path_rank(a) >= call_path_rank(b) {
        a
    } else {
        b
    }
}

/// The more severe of two call paths.
pub fn max_call_path(a: Option<UnsafeSource>, b: Option<UnsafeSource>) -> (m: Option<UnsafeSource>)
    ensures
        m == spec_max_call_path(a, b),
{
    match (a, b) {
        (None, _) => b,
        (Some(_), None) => a,
        (Some(UnsafeSource::Unsafe), Some(_)) => a,
        (Some(UnsafeSource::EnclosingUnsafe), Some(_)) => b,
    }
}

impl UnsafeTargeting {
    /// Whether any code that unsafety touches may be mutated.
    pub fn any(&self) -> (r: bool)
        ensures
            r == (*self != UnsafeTargeting::Safe),
    {
        !matches!(self, UnsafeTargeting::Safe)
    }

    /// Whether code inside `unsafe` blocks and unsafe functions may be mutated.
    pub fn inside_unsafe(&self) -> (r: bool)
        ensures
            r == (*self == UnsafeTargeting::All),
    {
        matches!(self, UnsafeTargeting::All)
    }

    /// Whether the safe code of definitions that contain `unsafe` blocks may
    /// be mutated.
    pub fn enclosing_unsafe(&self) -> (r: bool)
        ensures
            r == (*self != UnsafeTargeting::Safe),
    {
        matches!(self, UnsafeTargeting::All | UnsafeTargeting::OnlyEnclosing(_))
    }
}

impl Unsafety {
    /// Position in the order of severity, from 0 for `Safe` to 4 for
    /// `Unsafe(Unsafe)`.
    pub open spec fn rank(self) -> int {
        match self {
            Unsafety::Safe => 0,
            Unsafety::Tainted(source) => 1 + source.rank(),
            Unsafety::Unsafe(source) => 3 + source.rank(),
        }
    }

    /// Position in the order of severity.
    pub fn severity(&self) -> (r: u8)
        ensures
            r == self.rank(),
    {
        match self {
            Unsafety::Safe => 0,
            Unsafety::Tainted(UnsafeSource::EnclosingUnsafe) => 1,
            Unsafety::Tainted(UnsafeSource::Unsafe) => 2,
            Unsafety::Unsafe(UnsafeSource::EnclosingUnsafe) => 3,
            Unsafety::Unsafe(UnsafeSource::Unsafe) => 4,
        }
    }

    /// The more severe of two values.
    pub open spec fn spec_most_severe(self, other: Unsafety) -> Unsafety {
        if self.rank() >= other.rank() {
            self
        } else {
            other
        }
    }

    /// The more severe of two values.
    pub fn most_severe(self, other: Unsafety) -> (m: Unsafety)
        ensures
            m == self.spec_most_severe(other),
    {
        if self.severity() >= other.severity() {
            self
        } else {
            other
        }
    }

    /// The unsafety that a call path brings to the safe code it reaches.
    pub open spec fn spec_tainted_by(path: Option<UnsafeSource>) -> Unsafety {
        match path {
            None => Unsafety::Safe,
            Some(source) => Unsafety::Tainted(source),
        }
    }

    /// The unsafety that a call path brings to the safe code it reaches.
    pub fn tainted_by(path: Option<UnsafeSource>) -> (u: Unsafety)
        ensures
            u == Self::spec_tainted_by(path),
    {
        match path {
            None => Unsafety::Safe,
            Some(source) => Unsafety::Tainted(source),
        }
    }

    /// Whether unsafe code is involved at all.
    pub fn any(&self) -> (r: bool)
        ensures
            r == (*self != Unsafety::Safe),
    {
        !matches!(self, Unsafety::Safe)
    }

    /// Whether a mutation of code with this unsafety counts as unsafe under
    /// the policy: always where the source is `Unsafe`; for any unsafety
    /// under the policy `Safe`; and for an enclosing `unsafe` block under
    /// `OnlyEnclosing(Unsafe)`.
    pub open spec fn spec_is_unsafe(self, unsafe_targeting: UnsafeTargeting) -> bool {
        match self {
            Unsafety::Safe => false,
            Unsafety::Tainted(UnsafeSource::Unsafe) | Unsafety::Unsafe(UnsafeSource::Unsafe) => true,
            Unsafety::Tainted(UnsafeSource::EnclosingUnsafe) | Unsafety::Unsafe(
                UnsafeSource::EnclosingUnsafe,
            ) => unsafe_targeting == UnsafeTargeting::Safe || unsafe_targeting
                == UnsafeTargeting::OnlyEnclosing(Safety::Unsafe),
        }
    }

    /// Whether a mutation of code with this unsafety counts as unsafe under
    /// the policy.
    pub fn is_unsafe(&self, unsafe_targeting: UnsafeTargeting) -> (r: bool)
        ensures
            r == self.spec_is_unsafe(unsafe_targeting),
    {
        matches!(
            (unsafe_targeting, self),
            (_, Unsafety::Unsafe(UnsafeSource::Unsafe) | Unsafety::Tainted(UnsafeSource::Unsafe))
                | (UnsafeTargeting::Safe, Unsafety::Unsafe(_) | Unsafety::Tainted(_))
                | (
                    UnsafeTargeting::OnlyEnclosing(Safety::Unsafe),
                    Unsafety::Unsafe(UnsafeSource::EnclosingUnsafe) | Unsafety::Tainted(
                        UnsafeSource::EnclosingUnsafe,
                    ),
                )
        )
    }
}

/// The severity order is total and its ranks tell the values apart; the more
/// severe of two values is one of them and at least as severe as both.
pub proof fn lemma_most_severe(a: Unsafety, b: Unsafety)
    ensures
        a.rank() == b.rank() <==> a == b,
        0 <= a.rank() <= 4,
        a.spec_most_severe(b).rank() >= a.rank(),
        a.spec_most_severe(b).rank() >= b.rank(),
        a.spec_most_severe(b) == a || a.spec_most_severe(b) == b,
        a.spec_most_severe(b) == b.spec_most_severe(a),
{
}

/// Merging in the unsafety of a further call path never lowers the
/// unsafety that is recorded.
pub proof fn lemma_taint_never_lowers(recorded: Unsafety, path: Option<UnsafeSource>)
    ensures
        Unsafety::spec_tainted_by(path).spec_most_severe(recorded).rank() >= recorded.rank(),
{
}

} // verus!
