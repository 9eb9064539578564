use vstd::prelude::*;

verus! {

/// How badly an input fails a pattern: `NoIssue` is full satisfaction and
/// `Error` is failure; the levels in between are satisfied with remarks.
#[derive(Debug, Clone, Copy, PartialEq, Eq, Structural)]
pub enum Severity {
    NoIssue,
    Advice,
    Warning,
    Error,
}

impl Severity {
    /// The place of a severity in the order `NoIssue < Advice < Warning < Error`.
    pub open spec fn level(self) -> nat {
        match self {
            Severity::NoIssue => 0,
            Severity::Advice => 1,
            Severity::Warning => 2,
            Severity::Error => 3,
        }
    }

    /// The place of this severity in the order of severities.
    pub fn rank(&self) -> (r: u8)
        ensures
            r == self.level(),
    {
        match self {
            Severity::NoIssue => 0,
            Severity::Advice => 1,
            Severity::Warning => 2,
            Severity::Error => 3,
        }
    }

    /// Whether an input with this severity satisfies the pattern.
    pub open spec fn satisfied(self) -> bool {
        self != Severity::Error
    }

    /// Whether an input with this severity satisfies the pattern.
    pub fn is_satisfied(&self) -> (r: bool)
        ensures
            r == self.satisfied(),
    {
        !matches!(self, Severity::Error)
    }
}

/// The worse of two severities.
pub open spec fn worse(a: Severity, b: Severity) -> Severity {
    if b.level() >= a.level() {
        b
    } else {
        a
    }
}

/// The worse of two severities.
pub fn worst_of(a: Severity, b: Severity) -> (r: Severity)
    ensures
        r == worse(a, b),
        r.level() >= a.level(),
        r.level() >= b.level(),
        r == a || r == b,
        (a == Severity::Error || b == Severity::Error) ==> r == Severity::Error,
        a == Severity::NoIssue ==> r == b,
        b == Severity::NoIssue ==> r == a,
        r.satisfied() <==> (a.satisfied() && b.satisfied()),
{
    if b.rank() >= a.rank() {
        b
    } else {
        a
    }
}

/// Severities are ordered `NoIssue < Advice < Warning < Error`: `NoIssue`
/// is the least and `Error` the greatest of them.
pub proof fn lemma_severity_order(s: Severity)
    ensures
        Severity::NoIssue.level() < Severity::Advice.level(),
        Severity::Advice.level() < Severity::Warning.level(),
        Severity::Warning.level() < Severity::Error.level(),
        Severity::NoIssue.level() <= s.level() <= Severity::Error.level(),
        s.level() == Severity::NoIssue.level() ==> s == Severity::NoIssue,
        s.level() == Severity::Error.level() ==> s == Severity::Error,
{
}

/// The worse of two severities is the greater of them: at least as severe
/// as each, and one of the two.
pub proof fn lemma_worse_is_maximum(a: Severity, b: Severity)
    ensures
        worse(a, b).level() >= a.level(),
        worse(a, b).level() >= b.level(),
        worse(a, b) == a || worse(a, b) == b,
        (a == Severity::Error || b == Severity::Error) ==> worse(a, b) == Severity::Error,
        a == Severity::NoIssue ==> worse(a, b) == b,
        b == Severity::NoIssue ==> worse(a, b) == a,
{
}

/// The worst severity of a list, `NoIssue` for an empty list.
pub open spec fn worst(s: Seq<Severity>) -> Severity
    decreases s.len(),
{
    if s.len() == 0 {
        Severity::NoIssue
    } else {
        worse(worst(s.drop_last()), s.last())
    }
}

} // verus!
