use vstd::prelude::*;
use vstd::set_lib::{lemma_int_range, lemma_subset_equality, set_int_range};

use crate::severity::{worse, worst, worst_of, Severity};

verus! {

/// Term `a` is evaluated before term `b`: it has a lower order, or the
/// same order and an earlier place in the list.
pub open spec fn precedes(orders: Seq<u8>, a: usize, b: usize) -> bool {
    orders[a as int] < orders[b as int] || (orders[a as int] == orders[b as int] && a < b)
}

/// `order` lists the terms whose orders are `orders` in the order in which
/// a conjunction evaluates them: sorted by order, terms of equal order in
/// their place in the list.
pub open spec fn is_evaluation_order(orders: Seq<u8>, order: Seq<usize>) -> bool {
    &&& order.len() == orders.len()
    &&& forall|i: int| 0 <= i < order.len() ==> order[i] < orders.len()
    &&& forall|i: int, j: int| 0 <= i < j < order.len() ==> #[trigger] precedes(orders, order[i], order[j])
}

/// The order in which a conjunction evaluates its terms, given the order
/// of each term: a stable sort of the terms by order.
pub fn evaluation_order(orders: &Vec<u8>) -> (order: Vec<usize>)
    ensures
        is_evaluation_order(orders@, order@),
{
    let n = orders.len();
    let mut order: Vec<usize> = Vec::new();
    let mut i: usize = 0;
    while i < n
        invariant
            n == orders@.len(),
            i <= n,
            order@.len() == i,
            forall|k: int| 0 <= k < order@.len() ==> order@[k] < i,
            forall|a: int, b: int|
                0 <= a < b < order@.len() ==> #[trigger] precedes(orders@, order@[a], order@[b]),
        decreases n - i,
    {
        let mut p: usize = order.len();
        while p > 0 && orders[order[p - 1]] > orders[i]
            invariant
                n == orders@.len(),
                i < n,
                p <= order@.len(),
                order@.len() == i,
                forall|k: int| 0 <= k < order@.len() ==> order@[k] < i,
                forall|k: int| p <= k < order@.len() ==> orders@[order@[k] as int] > orders@[i as int],
            decreases p,
        {
            p = p - 1;
        }
        assert forall|k: int| 0 <= k < p implies orders@[order@[k] as int] <= orders@[i as int] by {
            if k < p - 1 {
                assert(precedes(orders@, order@[k], order@[p - 1]));
            }
        }
        let ghost before = order@;
        order.insert(p, i);
        assert forall|a: int, b: int|
            0 <= a < b < order@.len() implies #[trigger] precedes(orders@, order@[a], order@[b]) by {
            if b < p {
                assert(precedes(orders@, before[a], before[b]));
            } else if a < p && b == p {
            } else if a < p {
                assert(order@[b] == before[b - 1]);
            } else if a == p {
                assert(order@[b] == before[b - 1]);
            } else {
                assert(order@[a] == before[a - 1]);
                assert(order@[b] == before[b - 1]);
                assert(precedes(orders@, before[a - 1], before[b - 1]));
            }
        }
        i = i + 1;
    }
    order
}

/// An evaluation order evaluates every term of the conjunction exactly once.
pub proof fn lemma_evaluation_order_is_permutation(orders: Seq<u8>, order: Seq<usize>)
    requires
        is_evaluation_order(orders, order),
    ensures
        forall|i: int, j: int| 0 <= i < j < order.len() ==> order[i] != order[j],
        forall|t: usize| t < orders.len() ==> #[trigger] order.contains(t),
{
    let n = orders.len() as int;
    let places = order.map_values(|x: usize| x as int);
    assert forall|i: int, j: int| 0 <= i < j < order.len() implies order[i] != order[j] by {
        assert(precedes(orders, order[i], order[j]));
    }
    assert(places.no_duplicates()) by {
        assert forall|i: int, j: int| 0 <= i < places.len() && 0 <= j < places.len() && i != j
            implies places[i] != places[j] by {
            if i < j {
                assert(precedes(orders, order[i], order[j]));
            } else {
                assert(precedes(orders, order[j], order[i]));
            }
        }
    }
    places.unique_seq_to_set();
    lemma_int_range(0, n);
    assert(places.to_set().subset_of(set_int_range(0, n)));
    assert(places.to_set().finite()) by {
        vstd::seq_lib::seq_to_set_is_finite(places);
    }
    lemma_subset_equality(places.to_set(), set_int_range(0, n));
    assert forall|t: usize| t < orders.len() implies #[trigger] order.contains(t) by {
        assert(set_int_range(0, n).contains(t as int));
        assert(places.to_set().contains(t as int));
        let i = choose|i: int| 0 <= i < places.len() && places[i] == t as int;
        assert(order[i] == t);
    }
}

/// The conjunction of patterns: satisfied where all of its terms are.
#[derive(Debug)]
pub struct And;

impl And {
    /// The names of the parameters of the conjunction: its list of terms.
    pub fn parameters(&self) -> (names: Vec<String>)
        ensures
            names@.len() == 1,
            names@[0]@ == "terms"@,
    {
        let mut names: Vec<String> = Vec::new();
        names.push(String::from_str("terms"));
        names
    }
}

/// Where the evaluation of a conjunction stands.
pub struct AndProgress {
    /// The terms, in the order in which they are evaluated.
    pub order: Seq<usize>,
    /// How many of them have been evaluated.
    pub done: nat,
    /// The worst severity found so far.
    pub severity: Severity,
}

/// The evaluation of a conjunction, one term after the other: terms are
/// evaluated by ascending order, and the conjunction is as severe as its
/// worst term. A conjunction that was given no list of terms fails.
pub struct AndEvaluation {
    order: Vec<usize>,
    done: usize,
    severity: Severity,
}

impl View for AndEvaluation {
    type V = AndProgress;

    closed spec fn view(&self) -> AndProgress {
        AndProgress { order: self.order@, done: self.done as nat, severity: self.severity }
    }
}

impl AndEvaluation {
    #[verifier::type_invariant]
    spec fn well_formed(self) -> bool {
        self.done <= self.order@.len()
    }

    /// Starts the evaluation of a conjunction whose terms have the given
    /// orders; without a list of terms there is nothing to evaluate and
    /// the conjunction fails.
    pub fn new(term_orders: Option<&Vec<u8>>) -> (e: AndEvaluation)
        ensures
            e@.done == 0,
            match term_orders {
                Some(orders) => is_evaluation_order(orders@, e@.order) && e@.severity
                    == Severity::NoIssue,
                None => e@.order.len() == 0 && e@.severity == Severity::Error,
            },
    {
        match term_orders {
            Some(orders) => AndEvaluation {
                order: evaluation_order(orders),
                done: 0,
                severity: Severity::NoIssue,
            },
            None => AndEvaluation { order: Vec::new(), done: 0, severity: Severity::Error },
        }
    }

    /// The term to evaluate next, if any is left.
    pub fn next_term(&self) -> (t: Option<usize>)
        ensures
            self@.done < self@.order.len() ==> t == Some(self@.order[self@.done as int]),
            self@.done >= self@.order.len() ==> t is None,
    {
        proof {
            use_type_invariant(self);
        }
        if self.done < self.order.len() {
            Some(self.order[self.done])
        } else {
            None
        }
    }

    /// Takes in the severity of the term that `next_term` named.
    pub fn record(&mut self, result: Severity)
        requires
            old(self)@.done < old(self)@.order.len(),
        ensures
            final(self)@.order == old(self)@.order,
            final(self)@.done == old(self)@.done + 1,
            final(self)@.severity == worse(old(self)@.severity, result),
            final(self)@.severity.level() >= old(self)@.severity.level(),
            final(self)@.severity.level() >= result.level(),
            final(self)@.severity == old(self)@.severity || final(self)@.severity == result,
            result == Severity::Error ==> final(self)@.severity == Severity::Error,
            final(self)@.severity.satisfied() <==> (old(self)@.severity.satisfied()
                && result.satisfied()),
    {
        proof {
            use_type_invariant(&*self);
        }
        let done = self.done;
        let total = self.order.len();
        assert(done < total);
        let severity = worst_of(self.severity, result);
        self.severity = severity;
        self.done = done + 1;
    }

    /// The severity of the conjunction so far.
    pub fn severity(&self) -> (s: Severity)
        ensures
            s == self@.severity,
    {
        self.severity
    }
}

/// The severity of a conjunction whose terms came out with the given
/// severities: the worst of them, `NoIssue` for no terms.
pub fn and_severity(results: &Vec<Severity>) -> (s: Severity)
    ensures
        s == worst(results@),
        forall|i: int| 0 <= i < results@.len() ==> results@[i].level() <= s.level(),
        s == Severity::NoIssue || results@.contains(s),
        s.satisfied() <==> forall|i: int| 0 <= i < results@.len() ==> #[trigger] results@[i].satisfied(),
{
    let mut s = Severity::NoIssue;
    let n = results.len();
    let mut i: usize = 0;
    while i < n
        invariant
            n == results@.len(),
            i <= n,
            s == worst(results@.take(i as int)),
            forall|k: int| 0 <= k < i ==> results@[k].level() <= s.level(),
            s == Severity::NoIssue || exists|k: int| 0 <= k < i && results@[k] == s,
            s.satisfied() <==> forall|k: int| 0 <= k < i ==> #[trigger] results@[k].satisfied(),
        decreases n - i,
    {
        assert(results@.take(i + 1).drop_last() =~= results@.take(i as int));
        let t = results[i];
        let before = s;
        s = worst_of(s, t);
        assert(s.satisfied() <==> forall|k: int| 0 <= k < i + 1 ==> #[trigger] results@[k].satisfied()) by {
            if !before.satisfied() {
                let k = choose|k: int| 0 <= k < i && !#[trigger] results@[k].satisfied();
            }
        }
        i = i + 1;
    }
    assert(results@.take(n as int) =~= results@);
    if s != Severity::NoIssue {
        let ghost k = choose|k: int| 0 <= k < n && results@[k] == s;
        assert(results@.contains(s)) by {
            assert(results@[k] == s);
        }
    }
    s
}

/// A conjunction is at least as severe as each of its terms, and it is as
/// severe as one of them, or it has no issue.
pub proof fn lemma_and_is_worst_term(results: Seq<Severity>)
    ensures
        forall|i: int| 0 <= i < results.len() ==> results[i].level() <= worst(results).level(),
        worst(results) == Severity::NoIssue || results.contains(worst(results)),
    decreases results.len(),
{
    if results.len() > 0 {
        lemma_and_is_worst_term(results.drop_last());
        let w = worst(results.drop_last());
        if w != Severity::NoIssue && worst(results) == w {
            let k = choose|k: int| 0 <= k < results.drop_last().len() && results.drop_last()[k] == w;
            assert(results[k] == w);
        }
        if worst(results) == results.last() {
            assert(results[results.len() - 1] == results.last());
        }
        assert forall|i: int| 0 <= i < results.len() implies results[i].level() <= worst(results).level() by {
            if i < results.len() - 1 {
                assert(results[i] == results.drop_last()[i]);
            }
        }
    }
}

/// A conjunction is satisfied exactly where every one of its terms is.
pub proof fn lemma_and_satisfied_iff_all(results: Seq<Severity>)
    ensures
        worst(results).satisfied() <==> forall|i: int| 0 <= i < results.len() ==> #[trigger] results[i].satisfied(),
{
    lemma_and_is_worst_term(results);
    if !worst(results).satisfied() {
        let k = choose|k: int| 0 <= k < results.len() && results[k] == worst(results);
        assert(!results[k].satisfied());
    }
}

/// The severity of a conjunction does not depend on the order in which its
/// terms are evaluated.
pub proof fn lemma_and_order_independent(a: Seq<Severity>, b: Seq<Severity>)
    requires
        a.to_multiset() == b.to_multiset(),
    ensures
        worst(a) == worst(b),
{
    broadcast use vstd::seq_lib::to_multiset_contains;

    lemma_and_is_worst_term(a);
    lemma_and_is_worst_term(b);
    let wa = worst(a);
    let wb = worst(b);
    if wa != Severity::NoIssue {
        assert(a.to_multiset().count(wa) > 0);
        assert(b.contains(wa));
        let k = choose|k: int| 0 <= k < b.len() && b[k] == wa;
        assert(b[k].level() <= wb.level());
    }
    if wb != Severity::NoIssue {
        assert(b.to_multiset().count(wb) > 0);
        assert(a.contains(wb));
        let k = choose|k: int| 0 <= k < a.len() && a[k] == wb;
        assert(a[k].level() <= wa.level());
    }
}

} // verus!
