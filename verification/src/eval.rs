use vstd::prelude::*;

use crate::severity::Severity;

verus! {

/// The format of the input documents of an evaluation.
#[derive(Debug, Clone, Copy, PartialEq, Eq, Structural)]
pub enum InputType {
    Json,
    Yaml,
}

/// The command that evaluates patterns against inputs.
#[derive(Debug)]
pub struct Eval {
    /// The format of the inputs.
    pub typ: InputType,
    /// The path of the one input to evaluate, in place of the configured ones.
    pub input: Option<String>,
    /// The one pattern to evaluate, in place of the configured ones.
    pub name: Option<String>,
    /// Whether every detail of each result is shown.
    pub verbose: bool,
    /// The fields of a result to show, separated by commas.
    pub select: String,
}

/// The texts of a list of strings.
pub open spec fn texts(v: Seq<String>) -> Seq<Seq<char>> {
    v.map_values(|t: String| t@)
}

/// The parts joined, with `sep` between each two.
pub open spec fn join(parts: Seq<Seq<char>>, sep: char) -> Seq<char>
    decreases parts.len(),
{
    if parts.len() == 0 {
        Seq::empty()
    } else if parts.len() == 1 {
        parts[0]
    } else {
        join(parts.drop_last(), sep) + seq![sep] + parts.last()
    }
}

/// Parts free of `sep` are determined by what they give joined: a text has
/// one way only to be cut at its separators.
pub proof fn lemma_split_is_unique(p: Seq<Seq<char>>, q: Seq<Seq<char>>, sep: char)
    requires
        p.len() >= 1,
        q.len() >= 1,
        forall|i: int| 0 <= i < p.len() ==> !(#[trigger] p[i]).contains(sep),
        forall|i: int| 0 <= i < q.len() ==> !(#[trigger] q[i]).contains(sep),
        join(p, sep) == join(q, sep),
    ensures
        p == q,
    decreases p.len() + q.len(),
{
    if p.len() == 1 && q.len() == 1 {
        assert(p =~= q);
    } else if p.len() == 1 {
        let b = join(q.drop_last(), sep);
        assert(join(q, sep)[b.len() as int] == sep);
        assert(p[0][b.len() as int] == sep);
        assert(p[0].contains(sep));
    } else if q.len() == 1 {
        let a = join(p.drop_last(), sep);
        assert(join(p, sep)[a.len() as int] == sep);
        assert(q[0][a.len() as int] == sep);
        assert(q[0].contains(sep));
    } else {
        let a = join(p.drop_last(), sep);
        let b = join(q.drop_last(), sep);
        let x = p.last();
        let y = q.last();
        let j = join(p, sep);
        assert(j == a + seq![sep] + x);
        assert(j == b + seq![sep] + y);
        assert(!x.contains(sep)) by {
            assert(x == p[p.len() - 1]);
        }
        assert(!y.contains(sep)) by {
            assert(y == q[q.len() - 1]);
        }
        if x.len() < y.len() {
            let k = j.len() - x.len() - 1;
            assert(j[k] == sep);
            assert(y[k - b.len() - 1] == sep);
            assert(y.contains(sep));
        } else if y.len() < x.len() {
            let k = j.len() - y.len() - 1;
            assert(j[k] == sep);
            assert(x[k - a.len() - 1] == sep);
            assert(x.contains(sep));
        } else {
            assert forall|i: int| 0 <= i < x.len() implies x[i] == y[i] by {
                assert(j[a.len() + 1 + i] == x[i]);
                assert(j[b.len() + 1 + i] == y[i]);
            }
            assert(x =~= y);
            assert forall|i: int| 0 <= i < a.len() implies a[i] == b[i] by {
                assert(j[i] == a[i]);
                assert(j[i] == b[i]);
            }
            assert(a =~= b);
            assert forall|i: int| 0 <= i < p.drop_last().len() implies !(#[trigger] p.drop_last()[i]).contains(
                sep,
            ) by {
                assert(p.drop_last()[i] == p[i]);
            }
            assert forall|i: int| 0 <= i < q.drop_last().len() implies !(#[trigger] q.drop_last()[i]).contains(
                sep,
            ) by {
                assert(q.drop_last()[i] == q[i]);
            }
            lemma_split_is_unique(p.drop_last(), q.drop_last(), sep);
            assert(p =~= p.drop_last().push(x));
            assert(q =~= q.drop_last().push(y));
        }
    }
}

/// A copy of a list of strings.
fn copy_texts(v: &Vec<String>) -> (r: Vec<String>)
    ensures
        r@ == v@,
{
    let mut r: Vec<String> = Vec::new();
    let n = v.len();
    let mut i: usize = 0;
    while i < n
        invariant
            n == v@.len(),
            i <= n,
            r@ == v@.take(i as int),
        decreases n - i,
    {
        r.push(v[i].clone());
        assert(r@ =~= v@.take(i + 1));
        i = i + 1;
    }
    assert(v@.take(n as int) =~= v@);
    r
}

/// Cuts `s` at each comma: the parts, joined again with commas, give `s`,
/// and none of them holds a comma.
pub fn split_at_commas(s: &str) -> (parts: Vec<String>)
    ensures
        parts@.len() >= 1,
        join(texts(parts@), ',') == s@,
        forall|i: int| 0 <= i < parts@.len() ==> !(#[trigger] parts@[i]@).contains(','),
{
    let n = s.unicode_len();
    let mut parts: Vec<String> = Vec::new();
    let mut start: usize = 0;
    let mut i: usize = 0;
    while i < n
        invariant
            n == s@.len(),
            start <= i <= n,
            join(texts(parts@).push(s@.subrange(start as int, i as int)), ',') == s@.subrange(0, i as int),
            forall|k: int| 0 <= k < parts@.len() ==> !(#[trigger] parts@[k]@).contains(','),
            !s@.subrange(start as int, i as int).contains(','),
        decreases n - i,
    {
        let c = s.get_char(i);
        let ghost ps = texts(parts@);
        let ghost cur = s@.subrange(start as int, i as int);
        if c == ',' {
            let piece = s.substring_char(start, i);
            parts.push(String::from_str(piece));
            assert(texts(parts@) =~= ps.push(cur));
            let ghost np = ps.push(cur).push(Seq::<char>::empty());
            assert(np.drop_last() =~= ps.push(cur));
            assert(join(np, ',') =~= s@.subrange(0, i + 1));
            assert(s@.subrange(i + 1, i + 1) =~= Seq::<char>::empty());
            start = i + 1;
        } else {
            proof {
                let next = s@.subrange(start as int, i + 1);
                assert(next =~= cur.push(c));
                if ps.len() > 0 {
                    assert(ps.push(next).drop_last() =~= ps);
                    assert(ps.push(cur).drop_last() =~= ps);
                    assert(join(ps.push(next), ',') =~= join(ps.push(cur), ',').push(c));
                } else {
                    assert(join(ps.push(next), ',') =~= next);
                    assert(join(ps.push(cur), ',') =~= cur);
                }
                assert(s@.subrange(0, i + 1) =~= s@.subrange(0, i as int).push(c));
                assert forall|x: char| next.contains(x) implies x != ',' by {
                    let k = choose|k: int| 0 <= k < next.len() && next[k] == x;
                    if k < cur.len() {
                        assert(cur[k] == x);
                    }
                }
            }
        }
        i = i + 1;
    }
    let ghost ps = texts(parts@);
    let last = s.substring_char(start, n);
    parts.push(String::from_str(last));
    assert(texts(parts@) =~= ps.push(s@.subrange(start as int, n as int)));
    assert(s@.subrange(0, n as int) =~= s@);
    parts
}

impl Eval {
    /// The fields shown of each result where none were selected.
    pub fn default_select() -> (s: String)
        ensures
            s@ == "name,severity,reason,rationale"@,
    {
        String::from_str("name,severity,reason,rationale")
    }

    /// The patterns to evaluate: the one named on the command, else those
    /// that the configuration requires; none at all is an error (`None`).
    pub fn policy_names(&self, required: &Vec<String>) -> (names: Option<Vec<String>>)
        ensures
            match self.name {
                Some(n) => names matches Some(v) && v@.len() == 1 && v@[0]@ == n@,
                None => if required@.len() == 0 {
                    names is None
                } else {
                    names matches Some(v) && v@ == required@
                },
            },
    {
        match &self.name {
            Some(n) => {
                let mut v: Vec<String> = Vec::new();
                v.push(n.clone());
                Some(v)
            },
            None => {
                if required.len() == 0 {
                    None
                } else {
                    Some(copy_texts(required))
                }
            },
        }
    }

    /// The paths of the inputs: the one given on the command, else the
    /// configured ones.
    pub fn input_paths(&self, configured: &Vec<String>) -> (paths: Vec<String>)
        ensures
            match self.input {
                Some(p) => paths@.len() == 1 && paths@[0]@ == p@,
                None => paths@ == configured@,
            },
    {
        match &self.input {
            Some(p) => {
                let mut v: Vec<String> = Vec::new();
                v.push(p.clone());
                v
            },
            None => copy_texts(configured),
        }
    }

    /// The fields of a result to show, as selected.
    pub fn selected_fields(&self) -> (fields: Vec<String>)
        ensures
            fields@.len() >= 1,
            join(texts(fields@), ',') == self.select@,
            forall|i: int| 0 <= i < fields@.len() ==> !(#[trigger] fields@[i]@).contains(','),
    {
        split_at_commas(self.select.as_str())
    }
}

/// What an evaluation run does next.
#[derive(Debug, Clone, Copy, PartialEq, Eq, Structural)]
pub enum EvalStep {
    /// Evaluate the pattern of the given place against the input of the
    /// given place, and show the result.
    Evaluate { value: usize, name: usize },
    /// End the run with this exit status.
    Exit(u8),
}

/// Where an evaluation run stands.
pub struct EvalRunView {
    pub values: nat,
    pub names: nat,
    pub value: nat,
    pub name: nat,
    pub failed: bool,
}

/// An evaluation run: every pattern against every input, input by input,
/// until one evaluation fails. A failure ends the run with status 2; a run
/// without failures ends with status 0.
pub struct EvalRun {
    values: usize,
    names: usize,
    value: usize,
    name: usize,
    failed: bool,
}

impl View for EvalRun {
    type V = EvalRunView;

    closed spec fn view(&self) -> EvalRunView {
        EvalRunView {
            values: self.values as nat,
            names: self.names as nat,
            value: self.value as nat,
            name: self.name as nat,
            failed: self.failed,
        }
    }
}

/// The step that a run in the given state takes next.
pub open spec fn next_step(r: EvalRunView) -> EvalStep {
    if r.failed {
        EvalStep::Exit(2)
    } else if r.names == 0 || r.value >= r.values {
        EvalStep::Exit(0)
    } else {
        EvalStep::Evaluate { value: r.value as usize, name: r.name as usize }
    }
}

/// A failed evaluation ends the run with status 2, whatever the number of
/// patterns and inputs; a run ends with status 0 only where nothing failed.
pub proof fn lemma_failure_ends_run(r: EvalRunView)
    ensures
        r.failed ==> next_step(r) == EvalStep::Exit(2),
        next_step(r) == EvalStep::Exit(0) ==> !r.failed,
        next_step(r) is Evaluate ==> !r.failed && r.value < r.values && r.names > 0,
{
}

impl EvalRun {
    #[verifier::type_invariant]
    spec fn well_formed(self) -> bool {
        &&& self.value <= self.values
        &&& (self.names > 0 ==> self.name < self.names)
        &&& (self.names == 0 ==> self.name == 0)
    }

    /// A run over `values` inputs and `names` patterns.
    pub fn new(values: usize, names: usize) -> (r: EvalRun)
        ensures
            r@ == (EvalRunView { values: values as nat, names: names as nat, value: 0, name: 0, failed: false }),
    {
        EvalRun { values, names, value: 0, name: 0, failed: false }
    }

    /// The next step of the run.
    pub fn next(&self) -> (step: EvalStep)
        ensures
            step == next_step(self@),
            self@.failed ==> step == EvalStep::Exit(2),
            !self@.failed && (self@.names == 0 || self@.value >= self@.values) ==> step == EvalStep::Exit(0),
            !self@.failed && self@.names > 0 && self@.value < self@.values ==> step == (EvalStep::Evaluate {
                value: self@.value as usize,
                name: self@.name as usize,
            }),
    {
        if self.failed {
            EvalStep::Exit(2)
        } else if self.names == 0 || self.value >= self.values {
            EvalStep::Exit(0)
        } else {
            EvalStep::Evaluate { value: self.value, name: self.name }
        }
    }

    /// Takes in the severity of the evaluation that `next` asked for: a
    /// failure ends the run; otherwise the run moves on to the next pattern,
    /// and after the last pattern to the next input.
    pub fn record(&mut self, result: Severity)
        requires
            next_step(old(self)@) is Evaluate,
        ensures
            final(self)@.values == old(self)@.values,
            final(self)@.names == old(self)@.names,
            result == Severity::Error ==> final(self)@.failed && final(self)@.value == old(self)@.value
                && final(self)@.name == old(self)@.name,
            result != Severity::Error ==> !final(self)@.failed && (if old(self)@.name + 1 < old(self)@.names {
                final(self)@.value == old(self)@.value && final(self)@.name == old(self)@.name + 1
            } else {
                final(self)@.value == old(self)@.value + 1 && final(self)@.name == 0
            }),
    {
        proof {
            use_type_invariant(&*self);
        }
        if matches!(result, Severity::Error) {
            self.failed = true;
        } else if self.name + 1 < self.names {
            self.name = self.name + 1;
        } else {
            self.value = self.value + 1;
            self.name = 0;
        }
    }
}

} // verus!
