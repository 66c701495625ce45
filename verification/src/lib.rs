//! A brute-force solver for numeric pass codes.
//!
//! A secret code of `length` digits is narrowed down by user-supplied
//! arithmetic/relational constraints such as `"a + b = c"`: each constraint is
//! compiled into an expression tree, and every still-plausible candidate code
//! that violates a constraint is eliminated.

pub mod ast;
pub mod combinations;

use crate::ast::evaluable::{EvalError, Evaluable, Value};
use crate::ast::expression::{spec_eval_expression, Expression};
use crate::ast::{compile, compile_error_message, spec_compile, spec_error_message};
use crate::combinations::{
    is_digit_vector, lemma_digits_are_digit_vector, lemma_pow10_increases, pow10, spec_digits,
    CombinationGenerator,
};
use vstd::prelude::*;

verus! {

/// Whether a candidate passes every rule. A rule eliminates a candidate only
/// when it evaluates cleanly to `Boolean(false)`; an error or a non-boolean
/// result keeps the candidate (the elimination fails open).
pub open spec fn spec_passes(rules: Seq<Expression>, candidate: Seq<u8>) -> bool {
    forall|i: int|
        0 <= i < rules.len() ==> spec_eval_expression(#[trigger] rules[i], candidate) != Ok::<
            Value,
            EvalError,
        >(Value::Boolean(false))
}

/// `spec_passes` under fixed rules, as a predicate on candidates.
pub open spec fn spec_passes_fn(rules: Seq<Expression>) -> spec_fn(Seq<u8>) -> bool {
    |c: Seq<u8>| spec_passes(rules, c)
}

/// The candidates of `cands` that pass every rule, in their original order.
pub open spec fn spec_surviving(cands: Seq<Seq<u8>>, rules: Seq<Expression>) -> Seq<Seq<u8>> {
    cands.filter(spec_passes_fn(rules))
}

/// The ordered list of compiled constraints, in rule-addition order.
pub struct RuleList {
    pub rules: Vec<Expression>,
}

impl RuleList {
    /// An empty rule list.
    pub fn new() -> (r: RuleList)
        ensures
            r.rules@ == Seq::<Expression>::empty(),
    {
        RuleList { rules: Vec::new() }
    }

    /// Compiles a constraint and appends it; a constraint that does not
    /// compile leaves the list unchanged and reports its message.
    pub fn add_rule(&mut self, rule: &str, length: u8) -> (r: Result<(), String>)
        ensures
            match spec_compile(rule@, length) {
                Ok(tree) => r is Ok && final(self).rules@ == old(self).rules@.push(tree),
                Err(ce) => r matches Err(m) && m@ == spec_error_message(ce) && final(self).rules@
                    == old(self).rules@,
            },
    {
        match compile(rule, length) {
            Ok(tree) => {
                self.rules.push(tree);
                Ok(())
            },
            Err(ce) => Err(compile_error_message(&ce)),
        }
    }

    /// Whether the candidate passes every rule, in rule-addition order, with
    /// the fail-open reading of errors and non-boolean results.
    pub fn run_rules(&self, combination: &Vec<u8>) -> (r: bool)
        ensures
            r == spec_passes(self.rules@, combination@),
    {
        let n = self.rules.len();
        let mut idx: usize = 0;
        while idx < n
            invariant
                idx <= n,
                n == self.rules@.len(),
                forall|i: int|
                    0 <= i < idx ==> spec_eval_expression(#[trigger] self.rules@[i], combination@)
                        != Ok::<Value, EvalError>(Value::Boolean(false)),
            decreases n - idx,
        {
            let verdict = self.rules[idx].evaluate(combination);
            match verdict {
                Ok(Value::Boolean(res)) => {
                    if !res {
                        return false;
                    }
                },
                _ => {},
            }
            idx = idx + 1;
        }
        true
    }
}

/// One attempt at solving a pass code: the code length, the candidates still
/// considered possible, and the rules supplied so far. The candidate set only
/// shrinks: a candidate removed by an elimination pass is never reconsidered.
pub struct Passcode {
    pub length: usize,
    pub possible_values: Vec<Vec<u8>>,
    pub rule_list: RuleList,
}

impl Passcode {
    /// The candidate codes still considered possible, as digit sequences in
    /// their stored order.
    pub open spec fn candidates(&self) -> Seq<Seq<u8>> {
        self.possible_values.deep_view()
    }

    /// Well-formedness: the candidate space fits the machine, and every
    /// stored candidate is a digit vector of the code length.
    pub open spec fn wf(&self) -> bool {
        &&& pow10(self.length as nat) <= usize::MAX
        &&& forall|i: int|
            0 <= i < self.candidates().len() ==> is_digit_vector(
                #[trigger] self.candidates()[i],
                self.length as nat,
            )
    }

    /// A fresh attempt at a code of `length` digits: every one of the
    /// `10^length` candidates is possible and no rule is given yet.
    pub fn new(length: usize) -> (r: Passcode)
        requires
            pow10(length as nat) <= usize::MAX,
        ensures
            r.length == length,
            r.rule_list.rules@ == Seq::<Expression>::empty(),
            r.candidates().len() == pow10(length as nat),
            forall|i: int|
                0 <= i < r.candidates().len() ==> #[trigger] r.candidates()[i] == spec_digits(
                    i as nat,
                    length as nat,
                ),
            r.wf(),
    {
        let mut combinations: Vec<Vec<u8>> = Vec::new();
        let mut generator = CombinationGenerator::new(length);
        loop
            invariant
                generator.length == length,
                pow10(length as nat) <= usize::MAX,
                generator.count <= pow10(length as nat),
                combinations@.len() == generator.count,
                forall|i: int|
                    0 <= i < combinations@.len() ==> (#[trigger] combinations@[i])@ == spec_digits(
                        i as nat,
                        length as nat,
                    ),
            ensures
                combinations@.len() == pow10(length as nat),
                forall|i: int|
                    0 <= i < combinations@.len() ==> (#[trigger] combinations@[i])@ == spec_digits(
                        i as nat,
                        length as nat,
                    ),
            decreases pow10(length as nat) - generator.count,
        {
            match generator.next() {
                Some(combination) => {
                    combinations.push(combination);
                },
                None => {
                    break;
                },
            }
        }
        let result = Passcode {
            length: length,
            possible_values: combinations,
            rule_list: RuleList::new(),
        };
        proof {
            assert forall|i: int| 0 <= i < result.candidates().len() implies #[trigger] result
                .candidates()[i] == spec_digits(i as nat, length as nat) by {
                assert(result.candidates()[i] == result.possible_values@[i]@);
            }
            assert forall|i: int| 0 <= i < result.candidates().len() implies is_digit_vector(
                #[trigger] result.candidates()[i],
                length as nat,
            ) by {
                lemma_digits_are_digit_vector(i as nat, length as nat);
            }
        }
        result
    }

    /// One elimination pass: every candidate is evaluated against every rule
    /// in rule-addition order, and exactly the candidates that fail a rule
    /// are removed, the order of the rest preserved. Returns how many were
    /// removed. Running the pass again without new rules removes nothing.
    pub fn eliminate_combinations(&mut self) -> (removed: usize)
        ensures
            final(self).length == old(self).length,
            final(self).rule_list == old(self).rule_list,
            final(self).candidates() == spec_surviving(
                old(self).candidates(),
                old(self).rule_list.rules@,
            ),
            removed == old(self).candidates().len() - final(self).candidates().len(),
            old(self).wf() ==> final(self).wf(),
    {
        let ghost all = old(self).candidates();
        let ghost rules = old(self).rule_list.rules@;
        let mut survivors: Vec<Vec<u8>> = Vec::new();
        let n = self.possible_values.len();
        let mut idx: usize = 0;
        proof {
            assert(all.subrange(0, 0) =~= Seq::<Seq<u8>>::empty());
            assert(spec_surviving(all.subrange(0, 0), rules) =~= Seq::<Seq<u8>>::empty());
        }
        while idx < n
            invariant
                idx <= n,
                *self == *old(self),
                n == self.possible_values@.len(),
                all == old(self).candidates(),
                rules == old(self).rule_list.rules@,
                survivors.deep_view() == spec_surviving(all.subrange(0, idx as int), rules),
            decreases n - idx,
        {
            let ghost pre = all.subrange(0, idx as int);
            let ghost cur = all.subrange(0, idx + 1);
            let ghost pre_survivors = survivors.deep_view();
            proof {
                assert(cur.drop_last() =~= pre);
                assert(cur.last() == self.possible_values@[idx as int]@);
            }
            if self.rule_list.run_rules(&self.possible_values[idx]) {
                let kept = self.possible_values[idx].clone();
                proof {
                    vstd::std_specs::vec::vec_clone_deep_view_proof(
                        self.possible_values@[idx as int],
                        kept,
                    );
                }
                survivors.push(kept);
                proof {
                    assert(survivors.deep_view() =~= pre_survivors.push(cur.last()));
                }
            }
            proof {
                reveal(Seq::filter);
                assert(spec_surviving(cur, rules) == if spec_passes(rules, cur.last()) {
                    spec_surviving(pre, rules).push(cur.last())
                } else {
                    spec_surviving(pre, rules)
                });
            }
            idx = idx + 1;
        }
        proof {
            assert(all.subrange(0, n as int) =~= all);
        }
        let remaining = survivors.len();
        self.possible_values = survivors;
        proof {
            all.lemma_filter_len(spec_passes_fn(rules));
            if old(self).wf() {
                lemma_surviving_are_candidates(all, rules);
                assert forall|i: int| 0 <= i < self.candidates().len() implies is_digit_vector(
                    #[trigger] self.candidates()[i],
                    self.length as nat,
                ) by {
                    assert(self.candidates()[i] == spec_surviving(all, rules)[i]);
                    assert(all.contains(spec_surviving(all, rules)[i]));
                    let j = choose|j: int|
                        0 <= j < all.len() && all[j] == spec_surviving(all, rules)[i];
                    assert(is_digit_vector(all[j], self.length as nat));
                }
            }
        }
        n - remaining
    }

    /// Compiles a rule and adds it to the list; no candidates are re-scanned
    /// until the next elimination pass.
    pub fn add_rule(&mut self, rule: &str) -> (r: Result<(), String>)
        requires
            old(self).wf(),
        ensures
            final(self).length == old(self).length,
            final(self).possible_values == old(self).possible_values,
            final(self).wf(),
            match spec_compile(rule@, old(self).length as u8) {
                Ok(tree) => r is Ok && final(self).rule_list.rules@
                    == old(self).rule_list.rules@.push(tree),
                Err(ce) => r matches Err(m) && m@ == spec_error_message(ce)
                    && final(self).rule_list.rules@ == old(self).rule_list.rules@,
            },
    {
        proof {
            lemma_wf_length_small(old(self));
        }
        let length = self.length as u8;
        let result = self.rule_list.add_rule(rule, length);
        proof {
            assert(self.candidates() == old(self).candidates());
        }
        result
    }

    /// How many candidates are still possible.
    pub fn solutions_left(&self) -> (r: usize)
        ensures
            r == self.candidates().len(),
    {
        self.possible_values.len()
    }

    /// Whether any candidate is still possible.
    pub fn solution_exists(&self) -> (r: bool)
        ensures
            r == (self.candidates().len() > 0),
    {
        self.solutions_left() > 0
    }

    /// The solved code: succeeds exactly when a single candidate remains.
    pub fn solution(&self) -> (r: Result<&Vec<u8>, &'static str>)
        ensures
            self.candidates().len() == 1 ==> (r matches Ok(v) && v@ == self.candidates()[0]),
            self.candidates().len() != 1 ==> (r matches Err(m) && m@ == "Nope"@),
    {
        if self.solutions_left() == 1 {
            Ok(&self.possible_values[0])
        } else {
            Err("Nope")
        }
    }
}

/// A well-formed attempt's length fits comfortably in a byte: the candidate
/// space of a 20-digit code would already overrun the machine.
proof fn lemma_wf_length_small(p: &Passcode)
    requires
        p.wf(),
    ensures
        p.length < 20,
{
    if p.length >= 20 {
        lemma_pow10_increases(20, p.length as nat);
        assert(pow10(20) > usize::MAX) by {
            reveal_with_fuel(pow10, 21);
        }
    }
}

/// Every sequence kept by a filter occurs in the filtered sequence.
proof fn lemma_filter_subset<A>(s: Seq<A>, pred: spec_fn(A) -> bool)
    ensures
        forall|j: int| 0 <= j < s.filter(pred).len() ==> s.contains(#[trigger] s.filter(pred)[j]),
    decreases s.len(),
{
    reveal(Seq::filter);
    if s.len() > 0 {
        lemma_filter_subset(s.drop_last(), pred);
        assert forall|j: int| 0 <= j < s.filter(pred).len() implies s.contains(
            #[trigger] s.filter(pred)[j],
        ) by {
            let sub = s.drop_last().filter(pred);
            if j < sub.len() {
                assert(s.drop_last().contains(sub[j]));
                let i = choose|i: int| 0 <= i < s.drop_last().len() && s.drop_last()[i] == sub[j];
                assert(s[i] == s.filter(pred)[j]);
            } else {
                assert(s[s.len() - 1] == s.filter(pred)[j]);
            }
        }
    }
}

/// Every surviving candidate was among the candidates before the pass.
proof fn lemma_surviving_are_candidates(cands: Seq<Seq<u8>>, rules: Seq<Expression>)
    ensures
        forall|j: int|
            0 <= j < spec_surviving(cands, rules).len() ==> cands.contains(
                #[trigger] spec_surviving(cands, rules)[j],
            ),
{
    lemma_filter_subset(cands, spec_passes_fn(rules));
    assert forall|j: int| 0 <= j < spec_surviving(cands, rules).len() implies cands.contains(
        #[trigger] spec_surviving(cands, rules)[j],
    ) by {
        assert(spec_surviving(cands, rules)[j] == cands.filter(spec_passes_fn(rules))[j]);
    }
}

/// If every candidate already passes every rule, a pass removes nothing.
proof fn lemma_filter_all_pass<A>(s: Seq<A>, pred: spec_fn(A) -> bool)
    requires
        forall|i: int| 0 <= i < s.len() ==> pred(#[trigger] s[i]),
    ensures
        s.filter(pred) == s,
    decreases s.len(),
{
    reveal(Seq::filter);
    if s.len() == 0 {
        assert(s.filter(pred) =~= s);
    } else {
        lemma_filter_all_pass(s.drop_last(), pred);
        assert(s.filter(pred) =~= s);
    }
}

/// Law: elimination is idempotent. The survivors of a pass all pass every
/// rule, so a second pass with the same rules removes zero candidates.
pub proof fn lemma_eliminate_idempotent(cands: Seq<Seq<u8>>, rules: Seq<Expression>)
    ensures
        spec_surviving(spec_surviving(cands, rules), rules) == spec_surviving(cands, rules),
{
    let pred = spec_passes_fn(rules);
    let once = cands.filter(pred);
    assert forall|i: int| 0 <= i < once.len() implies pred(#[trigger] once[i]) by {
        cands.lemma_filter_pred(pred, i);
    }
    lemma_filter_all_pass(once, pred);
}

} // verus!
