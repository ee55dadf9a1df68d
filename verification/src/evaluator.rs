//! Runs the rules in their fixed order and tallies the verdicts.

use vstd::prelude::*;
use crate::rules::{
    check_collision, check_digit, check_length, check_special_char, digit_outcome,
    is_collision_outcome, length_outcome, special_char_outcome, Detail, RuleConfig, RuleId,
    RuleOutcome,
};
use crate::text::{decimal, push_decimal};
use crate::wordlist::{IoError, WordlistSource};

verus! {

/// A rule as it is run and shown: the name to show it under, and which rule
/// it is.
#[derive(Clone, Debug)]
pub struct Test {
    /// The name under which the rule is shown.
    pub name: String,
    /// The rule that is run.
    pub rule: RuleId,
}

/// A rule with its verdict.
#[derive(Clone, Copy, Debug, PartialEq, Eq, Structural)]
pub struct RuleResult {
    /// The rule that was asked.
    pub rule: RuleId,
    /// What it said.
    pub outcome: RuleOutcome,
}

/// The tally of one evaluation.
#[derive(Clone, Copy, Debug, PartialEq, Eq, Structural)]
pub struct EvaluationSummary {
    /// The rules that passed.
    pub passed: usize,
    /// The rules that ran: all but the ignored ones.
    pub enabled: usize,
    /// All rules, ignored ones included.
    pub total: usize,
}

/// The verdicts of one evaluation, in the order of the rules, and their
/// tally.
#[derive(Clone, Debug)]
pub struct Evaluation {
    /// One verdict for each rule, in the order in which the rules ran.
    pub results: Vec<RuleResult>,
    /// The tally of `results`.
    pub summary: EvaluationSummary,
}

/// The rules in the order in which they run.
pub open spec fn rule_order() -> Seq<RuleId> {
    seq![RuleId::MinimumChars, RuleId::Numbers, RuleId::SpecialChars, RuleId::WordlistCollisions]
}

/// `outcome` is the verdict of `rule` on `password`: `Ignored` where the
/// configuration switches the rule off, and what the rule itself says
/// otherwise.
pub open spec fn is_rule_outcome(
    rule: RuleId,
    password: Seq<char>,
    config: RuleConfig,
    source: Result<WordlistSource, IoError>,
    outcome: RuleOutcome,
) -> bool {
    if config.ignores(rule) {
        outcome == RuleOutcome::Ignored(Detail::Disabled { rule })
    } else {
        match rule {
            RuleId::MinimumChars => outcome == length_outcome(password, config.min_length()),
            RuleId::Numbers => outcome == digit_outcome(password),
            RuleId::SpecialChars => outcome == special_char_outcome(password),
            RuleId::WordlistCollisions => is_collision_outcome(
                password,
                config.threshold(),
                source,
                outcome,
            ),
        }
    }
}

/// How many of `results` passed.
pub open spec fn count_passed(results: Seq<RuleResult>) -> nat
    decreases results.len(),
{
    if results.len() == 0 {
        0
    } else {
        count_passed(results.drop_last()) + if results.last().outcome is Pass {
            1nat
        } else {
            0nat
        }
    }
}

/// How many of `results` were ignored.
pub open spec fn count_ignored(results: Seq<RuleResult>) -> nat
    decreases results.len(),
{
    if results.len() == 0 {
        0
    } else {
        count_ignored(results.drop_last()) + if results.last().outcome is Ignored {
            1nat
        } else {
            0nat
        }
    }
}

/// Passed and ignored results are different results, so together they are no
/// more than all.
pub proof fn lemma_counts_bounded(results: Seq<RuleResult>)
    ensures
        count_passed(results) + count_ignored(results) <= results.len(),
    decreases results.len(),
{
    if results.len() > 0 {
        lemma_counts_bounded(results.drop_last());
    }
}

impl EvaluationSummary {
    /// No more rules passed than ran, and no more ran than there are.
    pub open spec fn wf(&self) -> bool {
        self.passed <= self.enabled <= self.total
    }

    /// This is the tally of `results`: passes are counted among the rules that
    /// ran, and an ignored rule counts towards the total only.
    pub open spec fn tallies(&self, results: Seq<RuleResult>) -> bool {
        &&& self.total == results.len()
        &&& self.enabled == results.len() - count_ignored(results)
        &&& self.passed == count_passed(results)
    }

    /// The share of the rules that ran which passed, in whole percent, rounded
    /// down; `None` where no rule ran, so that there is no share to speak of.
    pub open spec fn percentage(&self) -> Option<u8> {
        if self.enabled == 0 {
            None
        } else {
            Some(((self.passed * 100) / (self.enabled as int)) as u8)
        }
    }

    /// The share of the rules that ran which passed, in whole percent, rounded
    /// down. Where every rule was ignored there is no such share, and the
    /// answer is `None`.
    pub fn pass_percentage(&self) -> (percent: Option<u8>)
        requires
            self.wf(),
        ensures
            percent == self.percentage(),
            percent is None <==> self.enabled == 0,
            percent matches Some(p) ==> p <= 100 && p * self.enabled <= self.passed * 100 < (p
                + 1) * self.enabled,
    {
        if self.enabled == 0 {
            None
        } else {
            let passed: u128 = self.passed as u128;
            let enabled: u128 = self.enabled as u128;
            assert(passed * 100 <= 0xffff_ffff_ffff_ffff * 100);
            let p: u128 = passed * 100 / enabled;
            proof {
                let (a, e) = (self.passed as int, self.enabled as int);
                assert((a * 100) / e <= 100 && ((a * 100) / e) * e <= a * 100 < ((a * 100) / e
                    + 1) * e) by (nonlinear_arith)
                    requires
                        0 <= a <= e,
                        0 < e,
                ;
            }
            Some(p as u8)
        }
    }
}

/// Tallies `results`.
pub fn summarize(results: &Vec<RuleResult>) -> (summary: EvaluationSummary)
    ensures
        summary.tallies(results@),
        summary.wf(),
{
    let mut passed: usize = 0;
    let mut ignored: usize = 0;
    let mut i: usize = 0;
    while i < results.len()
        invariant
            i <= results@.len(),
            passed == count_passed(results@.take(i as int)),
            ignored == count_ignored(results@.take(i as int)),
            passed + ignored <= i,
        decreases results@.len() - i,
    {
        proof {
            assert(results@.take(i + 1).drop_last() == results@.take(i as int));
            lemma_counts_bounded(results@.take(i + 1));
        }
        match results[i].outcome {
            RuleOutcome::Pass(_) => {
                passed += 1;
            },
            RuleOutcome::Ignored(_) => {
                ignored += 1;
            },
            RuleOutcome::Fail(_) => {},
        }
        i += 1;
    }
    proof {
        assert(results@.take(i as int) == results@);
    }
    EvaluationSummary { passed, enabled: results.len() - ignored, total: results.len() }
}

/// The verdict of one rule: `Ignored` where the configuration switches the
/// rule off, and otherwise what the rule finds.
pub fn evaluate_rule(
    rule: RuleId,
    password: &str,
    config: &RuleConfig,
    source: &Result<WordlistSource, IoError>,
) -> (outcome: RuleOutcome)
    ensures
        is_rule_outcome(rule, password@, *config, *source, outcome),
        outcome is Ignored <==> config.ignores(rule),
{
    if config.is_ignored(rule) {
        RuleOutcome::Ignored(Detail::Disabled { rule })
    } else {
        match rule {
            RuleId::MinimumChars => check_length(password, config.effective_min_length()),
            RuleId::Numbers => check_digit(password),
            RuleId::SpecialChars => check_special_char(password),
            RuleId::WordlistCollisions => check_collision(
                password,
                config.effective_threshold(),
                source,
            ),
        }
    }
}

impl Test {
    /// A test with the given name for the given rule.
    pub fn new(name: String, rule: RuleId) -> (test: Test)
        ensures
            test.name == name,
            test.rule == rule,
    {
        Test { name, rule }
    }

    /// Runs the test: the verdict of its rule on `password`.
    pub fn run(
        &self,
        password: &str,
        config: &RuleConfig,
        source: &Result<WordlistSource, IoError>,
    ) -> (result: RuleResult)
        ensures
            result.rule == self.rule,
            is_rule_outcome(self.rule, password@, *config, *source, result.outcome),
            result.outcome is Ignored <==> config.ignores(self.rule),
    {
        RuleResult { rule: self.rule, outcome: evaluate_rule(self.rule, password, config, source) }
    }
}

/// The name under which a rule is shown; that of the length rule tells the
/// minimum in force.
pub open spec fn rule_name(rule: RuleId, min: u8) -> Seq<char> {
    match rule {
        RuleId::MinimumChars => "At least "@ + decimal(min as nat) + " characters"@,
        RuleId::Numbers => "numbers"@,
        RuleId::SpecialChars => "quirky characters"@,
        RuleId::WordlistCollisions => "collisions in wordlist"@,
    }
}

/// The four tests in the order in which they run, each under its name.
pub fn rule_set(config: &RuleConfig) -> (tests: Vec<Test>)
    ensures
        tests@.len() == 4,
        forall|k: int|
            0 <= k < 4 ==> {
                &&& (#[trigger] tests@[k]).rule == rule_order()[k]
                &&& tests@[k].name@ == rule_name(rule_order()[k], config.min_length())
            },
{
    let mut length_name: String = String::from_str("At least ");
    push_decimal(&mut length_name, config.effective_min_length() as usize);
    length_name.append(" characters");
    let mut tests: Vec<Test> = Vec::new();
    tests.push(Test::new(length_name, RuleId::MinimumChars));
    tests.push(Test::new(String::from_str("numbers"), RuleId::Numbers));
    tests.push(Test::new(String::from_str("quirky characters"), RuleId::SpecialChars));
    tests.push(Test::new(String::from_str("collisions in wordlist"), RuleId::WordlistCollisions));
    tests
}

/// Runs `tests` on `password`, one after the other and every one of them, and
/// tallies the verdicts.
pub fn run_all(
    tests: &Vec<Test>,
    password: &str,
    config: &RuleConfig,
    source: &Result<WordlistSource, IoError>,
) -> (done: Evaluation)
    ensures
        done.results@.len() == tests@.len(),
        forall|k: int|
            0 <= k < tests@.len() ==> {
                &&& (#[trigger] done.results@[k]).rule == tests@[k].rule
                &&& is_rule_outcome(
                    tests@[k].rule,
                    password@,
                    *config,
                    *source,
                    done.results@[k].outcome,
                )
                &&& (done.results@[k].outcome is Ignored <==> config.ignores(tests@[k].rule))
            },
        done.summary.tallies(done.results@),
        done.summary.wf(),
{
    let mut results: Vec<RuleResult> = Vec::new();
    let mut i: usize = 0;
    while i < tests.len()
        invariant
            i <= tests@.len(),
            results@.len() == i,
            forall|k: int|
                0 <= k < i ==> {
                    &&& (#[trigger] results@[k]).rule == tests@[k].rule
                    &&& is_rule_outcome(
                        tests@[k].rule,
                        password@,
                        *config,
                        *source,
                        results@[k].outcome,
                    )
                    &&& (results@[k].outcome is Ignored <==> config.ignores(tests@[k].rule))
                },
        decreases tests@.len() - i,
    {
        let result: RuleResult = tests[i].run(password, config, source);
        results.push(result);
        i += 1;
    }
    let summary: EvaluationSummary = summarize(&results);
    Evaluation { results, summary }
}

/// Runs the four rules on `password`, in their fixed order, and tallies the
/// verdicts. No verdict keeps another rule from running.
pub fn evaluate(password: &str, config: &RuleConfig, source: &Result<WordlistSource, IoError>) -> (done:
    Evaluation)
    ensures
        done.results@.len() == 4,
        forall|k: int|
            0 <= k < 4 ==> {
                &&& (#[trigger] done.results@[k]).rule == rule_order()[k]
                &&& is_rule_outcome(
                    rule_order()[k],
                    password@,
                    *config,
                    *source,
                    done.results@[k].outcome,
                )
                &&& (done.results@[k].outcome is Ignored <==> config.ignores(rule_order()[k]))
            },
        done.summary.tallies(done.results@),
        done.summary.wf(),
        done.summary.total == 4,
{
    let tests: Vec<Test> = rule_set(config);
    run_all(&tests, password, config, source)
}

/// An ignored result adds to the total and to nothing else: the number of
/// rules that ran and the number that passed stay as they were.
pub proof fn ignored_result_counts_towards_total_only(
    results: Seq<RuleResult>,
    ignored: RuleResult,
    before: EvaluationSummary,
    after: EvaluationSummary,
)
    requires
        ignored.outcome is Ignored,
        before.tallies(results),
        after.tallies(results.push(ignored)),
    ensures
        after.total == before.total + 1,
        after.enabled == before.enabled,
        after.passed == before.passed,
{
    assert(results.push(ignored).drop_last() == results);
}

/// Every tally is well formed: the rules that ran are the total less the
/// ignored ones, and the passes are among them.
pub proof fn tally_is_well_formed(results: Seq<RuleResult>, summary: EvaluationSummary)
    requires
        summary.tallies(results),
    ensures
        summary.wf(),
        summary.enabled + count_ignored(results) == summary.total,
{
    lemma_counts_bounded(results);
}

} // verus!
