//! The four rules, their configuration and their outcomes.

use vstd::prelude::*;
use crate::similarity::{
    best_match_at, is_best_match, lemma_similarity_has_denominator, similarity_of,
    similarity_of_self_is_one, Score,
};
use crate::text::{chars_of, decimal, push_decimal};
use crate::wordlist::{IoError, WordlistSource};

verus! {

/// The minimum length where none is configured.
pub const DEFAULT_MIN_LENGTH: u8 = 8;

/// The similarity threshold, in percent, where none is configured.
pub const DEFAULT_SIMILARITY: u8 = 97;

/// The highest similarity threshold, in percent, that is ever applied.
pub const MAX_SIMILARITY: u8 = 99;

/// The rules, in the order in which they run.
#[derive(Clone, Copy, Debug, PartialEq, Eq, Structural)]
pub enum RuleId {
    /// The password has a minimum number of characters.
    MinimumChars,
    /// The password holds an ASCII digit.
    Numbers,
    /// The password holds an ASCII punctuation character.
    SpecialChars,
    /// The password is not too close to a known weak password.
    WordlistCollisions,
}

impl RuleId {
    /// The word by which the configuration names the rule.
    pub open spec fn identifier_text(self) -> Seq<char> {
        match self {
            RuleId::MinimumChars => "MinimumChars"@,
            RuleId::Numbers => "Numbers"@,
            RuleId::SpecialChars => "SpecialChars"@,
            RuleId::WordlistCollisions => "WordlistCollisions"@,
        }
    }

    /// The word by which the configuration names the rule.
    pub fn identifier(&self) -> (word: &'static str)
        ensures
            word@ == self.identifier_text(),
    {
        match self {
            RuleId::MinimumChars => "MinimumChars",
            RuleId::Numbers => "Numbers",
            RuleId::SpecialChars => "SpecialChars",
            RuleId::WordlistCollisions => "WordlistCollisions",
        }
    }
}

/// What a rule has to say beside its verdict.
#[derive(Clone, Copy, Debug, PartialEq, Eq, Structural)]
pub enum Detail {
    /// Nothing to add.
    Nothing,
    /// The password has `len` characters where `min` are asked for.
    TooShort { len: usize, min: u8 },
    /// No numeric characters in the password.
    NoDigit,
    /// No special characters in the password.
    NoSpecialChar,
    /// The closest entry of the wordlist stands at `index` and has this score.
    BestMatch { index: usize, score: Score },
    /// The wordlist has no entries, so nothing was compared.
    EmptyWordlist,
    /// The wordlist that was asked for could not be read.
    WordlistUnreadable,
    /// The rule was switched off by the configuration.
    Disabled { rule: RuleId },
}

/// The verdict of one rule.
#[derive(Clone, Copy, Debug, PartialEq, Eq, Structural)]
pub enum RuleOutcome {
    /// The rule ran and the password met it.
    Pass(Detail),
    /// The rule ran and the password did not meet it.
    Fail(Detail),
    /// The rule did not run: the configuration switches it off.
    Ignored(Detail),
}

impl Detail {
    /// The wording of a detail that can be worded from the detail alone.
    /// (A best match is worded with the entry and with the score as a decimal
    /// fraction, an unreadable wordlist with its path; both are left to the
    /// caller, who has them.)
    pub open spec fn text(self) -> Option<Seq<char>> {
        match self {
            Detail::TooShort { len, min } => Some(
                "Password too short: "@ + decimal(len as nat) + "/"@ + decimal(min as nat)
                    + " characters"@,
            ),
            Detail::NoDigit => Some("No numeric characters in password"@),
            Detail::NoSpecialChar => Some("No special characters in password"@),
            Detail::EmptyWordlist => Some("No match found: the wordlist has no entries"@),
            Detail::Disabled { rule } => Some("disabled with -i "@ + rule.identifier_text()),
            _ => None,
        }
    }

    /// The wording of this detail, where it has one of its own.
    pub fn message(&self) -> (m: Option<String>)
        ensures
            m is None <==> self.text() is None,
            m matches Some(s) ==> self.text() == Some(s@),
    {
        match self {
            Detail::TooShort { len, min } => {
                let mut s: String = String::from_str("Password too short: ");
                push_decimal(&mut s, *len);
                s.append("/");
                push_decimal(&mut s, *min as usize);
                s.append(" characters");
                Some(s)
            },
            Detail::NoDigit => Some(String::from_str("No numeric characters in password")),
            Detail::NoSpecialChar => Some(String::from_str("No special characters in password")),
            Detail::EmptyWordlist => Some(
                String::from_str("No match found: the wordlist has no entries"),
            ),
            Detail::Disabled { rule } => {
                let mut s: String = String::from_str("disabled with -i ");
                s.append(rule.identifier());
                Some(s)
            },
            _ => None,
        }
    }
}

/// The options of one evaluation.
#[derive(Clone, Debug)]
pub struct RuleConfig {
    /// The least number of characters; `DEFAULT_MIN_LENGTH` if absent.
    pub minimum_length: Option<u8>,
    /// The similarity, in percent, from which a wordlist entry counts as a
    /// collision; `DEFAULT_SIMILARITY` if absent, never more than
    /// `MAX_SIMILARITY`.
    pub similarity_threshold: Option<u8>,
    /// The rules that are not to run.
    pub ignored_rules: Vec<RuleId>,
}

impl RuleConfig {
    /// The minimum length in force.
    pub open spec fn min_length(&self) -> u8 {
        match self.minimum_length {
            Some(m) => m,
            None => DEFAULT_MIN_LENGTH,
        }
    }

    /// The similarity threshold in force, in percent.
    pub open spec fn threshold(&self) -> u8 {
        let asked = match self.similarity_threshold {
            Some(t) => t,
            None => DEFAULT_SIMILARITY,
        };
        if asked <= MAX_SIMILARITY {
            asked
        } else {
            MAX_SIMILARITY
        }
    }

    /// Whether `rule` is switched off.
    pub open spec fn ignores(&self, rule: RuleId) -> bool {
        self.ignored_rules@.contains(rule)
    }

    /// The configuration with every option absent and no rule switched off.
    pub fn new() -> (config: RuleConfig)
        ensures
            config.minimum_length is None,
            config.similarity_threshold is None,
            config.ignored_rules@.len() == 0,
            config.min_length() == 8,
            config.threshold() == 97,
            forall|rule: RuleId| !config.ignores(rule),
    {
        RuleConfig { minimum_length: None, similarity_threshold: None, ignored_rules: Vec::new() }
    }

    /// The minimum length in force.
    pub fn effective_min_length(&self) -> (m: u8)
        ensures
            m == self.min_length(),
    {
        match self.minimum_length {
            Some(m) => m,
            None => DEFAULT_MIN_LENGTH,
        }
    }

    /// The similarity threshold in force, in percent.
    pub fn effective_threshold(&self) -> (t: u8)
        ensures
            t == self.threshold(),
            t <= 99,
    {
        let asked: u8 = match self.similarity_threshold {
            Some(t) => t,
            None => DEFAULT_SIMILARITY,
        };
        if asked <= MAX_SIMILARITY {
            asked
        } else {
            MAX_SIMILARITY
        }
    }

    /// Whether `rule` is switched off.
    pub fn is_ignored(&self, rule: RuleId) -> (b: bool)
        ensures
            b == self.ignores(rule),
    {
        let mut i: usize = 0;
        while i < self.ignored_rules.len()
            invariant
                i <= self.ignored_rules@.len(),
                forall|j: int| 0 <= j < i ==> self.ignored_rules@[j] != rule,
            decreases self.ignored_rules@.len() - i,
        {
            if self.ignored_rules[i] == rule {
                return true;
            }
            i += 1;
        }
        false
    }
}

impl Default for RuleConfig {
    fn default() -> (config: RuleConfig)
        ensures
            config.minimum_length is None,
            config.similarity_threshold is None,
            config.ignored_rules@.len() == 0,
    {
        RuleConfig::new()
    }
}

/// `c` is one of `0` to `9`.
pub open spec fn is_ascii_digit(c: char) -> bool {
    '0' <= c <= '9'
}

/// `c` is one of the 32 ASCII punctuation characters.
pub open spec fn is_ascii_punctuation(c: char) -> bool {
    ||| '!' <= c <= '/'
    ||| ':' <= c <= '@'
    ||| '[' <= c <= '`'
    ||| '{' <= c <= '~'
}

/// Some character of `password` is an ASCII digit.
pub open spec fn has_digit(password: Seq<char>) -> bool {
    exists|i: int| 0 <= i < password.len() && is_ascii_digit(#[trigger] password[i])
}

/// Some character of `password` is ASCII punctuation.
pub open spec fn has_special_char(password: Seq<char>) -> bool {
    exists|i: int| 0 <= i < password.len() && is_ascii_punctuation(#[trigger] password[i])
}

/// What the length rule says of `password`: its characters are counted, not
/// its bytes.
pub open spec fn length_outcome(password: Seq<char>, min: u8) -> RuleOutcome {
    if password.len() >= min {
        RuleOutcome::Pass(Detail::Nothing)
    } else {
        RuleOutcome::Fail(Detail::TooShort { len: password.len() as usize, min })
    }
}

/// The length rule at its boundary: a password of exactly the minimum length
/// passes, and one that is a single character short fails with a detail whose
/// wording holds both its length and the minimum.
pub proof fn length_rule_at_the_boundary(password: Seq<char>, min: u8)
    ensures
        password.len() == min ==> length_outcome(password, min) == RuleOutcome::Pass(
            Detail::Nothing,
        ),
        password.len() + 1 == min ==> {
            let detail = Detail::TooShort { len: password.len() as usize, min };
            &&& length_outcome(password, min) == RuleOutcome::Fail(detail)
            &&& detail.text() == Some(
                "Password too short: "@ + decimal(password.len()) + "/"@ + decimal(min as nat)
                    + " characters"@,
            )
        },
{
}

/// What the digit rule says of `password`.
pub open spec fn digit_outcome(password: Seq<char>) -> RuleOutcome {
    if has_digit(password) {
        RuleOutcome::Pass(Detail::Nothing)
    } else {
        RuleOutcome::Fail(Detail::NoDigit)
    }
}

/// What the special-character rule says of `password`.
pub open spec fn special_char_outcome(password: Seq<char>) -> RuleOutcome {
    if has_special_char(password) {
        RuleOutcome::Pass(Detail::Nothing)
    } else {
        RuleOutcome::Fail(Detail::NoSpecialChar)
    }
}

/// `index` and `score` describe the best match for `password` in `corpus`.
pub open spec fn describes_best_match(
    password: Seq<char>,
    corpus: Seq<String>,
    index: usize,
    score: Score,
) -> bool {
    &&& is_best_match(password, corpus, index as int)
    &&& score@ == similarity_of(password, corpus[index as int]@)
}

/// The threshold that is applied where `asked` percent are asked for: never
/// more than `MAX_SIMILARITY`.
pub open spec fn applied_threshold(asked: u8) -> u8 {
    if asked <= MAX_SIMILARITY {
        asked
    } else {
        MAX_SIMILARITY
    }
}

/// `outcome` is what the collision rule says of `password`: a failure where
/// the wordlist could not be read or is empty; otherwise the best match, as a
/// failure where its score reaches the applied threshold and as a pass where
/// it does not.
pub open spec fn is_collision_outcome(
    password: Seq<char>,
    threshold: u8,
    source: Result<WordlistSource, IoError>,
    outcome: RuleOutcome,
) -> bool {
    match source {
        Err(_) => outcome == RuleOutcome::Fail(Detail::WordlistUnreadable),
        Ok(list) => if list.corpus().len() == 0 {
            outcome == RuleOutcome::Fail(Detail::EmptyWordlist)
        } else {
            match outcome {
                RuleOutcome::Pass(Detail::BestMatch { index, score }) => {
                    &&& describes_best_match(password, list.corpus(), index, score)
                    &&& !score@.reaches_percent(applied_threshold(threshold) as nat)
                },
                RuleOutcome::Fail(Detail::BestMatch { index, score }) => {
                    &&& describes_best_match(password, list.corpus(), index, score)
                    &&& score@.reaches_percent(applied_threshold(threshold) as nat)
                },
                _ => false,
            }
        },
    }
}

/// A password that is itself an entry of the wordlist fails the collision
/// rule, whatever the threshold.
pub proof fn wordlist_entry_is_a_collision(
    password: Seq<char>,
    threshold: u8,
    list: WordlistSource,
    k: int,
    outcome: RuleOutcome,
)
    requires
        0 <= k < list.corpus().len(),
        list.corpus()[k]@ == password,
        is_collision_outcome(password, threshold, Ok(list), outcome),
    ensures
        outcome is Fail,
{
    if let RuleOutcome::Pass(Detail::BestMatch { index, score }) = outcome {
        let best = similarity_of(password, list.corpus()[index as int]@);
        let own = similarity_of(password, list.corpus()[k]@);
        let applied = applied_threshold(threshold);
        similarity_of_self_is_one(password);
        lemma_similarity_has_denominator(password, list.corpus()[index as int]@);
        assert(best.at_least(own));
        assert(best.num >= best.den) by (nonlinear_arith)
            requires
                best.num * own.den >= own.num * best.den,
                own.num == own.den,
                own.den > 0,
        ;
        assert(best.num * 100 >= applied * best.den) by (nonlinear_arith)
            requires
                best.num >= best.den,
                applied <= 100,
        ;
        assert(score@.reaches_percent(applied as nat));
    }
}

/// The wording of a detail, with the path of the wordlist where the detail
/// speaks of one that could not be read. Only a best match has none: its
/// wording shows the score as a decimal fraction.
pub open spec fn wording_of(detail: Detail, source: Result<WordlistSource, IoError>) -> Option<
    Seq<char>,
> {
    match (detail, source) {
        (Detail::WordlistUnreadable, Err(e)) => Some(e.text()),
        _ => detail.text(),
    }
}

/// The wording of `detail` in an evaluation that drew on `source`.
pub fn wording(detail: &Detail, source: &Result<WordlistSource, IoError>) -> (m: Option<String>)
    ensures
        m is None <==> wording_of(*detail, *source) is None,
        m matches Some(s) ==> wording_of(*detail, *source) == Some(s@),
{
    match (detail, source) {
        (Detail::WordlistUnreadable, Err(e)) => Some(e.message()),
        _ => detail.message(),
    }
}

/// The length rule: the password has at least `min` characters.
pub fn check_length(password: &str, min: u8) -> (outcome: RuleOutcome)
    ensures
        outcome == length_outcome(password@, min),
{
    let chars: Vec<char> = chars_of(password);
    let len: usize = chars.len();
    if len >= min as usize {
        RuleOutcome::Pass(Detail::Nothing)
    } else {
        RuleOutcome::Fail(Detail::TooShort { len, min })
    }
}

/// Whether `password` holds an ASCII digit.
pub fn contains_digit(password: &str) -> (b: bool)
    ensures
        b == has_digit(password@),
{
    let chars: Vec<char> = chars_of(password);
    let mut i: usize = 0;
    while i < chars.len()
        invariant
            i <= chars@.len(),
            chars@ == password@,
            forall|j: int| 0 <= j < i ==> !is_ascii_digit(#[trigger] chars@[j]),
        decreases chars@.len() - i,
    {
        let c: char = chars[i];
        if '0' <= c && c <= '9' {
            return true;
        }
        i += 1;
    }
    false
}

/// Whether `password` holds an ASCII punctuation character.
pub fn contains_special_char(password: &str) -> (b: bool)
    ensures
        b == has_special_char(password@),
{
    let chars: Vec<char> = chars_of(password);
    let mut i: usize = 0;
    while i < chars.len()
        invariant
            i <= chars@.len(),
            chars@ == password@,
            forall|j: int| 0 <= j < i ==> !is_ascii_punctuation(#[trigger] chars@[j]),
        decreases chars@.len() - i,
    {
        let c: char = chars[i];
        if ('!' <= c && c <= '/') || (':' <= c && c <= '@') || ('[' <= c && c <= '`') || ('{' <= c
            && c <= '~') {
            return true;
        }
        i += 1;
    }
    false
}

/// The digit rule.
pub fn check_digit(password: &str) -> (outcome: RuleOutcome)
    ensures
        outcome == digit_outcome(password@),
{
    if contains_digit(password) {
        RuleOutcome::Pass(Detail::Nothing)
    } else {
        RuleOutcome::Fail(Detail::NoDigit)
    }
}

/// The special-character rule.
pub fn check_special_char(password: &str) -> (outcome: RuleOutcome)
    ensures
        outcome == special_char_outcome(password@),
{
    if contains_special_char(password) {
        RuleOutcome::Pass(Detail::Nothing)
    } else {
        RuleOutcome::Fail(Detail::NoSpecialChar)
    }
}

/// The collision rule: the password fails where its best match in the
/// wordlist scores `threshold` percent or more, with `MAX_SIMILARITY` in place
/// of a higher threshold, and where there is no wordlist to compare with.
pub fn check_collision(
    password: &str,
    threshold: u8,
    source: &Result<WordlistSource, IoError>,
) -> (outcome: RuleOutcome)
    ensures
        is_collision_outcome(password@, threshold, *source, outcome),
{
    match source {
        Err(_) => RuleOutcome::Fail(Detail::WordlistUnreadable),
        Ok(list) => {
            match best_match_at(password, list.entries()) {
                None => RuleOutcome::Fail(Detail::EmptyWordlist),
                Some((index, score)) => {
                    let detail: Detail = Detail::BestMatch { index, score };
                    let applied: u8 = if threshold <= MAX_SIMILARITY {
                        threshold
                    } else {
                        MAX_SIMILARITY
                    };
                    if score.reaches_percent(applied) {
                        RuleOutcome::Fail(detail)
                    } else {
                        RuleOutcome::Pass(detail)
                    }
                },
            }
        },
    }
}

} // verus!
