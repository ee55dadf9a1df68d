//! Similarity of two strings as an exact ratio, and the search for the entry
//! of a corpus that is closest to a candidate.

use vstd::prelude::*;
use vstd::utf8::*;
use crate::text::chars_of;

verus! {

/// Length of the longest common subsequence of two character sequences.
pub open spec fn lcs(a: Seq<char>, b: Seq<char>) -> nat
    decreases a.len() + b.len(),
{
    if a.len() == 0 || b.len() == 0 {
        0
    } else if a.last() == b.last() {
        1 + lcs(a.drop_last(), b.drop_last())
    } else if lcs(a.drop_last(), b) >= lcs(a, b.drop_last()) {
        lcs(a.drop_last(), b)
    } else {
        lcs(a, b.drop_last())
    }
}

/// What the string-similarity crate counts as shared between two strings. Of
/// the two, the shorter is the one of fewer bytes, and the second where both
/// have as many. Where the shorter one is ASCII, the count is the length of
/// the longest common subsequence; where it is not, the count is 0. Only the
/// first case is of use: `similarity` calls the crate there and nowhere else.
pub open spec fn shared_length(left: Seq<char>, right: Seq<char>) -> nat {
    let (shorter, longer) = if encode_utf8(left).len() < encode_utf8(right).len() {
        (left, right)
    } else {
        (right, left)
    };
    if is_ascii_chars(shorter) {
        lcs(longer, shorter)
    } else {
        0
    }
}

/// Calls `similar_string::lcs_length`.
///
/// Trusted, not proved: the result is `shared_length` of the two strings. The
/// crate fills a table with one column for each character of the string of
/// fewer bytes (the second argument where both have as many) and one row for
/// each character of the other, by the usual recurrence for the longest
/// common subsequence, and returns the last row's entry in the column numbered
/// by the byte length of the shorter string. That is the last column filled
/// where the shorter string is ASCII, and a column that was never filled, and
/// so holds 0, where it is not.
#[verifier::external_body]
fn lcs_length(left: &str, right: &str) -> (n: usize)
    ensures
        n == shared_length(left@, right@),
{
    similar_string::lcs_length(left, right)
}

/// A non-negative fraction `num / den`.
pub ghost struct Ratio {
    pub num: nat,
    pub den: nat,
}

impl Ratio {
    /// The fraction has a denominator and lies between 0 and 1.
    pub open spec fn in_unit_range(self) -> bool {
        0 < self.den && self.num <= self.den
    }

    /// `self >= other`, by cross-multiplication.
    pub open spec fn at_least(self, other: Ratio) -> bool {
        self.num * other.den >= other.num * self.den
    }

    /// `self >= percent / 100`.
    pub open spec fn reaches_percent(self, percent: nat) -> bool {
        self.num * 100 >= percent * self.den
    }

    /// The fraction equals 1.
    pub open spec fn is_one(self) -> bool {
        self.den > 0 && self.num == self.den
    }
}

/// The similarity of two strings: the length of their longest common
/// subsequence over the number of characters of the longer one, and 1 for two
/// empty strings.
pub open spec fn similarity_of(a: Seq<char>, b: Seq<char>) -> Ratio {
    let size = if a.len() >= b.len() { a.len() } else { b.len() };
    if size == 0 {
        Ratio { num: 1, den: 1 }
    } else {
        Ratio { num: lcs(a, b), den: size }
    }
}

/// A similarity score in `[0, 1]`, held exactly as a fraction. Two scores are
/// `==` where numerator and denominator agree; `same_as` compares the values.
#[derive(Clone, Copy, Debug, PartialEq, Eq, Structural)]
pub struct Score {
    num: usize,
    den: usize,
}

impl View for Score {
    type V = Ratio;

    closed spec fn view(&self) -> Ratio {
        Ratio { num: self.num as nat, den: self.den as nat }
    }
}

impl Score {
    /// Well-formedness: what every score handed out by this module satisfies.
    pub open spec fn wf(&self) -> bool {
        self@.in_unit_range()
    }

    /// The numerator of the fraction.
    pub fn numerator(&self) -> (n: usize)
        ensures
            n == self@.num,
    {
        self.num
    }

    /// The denominator of the fraction.
    pub fn denominator(&self) -> (d: usize)
        ensures
            d == self@.den,
    {
        self.den
    }

    /// Whether this score is strictly higher than `other`.
    pub fn exceeds(&self, other: &Score) -> (b: bool)
        ensures
            b == !other@.at_least(self@),
    {
        let l: u128 = wide_product(other.num, self.den);
        let r: u128 = wide_product(self.num, other.den);
        l < r
    }

    /// Whether this score is at least `percent / 100`.
    pub fn reaches_percent(&self, percent: u8) -> (b: bool)
        ensures
            b == self@.reaches_percent(percent as nat),
    {
        let l: u128 = wide_product(self.num, 100);
        let r: u128 = wide_product(percent as usize, self.den);
        l >= r
    }

    /// Whether the two scores are the same fraction, whatever their terms.
    pub fn same_as(&self, other: &Score) -> (b: bool)
        ensures
            b == (self@.at_least(other@) && other@.at_least(self@)),
    {
        let l: u128 = wide_product(other.num, self.den);
        let r: u128 = wide_product(self.num, other.den);
        l == r
    }

    /// Whether this score is exactly 1.
    pub fn is_one(&self) -> (b: bool)
        ensures
            b == self@.is_one(),
    {
        self.den > 0 && self.num == self.den
    }
}

/// The product of two machine words, which always fits in 128 bits.
fn wide_product(a: usize, b: usize) -> (p: u128)
    ensures
        p == a * b,
{
    assert(a * b <= 0xffff_ffff_ffff_ffff * 0xffff_ffff_ffff_ffff) by (nonlinear_arith)
        requires
            0 <= a <= 0xffff_ffff_ffff_ffff,
            0 <= b <= 0xffff_ffff_ffff_ffff,
    ;
    (a as u128) * (b as u128)
}

/// The length of the longest common subsequence of `a` and `b`, by the usual
/// table, of which one row is kept: after `i` rounds, `row[k]` is the length
/// for the first `i` characters of `a` and the first `k + 1` of `b`.
pub fn lcs_of_chars(a: &Vec<char>, b: &Vec<char>) -> (n: usize)
    ensures
        n == lcs(a@, b@),
{
    let m: usize = b.len();
    let mut row: Vec<usize> = Vec::new();
    while row.len() < m
        invariant
            m == b@.len(),
            row@.len() <= m,
            forall|k: int| 0 <= k < row@.len() ==> row@[k] == 0,
        decreases m - row@.len(),
    {
        row.push(0);
    }
    let mut i: usize = 0;
    while i < a.len()
        invariant
            m == b@.len(),
            row@.len() == m,
            i <= a@.len(),
            forall|k: int| 0 <= k < m ==> row@[k] == lcs(a@.take(i as int), b@.take(k + 1)),
        decreases a@.len() - i,
    {
        let mut diag: usize = 0;
        let mut left: usize = 0;
        let mut j: usize = 0;
        while j < m
            invariant
                m == b@.len(),
                row@.len() == m,
                i < a@.len(),
                j <= m,
                diag == lcs(a@.take(i as int), b@.take(j as int)),
                left == lcs(a@.take(i + 1), b@.take(j as int)),
                forall|k: int| 0 <= k < j ==> row@[k] == lcs(a@.take(i + 1), b@.take(k + 1)),
                forall|k: int| j <= k < m ==> row@[k] == lcs(a@.take(i as int), b@.take(k + 1)),
            decreases m - j,
        {
            let up: usize = row[j];
            proof {
                let x = a@.take(i + 1);
                let y = b@.take(j + 1);
                assert(x.drop_last() == a@.take(i as int));
                assert(y.drop_last() == b@.take(j as int));
                assert(x.last() == a@[i as int]);
                assert(y.last() == b@[j as int]);
                lemma_lcs_bounded(a@.take(i as int), b@.take(j as int));
            }
            let here: usize = if a[i] == b[j] {
                diag + 1
            } else if up >= left {
                up
            } else {
                left
            };
            row.set(j, here);
            diag = up;
            left = here;
            j += 1;
        }
        i += 1;
    }
    proof {
        assert(a@.take(i as int) == a@);
        assert(b@.take(m as int) == b@);
        if m == 0 {
            assert(lcs(a@, b@) == 0);
        }
    }
    if m == 0 {
        0
    } else {
        row[m - 1]
    }
}

/// Scores two strings against each other. The string-similarity crate does
/// the counting wherever it counts the longest common subsequence, which is
/// where the string of fewer bytes is ASCII; elsewhere the count is made here.
pub fn similarity(a: &str, b: &str) -> (s: Score)
    ensures
        s.wf(),
        s@ == similarity_of(a@, b@),
{
    let la: usize = a.unicode_len();
    let lb: usize = b.unicode_len();
    let size: usize = if la >= lb { la } else { lb };
    if size == 0 {
        Score { num: 1, den: 1 }
    } else {
        let shorter_is_ascii: bool = if a.as_bytes().len() < b.as_bytes().len() {
            a.is_ascii()
        } else {
            b.is_ascii()
        };
        let n: usize = if shorter_is_ascii {
            proof {
                lemma_lcs_symmetric(a@, b@);
            }
            lcs_length(a, b)
        } else {
            let left: Vec<char> = chars_of(a);
            let right: Vec<char> = chars_of(b);
            lcs_of_chars(&left, &right)
        };
        proof {
            similarity_in_unit_range(a@, b@);
        }
        Score { num: n, den: size }
    }
}

/// Every similarity has a positive denominator.
pub proof fn lemma_similarity_has_denominator(a: Seq<char>, b: Seq<char>)
    ensures
        similarity_of(a, b).den > 0,
{
}

/// If `a` is strictly above `b` and `b` is at least `c`, then `a` is strictly
/// above `c`.
proof fn lemma_above_chain(a: Ratio, b: Ratio, c: Ratio)
    requires
        a.den > 0,
        b.den > 0,
        c.den > 0,
        !b.at_least(a),
        b.at_least(c),
    ensures
        a.at_least(c),
        !c.at_least(a),
{
    let (an, ad) = (a.num as int, a.den as int);
    let (bn, bd) = (b.num as int, b.den as int);
    let (cn, cd) = (c.num as int, c.den as int);
    assert(an * cd > cn * ad) by (nonlinear_arith)
        requires
            ad > 0,
            bd > 0,
            cd > 0,
            an >= 0,
            bn >= 0,
            cn >= 0,
            bn * ad < an * bd,
            bn * cd >= cn * bd,
    {
        assert((bn * ad) * cd < (an * bd) * cd);
        assert((bn * cd) * ad >= (cn * bd) * ad);
        assert((an * cd) * bd > (cn * ad) * bd);
    }
}

/// `i` is the place of the best match for `candidate` in `corpus`: no entry
/// scores higher than entry `i`, and every entry before it scores strictly
/// lower.
pub open spec fn is_best_match(candidate: Seq<char>, corpus: Seq<String>, i: int) -> bool {
    &&& 0 <= i < corpus.len()
    &&& forall|j: int|
        0 <= j < corpus.len() ==> similarity_of(candidate, corpus[i]@).at_least(
            #[trigger] similarity_of(candidate, corpus[j]@),
        )
    &&& forall|j: int|
        0 <= j < i ==> !(#[trigger] similarity_of(candidate, corpus[j]@)).at_least(
            similarity_of(candidate, corpus[i]@),
        )
}

/// The best match has one place only, so a search has one answer.
pub proof fn best_match_is_unique(candidate: Seq<char>, corpus: Seq<String>, i: int, j: int)
    requires
        is_best_match(candidate, corpus, i),
        is_best_match(candidate, corpus, j),
    ensures
        i == j,
{
    if i < j {
        assert(similarity_of(candidate, corpus[i]@).at_least(similarity_of(candidate, corpus[j]@)));
    } else if j < i {
        assert(similarity_of(candidate, corpus[j]@).at_least(similarity_of(candidate, corpus[i]@)));
    }
}

/// Finds the place of the entry of `corpus` that is most similar to
/// `candidate`, together with its score. The whole corpus is scanned; among
/// entries of equal score the first wins. There is no match only in an empty
/// corpus.
pub fn best_match_at(candidate: &str, corpus: &Vec<String>) -> (found: Option<(usize, Score)>)
    ensures
        found is None <==> corpus@.len() == 0,
        found matches Some((i, score)) ==> {
            &&& is_best_match(candidate@, corpus@, i as int)
            &&& score.wf()
            &&& score@ == similarity_of(candidate@, corpus@[i as int]@)
        },
        corpus@.len() == 1 ==> (found matches Some((i, score)) && i == 0 && score@
            == similarity_of(candidate@, corpus@[0]@)),
{
    if corpus.len() == 0 {
        return None;
    }
    let mut best: usize = 0;
    let mut best_score: Score = similarity(candidate, corpus[0].as_str());
    let mut i: usize = 1;
    while i < corpus.len()
        invariant
            1 <= i <= corpus@.len(),
            best < i,
            best_score.wf(),
            best_score@ == similarity_of(candidate@, corpus@[best as int]@),
            forall|j: int|
                0 <= j < i ==> best_score@.at_least(
                    #[trigger] similarity_of(candidate@, corpus@[j]@),
                ),
            forall|j: int|
                0 <= j < best ==> !(#[trigger] similarity_of(candidate@, corpus@[j]@)).at_least(
                    best_score@,
                ),
        decreases corpus@.len() - i,
    {
        let score: Score = similarity(candidate, corpus[i].as_str());
        if score.exceeds(&best_score) {
            proof {
                assert forall|j: int| 0 <= j < i implies {
                    &&& score@.at_least(#[trigger] similarity_of(candidate@, corpus@[j]@))
                    &&& !similarity_of(candidate@, corpus@[j]@).at_least(score@)
                } by {
                    lemma_similarity_has_denominator(candidate@, corpus@[j]@);
                    lemma_above_chain(
                        score@,
                        best_score@,
                        similarity_of(candidate@, corpus@[j]@),
                    );
                }
            }
            best = i;
            best_score = score;
        }
        i += 1;
    }
    Some((best, best_score))
}

/// Finds the entry of `corpus` that is most similar to `candidate`, with its
/// score: the entry at the place that `best_match_at` reports.
pub fn best_match(candidate: &str, corpus: &Vec<String>) -> (found: Option<(String, Score)>)
    ensures
        found is None <==> corpus@.len() == 0,
        found matches Some((entry, score)) ==> exists|i: int|
            {
                &&& #[trigger] is_best_match(candidate@, corpus@, i)
                &&& entry@ == corpus@[i]@
                &&& score.wf()
                &&& score@ == similarity_of(candidate@, corpus@[i]@)
            },
        corpus@.len() == 1 ==> (found matches Some((entry, score)) && entry@ == corpus@[0]@
            && score@ == similarity_of(candidate@, corpus@[0]@)),
{
    match best_match_at(candidate, corpus) {
        None => None,
        Some((i, score)) => {
            let entry: String = corpus[i].clone();
            Some((entry, score))
        },
    }
}

/// The longest common subsequence is no longer than either sequence.
pub proof fn lemma_lcs_bounded(a: Seq<char>, b: Seq<char>)
    ensures
        lcs(a, b) <= a.len(),
        lcs(a, b) <= b.len(),
    decreases a.len() + b.len(),
{
    if a.len() > 0 && b.len() > 0 {
        lemma_lcs_bounded(a.drop_last(), b.drop_last());
        lemma_lcs_bounded(a.drop_last(), b);
        lemma_lcs_bounded(a, b.drop_last());
    }
}

/// The longest common subsequence of a sequence with itself is the sequence.
pub proof fn lemma_lcs_self(x: Seq<char>)
    ensures
        lcs(x, x) == x.len(),
    decreases x.len(),
{
    if x.len() > 0 {
        lemma_lcs_self(x.drop_last());
    }
}

/// The longest common subsequence does not depend on the order of the two
/// sequences.
pub proof fn lemma_lcs_symmetric(a: Seq<char>, b: Seq<char>)
    ensures
        lcs(a, b) == lcs(b, a),
    decreases a.len() + b.len(),
{
    if a.len() > 0 && b.len() > 0 {
        lemma_lcs_symmetric(a.drop_last(), b.drop_last());
        lemma_lcs_symmetric(a.drop_last(), b);
        lemma_lcs_symmetric(a, b.drop_last());
    }
}

/// Every string is fully similar to itself: its score against itself is 1.
pub proof fn similarity_of_self_is_one(x: Seq<char>)
    ensures
        similarity_of(x, x).is_one(),
{
    lemma_lcs_self(x);
}

/// Similarity is symmetric: both orders give the same fraction.
pub proof fn similarity_is_symmetric(a: Seq<char>, b: Seq<char>)
    ensures
        similarity_of(a, b) == similarity_of(b, a),
{
    lemma_lcs_symmetric(a, b);
}

/// Every similarity lies between 0 and 1.
pub proof fn similarity_in_unit_range(a: Seq<char>, b: Seq<char>)
    ensures
        similarity_of(a, b).in_unit_range(),
{
    lemma_lcs_bounded(a, b);
}

} // verus!
