use vstd::prelude::*;
use vstd::string::StrSliceExecFns;

verus! {

/// What `str::to_lowercase` makes of a string.
pub uninterp spec fn lower_of(s: Seq<char>) -> Seq<char>;

/// Relies on `str::to_lowercase`: the lower-case form depends on the characters
/// alone, and an empty string stays empty.
#[verifier::external_body]
fn lowercase(s: &str) -> (r: String)
    ensures
        r@ == lower_of(s@),
        s@.len() == 0 ==> r@.len() == 0,
{
    s.to_lowercase()
}

/// Index of the first `(` in `s`, or its length where there is none.
pub open spec fn first_paren(s: Seq<char>) -> nat
    decreases s.len(),
{
    if s.len() == 0 {
        0
    } else if s[0] == '(' {
        0
    } else {
        1 + first_paren(s.drop_first())
    }
}

/// The primary form of an expected answer: what stands before the first `(`.
pub open spec fn primary_form(s: Seq<char>) -> Seq<char> {
    s.take(first_paren(s) as int)
}

proof fn lemma_first_paren_unique(s: Seq<char>, k: int)
    requires
        0 <= k <= s.len(),
        k < s.len() ==> s[k] == '(',
        forall|i: int| 0 <= i < k ==> s[i] != '(',
    ensures
        first_paren(s) == k,
    decreases s.len(),
{
    if s.len() > 0 && k > 0 {
        let t = s.drop_first();
        assert forall|i: int| 0 <= i < k - 1 implies t[i] != '(' by {
            assert(t[i] == s[i + 1]);
        }
        if k - 1 < t.len() {
            assert(t[k - 1] == s[k]);
        }
        lemma_first_paren_unique(t, k - 1);
    }
}

/// One character of the answer as the feedback shows it: `same` when it equals
/// the expected character at its position.
#[derive(Clone, Copy, Debug, PartialEq, Eq, Structural)]
pub struct DiffCell {
    pub ch: char,
    pub same: bool,
}

/// The smaller of two lengths.
pub open spec fn shorter(a: nat, b: nat) -> nat {
    if a <= b {
        a
    } else {
        b
    }
}

/// The feedback for character `a` typed where `e` was expected.
pub open spec fn cell_of(a: char, e: char) -> DiffCell {
    DiffCell { ch: a, same: a == e }
}

/// The character-by-character comparison of `answer` with `expected`, over the
/// positions that both strings have.
pub open spec fn diff_of(answer: Seq<char>, expected: Seq<char>) -> Seq<DiffCell> {
    Seq::new(shorter(answer.len(), expected.len()), |i: int| cell_of(answer[i], expected[i]))
}

/// How a round's answer was judged.
#[derive(Debug)]
pub enum Verdict {
    Match,
    Mismatch(Vec<DiffCell>),
}

/// The verdict for `answer`, whose lower-case form is `answer_lower`, against
/// the lower-case expected answer `expected_lower`.
pub open spec fn verdict_is(
    v: Verdict,
    answer: Seq<char>,
    answer_lower: Seq<char>,
    expected_lower: Seq<char>,
) -> bool {
    if answer_lower == primary_form(expected_lower) {
        v is Match
    } else {
        v is Mismatch && v->Mismatch_0@ == diff_of(answer, expected_lower)
    }
}

/// The expected answer in lower case, and the verdict on the answer given.
#[derive(Debug)]
pub struct Evaluation {
    pub expected_lower: String,
    pub verdict: Verdict,
}

/// Index of the first `(` of `s`, or its length.
fn find_paren(s: &str) -> (k: usize)
    ensures
        k == first_paren(s@),
        k <= s@.len(),
{
    let n = s.unicode_len();
    let mut k: usize = 0;
    while k < n && s.get_char(k) != '('
        invariant
            n == s@.len(),
            k <= n,
            forall|i: int| 0 <= i < k ==> s@[i] != '(',
        decreases n - k,
    {
        k = k + 1;
    }
    proof {
        lemma_first_paren_unique(s@, k as int);
    }
    k
}

/// Does `a` hold the same characters as the first `k` characters of `b`?
fn equals_prefix(a: &str, b: &str, k: usize) -> (r: bool)
    requires
        k <= b@.len(),
    ensures
        r == (a@ == b@.take(k as int)),
{
    let n = a.unicode_len();
    if n != k {
        return false;
    }
    let mut i: usize = 0;
    while i < n
        invariant
            n == a@.len(),
            n == k,
            k <= b@.len(),
            i <= n,
            forall|j: int| 0 <= j < i ==> a@[j] == b@[j],
        decreases n - i,
    {
        if a.get_char(i) != b.get_char(i) {
            return false;
        }
        i = i + 1;
    }
    assert(a@ =~= b@.take(k as int));
    true
}

/// The comparison of `answer` with `expected`, character by character.
pub fn char_diff(answer: &str, expected: &str) -> (d: Vec<DiffCell>)
    ensures
        d@ == diff_of(answer@, expected@),
{
    let na = answer.unicode_len();
    let ne = expected.unicode_len();
    let n = if na <= ne {
        na
    } else {
        ne
    };
    let mut d: Vec<DiffCell> = Vec::new();
    let mut i: usize = 0;
    while i < n
        invariant
            na == answer@.len(),
            ne == expected@.len(),
            n == if na <= ne { na } else { ne },
            i <= n,
            d@.len() == i,
            forall|j: int|
                0 <= j < i ==> d@[j] == cell_of(answer@[j], expected@[j]),
        decreases n - i,
    {
        let a = answer.get_char(i);
        let e = expected.get_char(i);
        d.push(DiffCell { ch: a, same: a == e });
        i = i + 1;
    }
    assert(d@ =~= diff_of(answer@, expected@));
    d
}

/// Judges an answer from its lower-case form and the lower-case expected answer:
/// a match exactly when the lower-case answer equals the primary form of the
/// expected one, else the comparison of the answer as typed with the whole
/// expected string.
pub fn judge(answer: &str, answer_lower: &str, expected_lower: &str) -> (v: Verdict)
    ensures
        verdict_is(v, answer@, answer_lower@, expected_lower@),
{
    let k = find_paren(expected_lower);
    if equals_prefix(answer_lower, expected_lower, k) {
        Verdict::Match
    } else {
        Verdict::Mismatch(char_diff(answer, expected_lower))
    }
}

/// Judges `answer` against the expected romanized form `expected`, both taken
/// in lower case; an alternative form in parentheses is not accepted.
pub fn evaluate(answer: &str, expected: &str) -> (r: Evaluation)
    ensures
        r.expected_lower@ == lower_of(expected@),
        verdict_is(r.verdict, answer@, lower_of(answer@), lower_of(expected@)),
{
    let expected_lower = lowercase(expected);
    let answer_lower = lowercase(answer);
    let verdict = judge(answer, answer_lower.as_str(), expected_lower.as_str());
    Evaluation { expected_lower, verdict }
}

} // verus!
