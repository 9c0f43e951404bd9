use vstd::prelude::*;
use vstd::string::StrSliceExecFns;
use vstd::arithmetic::div_mod::lemma_div_basics_5;

verus! {

broadcast use vstd::seq_lib::group_to_multiset_ensures;

/// A round answered correctly: the answer as typed, how many milliseconds it
/// took, and the word that prompted it.
#[derive(Debug)]
pub struct RoundRecord {
    pub user_answer: String,
    pub elapsed_ms: u64,
    pub source_word: String,
}

/// Number of rows of the bar chart.
pub const CHART_ROWS: usize = 15;

/// Characters in the answer of a record.
pub open spec fn answer_len(r: RoundRecord) -> nat {
    r.user_answer@.len()
}

/// Characters in the word and the answer of a record together.
pub open spec fn label_len(r: RoundRecord) -> nat {
    r.source_word@.len() + r.user_answer@.len()
}

/// Every answer on record is non-empty.
pub open spec fn answers_nonempty(s: Seq<RoundRecord>) -> bool {
    forall|i: int| 0 <= i < s.len() ==> answer_len(#[trigger] s[i]) > 0
}

/// The sum of `f` over the records.
pub open spec fn sum_of(s: Seq<RoundRecord>, f: spec_fn(RoundRecord) -> nat) -> nat
    decreases s.len(),
{
    if s.len() == 0 {
        0
    } else {
        sum_of(s.drop_last(), f) + f(s.last())
    }
}

/// Milliseconds taken over all records.
pub open spec fn total_ms(s: Seq<RoundRecord>) -> nat {
    sum_of(s, |r: RoundRecord| r.elapsed_ms as nat)
}

/// Characters answered over all records.
pub open spec fn total_chars(s: Seq<RoundRecord>) -> nat {
    sum_of(s, |r: RoundRecord| answer_len(r))
}

/// Characters of all words and answers together: all of them sit in memory,
/// so this fits in a `usize`.
pub open spec fn total_text(s: Seq<RoundRecord>) -> nat {
    sum_of(s, |r: RoundRecord| label_len(r))
}

/// The widest label: the largest word length plus answer length of a record,
/// 0 for no records.
pub open spec fn label_width_of(s: Seq<RoundRecord>) -> nat
    decreases s.len(),
{
    if s.len() == 0 {
        0
    } else if label_width_of(s.drop_last()) >= label_len(s.last()) {
        label_width_of(s.drop_last())
    } else {
        label_len(s.last())
    }
}

/// `x / y` rounded to the nearest integer, halves rounded up.
pub open spec fn round_half_up(x: nat, y: nat) -> nat {
    if y == 0 {
        0
    } else {
        x / y + if 2 * (x % y) >= y {
            1nat
        } else {
            0nat
        }
    }
}

/// A record's time in hundredths of a second.
pub open spec fn elapsed_centis(r: RoundRecord) -> nat {
    round_half_up(r.elapsed_ms as nat, 10)
}

/// A record's time per answered character, in hundredths of a second.
pub open spec fn rate_centis(r: RoundRecord) -> nat {
    round_half_up(r.elapsed_ms as nat, 10 * answer_len(r))
}

/// Time per character over all records, in hundredths of a second.
pub open spec fn overall_centis(s: Seq<RoundRecord>) -> nat {
    round_half_up(total_ms(s), 10 * total_chars(s))
}

/// `a` took at least as long per character as `b`.
pub open spec fn slower_or_equal(a: RoundRecord, b: RoundRecord) -> bool {
    a.elapsed_ms * answer_len(b) >= b.elapsed_ms * answer_len(a)
}

/// `order` lists each index of `s` once, slowest per character first.
pub open spec fn is_ranking(s: Seq<RoundRecord>, order: Seq<usize>) -> bool {
    &&& order.len() == s.len()
    &&& order.no_duplicates()
    &&& forall|i: int| 0 <= i < order.len() ==> #[trigger] order[i] < s.len()
    &&& forall|i: int, j: int|
        0 <= i < j < order.len() ==> slower_or_equal(s[#[trigger] order[i] as int], s[#[trigger] order[j] as int])
}

/// The chart cell of a record in row `row` (counted from the bottom) is filled:
/// its time per character in seconds, times the number of rows, reaches `row`.
pub open spec fn filled(r: RoundRecord, row: int) -> bool {
    CHART_ROWS * r.elapsed_ms >= 1000 * row * answer_len(r)
}


/// Row `k` of the chart, counted from the top, as `chart[k]`: one cell per
/// record, in the order the records were made.
pub open spec fn chart_is(s: Seq<RoundRecord>, chart: Seq<Vec<bool>>) -> bool {
    &&& chart.len() == CHART_ROWS
    &&& forall|k: int| 0 <= k < CHART_ROWS ==> (#[trigger] chart[k])@.len() == s.len()
    &&& forall|k: int, j: int|
        0 <= k < CHART_ROWS && 0 <= j < s.len() ==> #[trigger] chart[k]@[j] == filled(
            s[j],
            CHART_ROWS - 1 - k,
        )
}

proof fn lemma_sum_take(s: Seq<RoundRecord>, f: spec_fn(RoundRecord) -> nat, i: int)
    requires
        0 <= i < s.len(),
    ensures
        sum_of(s.take(i + 1), f) == sum_of(s.take(i), f) + f(s[i]),
{
    assert(s.take(i + 1).drop_last() =~= s.take(i));
}

proof fn lemma_sum_prefix(s: Seq<RoundRecord>, f: spec_fn(RoundRecord) -> nat, i: int)
    requires
        0 <= i <= s.len(),
    ensures
        sum_of(s.take(i), f) <= sum_of(s, f),
        i < s.len() ==> sum_of(s.take(i), f) + f(s[i]) <= sum_of(s, f),
    decreases s.len() - i,
{
    if i == s.len() {
        assert(s.take(i) =~= s);
    } else {
        lemma_sum_take(s, f, i);
        lemma_sum_prefix(s, f, i + 1);
    }
}

proof fn lemma_sum_remove(s: Seq<RoundRecord>, f: spec_fn(RoundRecord) -> nat, k: int)
    requires
        0 <= k < s.len(),
    ensures
        sum_of(s, f) == sum_of(s.remove(k), f) + f(s[k]),
    decreases s.len(),
{
    if k == s.len() - 1 {
        assert(s.remove(k) =~= s.drop_last());
    } else {
        assert(s.remove(k).drop_last() =~= s.drop_last().remove(k));
        assert(s.remove(k).last() == s.last());
        lemma_sum_remove(s.drop_last(), f, k);
    }
}

/// A sum over the records does not depend on their order.
pub proof fn lemma_sum_order_free(s1: Seq<RoundRecord>, s2: Seq<RoundRecord>, f: spec_fn(RoundRecord) -> nat)
    requires
        s1.to_multiset() == s2.to_multiset(),
    ensures
        sum_of(s1, f) == sum_of(s2, f),
    decreases s1.len(),
{
    if s1.len() == 0 {
        assert(s2.to_multiset().len() == 0);
        assert(s2.len() == 0);
    } else {
        let x = s1.last();
        assert(s1.contains(x)) by {
            assert(s1[s1.len() - 1] == x);
        }
        assert(s1.to_multiset().count(x) > 0);
        assert(s2.contains(x));
        let k = choose|k: int| 0 <= k < s2.len() && s2[k] == x;
        assert(s1.remove(s1.len() - 1) =~= s1.drop_last());
        assert(s1.drop_last().to_multiset() == s1.to_multiset().remove(x));
        assert(s2.remove(k).to_multiset() == s2.to_multiset().remove(x));
        lemma_sum_order_free(s1.drop_last(), s2.remove(k), f);
        lemma_sum_remove(s2, f, k);
    }
}

/// The overall time per character is the same for the records in any order.
pub proof fn lemma_overall_rate_order_free(s1: Seq<RoundRecord>, s2: Seq<RoundRecord>)
    requires
        s1.to_multiset() == s2.to_multiset(),
    ensures
        overall_centis(s1) == overall_centis(s2),
{
    lemma_sum_order_free(s1, s2, |r: RoundRecord| r.elapsed_ms as nat);
    lemma_sum_order_free(s1, s2, |r: RoundRecord| answer_len(r));
}

proof fn lemma_chars_within_text(s: Seq<RoundRecord>)
    ensures
        total_chars(s) <= total_text(s),
    decreases s.len(),
{
    if s.len() > 0 {
        lemma_chars_within_text(s.drop_last());
    }
}

proof fn lemma_ms_bound(s: Seq<RoundRecord>)
    ensures
        total_ms(s) <= s.len() * 0xffff_ffff_ffff_ffff,
    decreases s.len(),
{
    if s.len() > 0 {
        lemma_ms_bound(s.drop_last());
        assert(s.drop_last().len() * 0xffff_ffff_ffff_ffffnat + 0xffff_ffff_ffff_ffffnat
            == s.len() * 0xffff_ffff_ffff_ffffnat) by (nonlinear_arith)
            requires s.drop_last().len() + 1 == s.len();
    }
}

proof fn lemma_slower_transitive(a: RoundRecord, b: RoundRecord, c: RoundRecord)
    requires
        answer_len(b) > 0,
        slower_or_equal(a, b),
        slower_or_equal(b, c),
    ensures
        slower_or_equal(a, c),
{
    let (a1, a2) = (a.elapsed_ms as int, answer_len(a) as int);
    let (b1, b2) = (b.elapsed_ms as int, answer_len(b) as int);
    let (c1, c2) = (c.elapsed_ms as int, answer_len(c) as int);
    assert(a1 * c2 >= c1 * a2) by (nonlinear_arith)
        requires
            a1 * b2 >= b1 * a2,
            b1 * c2 >= c1 * b2,
            b2 > 0,
            a2 >= 0,
            c2 >= 0,
    {
        assert(a1 * b2 * c2 >= b1 * a2 * c2);
        assert(b1 * c2 * a2 >= c1 * b2 * a2);
        assert((a1 * c2) * b2 >= (c1 * a2) * b2);
    }
}

/// Characters in a string.
pub(crate) fn char_count(s: &String) -> (n: usize)
    ensures
        n == s@.len(),
{
    s.as_str().unicode_len()
}

/// `x / y` rounded to the nearest integer, halves rounded up.
fn round_div(x: u128, y: u128) -> (r: u128)
    requires
        y > 0,
        x < u128::MAX,
    ensures
        r == round_half_up(x as nat, y as nat),
{
    let q = x / y;
    let m = x % y;
    proof {
        lemma_div_basics_5(x as int, y as int);
    }
    if m >= y - m {
        q + 1
    } else {
        q
    }
}

/// The answer length of each record.
fn answer_lengths(records: &Vec<RoundRecord>) -> (lens: Vec<usize>)
    ensures
        lens@.len() == records@.len(),
        forall|i: int| 0 <= i < records@.len() ==> lens@[i] == answer_len(#[trigger] records@[i]),
{
    let mut lens: Vec<usize> = Vec::new();
    let mut i: usize = 0;
    while i < records.len()
        invariant
            i <= records@.len(),
            lens@.len() == i,
            forall|j: int| 0 <= j < i ==> lens@[j] == answer_len(#[trigger] records@[j]),
        decreases records@.len() - i,
    {
        lens.push(char_count(&records[i].user_answer));
        i = i + 1;
    }
    lens
}

/// The widest label over the records, for aligning the table.
pub fn longest_label_width(records: &Vec<RoundRecord>) -> (w: usize)
    requires
        total_text(records@) <= usize::MAX,
    ensures
        w == label_width_of(records@),
{
    let ghost s = records@;
    let mut w: usize = 0;
    let mut i: usize = 0;
    while i < records.len()
        invariant
            s == records@,
            total_text(s) <= usize::MAX,
            i <= s.len(),
            w == label_width_of(s.take(i as int)),
        decreases s.len() - i,
    {
        proof {
            lemma_sum_prefix(s, |r: RoundRecord| label_len(r), i as int);
            assert(s.take(i + 1).drop_last() =~= s.take(i as int));
        }
        let len = char_count(&records[i].source_word) + char_count(&records[i].user_answer);
        if len > w {
            w = len;
        }
        i = i + 1;
    }
    assert(s.take(s.len() as int) =~= s);
    w
}

/// Milliseconds taken over all records.
fn sum_elapsed(records: &Vec<RoundRecord>) -> (t: u128)
    ensures
        t == total_ms(records@),
        t <= records@.len() * 0xffff_ffff_ffff_ffff,
{
    let ghost s = records@;
    let ghost f = |r: RoundRecord| r.elapsed_ms as nat;
    let mut t: u128 = 0;
    let mut i: usize = 0;
    while i < records.len()
        invariant
            s == records@,
            f == (|r: RoundRecord| r.elapsed_ms as nat),
            i <= s.len(),
            t == sum_of(s.take(i as int), f),
            t <= i * 0xffff_ffff_ffff_ffff,
        decreases s.len() - i,
    {
        proof {
            lemma_sum_take(s, f, i as int);
            assert(t + 0xffff_ffff_ffff_ffff <= (i + 1) * 0xffff_ffff_ffff_ffff);
            assert((i + 1) * 0xffff_ffff_ffff_ffffnat <= 0x1_0000_0000_0000_0000nat * 0xffff_ffff_ffff_ffffnat) by (nonlinear_arith)
                requires i + 1 <= 0x1_0000_0000_0000_0000nat;
        }
        t = t + records[i].elapsed_ms as u128;
        i = i + 1;
    }
    assert(s.take(s.len() as int) =~= s);
    t
}

/// Characters answered over all records.
fn sum_chars(lens: &Vec<usize>, Ghost(s): Ghost<Seq<RoundRecord>>) -> (n: usize)
    requires
        lens@.len() == s.len(),
        forall|i: int| 0 <= i < s.len() ==> lens@[i] == answer_len(#[trigger] s[i]),
        total_text(s) <= usize::MAX,
    ensures
        n == total_chars(s),
{
    let ghost f = |r: RoundRecord| answer_len(r);
    let mut n: usize = 0;
    let mut i: usize = 0;
    proof {
        lemma_chars_within_text(s);
    }
    while i < lens.len()
        invariant
            lens@.len() == s.len(),
            forall|i: int| 0 <= i < s.len() ==> lens@[i] == answer_len(#[trigger] s[i]),
            f == (|r: RoundRecord| answer_len(r)),
            total_chars(s) <= usize::MAX,
            i <= s.len(),
            n == sum_of(s.take(i as int), f),
        decreases s.len() - i,
    {
        proof {
            lemma_sum_take(s, f, i as int);
            lemma_sum_prefix(s, f, i as int);
        }
        n = n + lens[i];
        i = i + 1;
    }
    assert(s.take(s.len() as int) =~= s);
    n
}

/// Does record `a`, of `la` characters, take at least as long per character as
/// record `b`, of `lb` characters?
fn is_slower_or_equal(a: &RoundRecord, la: usize, b: &RoundRecord, lb: usize) -> (r: bool)
    requires
        la == answer_len(*a),
        lb == answer_len(*b),
    ensures
        r == slower_or_equal(*a, *b),
{
    let x = a.elapsed_ms as u128;
    let y = b.elapsed_ms as u128;
    proof {
        assert(x * (lb as u128) <= 0xffff_ffff_ffff_ffff * 0xffff_ffff_ffff_ffff) by (nonlinear_arith)
            requires x <= 0xffff_ffff_ffff_ffff, lb <= 0xffff_ffff_ffff_ffff;
        assert(y * (la as u128) <= 0xffff_ffff_ffff_ffff * 0xffff_ffff_ffff_ffff) by (nonlinear_arith)
            requires y <= 0xffff_ffff_ffff_ffff, la <= 0xffff_ffff_ffff_ffff;
    }
    x * (lb as u128) >= y * (la as u128)
}

/// The indices of the records, slowest per character first; records that are
/// equally slow keep the order in which they were made.
pub fn ranked_order(records: &Vec<RoundRecord>) -> (order: Vec<usize>)
    requires
        answers_nonempty(records@),
    ensures
        is_ranking(records@, order@),
{
    let ghost s = records@;
    let lens = answer_lengths(records);
    let n = records.len();
    let mut order: Vec<usize> = Vec::new();
    let mut k: usize = 0;
    while k < n
        invariant
            s == records@,
            n == s.len(),
            answers_nonempty(s),
            lens@.len() == s.len(),
            forall|i: int| 0 <= i < s.len() ==> lens@[i] == answer_len(#[trigger] s[i]),
            k <= n,
            order@.len() == k,
            order@.no_duplicates(),
            forall|i: int| 0 <= i < order@.len() ==> #[trigger] order@[i] < k,
            forall|i: int, j: int|
                0 <= i < j < order@.len() ==> slower_or_equal(
                    s[#[trigger] order@[i] as int],
                    s[#[trigger] order@[j] as int],
                ),
        decreases n - k,
    {
        let mut p: usize = k;
        while p > 0 && !is_slower_or_equal(&records[order[p - 1]], lens[order[p - 1]], &records[k], lens[k])
            invariant
                s == records@,
                n == s.len(),
                lens@.len() == s.len(),
                forall|i: int| 0 <= i < s.len() ==> lens@[i] == answer_len(#[trigger] s[i]),
                k < n,
                p <= k,
                order@.len() == k,
                forall|i: int| 0 <= i < order@.len() ==> #[trigger] order@[i] < k,
                forall|j: int| p <= j < k ==> slower_or_equal(s[k as int], s[#[trigger] order@[j] as int]),
            decreases p,
        {
            p = p - 1;
        }
        let ghost old_order = order@;
        order.insert(p, k);
        proof {
            let o = order@;
            assert(o =~= old_order.insert(p as int, k));
            assert forall|i: int| 0 <= i < o.len() implies #[trigger] o[i] < k + 1 by {
                if i > p {
                    assert(o[i] == old_order[i - 1]);
                }
            }
            assert forall|i: int, j: int| 0 <= i < j < o.len() implies o[i] != o[j] by {
                if i < p && j > p {
                    assert(o[j] == old_order[j - 1]);
                } else if i > p {
                    assert(o[j] == old_order[j - 1]);
                    assert(o[i] == old_order[i - 1]);
                } else if j == p {
                    assert(o[i] == old_order[i]);
                } else if i == p {
                    assert(o[j] == old_order[j - 1]);
                }
            }
            assert forall|i: int, j: int|
                0 <= i < j < o.len() implies slower_or_equal(
                    s[#[trigger] o[i] as int],
                    s[#[trigger] o[j] as int],
                ) by {
                if j < p {
                } else if j == p {
                    // before the new record: at least as slow as the one it stopped at
                    assert(o[i] == old_order[i]);
                    assert(slower_or_equal(s[old_order[p - 1] as int], s[k as int]));
                    if i < p - 1 {
                        lemma_slower_transitive(
                            s[old_order[i] as int],
                            s[old_order[p - 1] as int],
                            s[k as int],
                        );
                    }
                } else if i == p {
                    assert(o[j] == old_order[j - 1]);
                } else if i < p {
                    assert(o[j] == old_order[j - 1]);
                    assert(o[i] == old_order[i]);
                } else {
                    assert(o[j] == old_order[j - 1]);
                    assert(o[i] == old_order[i - 1]);
                }
            }
        }
        k = k + 1;
    }
    order
}

/// The bar chart: `CHART_ROWS` rows, the top one first, each with one cell per
/// record in the order the records were made.
pub fn bar_chart(records: &Vec<RoundRecord>) -> (chart: Vec<Vec<bool>>)
    ensures
        chart_is(records@, chart@),
{
    let ghost s = records@;
    let lens = answer_lengths(records);
    let n = records.len();
    let mut chart: Vec<Vec<bool>> = Vec::new();
    let mut k: usize = 0;
    while k < CHART_ROWS
        invariant
            s == records@,
            n == s.len(),
            lens@.len() == s.len(),
            forall|i: int| 0 <= i < s.len() ==> lens@[i] == answer_len(#[trigger] s[i]),
            k <= CHART_ROWS,
            chart@.len() == k,
            forall|r: int| 0 <= r < k ==> (#[trigger] chart@[r])@.len() == n,
            forall|r: int, j: int|
                0 <= r < k && 0 <= j < n ==> #[trigger] chart@[r]@[j] == filled(s[j], CHART_ROWS - 1 - r),
        decreases CHART_ROWS - k,
    {
        let row = (CHART_ROWS - 1 - k) as u128;
        let mut cells: Vec<bool> = Vec::new();
        let mut j: usize = 0;
        while j < n
            invariant
                s == records@,
                n == s.len(),
                lens@.len() == s.len(),
                forall|i: int| 0 <= i < s.len() ==> lens@[i] == answer_len(#[trigger] s[i]),
                k < CHART_ROWS,
                row == CHART_ROWS - 1 - k,
                j <= n,
                cells@.len() == j,
                forall|i: int| 0 <= i < j ==> cells@[i] == filled(s[i], CHART_ROWS - 1 - k),
            decreases n - j,
        {
            let ms = records[j].elapsed_ms as u128;
            let len = lens[j] as u128;
            proof {
                assert(row * len <= 15 * 0xffff_ffff_ffff_ffff) by (nonlinear_arith)
                    requires row <= 15, len <= 0xffff_ffff_ffff_ffff;
            }
            cells.push(15 * ms >= 1000 * (row * len));
            proof {
                assert(1000 * (row * len) == 1000 * row * len) by (nonlinear_arith);
            }
            j = j + 1;
        }
        chart.push(cells);
        k = k + 1;
    }
    chart
}

/// One line of the table: which record, its time and its time per character,
/// both in hundredths of a second.
#[derive(Debug)]
pub struct RankedRow {
    pub record: usize,
    pub elapsed_centis: u128,
    pub rate_centis: u128,
}

/// What the end of a session reports on a non-empty list of records.
#[derive(Debug)]
pub struct StatsReport {
    /// Column width for the answers and words of the table.
    pub label_width: usize,
    /// The table, slowest per character first.
    pub rows: Vec<RankedRow>,
    /// The bar chart, top row first, records in the order they were made.
    pub chart: Vec<Vec<bool>>,
    /// Time per character over all records, in hundredths of a second.
    pub overall_centis: u128,
}

/// The record indices of a table, in its order.
pub open spec fn row_order(rows: Seq<RankedRow>) -> Seq<usize> {
    rows.map_values(|row: RankedRow| row.record)
}

/// `rep` is the report on the records `s`.
pub open spec fn report_is(s: Seq<RoundRecord>, rep: StatsReport) -> bool {
    &&& rep.label_width == label_width_of(s)
    &&& is_ranking(s, row_order(rep.rows@))
    &&& forall|i: int|
        0 <= i < rep.rows@.len() ==> {
            let row = #[trigger] rep.rows@[i];
            &&& row.elapsed_centis == elapsed_centis(s[row.record as int])
            &&& row.rate_centis == rate_centis(s[row.record as int])
        }
    &&& chart_is(s, rep.chart@)
    &&& rep.overall_centis == overall_centis(s)
}

/// The report on the records of a session: `None` when there are none, else
/// the ranked table, the bar chart and the overall time per character.
pub fn report(records: &Vec<RoundRecord>) -> (r: Option<StatsReport>)
    requires
        answers_nonempty(records@),
        total_text(records@) <= usize::MAX,
    ensures
        r is None <==> records@.len() == 0,
        r matches Some(rep) ==> report_is(records@, rep),
{
    let ghost s = records@;
    if records.len() == 0 {
        return None;
    }
    let label_width = longest_label_width(records);
    let order = ranked_order(records);
    let lens = answer_lengths(records);
    let mut rows: Vec<RankedRow> = Vec::new();
    let mut i: usize = 0;
    while i < order.len()
        invariant
            s == records@,
            answers_nonempty(s),
            is_ranking(s, order@),
            lens@.len() == s.len(),
            forall|j: int| 0 <= j < s.len() ==> lens@[j] == answer_len(#[trigger] s[j]),
            i <= order@.len(),
            rows@.len() == i,
            forall|j: int| 0 <= j < i ==> (#[trigger] rows@[j]).record == order@[j],
            forall|j: int|
                0 <= j < i ==> {
                    let row = #[trigger] rows@[j];
                    &&& row.elapsed_centis == elapsed_centis(s[row.record as int])
                    &&& row.rate_centis == rate_centis(s[row.record as int])
                },
        decreases order@.len() - i,
    {
        let idx = order[i];
        assert(idx < s.len());
        let ms = records[idx].elapsed_ms as u128;
        let len = lens[idx] as u128;
        let elapsed_centis = round_div(ms, 10);
        let rate_centis = round_div(ms, 10 * len);
        rows.push(RankedRow { record: idx, elapsed_centis, rate_centis });
        i = i + 1;
    }
    assert(row_order(rows@) =~= order@);
    let chart = bar_chart(records);
    let total = sum_elapsed(records);
    let chars = sum_chars(&lens, Ghost(s));
    proof {
        lemma_ms_bound(s);
        assert(s.len() * 0xffff_ffff_ffff_ffffnat <= 0xffff_ffff_ffff_ffffnat * 0xffff_ffff_ffff_ffffnat) by (nonlinear_arith)
            requires s.len() <= 0xffff_ffff_ffff_ffffnat;
        assert(total_chars(s) > 0) by {
            assert(s.drop_last().take(s.len() - 1) =~= s.drop_last());
            assert(answer_len(s.last()) > 0) by {
                assert(answer_len(s[s.len() - 1]) > 0);
            }
        }
    }
    let overall_centis = round_div(total, 10 * (chars as u128));
    Some(StatsReport { label_width, rows, chart, overall_centis })
}

/// A record's time in hundredths of a second.
pub(crate) fn record_elapsed_centis(r: &RoundRecord) -> (c: u128)
    ensures
        c == elapsed_centis(*r),
{
    round_div(r.elapsed_ms as u128, 10)
}

/// A record's time per character in hundredths of a second, its answer being
/// `len` characters long.
pub(crate) fn record_rate_centis(r: &RoundRecord, len: usize) -> (c: u128)
    requires
        len == answer_len(*r),
        len > 0,
    ensures
        c == rate_centis(*r),
{
    round_div(r.elapsed_ms as u128, 10 * (len as u128))
}

/// Two reports on the same records in different orders give the same overall
/// time per character.
pub proof fn lemma_report_overall_order_free(
    s1: Seq<RoundRecord>,
    s2: Seq<RoundRecord>,
    rep1: StatsReport,
    rep2: StatsReport,
)
    requires
        s1.to_multiset() == s2.to_multiset(),
        report_is(s1, rep1),
        report_is(s2, rep2),
    ensures
        rep1.overall_centis == rep2.overall_centis,
{
    lemma_overall_rate_order_free(s1, s2);
}

} // verus!
