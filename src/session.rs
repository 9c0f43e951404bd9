use vstd::prelude::*;
use crate::evaluate::{evaluate, lower_of, primary_form, diff_of, DiffCell, Verdict};
use crate::stats::{
    answers_nonempty, elapsed_centis, rate_centis, report, report_is, total_text, RoundRecord,
    StatsReport,
};
use crate::vocab::VocabularyEntry;

verus! {

/// What became of a round.
#[derive(Debug)]
pub enum RoundOutcome {
    /// Right, and recorded: its time and its time per character, in hundredths
    /// of a second.
    Recorded { elapsed_centis: u128, rate_centis: u128 },
    /// Right, but empty: there is no time per character, and nothing is recorded.
    EmptyAnswer,
    /// Right, but the record's text would not fit in memory: nothing is recorded.
    TooLong,
    /// Wrong: the comparison of the answer with the expected one.
    Missed(Vec<DiffCell>),
}

/// The state of a quiz: the rounds answered right so far, in order, and
/// whether time is up.
#[derive(Debug)]
pub struct QuizSession {
    records: Vec<RoundRecord>,
    text_len: usize,
    over: bool,
}

/// `r` records `answer`, typed in `ms` milliseconds for the word `word`.
pub open spec fn record_of(r: RoundRecord, answer: Seq<char>, ms: u64, word: Seq<char>) -> bool {
    &&& r.user_answer@ == answer
    &&& r.elapsed_ms == ms
    &&& r.source_word@ == word
}

/// The records `after` a round, and its `outcome`, given the records `before`
/// it, whose text is `text` characters long: a right answer is recorded when it
/// is non-empty and the text still fits; a wrong one is never recorded.
pub open spec fn round_effect(
    before: Seq<RoundRecord>,
    text: nat,
    after: Seq<RoundRecord>,
    outcome: RoundOutcome,
    right: bool,
    diff: Seq<DiffCell>,
    answer: Seq<char>,
    ms: u64,
    word: Seq<char>,
) -> bool {
    if !right {
        &&& outcome matches RoundOutcome::Missed(d)
        &&& d@ == diff
        &&& after == before
    } else if answer.len() == 0 {
        outcome is EmptyAnswer && after == before
    } else if text + word.len() + answer.len() > usize::MAX {
        outcome is TooLong && after == before
    } else {
        &&& after.len() == before.len() + 1
        &&& after.drop_last() == before
        &&& record_of(after.last(), answer, ms, word)
        &&& outcome matches RoundOutcome::Recorded { elapsed_centis: e, rate_centis: c }
        &&& e == elapsed_centis(after.last())
        &&& c == rate_centis(after.last())
    }
}

/// The state after a check of the countdown: the records stay, and the session
/// is over once the countdown has fired.
pub open spec fn poll_effect(
    before: Seq<RoundRecord>,
    over_before: bool,
    fired: bool,
    after: Seq<RoundRecord>,
    over_after: bool,
) -> bool {
    after == before && over_after == (over_before || fired)
}

/// A round that is under way when the countdown fires is not cut short: a
/// right, non-empty answer that fits is recorded, and the session ends at the
/// next check, with that record the last one.
pub proof fn lemma_round_outlives_expiry(
    before: Seq<RoundRecord>,
    text: nat,
    mid: Seq<RoundRecord>,
    outcome: RoundOutcome,
    answer: Seq<char>,
    ms: u64,
    word: Seq<char>,
    after: Seq<RoundRecord>,
    over_after: bool,
)
    requires
        round_effect(before, text, mid, outcome, true, Seq::empty(), answer, ms, word),
        answer.len() > 0,
        text + word.len() + answer.len() <= usize::MAX,
        poll_effect(mid, false, true, after, over_after),
    ensures
        over_after,
        outcome is Recorded,
        after.len() == before.len() + 1,
        after.drop_last() == before,
        record_of(after.last(), answer, ms, word),
{
}

impl QuizSession {
    /// The session's records are well formed: non-empty answers, and
    /// `text_len` the length of their text.
    pub closed spec fn wf(&self) -> bool {
        &&& answers_nonempty(self.records@)
        &&& self.text_len == total_text(self.records@)
    }

    /// The rounds answered right so far, in order.
    pub closed spec fn records_view(&self) -> Seq<RoundRecord> {
        self.records@
    }

    /// Characters of the words and answers on record.
    pub closed spec fn text_view(&self) -> nat {
        self.text_len as nat
    }

    /// Whether time is up.
    pub closed spec fn is_over(&self) -> bool {
        self.over
    }

    /// In a well-formed session, `text_view` is the length of the text of the
    /// records.
    pub proof fn lemma_text_view(&self)
        requires
            self.wf(),
        ensures
            self.text_view() == total_text(self.records_view()),
    {
    }

    /// A session with no rounds yet, time not up.
    pub fn new() -> (s: QuizSession)
        ensures
            s.wf(),
            s.records_view().len() == 0,
            s.text_view() == 0,
            !s.is_over(),
    {
        QuizSession { records: Vec::new(), text_len: 0, over: false }
    }

    /// The rounds answered right so far, in order.
    pub fn records(&self) -> (r: &Vec<RoundRecord>)
        ensures
            r@ == self.records_view(),
    {
        &self.records
    }

    /// Checks the countdown between rounds: once it has fired, the session is
    /// over. Returns whether it is.
    pub fn poll_expiry(&mut self, fired: bool) -> (over: bool)
        requires
            old(self).wf(),
        ensures
            final(self).wf(),
            poll_effect(
                old(self).records_view(),
                old(self).is_over(),
                fired,
                final(self).records_view(),
                final(self).is_over(),
            ),
            over == final(self).is_over(),
    {
        if fired {
            self.over = true;
        }
        self.over
    }

    /// Ends a round, given how its answer was judged: a right answer is
    /// recorded with its time (see `round_effect`). Whether time is up is not looked at: a round
    /// under way always completes.
    pub fn apply_verdict(&mut self, verdict: Verdict, answer: String, word: &String, elapsed_ms: u64) -> (r: RoundOutcome)
        requires
            old(self).wf(),
        ensures
            final(self).wf(),
            final(self).is_over() == old(self).is_over(),
            round_effect(
                old(self).records_view(),
                old(self).text_view(),
                final(self).records_view(),
                r,
                verdict is Match,
                match verdict {
                    Verdict::Mismatch(d) => d@,
                    Verdict::Match => Seq::empty(),
                },
                answer@,
                elapsed_ms,
                word@,
            ),
    {
        match verdict {
            Verdict::Mismatch(d) => RoundOutcome::Missed(d),
            Verdict::Match => {
                let alen = crate::stats::char_count(&answer);
                if alen == 0 {
                    return RoundOutcome::EmptyAnswer;
                }
                let wlen = crate::stats::char_count(word);
                if self.text_len > usize::MAX - alen || self.text_len + alen > usize::MAX - wlen {
                    return RoundOutcome::TooLong;
                }
                let rec = RoundRecord { user_answer: answer, elapsed_ms, source_word: word.clone() };
                let elapsed_c = crate::stats::record_elapsed_centis(&rec);
                let rate_c = crate::stats::record_rate_centis(&rec, alen);
                let ghost before = self.records@;
                self.records.push(rec);
                self.text_len = self.text_len + alen + wlen;
                proof {
                    let s = self.records@;
                    assert(s.drop_last() =~= before);
                    assert forall|i: int| 0 <= i < s.len() implies crate::stats::answer_len(#[trigger] s[i]) > 0 by {
                        if i < before.len() {
                            assert(s[i] == before[i]);
                        }
                    }
                }
                RoundOutcome::Recorded { elapsed_centis: elapsed_c, rate_centis: rate_c }
            },
        }
    }

    /// Concludes a round on `entry` in which `answer` was typed in `elapsed_ms`
    /// milliseconds: judges it and records it when right. Returns the expected
    /// answer in lower case, for display, and the outcome.
    pub fn conclude_round(&mut self, entry: &VocabularyEntry, answer: String, elapsed_ms: u64) -> (r: (String, RoundOutcome))
        requires
            old(self).wf(),
        ensures
            final(self).wf(),
            final(self).is_over() == old(self).is_over(),
            r.0@ == lower_of(entry.romaji@),
            round_effect(
                old(self).records_view(),
                old(self).text_view(),
                final(self).records_view(),
                r.1,
                lower_of(answer@) == primary_form(lower_of(entry.romaji@)),
                diff_of(answer@, lower_of(entry.romaji@)),
                answer@,
                elapsed_ms,
                entry.word@,
            ),
    {
        let ev = evaluate(answer.as_str(), entry.romaji.as_str());
        let outcome = self.apply_verdict(ev.verdict, answer, &entry.word, elapsed_ms);
        (ev.expected_lower, outcome)
    }

    /// The report on the session's records: `None` when there are none.
    pub fn finish(&self) -> (r: Option<StatsReport>)
        requires
            self.wf(),
        ensures
            r is None <==> self.records_view().len() == 0,
            r matches Some(rep) ==> report_is(self.records_view(), rep),
    {
        report(&self.records)
    }
}

} // verus!
