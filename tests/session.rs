use kana_quiz::evaluate::{DiffCell, Verdict};
use kana_quiz::session::{QuizSession, RoundOutcome};
use kana_quiz::vocab::VocabularyEntry;

fn entry(word: &str, romaji: &str, meaning: &str) -> VocabularyEntry {
    VocabularyEntry { word: word.to_string(), romaji: romaji.to_string(), meaning: meaning.to_string() }
}

#[test]
fn right_answer_is_recorded() {
    let mut s = QuizSession::new();
    let (expected, outcome) = s.conclude_round(&entry("猫", "Neko(nyan)", "cat"), "neko".to_string(), 2000);
    assert_eq!(expected, "neko(nyan)");
    match outcome {
        RoundOutcome::Recorded { elapsed_centis, rate_centis } => {
            assert_eq!(elapsed_centis, 200);
            assert_eq!(rate_centis, 50);
        }
        other => panic!("unexpected {:?}", other),
    }
    assert_eq!(s.records().len(), 1);
    assert_eq!(s.records()[0].source_word, "猫");
    assert_eq!(s.records()[0].user_answer, "neko");
    assert_eq!(s.records()[0].elapsed_ms, 2000);
}

#[test]
fn wrong_answer_is_not_recorded() {
    let mut s = QuizSession::new();
    let (_, outcome) = s.conclude_round(&entry("猫", "neko", "cat"), "nego".to_string(), 900);
    match outcome {
        RoundOutcome::Missed(d) => assert_eq!(d[2], DiffCell { ch: 'g', same: false }),
        other => panic!("unexpected {:?}", other),
    }
    assert!(s.records().is_empty());
    assert!(s.finish().is_none());
}

#[test]
fn empty_answer_is_not_recorded() {
    let mut s = QuizSession::new();
    let outcome = s.apply_verdict(Verdict::Match, String::new(), &"x".to_string(), 10);
    assert!(matches!(outcome, RoundOutcome::EmptyAnswer));
    assert!(s.records().is_empty());
}

#[test]
fn countdown_mid_round_keeps_round() {
    let mut s = QuizSession::new();
    assert!(!s.poll_expiry(false));
    // the countdown fires while the answer is being typed
    let (_, outcome) = s.conclude_round(&entry("犬", "inu", "dog"), "inu".to_string(), 1500);
    assert!(matches!(outcome, RoundOutcome::Recorded { .. }));
    assert!(s.poll_expiry(true));
    assert_eq!(s.records().len(), 1);
    let rep = s.finish().unwrap();
    assert_eq!(rep.overall_centis, 50);
}

#[test]
fn expiry_stays() {
    let mut s = QuizSession::new();
    assert!(s.poll_expiry(true));
    assert!(s.poll_expiry(false));
}
