use kana_quiz::evaluate::{char_diff, evaluate, judge, DiffCell, Verdict};

fn cells(v: &Verdict) -> Vec<(char, bool)> {
    match v {
        Verdict::Match => panic!("expected a mismatch"),
        Verdict::Mismatch(d) => d.iter().map(|c| (c.ch, c.same)).collect(),
    }
}

#[test]
fn match_ignores_case() {
    let ev = evaluate("Neko", "neko");
    assert!(matches!(ev.verdict, Verdict::Match));
}

#[test]
fn match_strips_parenthetical() {
    let ev = evaluate("neko", "neko(nyan)");
    assert!(matches!(ev.verdict, Verdict::Match));
}

#[test]
fn alternative_form_is_not_accepted() {
    let ev = evaluate("nyan", "neko(nyan)");
    assert!(matches!(ev.verdict, Verdict::Mismatch(_)));
}

#[test]
fn mismatch_marks_differing_index() {
    let ev = evaluate("nego", "neko");
    assert_eq!(cells(&ev.verdict), vec![('n', true), ('e', true), ('g', false), ('o', true)]);
}

#[test]
fn expected_is_shown_in_lower_case() {
    let ev = evaluate("x", "NeKo (Nyan)");
    assert_eq!(ev.expected_lower, "neko (nyan)");
}

#[test]
fn expected_upper_case_matches() {
    let ev = evaluate("neko", "NEKO");
    assert!(matches!(ev.verdict, Verdict::Match));
}

#[test]
fn diff_compares_typed_case_against_full_expected() {
    let ev = evaluate("Nekox", "neko");
    assert_eq!(
        cells(&ev.verdict),
        vec![('N', false), ('e', true), ('k', true), ('o', true)]
    );
}

#[test]
fn diff_stops_at_shorter_string() {
    let d = char_diff("ne", "neko");
    assert_eq!(d, vec![DiffCell { ch: 'n', same: true }, DiffCell { ch: 'e', same: true }]);
    assert_eq!(char_diff("", "neko"), vec![]);
}

#[test]
fn judge_uses_given_lower_forms() {
    assert!(matches!(judge("SUSHI", "sushi", "sushi(x)"), Verdict::Match));
    assert!(matches!(judge("sushi", "sushi", "sush(i)"), Verdict::Mismatch(_)));
}

#[test]
fn empty_primary_form_matches_empty_answer() {
    assert!(matches!(judge("", "", "(a)"), Verdict::Match));
}
