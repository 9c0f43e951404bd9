use kana_quiz::format::{centis_text, decimal_text};
use kana_quiz::stats::{bar_chart, longest_label_width, ranked_order, report, RoundRecord};

fn rec(answer: &str, ms: u64, word: &str) -> RoundRecord {
    RoundRecord { user_answer: answer.to_string(), elapsed_ms: ms, source_word: word.to_string() }
}

#[test]
fn two_records_ranked_and_averaged() {
    let records = vec![rec("a", 1000, "あ"), rec("bb", 4000, "びび")];
    let rep = report(&records).expect("records are there");
    let order: Vec<usize> = rep.rows.iter().map(|r| r.record).collect();
    assert_eq!(order, vec![1, 0]);
    assert_eq!(rep.rows[0].rate_centis, 200);
    assert_eq!(rep.rows[1].rate_centis, 100);
    assert_eq!(rep.rows[0].elapsed_centis, 400);
    assert_eq!(rep.rows[1].elapsed_centis, 100);
    assert_eq!(rep.overall_centis, 167);
    assert_eq!(centis_text(rep.overall_centis), "1.67");
}

#[test]
fn empty_records_give_no_report() {
    assert!(report(&vec![]).is_none());
}

#[test]
fn overall_rate_ignores_order() {
    let a = vec![rec("a", 1000, "x"), rec("bb", 4000, "y"), rec("ccc", 700, "z")];
    let b = vec![rec("ccc", 700, "z"), rec("a", 1000, "x"), rec("bb", 4000, "y")];
    let ra = report(&a).unwrap();
    let rb = report(&b).unwrap();
    assert_eq!(ra.overall_centis, rb.overall_centis);
    // 5700 ms over 6 characters
    assert_eq!(ra.overall_centis, 95);
}

#[test]
fn ranking_keeps_records_in_place() {
    let records = vec![rec("a", 100, "x"), rec("b", 900, "y"), rec("c", 500, "z")];
    let order = ranked_order(&records);
    assert_eq!(order, vec![1, 2, 0]);
    let answers: Vec<&str> = records.iter().map(|r| r.user_answer.as_str()).collect();
    assert_eq!(answers, vec!["a", "b", "c"]);
    let rep = report(&records).unwrap();
    // the chart keeps the order the records were made in
    let bottom = &rep.chart[14];
    assert_eq!(bottom.len(), 3);
    assert_eq!(rep.chart[13], vec![true, true, true]);
    assert_eq!(rep.chart[0], vec![false, false, false]);
    assert_eq!(rep.chart[7], vec![false, true, true]);
}

#[test]
fn equal_rates_keep_their_order() {
    let records = vec![rec("ab", 2000, "x"), rec("c", 1000, "y"), rec("d", 3000, "z")];
    assert_eq!(ranked_order(&records), vec![2, 0, 1]);
}

#[test]
fn chart_cells_follow_rate_times_rows() {
    // 0.1 s per character: 1.5 rows
    let records = vec![rec("abcd", 400, "w")];
    let chart = bar_chart(&records);
    assert_eq!(chart.len(), 15);
    for (k, row) in chart.iter().enumerate() {
        let filled = 14 - k <= 1;
        assert_eq!(row, &vec![filled], "row {}", k);
    }
}

#[test]
fn label_width_counts_characters() {
    let records = vec![rec("neko", 1, "猫"), rec("sakana", 1, "魚")];
    assert_eq!(longest_label_width(&records), 7);
    assert_eq!(longest_label_width(&vec![]), 0);
}

#[test]
fn times_round_half_up() {
    let records = vec![rec("ab", 5, "x"), rec("c", 4, "y")];
    let rep = report(&records).unwrap();
    let by_record = |i: usize| rep.rows.iter().find(|r| r.record == i).unwrap();
    assert_eq!(by_record(0).elapsed_centis, 1);
    assert_eq!(by_record(0).rate_centis, 0);
    assert_eq!(by_record(1).elapsed_centis, 0);
    assert_eq!(by_record(1).rate_centis, 0);
    assert_eq!(rep.label_width, 3);
}

#[test]
fn largest_times_do_not_overflow() {
    let records = vec![rec("a", u64::MAX, "x"), rec("b", u64::MAX, "y")];
    let rep = report(&records).unwrap();
    assert_eq!(rep.overall_centis, (u64::MAX as u128 + 5) / 10);
    assert_eq!(rep.chart[0], vec![true, true]);
}

#[test]
fn centis_are_written_with_two_decimals() {
    assert_eq!(centis_text(0), "0.00");
    assert_eq!(centis_text(5), "0.05");
    assert_eq!(centis_text(12345), "123.45");
    assert_eq!(decimal_text(0), "0");
    assert_eq!(decimal_text(907), "907");
}
