use kana_quiz::timing::{elapsed_ms, Stopwatch};
use kana_quiz::vocab::{entry_from_fields, store_from_fields, LoadError, StoreError, VocabularyEntry, WordStore};

const LIST: &str = r#"[
  {"word": "猫", "romaji": "neko", "meaning": "cat"},
  {"word": "犬", "romaji": "inu", "meaning": "dog"},
  {"word": "魚", "romaji": "sakana (uo)", "meaning": "fish"}
]"#;

#[test]
fn load_reads_every_entry() {
    let store = WordStore::load(LIST).unwrap();
    assert_eq!(store.len(), 3);
    assert_eq!(store.entries[2].romaji, "sakana (uo)");
    assert_eq!(store.entries[1].meaning, "dog");
    assert_eq!(store.entries[0].word, "猫");
}

#[test]
fn load_errors() {
    assert_eq!(WordStore::load("not json").unwrap_err(), LoadError::NotJson);
    assert_eq!(WordStore::load("{\"word\": \"x\"}").unwrap_err(), LoadError::NotAList);
    let missing = r#"[{"word": "a", "romaji": "a", "meaning": "a"}, {"word": "b", "meaning": "b"}]"#;
    assert_eq!(WordStore::load(missing).unwrap_err(), LoadError::MissingField(1));
    let not_text = r#"[{"word": "a", "romaji": 3, "meaning": "a"}]"#;
    assert_eq!(WordStore::load(not_text).unwrap_err(), LoadError::MissingField(0));
}

#[test]
fn sample_returns_a_member() {
    let store = WordStore::load(LIST).unwrap();
    for _ in 0..200 {
        let e = store.sample().unwrap();
        assert!(store.entries.iter().any(|x| x.word == e.word && x.romaji == e.romaji));
    }
}

#[test]
fn sample_on_empty_store_fails() {
    let store = WordStore::new(Vec::new());
    assert_eq!(store.sample().unwrap_err(), StoreError::EmptyStore);
}

#[test]
fn pick_selects_by_index() {
    let store = WordStore::new(vec![VocabularyEntry {
        word: "a".to_string(),
        romaji: "b".to_string(),
        meaning: "c".to_string(),
    }]);
    assert_eq!(store.pick(0).unwrap().romaji, "b");
    assert!(store.pick(1).is_none());
}

#[test]
fn entry_needs_all_fields() {
    let e = entry_from_fields(Some("w"), Some("r"), Some("m")).unwrap();
    assert_eq!((e.word.as_str(), e.romaji.as_str(), e.meaning.as_str()), ("w", "r", "m"));
    assert!(entry_from_fields(Some("w"), None, Some("m")).is_none());
}

#[test]
fn elapsed_time_between_readings() {
    assert_eq!(elapsed_ms(1000, 3500), 2500);
    assert_eq!(elapsed_ms(3500, 1000), 0);
    assert_eq!(elapsed_ms(i64::MIN, i64::MAX), u64::MAX);
    let w = Stopwatch::start();
    assert!(w.stop() < 60_000);
}

#[test]
fn store_keeps_list_order() {
    let store = store_from_fields(vec![
        (Some("猫"), Some("neko"), Some("cat")),
        (Some("犬"), Some("inu"), Some("dog")),
    ])
    .unwrap();
    let romaji: Vec<&str> = store.entries.iter().map(|e| e.romaji.as_str()).collect();
    assert_eq!(romaji, vec!["neko", "inu"]);
    assert_eq!(store.entries[1].word, "犬");
    assert_eq!(store.entries[1].meaning, "dog");
}

#[test]
fn store_reports_first_incomplete_entry() {
    let r = store_from_fields(vec![
        (Some("a"), Some("a"), Some("a")),
        (Some("b"), Some("b"), None),
        (None, None, None),
    ]);
    assert_eq!(r.unwrap_err(), LoadError::MissingField(1));
    assert_eq!(store_from_fields(vec![]).unwrap().len(), 0);
}
