use realingo::history::{
    as_record,
    file_name, sentence_lines, session_id_of, slug_ok, sort_newest_first, summarize, text_less,
    Session,
};

#[test]
fn ids_that_could_escape_the_history_folder_are_refused() {
    assert!(slug_ok("2026-09-16T14-03-22-123Z"));
    assert!(!slug_ok(""));
    assert!(!slug_ok(".."));
    assert!(!slug_ok("../../settings"));
    assert!(!slug_ok("a/b"));
    assert!(!slug_ok("a\\b"));
    assert!(!slug_ok("a.jsonl"));
    assert!(!slug_ok(&"x".repeat(65)));
}

#[test]
fn sixty_four_characters_are_still_accepted() {
    assert!(slug_ok(&"x".repeat(64)));
    assert!(!slug_ok("日本"));
}

#[test]
fn file_names_carry_the_extension_and_bad_ids_are_refused() {
    assert_eq!(file_name("abc_1").unwrap(), "abc_1.jsonl");
    assert_eq!(file_name("../x").unwrap_err(), "bad history id: ../x");
}

#[test]
fn listing_reads_back_the_id_of_a_file() {
    let name = file_name("2026-09-16T14-03-22-123Z").unwrap();
    assert_eq!(session_id_of(&name).as_deref(), Some("2026-09-16T14-03-22-123Z"));
    assert_eq!(session_id_of(".jsonl"), None);
    assert_eq!(session_id_of("notes.txt"), None);
    assert_eq!(session_id_of("a.b.jsonl").as_deref(), Some("a.b"));
}

const FILE: &str = "{\"v\":1}\r\n\n  \n{\"at\":1}\n{\"at\":2}\n{\"at\":3, half";

#[test]
fn summary_counts_the_sentences_after_the_meta_line() {
    let (first, count) = summarize(FILE).unwrap();
    assert_eq!(first, "{\"v\":1}");
    assert_eq!(count, 3);
    assert!(summarize("\n \n\t").is_none());
    assert!(summarize("").is_none());
}

#[test]
fn sentence_lines_skip_the_meta_line_and_blank_lines() {
    assert_eq!(
        sentence_lines(FILE),
        vec!["{\"at\":1}".to_string(), "{\"at\":2}".to_string(), "{\"at\":3, half".to_string()]
    );
    assert!(sentence_lines("{\"v\":1}\n").is_empty());
    assert!(sentence_lines("").is_empty());
}

fn session(id: &str) -> Session {
    Session { id: id.to_string(), meta: None, count: 0, bytes: 0 }
}

#[test]
fn sessions_are_listed_newest_first() {
    let sorted = sort_newest_first(vec![
        session("2025-01-02T00-00-00-000Z"),
        session("2026-09-16T14-03-22-123Z"),
        session("2024-12-31T23-59-59-999Z"),
        session("2026-01-01T00-00-00-000Z"),
    ]);
    let ids: Vec<&str> = sorted.iter().map(|s| s.id.as_str()).collect();
    assert_eq!(
        ids,
        [
            "2026-09-16T14-03-22-123Z",
            "2026-01-01T00-00-00-000Z",
            "2025-01-02T00-00-00-000Z",
            "2024-12-31T23-59-59-999Z"
        ]
    );
    assert!(sort_newest_first(Vec::new()).is_empty());
}

#[test]
fn text_order_is_the_order_of_strings() {
    for (a, b) in [("a", "b"), ("", "a"), ("ab", "abc"), ("abc", "abd"), ("Z", "a"), ("é", "z")] {
        assert_eq!(text_less(a, b), a < b, "{a} < {b}");
        assert_eq!(text_less(b, a), b < a, "{b} < {a}");
    }
    assert!(!text_less("same", "same"));
}

#[test]
fn sessions_with_the_same_id_keep_their_order() {
    let mk = |id: &str, count: usize| Session { id: id.to_string(), meta: None, count, bytes: 0 };
    let sorted = sort_newest_first(vec![mk("a", 1), mk("b", 2), mk("a", 3), mk("c", 4), mk("a", 5)]);
    let order: Vec<(&str, usize)> = sorted.iter().map(|s| (s.id.as_str(), s.count)).collect();
    assert_eq!(order, [("c", 4), ("b", 2), ("a", 1), ("a", 3), ("a", 5)]);
}

#[test]
fn appended_records_read_back_one_line_each() {
    let meta = "{\"v\":1,\"source\":\"auto\"}";
    let entries = ["{\"at\":1,\"source\":\"a\\nb\",\"target\":\"x\"}", "{\"at\":2,\"source\":\"c\",\"target\":\"y\"}"];
    let mut file = String::new();
    file.push_str(&as_record(meta));
    for e in entries {
        file.push_str(&as_record(e));
    }
    assert!(file.ends_with('\n'));
    assert_eq!(summarize(&file), Some((meta.to_string(), 2)));
    assert_eq!(sentence_lines(&file), entries.map(String::from).to_vec());
}
