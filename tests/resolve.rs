use mdx_lookup::config::MdxFile;
use mdx_lookup::handlers::{handle_query, QueryForm};
use mdx_lookup::query::{join_parts, query, Dictionary};
use mdx_lookup::store::{DictionaryEntry, IndexStore};

fn entry(text: &str, definition: &str) -> DictionaryEntry {
    DictionaryEntry { text: text.to_string(), definition: definition.to_string() }
}

fn dict(language: Option<&str>, enabled: bool, entries: &[(&str, &str)]) -> Dictionary {
    let es: Vec<DictionaryEntry> = entries.iter().map(|(t, d)| entry(t, d)).collect();
    Dictionary {
        file: MdxFile {
            path: "dict.mdx".to_string(),
            enabled,
            language: language.map(|l| l.to_string()),
        },
        store: Some(IndexStore::build(&es)),
    }
}

#[test]
fn redirect_is_followed() {
    let ds = vec![dict(None, true, &[("A", "@@@LINK=B"), ("B", "hello")])];
    assert_eq!(query(&ds, "A".to_string(), None), "hello");
}

#[test]
fn redirect_target_is_trimmed() {
    let ds = vec![dict(None, true, &[("A", "@@@LINK= B \0\0\r\n"), ("B", "hello")])];
    assert_eq!(query(&ds, "A".to_string(), None), "hello");
}

#[test]
fn several_redirects_are_aggregated_in_order() {
    let ds = vec![dict(
        None,
        true,
        &[("A", "@@@LINK=B"), ("A", "@@@LINK=C"), ("B", "x"), ("C", "y")],
    )];
    assert_eq!(query(&ds, "A".to_string(), None), "x\n\n=== Next Entry ===\n\ny");
}

#[test]
fn direct_content_comes_before_redirects() {
    let ds = vec![dict(None, true, &[("A", "@@@LINK=B"), ("A", "first"), ("B", "second")])];
    assert_eq!(
        query(&ds, "A".to_string(), None),
        "first\n\n=== Next Entry ===\n\nsecond"
    );
}

#[test]
fn redirect_cycle_terminates() {
    let ds = vec![dict(None, true, &[("A", "@@@LINK=B"), ("B", "@@@LINK=A")])];
    assert_eq!(query(&ds, "A".to_string(), None), "Error: Too many redirects");
}

#[test]
fn redirect_to_missing_headword_is_not_found() {
    let ds = vec![dict(None, true, &[("A", "@@@LINK=Z")])];
    assert_eq!(query(&ds, "A".to_string(), None), "not found");
}

#[test]
fn unknown_headword_is_not_found() {
    let ds = vec![dict(None, true, &[("run", "to move fast")])];
    assert_eq!(query(&ds, "walk".to_string(), None), "not found");
}

#[test]
fn empty_dictionary_list_is_not_found() {
    let ds: Vec<Dictionary> = vec![];
    assert_eq!(query(&ds, "run".to_string(), None), "not found");
}

#[test]
fn pattern_fallback_finds_bracketed_headword() {
    let ds = vec![dict(None, true, &[("examine【run-in】", "a quarrel")])];
    assert_eq!(query(&ds, "run-in".to_string(), None), "a quarrel");
}

#[test]
fn pattern_fallback_only_without_exact_match() {
    let ds = vec![dict(None, true, &[("examine【run】", "pattern"), ("run", "exact")])];
    assert_eq!(query(&ds, "run".to_string(), None), "exact");
}

#[test]
fn language_tag_excludes_dictionary_from_default() {
    let ds = vec![dict(Some("ja"), true, &[("run", "ja definition")])];
    assert_eq!(query(&ds, "run".to_string(), None), "not found");
    assert_eq!(query(&ds, "run".to_string(), Some("en".to_string())), "not found");
    assert_eq!(query(&ds, "run".to_string(), Some("ja".to_string())), "ja definition");
}

#[test]
fn untagged_dictionary_serves_default_language_only() {
    let ds = vec![dict(None, true, &[("run", "en definition")])];
    assert_eq!(query(&ds, "run".to_string(), Some("en".to_string())), "en definition");
    assert_eq!(query(&ds, "run".to_string(), Some("ja".to_string())), "not found");
}

#[test]
fn disabled_dictionary_is_skipped() {
    let ds = vec![dict(None, false, &[("run", "hidden")])];
    assert_eq!(query(&ds, "run".to_string(), None), "not found");
}

#[test]
fn missing_store_is_skipped() {
    let mut missing = dict(None, true, &[]);
    missing.store = None;
    let ds = vec![missing, dict(None, true, &[("run", "found")])];
    assert_eq!(query(&ds, "run".to_string(), None), "found");
}

#[test]
fn results_follow_dictionary_order() {
    let ds = vec![
        dict(None, true, &[("run", "one")]),
        dict(Some("ja"), true, &[("run", "skipped")]),
        dict(Some("en"), true, &[("run", "two")]),
    ];
    assert_eq!(
        query(&ds, "run".to_string(), None),
        "one\n\n=== Next Entry ===\n\ntwo"
    );
}

#[test]
fn handle_query_uses_form_language() {
    let ds = vec![dict(Some("ja"), true, &[("走る", "to run")])];
    let form = QueryForm { word: "走る".to_string(), lang: "ja".to_string() };
    assert_eq!(handle_query(&ds, form), "to run");
}

#[test]
fn join_parts_separates_neighbours() {
    let parts = vec!["a".to_string(), "b".to_string(), "c".to_string()];
    assert_eq!(
        join_parts(&parts),
        "a\n\n=== Next Entry ===\n\nb\n\n=== Next Entry ===\n\nc"
    );
    assert_eq!(join_parts(&vec![]), "");
}
