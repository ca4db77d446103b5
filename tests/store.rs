use mdx_lookup::indexing::{counts_agree, index_pass, plan_index, IndexAction};
use mdx_lookup::redirect::{is_redirect_def, is_white_char, redirect_target_of};
use mdx_lookup::store::{chars_of, contains_chars, DictionaryEntry, IndexStore};

fn entries(pairs: &[(&str, &str)]) -> Vec<DictionaryEntry> {
    pairs
        .iter()
        .map(|(t, d)| DictionaryEntry { text: t.to_string(), definition: d.to_string() })
        .collect()
}

#[test]
fn exact_lookup_keeps_id_order() {
    let mut s = IndexStore::new();
    assert!(s.push_row(3, "run".to_string(), "first".to_string()));
    assert!(s.push_row(5, "walk".to_string(), "other".to_string()));
    assert!(s.push_row(7, "run".to_string(), "second".to_string()));
    assert!(s.push_row(9, "run".to_string(), "third".to_string()));
    let hits = s.lookup_exact(&"run".to_string());
    assert_eq!(
        hits,
        vec![(3, "first".to_string()), (7, "second".to_string()), (9, "third".to_string())]
    );
}

#[test]
fn push_row_refuses_non_increasing_id() {
    let mut s = IndexStore::new();
    assert!(s.push_row(4, "a".to_string(), "x".to_string()));
    assert!(!s.push_row(4, "b".to_string(), "y".to_string()));
    assert!(!s.push_row(2, "b".to_string(), "y".to_string()));
    assert_eq!(s.len(), 1);
    assert_eq!(s.last_id(), Some(4));
}

#[test]
fn build_keeps_duplicates_with_fresh_ids() {
    let es = entries(&[("run", "a"), ("run", "a"), ("go", "b")]);
    let s = IndexStore::build(&es);
    assert_eq!(s.len(), 3);
    assert_eq!(s.last_id(), Some(3));
    assert_eq!(s.lookup_exact(&"run".to_string()), vec![(1, "a".to_string()), (2, "a".to_string())]);
}

#[test]
fn build_of_nothing_is_empty() {
    let s = IndexStore::build(&vec![]);
    assert_eq!(s.len(), 0);
    assert_eq!(s.last_id(), None);
}

#[test]
fn pattern_lookup_needs_brackets() {
    let es = entries(&[("examine【run-in】", "a"), ("run-in", "b"), ("x【run】y", "c")]);
    let s = IndexStore::build(&es);
    assert_eq!(s.lookup_pattern(&"run-in".to_string()), vec![(1, "a".to_string())]);
    assert_eq!(s.lookup_pattern(&"run".to_string()), vec![(3, "c".to_string())]);
    assert_eq!(s.lookup_pattern(&"walk".to_string()), vec![]);
}

#[test]
fn plan_follows_existence_and_force() {
    assert_eq!(plan_index(false, false), IndexAction::Build);
    assert_eq!(plan_index(false, true), IndexAction::Build);
    assert_eq!(plan_index(true, true), IndexAction::Rebuild);
    assert_eq!(plan_index(true, false), IndexAction::Keep);
}

#[test]
fn reindex_without_force_keeps_store() {
    let old = IndexStore::build(&entries(&[("a", "1"), ("b", "2")]));
    let kept = index_pass(Some(old), &entries(&[("c", "3")]), false);
    assert_eq!(kept.len(), 2);
    assert_eq!(kept.last_id(), Some(2));
    let again = index_pass(Some(kept), &entries(&[("c", "3")]), false);
    assert_eq!(again.len(), 2);
    assert_eq!(again.lookup_exact(&"b".to_string()), vec![(2, "2".to_string())]);
}

#[test]
fn forced_reindex_counts_every_entry() {
    let old = IndexStore::build(&entries(&[("a", "1")]));
    let es = entries(&[("c", "3"), ("c", "4"), ("d", "5")]);
    let rebuilt = index_pass(Some(old), &es, true);
    assert_eq!(rebuilt.len(), es.len());
    assert_eq!(rebuilt.lookup_exact(&"a".to_string()), vec![]);
    let fresh = index_pass(None, &es, false);
    assert_eq!(fresh.len(), 3);
}

#[test]
fn counts_agree_compares_exactly() {
    assert!(counts_agree(3, 3));
    assert!(!counts_agree(3, 2));
    assert!(!counts_agree(0, -1));
    assert!(counts_agree(0, 0));
}

#[test]
fn redirect_marker_is_recognised() {
    assert!(is_redirect_def(&"@@@LINK=run".to_string()));
    assert!(!is_redirect_def(&"@@@LINK".to_string()));
    assert!(!is_redirect_def(&"see @@@LINK=run".to_string()));
    assert!(!is_redirect_def(&"".to_string()));
}

#[test]
fn redirect_target_is_cleaned() {
    assert_eq!(redirect_target_of(&"@@@LINK=run".to_string()), "run");
    assert_eq!(redirect_target_of(&"@@@LINK=  run away \r\n\0\0".to_string()), "run away");
    assert_eq!(redirect_target_of(&"@@@LINK=\u{3000}走る\0 ".to_string()), "走る");
    assert_eq!(redirect_target_of(&"@@@LINK=".to_string()), "");
}

#[test]
fn whitespace_matches_std() {
    for c in ['\t', '\n', ' ', '\u{85}', '\u{a0}', '\u{2003}', '\u{3000}', 'a', '\0', '走'] {
        assert_eq!(is_white_char(c), c.is_whitespace());
    }
}

#[test]
fn substring_search_finds_runs() {
    let t = chars_of("abc【x】");
    assert!(contains_chars(&t, &chars_of("【x】")));
    assert!(contains_chars(&t, &chars_of("")));
    assert!(!contains_chars(&t, &chars_of("【y】")));
    assert!(!contains_chars(&chars_of("ab"), &chars_of("abc")));
}
