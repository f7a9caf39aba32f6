use miniminio::listing::{ListStep, ListingCursor};
use miniminio::storage::ObjectMetadata;
use miniminio::strmap::StrMap;

fn meta(key: &str) -> ObjectMetadata {
    ObjectMetadata {
        key: key.to_string(),
        size: 1,
        etag: "e".to_string(),
        content_type: "text/plain".to_string(),
        last_modified: "2024-01-01T00:00:00.000Z".to_string(),
        user_metadata: StrMap::new(),
    }
}

/// Runs a listing over sorted keys, loading every key asked for.
fn list(keys: &[&str], prefix: &str, delimiter: &str, max_keys: usize, start_after: &str, token: &str)
    -> miniminio::storage::ListObjectsResult
{
    let mut c = ListingCursor::new(prefix, delimiter, max_keys, start_after, token);
    for k in keys {
        match c.offer(k) {
            ListStep::Skip => {}
            ListStep::Stop => break,
            ListStep::Load => c.push_object(meta(k)),
        }
    }
    c.finish()
}

fn keys_of(r: &miniminio::storage::ListObjectsResult) -> Vec<&str> {
    r.objects.iter().map(|o| o.key.as_str()).collect()
}

const KEYS: [&str; 6] = ["a.txt", "docs/a.md", "docs/b.md", "docs/sub/c.md", "img/x.png", "z.txt"];

#[test]
fn flat_listing_returns_everything() {
    let r = list(&KEYS, "", "", 1000, "", "");
    assert_eq!(keys_of(&r), KEYS.to_vec());
    assert!(r.common_prefixes.is_empty());
    assert!(!r.is_truncated);
    assert_eq!(r.next_continuation_token, None);
}

#[test]
fn delimiter_rolls_up_folders() {
    let r = list(&KEYS, "", "/", 1000, "", "");
    assert_eq!(keys_of(&r), vec!["a.txt", "z.txt"]);
    assert_eq!(r.common_prefixes, vec!["docs/", "img/"]);
}

#[test]
fn prefix_and_delimiter_list_one_folder() {
    let r = list(&KEYS, "docs/", "/", 1000, "", "");
    assert_eq!(keys_of(&r), vec!["docs/a.md", "docs/b.md"]);
    assert_eq!(r.common_prefixes, vec!["docs/sub/"]);
}

#[test]
fn pages_end_at_max_keys() {
    let r = list(&KEYS, "", "", 2, "", "");
    assert_eq!(keys_of(&r), vec!["a.txt", "docs/a.md"]);
    assert!(r.is_truncated);
    assert_eq!(r.next_continuation_token, Some("docs/a.md".to_string()));
    let r2 = list(&KEYS, "", "", 2, "", "docs/a.md");
    assert_eq!(keys_of(&r2), vec!["docs/b.md", "docs/sub/c.md"]);
    let r3 = list(&KEYS, "", "", 2, "", "img/x.png");
    assert_eq!(keys_of(&r3), vec!["z.txt"]);
    assert!(!r3.is_truncated);
}

#[test]
fn token_wins_over_start_after() {
    let r = list(&KEYS, "", "", 1000, "docs/b.md", "img/x.png");
    assert_eq!(keys_of(&r), vec!["z.txt"]);
    let r = list(&KEYS, "", "", 1000, "docs/b.md", "");
    assert_eq!(keys_of(&r), vec!["docs/sub/c.md", "img/x.png", "z.txt"]);
}

#[test]
fn zero_max_keys_is_truncated_without_token() {
    let r = list(&KEYS, "", "", 0, "", "");
    assert!(r.objects.is_empty());
    assert!(r.is_truncated);
    assert_eq!(r.next_continuation_token, None);
}

#[test]
fn full_page_without_more_keys_is_still_truncated() {
    let r = list(&["a", "b"], "", "", 2, "", "");
    assert!(r.is_truncated);
    assert_eq!(r.next_continuation_token, Some("b".to_string()));
}

#[test]
fn multi_character_delimiter_is_kept_whole() {
    let r = list(&["a--b", "a--c", "x"], "", "--", 1000, "", "");
    assert_eq!(r.common_prefixes, vec!["a--"]);
    assert_eq!(keys_of(&r), vec!["x"]);
}

#[test]
fn offered_keys_outside_the_prefix_are_skipped() {
    let mut c = ListingCursor::new("docs/", "", 10, "", "");
    assert_eq!(c.offer("a.txt"), ListStep::Skip);
    assert_eq!(c.offer("docs/a"), ListStep::Load);
}

#[test]
fn common_prefix_ends_with_the_whole_delimiter() {
    let r = list(&["xaby", "xabz", "xay"], "", "ab", 1000, "", "");
    assert_eq!(r.common_prefixes, vec!["xab"]);
    assert_eq!(keys_of(&r), vec!["xay"]);
}

#[test]
fn common_prefixes_come_in_key_order() {
    let r = list(&["a/1", "a/2", "b", "c/x/y", "d/"], "", "/", 1000, "", "");
    assert_eq!(r.common_prefixes, vec!["a/", "c/", "d/"]);
    assert_eq!(keys_of(&r), vec!["b"]);
}

#[test]
fn non_ascii_delimiter_rolls_up() {
    let r = list(&["aéb", "aéc", "z"], "", "é", 1000, "", "");
    assert_eq!(r.common_prefixes, vec!["aé"]);
    assert_eq!(keys_of(&r), vec!["z"]);
}
