use nym_view::cache::page_key;
use nym_view::client::NymMixnetBrowser;
use nym_view::links::{extract_nym_links, replace_nym_links};

#[test]
fn links_are_found_in_order_without_duplicates() {
    let text = "See [home](nym://srv/index) and <nym://other.gw/a> then nym://srv/index again\tnym://x";
    assert_eq!(
        extract_nym_links(text),
        vec![
            "nym://srv/index".to_string(),
            "nym://other.gw/a".to_string(),
            "nym://x".to_string(),
        ]
    );
}

#[test]
fn links_stop_at_quotes_and_unicode_space() {
    let text = "a \"nym://q\" 'nym://r' nym://s\u{3000}tail";
    assert_eq!(
        extract_nym_links(text),
        vec!["nym://q".to_string(), "nym://r".to_string(), "nym://s".to_string()]
    );
}

#[test]
fn no_links_in_plain_text() {
    assert!(extract_nym_links("nothing here, nym:/ almost").is_empty());
    assert!(extract_nym_links("").is_empty());
}

#[test]
fn links_are_rendered_as_plain_text() {
    let text = "Go to [docs](nym://srv/docs) or nym://srv/docs now.";
    assert_eq!(replace_nym_links(text), "Go to [docs](srv/docs) or srv/docs now.");
    assert_eq!(replace_nym_links("no links"), "no links");
}

#[test]
fn click_leaves_first_link_to_follow() {
    let mut browser = NymMixnetBrowser::new();
    browser.current_content = "text nym://one and nym://two".to_string();
    assert_eq!(browser.rendered_content(), "text one and two");
    browser.on_content_click();
    assert_eq!(browser.pending_navigation, Some("nym://one".to_string()));
    let mut plain = NymMixnetBrowser::new();
    plain.current_content = "no links".to_string();
    plain.on_content_click();
    assert_eq!(plain.pending_navigation, None);
}

#[test]
fn page_keys_of_file_names() {
    assert_eq!(page_key("about.md"), Some("about".to_string()));
    assert_eq!(page_key("a.b.markdown"), Some("a.b".to_string()));
    assert_eq!(page_key("notes.txt"), None);
    assert_eq!(page_key(".md"), None);
    assert_eq!(page_key(".markdown"), None);
    assert_eq!(page_key("x.MD"), None);
}

#[test]
fn whitespace_matches_std() {
    for u in 0u32..0x3100 {
        if let Some(c) = char::from_u32(u) {
            assert_eq!(nym_view::links::is_whitespace(c), c.is_whitespace(), "{:x}", u);
        }
    }
}
