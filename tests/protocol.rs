use nym_view::cache::{PageCache, SourceFile};
use nym_view::client::{
    BrowserEvent, Delivery, NymMixnetBrowser, SendOutcome, EXTERNAL_LINK_ERROR,
    INVALID_ADDRESS_ERROR, NOT_CONNECTED_ERROR, NO_SERVER_ERROR, SEND_FAILED_ERROR,
};
use nym_view::codec::{decode, encode, Command, DecodeError, REQUEST_ID_LEN};
use nym_view::default_page::{default_404, default_index};
use nym_view::locator::parse_nym_url;
use nym_view::server::{Dropped, NymMixnetServer, ServerAction};
use nym_view::text::{joined, starts_with, strip_leading_slashes, suffix_from};

fn file(name: &str, content: &str) -> SourceFile {
    SourceFile { name: name.to_string(), content: content.to_string() }
}

fn any_address(_recipient: String) -> bool {
    true
}

fn id(b: u8) -> Vec<u8> {
    vec![b; 16]
}

fn connected_browser(server: &str) -> NymMixnetBrowser {
    let mut b = NymMixnetBrowser::new();
    b.set_connection_status("Connected".to_string(), false, "client-addr".to_string());
    b.server_address = server.to_string();
    b
}

fn server_with(files: Vec<SourceFile>) -> NymMixnetServer {
    NymMixnetServer::new("./pages".to_string(), "srv.addr".to_string(), &files)
}

fn reply_of(server: &NymMixnetServer, payload: &Vec<u8>) -> Vec<u8> {
    match server.handle_message(payload) {
        ServerAction::Reply(p) => p,
        ServerAction::Drop(why) => panic!("dropped: {:?}", why),
    }
}

#[test]
fn ask_round_trips() {
    let c = Command::Ask { id: id(7), path: "about/ünïcode ✓".to_string() };
    let bytes = encode(&c);
    match decode(&bytes) {
        Ok(Command::Ask { id: i, path }) => {
            assert_eq!(i, id(7));
            assert_eq!(path, "about/ünïcode ✓");
        }
        other => panic!("unexpected {:?}", other),
    }
}

#[test]
fn get_round_trips_with_empty_body() {
    let c = Command::Get { id: id(1), body: String::new() };
    let bytes = encode(&c);
    match decode(&bytes) {
        Ok(Command::Get { id: i, body }) => {
            assert_eq!(i, id(1));
            assert_eq!(body, "");
        }
        other => panic!("unexpected {:?}", other),
    }
}

#[test]
fn encoding_layout_is_length_prefixed() {
    let c = Command::Ask { id: id(0), path: "ab".to_string() };
    let bytes = encode(&c);
    let mut expected: Vec<u8> = vec![3, 0, 0, 0, b'A', b'S', b'K', 16, 0, 0, 0];
    expected.extend_from_slice(&[0u8; 16]);
    expected.extend_from_slice(&[2, 0, 0, 0, b'a', b'b']);
    assert_eq!(bytes, expected);
}

#[test]
fn truncated_payload_is_malformed() {
    let bytes = encode(&Command::Ask { id: id(3), path: "page".to_string() });
    let cut = bytes[..bytes.len() - 1].to_vec();
    assert!(matches!(decode(&cut), Err(DecodeError::Malformed)));
    assert!(matches!(decode(&Vec::new()), Err(DecodeError::Malformed)));
}

#[test]
fn unknown_tag_is_reported() {
    let bytes: Vec<u8> = vec![4, 0, 0, 0, b'P', b'I', b'N', b'G'];
    assert!(matches!(decode(&bytes), Err(DecodeError::UnknownTag)));
}

#[test]
fn wrong_id_size_is_malformed() {
    let mut bytes: Vec<u8> = vec![3, 0, 0, 0, b'G', b'E', b'T', 2, 0, 0, 0, 1, 2];
    bytes.extend_from_slice(&[0, 0, 0, 0]);
    assert!(matches!(decode(&bytes), Err(DecodeError::Malformed)));
}

#[test]
fn invalid_utf8_text_is_malformed() {
    let mut bytes: Vec<u8> = vec![3, 0, 0, 0, b'G', b'E', b'T', 16, 0, 0, 0];
    bytes.extend_from_slice(&[9u8; 16]);
    bytes.extend_from_slice(&[2, 0, 0, 0, 0xff, 0xfe]);
    assert!(matches!(decode(&bytes), Err(DecodeError::Malformed)));
}

#[test]
fn locator_with_path() {
    assert_eq!(
        parse_nym_url("nym://abc.def@gw/docs/intro"),
        Some(("abc.def@gw".to_string(), "docs/intro".to_string()))
    );
}

#[test]
fn locator_without_path() {
    assert_eq!(parse_nym_url("nym://server"), Some(("server".to_string(), String::new())));
    assert_eq!(parse_nym_url("nym://server/"), Some(("server".to_string(), String::new())));
}

#[test]
fn not_a_locator() {
    assert_eq!(parse_nym_url("about"), None);
    assert_eq!(parse_nym_url("http://x/y"), None);
    assert_eq!(parse_nym_url("nym:/"), None);
}

#[test]
fn load_keeps_markdown_files_by_stem() {
    let files = vec![
        file("about.md", "About"),
        file("notes.markdown", "Notes"),
        file("image.png", "binary"),
        file(".md", "hidden"),
        file("README", "readme"),
    ];
    let cache = PageCache::load(&files);
    assert_eq!(cache.get("about"), Some("About".to_string()));
    assert_eq!(cache.get("notes"), Some("Notes".to_string()));
    assert_eq!(cache.get("image"), None);
    assert_eq!(cache.get("README"), None);
    assert_eq!(cache.get(""), None);
    assert_eq!(cache.get("about.md"), None);
}

#[test]
fn md_wins_over_markdown_in_any_order() {
    let a = vec![file("page.md", "from md"), file("page.markdown", "from markdown")];
    let b = vec![file("page.markdown", "from markdown"), file("page.md", "from md")];
    assert_eq!(PageCache::load(&a).get("page"), Some("from md".to_string()));
    assert_eq!(PageCache::load(&b).get("page"), Some("from md".to_string()));
}

#[test]
fn missing_index_falls_back_to_default() {
    let cache = PageCache::load(&vec![file("about.md", "Hello")]);
    assert_eq!(cache.get("index"), Some(default_index().to_string()));
    let empty = PageCache::load(&Vec::new());
    assert_eq!(empty.get("index"), Some(default_index().to_string()));
}

#[test]
fn present_index_is_kept() {
    let cache = PageCache::load(&vec![file("index.markdown", "Home")]);
    assert_eq!(cache.get("index"), Some("Home".to_string()));
}

#[test]
fn happy_path() {
    let server = server_with(vec![file("about.md", "Hello")]);
    let mut browser = connected_browser(&server.get_nym_address().to_string());
    let req = browser.send_request_with_id("about", id(0x11), true).unwrap();
    assert_eq!(req.recipient, "srv.addr");
    let reply = reply_of(&server, &req.payload);
    match decode(&reply) {
        Ok(Command::Get { id: i, body }) => {
            assert_eq!(i, id(0x11));
            assert_eq!(body, "Hello");
        }
        other => panic!("unexpected {:?}", other),
    }
    assert_eq!(browser.on_payload(&reply), Delivery::Accepted);
    assert_eq!(browser.current_content, "Hello");
    assert_eq!(browser.pending_request_id, None);
    assert!(!browser.page_loading);
}

#[test]
fn miss_answers_with_not_found_page() {
    let server = server_with(vec![file("about.md", "Hello")]);
    let mut browser = connected_browser("srv.addr");
    let req = browser.send_request_with_id("missing", id(2), true).unwrap();
    let reply = reply_of(&server, &req.payload);
    assert_eq!(browser.on_payload(&reply), Delivery::Accepted);
    assert_eq!(browser.current_content, default_404());
}

#[test]
fn stale_reply_is_ignored() {
    let server = server_with(vec![file("a.md", "old"), file("b.md", "new")]);
    let mut browser = connected_browser("srv.addr");
    let first = browser.send_request_with_id("a", id(0xAA), true).unwrap();
    let second = browser.send_request_with_id("b", id(0xBB), true).unwrap();
    assert_eq!(browser.pending_request_id, Some(id(0xBB)));
    let late = reply_of(&server, &first.payload);
    assert_eq!(browser.on_payload(&late), Delivery::Unmatched);
    assert_eq!(browser.current_content, "");
    assert_eq!(browser.pending_request_id, Some(id(0xBB)));
    let fresh = reply_of(&server, &second.payload);
    assert_eq!(browser.on_payload(&fresh), Delivery::Accepted);
    assert_eq!(browser.current_content, "new");
}

#[test]
fn reply_after_acceptance_is_ignored() {
    let mut browser = connected_browser("srv.addr");
    browser.send_request_with_id("a", id(5), true).unwrap();
    let reply = encode(&Command::Get { id: id(5), body: "once".to_string() });
    assert_eq!(browser.on_payload(&reply), Delivery::Accepted);
    browser.current_content = "shown".to_string();
    assert_eq!(browser.on_payload(&reply), Delivery::Unmatched);
    assert_eq!(browser.current_content, "shown");
}

#[test]
fn reload_makes_new_page_available() {
    let mut server = server_with(vec![file("about.md", "Hello")]);
    let mut browser = connected_browser("srv.addr");
    let before = browser.send_request_with_id("new", id(1), true).unwrap();
    let reply = reply_of(&server, &before.payload);
    browser.on_payload(&reply);
    assert_eq!(browser.current_content, default_404());
    let status = server.reload_cache(&vec![file("about.md", "Hello"), file("new.md", "Fresh")]);
    assert_eq!(status, "OK\nCache reloaded");
    let after = browser.send_request_with_id("new", id(2), true).unwrap();
    let reply = reply_of(&server, &after.payload);
    assert_eq!(browser.on_payload(&reply), Delivery::Accepted);
    assert_eq!(browser.current_content, "Fresh");
}

#[test]
fn reload_drops_removed_pages() {
    let mut server = server_with(vec![file("gone.md", "x"), file("index.md", "Home")]);
    server.reload_cache(&Vec::new());
    assert_eq!(server.page_or_404("gone"), default_404());
    assert_eq!(server.page_or_404("index"), default_index());
}

#[test]
fn server_drops_what_it_does_not_serve() {
    let server = server_with(Vec::new());
    let get = encode(&Command::Get { id: id(1), body: "x".to_string() });
    assert!(matches!(server.handle_message(&get), ServerAction::Drop(Dropped::UnknownCommand)));
    let junk: Vec<u8> = vec![1, 2, 3];
    assert!(matches!(server.handle_message(&junk), ServerAction::Drop(Dropped::Malformed)));
    let ping: Vec<u8> = vec![4, 0, 0, 0, b'P', b'I', b'N', b'G'];
    assert!(matches!(server.handle_message(&ping), ServerAction::Drop(Dropped::UnknownCommand)));
}

#[test]
fn browser_drops_asks_and_junk() {
    let mut browser = connected_browser("srv.addr");
    browser.send_request_with_id("a", id(5), true).unwrap();
    let ask = encode(&Command::Ask { id: id(5), path: "a".to_string() });
    assert_eq!(browser.on_payload(&ask), Delivery::UnknownCommand);
    assert_eq!(browser.on_payload(&vec![0u8, 1]), Delivery::Malformed);
    assert_eq!(browser.pending_request_id, Some(id(5)));
}

#[test]
fn send_needs_a_server_address() {
    let mut browser = connected_browser("   ");
    assert_eq!(browser.send_request_with_id("a", id(1), true).unwrap_err(), NO_SERVER_ERROR);
    assert_eq!(browser.pending_request_id, None);
}

#[test]
fn send_needs_a_connection() {
    let mut browser = NymMixnetBrowser::new();
    browser.server_address = "srv".to_string();
    assert_eq!(browser.send_request_with_id("a", id(1), true).unwrap_err(), NOT_CONNECTED_ERROR);
}

#[test]
fn recipient_is_trimmed() {
    let mut browser = connected_browser("  srv.addr \n");
    let req = browser.send_request_with_id("a", id(1), true).unwrap();
    assert_eq!(req.recipient, "srv.addr");
}

#[test]
fn random_ids_are_fresh() {
    let mut browser = connected_browser("srv");
    let a = browser.send_request("x", &any_address).unwrap();
    let b = browser.send_request("x", &any_address).unwrap();
    assert_eq!(a.id.len(), REQUEST_ID_LEN);
    assert_ne!(a.id, b.id);
    assert_eq!(browser.pending_request_id, Some(b.id.clone()));
}

#[test]
fn ok_prefix_is_stripped() {
    let mut browser = NymMixnetBrowser::new();
    browser.error = Some("boom".to_string());
    browser.page_loading = true;
    browser.handle_server_message("OK\n# Title");
    assert_eq!(browser.current_content, "# Title");
    assert_eq!(browser.error, None);
    assert!(!browser.page_loading);
    browser.handle_server_message("plain");
    assert_eq!(browser.current_content, "plain");
}

#[test]
fn send_failures_are_shown() {
    let mut browser = connected_browser("srv");
    browser.on_send_outcome(SendOutcome::Sent);
    assert_eq!(browser.current_content, "");
    browser.on_send_outcome(SendOutcome::Failed);
    assert_eq!(browser.current_content, SEND_FAILED_ERROR);
}

#[test]
fn events_update_the_browser() {
    let mut browser = NymMixnetBrowser::new();
    assert!(browser.loading);
    browser.handle_event(BrowserEvent::ConnectionStatus {
        status: "Connected".to_string(),
        loading: false,
        client_address: "me".to_string(),
    });
    assert_eq!(browser.connection_status, "Connected");
    assert_eq!(browser.client_address, "me");
    assert!(browser.connected);
    browser.handle_event(BrowserEvent::ConnectionStatus {
        status: "Again".to_string(),
        loading: false,
        client_address: String::new(),
    });
    assert_eq!(browser.client_address, "me");
    browser.handle_event(BrowserEvent::Received { content: "OK\nhi".to_string(), from: "x".to_string() });
    assert_eq!(browser.current_content, "hi");
}

#[test]
fn navigation_from_address_bar() {
    let mut browser = connected_browser("");
    browser.address_bar = "nym://srv.addr".to_string();
    let req = browser.handle_navigation(&any_address).unwrap();
    assert_eq!(browser.server_address, "srv.addr");
    assert_eq!(browser.address_bar, "");
    assert!(browser.page_loading);
    match decode(&req.payload) {
        Ok(Command::Ask { path, .. }) => assert_eq!(path, "index"),
        other => panic!("unexpected {:?}", other),
    }
}

#[test]
fn navigation_failure_is_shown() {
    let mut browser = connected_browser("");
    browser.address_bar = "about".to_string();
    assert!(browser.handle_navigation(&any_address).is_none());
    assert_eq!(browser.error, Some(NO_SERVER_ERROR.to_string()));
    assert!(!browser.page_loading);
}

#[test]
fn navigate_to_records_history() {
    let mut browser = connected_browser("srv");
    browser.address_bar = "home".to_string();
    let req = browser.navigate_to(" //docs ", &any_address).unwrap();
    assert_eq!(browser.history.len(), 1);
    assert_eq!(browser.history[0].server, "srv");
    assert_eq!(browser.history[0].page, "home");
    assert_eq!(browser.address_bar, " //docs ");
    match decode(&req.payload) {
        Ok(Command::Ask { path, .. }) => assert_eq!(path, "docs"),
        other => panic!("unexpected {:?}", other),
    }
}

#[test]
fn go_back_reissues_previous_page() {
    let mut browser = connected_browser("srv");
    assert!(browser.go_back(&any_address).is_none());
    browser.address_bar = "one".to_string();
    browser.navigate_to("two", &any_address).unwrap();
    browser.navigate_to("three", &any_address).unwrap();
    assert_eq!(browser.history.len(), 2);
    let req = browser.go_back(&any_address).unwrap();
    assert_eq!(browser.history.len(), 1);
    assert_eq!(browser.address_bar, "two");
    match decode(&req.payload) {
        Ok(Command::Ask { path, .. }) => assert_eq!(path, "two"),
        other => panic!("unexpected {:?}", other),
    }
}

#[test]
fn link_clicks() {
    let mut browser = connected_browser("srv");
    assert!(browser.handle_link_click("https://example.com", &any_address).is_none());
    assert_eq!(browser.error, Some(EXTERNAL_LINK_ERROR.to_string()));

    let req = browser.handle_link_click("/about", &any_address).unwrap();
    assert_eq!(browser.address_bar, "about");
    match decode(&req.payload) {
        Ok(Command::Ask { path, .. }) => assert_eq!(path, "about"),
        other => panic!("unexpected {:?}", other),
    }

    let req = browser.handle_link_click("nym://help", &any_address).unwrap();
    assert_eq!(browser.server_address, "srv");
    assert_eq!(browser.address_bar, "help");
    match decode(&req.payload) {
        Ok(Command::Ask { path, .. }) => assert_eq!(path, "help"),
        other => panic!("unexpected {:?}", other),
    }

    let req = browser.handle_link_click("nym://other.server@gw/page", &any_address).unwrap();
    assert_eq!(browser.server_address, "other.server@gw");
    assert_eq!(browser.address_bar, "page");
    assert_eq!(req.recipient, "other.server@gw");
    match decode(&req.payload) {
        Ok(Command::Ask { path, .. }) => assert_eq!(path, "page"),
        other => panic!("unexpected {:?}", other),
    }

    let req = browser.handle_link_click("nym://third.server@gw", &any_address).unwrap();
    assert_eq!(browser.server_address, "third.server@gw");
    match decode(&req.payload) {
        Ok(Command::Ask { path, .. }) => assert_eq!(path, "index"),
        other => panic!("unexpected {:?}", other),
    }
}

#[test]
fn pending_navigation_is_followed_once() {
    let mut browser = connected_browser("srv");
    assert!(browser.take_pending_navigation(&any_address).is_none());
    browser.pending_navigation = Some("docs".to_string());
    assert!(browser.take_pending_navigation(&any_address).is_some());
    assert_eq!(browser.pending_navigation, None);
    assert_eq!(browser.address_bar, "docs");
}

#[test]
fn can_navigate_needs_connection_and_text() {
    let mut browser = NymMixnetBrowser::new();
    browser.address_bar = "x".to_string();
    assert!(!browser.can_navigate());
    browser.set_connection_status("Connected".to_string(), false, String::new());
    assert!(browser.can_navigate());
    browser.address_bar = "  ".to_string();
    assert!(!browser.can_navigate());
}

#[test]
fn text_helpers() {
    assert!(starts_with("nym://x", "nym://"));
    assert!(!starts_with("ny", "nym://"));
    assert_eq!(suffix_from("héllo", 1), "éllo");
    assert_eq!(strip_leading_slashes("///a/b"), "a/b");
    assert_eq!(joined("/", "x"), "/x");
}

#[test]
fn install_cache_swaps_whole_cache() {
    let mut server = server_with(vec![file("old.md", "Old")]);
    let fresh = PageCache::load(&vec![file("new.md", "New")]);
    server.install_cache(fresh);
    assert_eq!(server.page_or_404("new"), "New");
    assert_eq!(server.page_or_404("old"), default_404());
}

#[test]
fn list_pages_names_each_page_once() {
    let server = server_with(vec![
        file("about.md", "A"),
        file("notes.markdown", "N"),
        file("about.markdown", "older"),
    ]);
    assert_eq!(server.list_pages(), "OK\nnotes,about,index");
    let cache = PageCache::load(&vec![file("index.md", "Home")]);
    assert_eq!(cache.list_pages(), "OK\nindex");
}

#[test]
fn insert_replaces_existing_page() {
    let mut cache = PageCache::new();
    cache.insert("a".to_string(), "1".to_string());
    cache.insert("b".to_string(), "2".to_string());
    cache.insert("a".to_string(), "3".to_string());
    assert_eq!(cache.get("a"), Some("3".to_string()));
    assert_eq!(cache.get("b"), Some("2".to_string()));
    assert_eq!(cache.list_pages(), "OK\na,b");
    assert_eq!(PageCache::new().list_pages(), "OK\n");
}

#[test]
fn invalid_address_is_refused_before_sending() {
    let mut browser = connected_browser("not-an-address");
    assert_eq!(browser.send_request_with_id("a", id(1), false).unwrap_err(), INVALID_ADDRESS_ERROR);
    assert_eq!(browser.pending_request_id, None);
    let reject = |recipient: String| recipient != "not-an-address";
    assert!(browser.send_request("a", &reject).is_err());
    assert_eq!(browser.pending_request_id, None);
    assert!(browser.navigate_to("a", &reject).is_none());
    assert_eq!(browser.error, Some(INVALID_ADDRESS_ERROR.to_string()));
    assert!(!browser.page_loading);
    assert_eq!(browser.pending_request_id, None);
}

#[test]
fn validator_sees_trimmed_address() {
    let mut browser = connected_browser("  srv.addr  ");
    let only_srv = |recipient: String| recipient == "srv.addr";
    assert!(browser.send_request("a", &only_srv).is_ok());
}

#[test]
fn accepted_body_is_shown_whole() {
    let mut browser = connected_browser("srv");
    browser.send_request_with_id("a", id(8), true).unwrap();
    let reply = encode(&Command::Get { id: id(8), body: "OK\nstill the body".to_string() });
    assert_eq!(browser.on_payload(&reply), Delivery::Accepted);
    assert_eq!(browser.current_content, "OK\nstill the body");
}

#[test]
fn go_back_to_empty_page_asks_for_index() {
    let mut browser = connected_browser("srv");
    browser.navigate_to("a", &any_address).unwrap();
    browser.navigate_to("b", &any_address).unwrap();
    let req = browser.go_back(&any_address).unwrap();
    assert_eq!(browser.address_bar, "a");
    match decode(&req.payload) {
        Ok(Command::Ask { path, .. }) => assert_eq!(path, "a"),
        other => panic!("unexpected {:?}", other),
    }
    let mut other = connected_browser("srv");
    other.navigate_to("x", &any_address).unwrap();
    other.navigate_to("y", &any_address).unwrap();
    other.history[1].page = " /".to_string();
    let req = other.go_back(&any_address).unwrap();
    match decode(&req.payload) {
        Ok(Command::Ask { path, .. }) => assert_eq!(path, "index"),
        other => panic!("unexpected {:?}", other),
    }
}
