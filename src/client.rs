//! The browser side: which request is outstanding, which replies are taken, and
//! what the browser shows.
use vstd::prelude::*;
use vstd::string::*;
use crate::codec::{
    decode, decoded, encode, encoded, fits_field, Command, CommandView, DecodeError, REQUEST_ID_LEN,
};
use crate::locator::{has_scheme, parse_nym_url, split_server, NYM_SCHEME};
use crate::text::{
    joined, is_prefix, starts_with, strip_leading_slashes, suffix_from, trim, trimmed,
    without_leading_slashes,
};
use vstd::utf8::encode_utf8;
use crate::cache::index_key;
use crate::links::{collected_links, extract_nym_links, links_replaced, replace_nym_links};

verus! {

pub const CONNECTING_STATUS: &'static str = "Connecting to Mixnet...";

pub const NO_SERVER_ERROR: &'static str = "No server address specified";

pub const NOT_CONNECTED_ERROR: &'static str = "Not connected to Mixnet";

pub const INVALID_ADDRESS_ERROR: &'static str = "ERROR: Invalid address";

pub const PATH_TOO_LONG_ERROR: &'static str = "Request path too long";

pub const EXTERNAL_LINK_ERROR: &'static str = "External web links not supported";

/// Longest byte length of a link target that is still read as a page of the
/// current server rather than as a full address.
pub const SHORT_LINK_MAX: usize = 50;

/// The prefix of a text reply that carries a page.
pub const OK_PREFIX: &'static str = "OK\n";

/// A page visited before the current one.
#[derive(Debug, Clone)]
pub struct HistoryEntry {
    pub server: String,
    pub page: String,
}

/// A request to hand to the transport.
#[derive(Debug)]
pub struct OutgoingRequest {
    pub recipient: String,
    pub id: Vec<u8>,
    pub payload: Vec<u8>,
}

pub struct OutgoingView {
    pub recipient: Seq<char>,
    pub id: Seq<u8>,
    pub payload: Seq<u8>,
}

impl View for OutgoingRequest {
    type V = OutgoingView;

    open spec fn view(&self) -> OutgoingView {
        OutgoingView { recipient: self.recipient@, id: self.id@, payload: self.payload@ }
    }
}

/// What became of an inbound message.
#[derive(Debug, Clone, Copy, PartialEq, Eq, Structural)]
pub enum Delivery {
    /// A reply to the outstanding request: its page is now shown.
    Accepted,
    /// A reply to some other request, or to none.
    Unmatched,
    /// A command that a browser does not take.
    UnknownCommand,
    /// A payload that does not decode.
    Malformed,
}

pub struct BrowserView {
    pub address_bar: Seq<char>,
    pub current_content: Seq<char>,
    pub loading: bool,
    pub page_loading: bool,
    pub error: Option<Seq<char>>,
    pub connection_status: Seq<char>,
    pub server_address: Seq<char>,
    pub client_address: Seq<char>,
    pub connected: bool,
    pub pending_request_id: Option<Seq<u8>>,
    pub history: Seq<(Seq<char>, Seq<char>)>,
    pub pending_navigation: Option<Seq<char>>,
}

pub open spec fn opt_text(o: Option<String>) -> Option<Seq<char>> {
    match o {
        Some(s) => Some(s@),
        None => None,
    }
}

pub open spec fn opt_bytes(o: Option<Vec<u8>>) -> Option<Seq<u8>> {
    match o {
        Some(s) => Some(s@),
        None => None,
    }
}

pub open spec fn result_view(r: Result<OutgoingRequest, String>) -> Result<OutgoingView, Seq<char>> {
    match r {
        Ok(o) => Ok(o@),
        Err(e) => Err(e@),
    }
}

/// The browser's state, apart from the transport and the screen.
pub struct NymMixnetBrowser {
    pub address_bar: String,
    pub current_content: String,
    pub loading: bool,
    pub page_loading: bool,
    pub error: Option<String>,
    pub connection_status: String,
    pub server_address: String,
    pub client_address: String,
    pub connected: bool,
    pub pending_request_id: Option<Vec<u8>>,
    pub history: Vec<HistoryEntry>,
    pub pending_navigation: Option<String>,
}

impl View for NymMixnetBrowser {
    type V = BrowserView;

    open spec fn view(&self) -> BrowserView {
        BrowserView {
            address_bar: self.address_bar@,
            current_content: self.current_content@,
            loading: self.loading,
            page_loading: self.page_loading,
            error: opt_text(self.error),
            connection_status: self.connection_status@,
            server_address: self.server_address@,
            client_address: self.client_address@,
            connected: self.connected,
            pending_request_id: opt_bytes(self.pending_request_id),
            history: self.history@.map_values(|h: HistoryEntry| (h.server@, h.page@)),
            pending_navigation: opt_text(self.pending_navigation),
        }
    }
}

/// A reply's text without the `OK\n` that may lead it.
pub open spec fn without_ok(content: Seq<char>) -> Seq<char> {
    if is_prefix(OK_PREFIX@, content) {
        content.subrange(OK_PREFIX@.len() as int, content.len() as int)
    } else {
        content
    }
}

/// The state after showing `content` as it is, which ends the page load.
pub open spec fn displayed(s: BrowserView, content: Seq<char>) -> BrowserView {
    BrowserView { current_content: content, error: None, page_loading: false, ..s }
}

/// The state after showing a text reply, without its leading `OK\n`.
pub open spec fn shown(s: BrowserView, content: Seq<char>) -> BrowserView {
    displayed(s, without_ok(content))
}

/// The transport gave `ok` as its verdict on the address `recipient`.
pub open spec fn judged<F: Fn(String) -> bool>(valid: F, recipient: Seq<char>, ok: bool) -> bool {
    exists|x: String| x@ == recipient && call_ensures(valid, (x,), ok)
}

/// The validator can be asked about any address.
pub open spec fn asks_anything<F: Fn(String) -> bool>(valid: F) -> bool {
    forall|x: String| call_requires(valid, (x,))
}

/// What issuing a request for `path` under `id` gives, when the transport's
/// verdict on the server's address is `address_ok`: the request to send and `id`
/// as the only outstanding request, or an error with the state unchanged.
pub open spec fn issue(s: BrowserView, path: Seq<char>, id: Seq<u8>, address_ok: bool) -> (
    Result<OutgoingView, Seq<char>>,
    BrowserView,
) {
    if trimmed(s.server_address).len() == 0 {
        (Err(NO_SERVER_ERROR@), s)
    } else if !s.connected {
        (Err(NOT_CONNECTED_ERROR@), s)
    } else if !address_ok {
        (Err(INVALID_ADDRESS_ERROR@), s)
    } else if !fits_field(path) {
        (Err(PATH_TOO_LONG_ERROR@), s)
    } else {
        (
            Ok(
                OutgoingView {
                    recipient: trimmed(s.server_address),
                    id,
                    payload: encoded(CommandView::Ask { id, path }),
                },
            ),
            BrowserView { pending_request_id: Some(id), ..s },
        )
    }
}

/// What an inbound payload does: only a `GET` whose id is the outstanding one is
/// taken; it clears the outstanding request and shows its text.
pub open spec fn receive(s: BrowserView, payload: Seq<u8>) -> (Delivery, BrowserView) {
    match decoded(payload) {
        Ok(CommandView::Get { id, body }) => if s.pending_request_id == Some(id) {
            (Delivery::Accepted, displayed(BrowserView { pending_request_id: None, ..s }, body))
        } else {
            (Delivery::Unmatched, s)
        },
        Ok(CommandView::Ask { .. }) => (Delivery::UnknownCommand, s),
        Err(DecodeError::UnknownTag) => (Delivery::UnknownCommand, s),
        Err(DecodeError::Malformed) => (Delivery::Malformed, s),
    }
}

/// Relies on `rand::random`: sixteen bytes drawn from the thread's generator.
#[verifier::external_body]
fn fresh_request_id() -> (r: Vec<u8>)
    ensures
        r@.len() == REQUEST_ID_LEN,
{
    rand::random::<[u8; 16]>().to_vec()
}

impl NymMixnetBrowser {
    /// A browser that is connecting, with nothing shown and nothing requested.
    pub fn new() -> (r: Self)
        ensures
            r@.address_bar.len() == 0,
            r@.current_content.len() == 0,
            r@.loading,
            !r@.page_loading,
            r@.error is None,
            r@.connection_status == CONNECTING_STATUS@,
            r@.server_address.len() == 0,
            r@.client_address.len() == 0,
            !r@.connected,
            r@.pending_request_id is None,
            r@.history.len() == 0,
            r@.pending_navigation is None,
    {
        let r = NymMixnetBrowser {
            address_bar: String::new(),
            current_content: String::new(),
            loading: true,
            page_loading: false,
            error: None,
            connection_status: String::from_str(CONNECTING_STATUS),
            server_address: String::new(),
            client_address: String::new(),
            connected: false,
            pending_request_id: None,
            history: Vec::new(),
            pending_navigation: None,
        };
        assert(r@.history.len() == 0);
        r
    }

    /// Records a report from the transport on the connection. Requests can be
    /// issued once a report says the connection is no longer loading.
    pub fn set_connection_status(&mut self, status: String, loading: bool, client_address: String)
        ensures
            final(self)@ == (BrowserView {
                connection_status: status@,
                loading,
                connected: !loading,
                client_address: if client_address@.len() == 0 {
                    old(self)@.client_address
                } else {
                    client_address@
                },
                ..old(self)@
            }),
    {
        self.connection_status = status;
        self.loading = loading;
        self.connected = !loading;
        if !client_address.as_str().is_empty() {
            self.client_address = client_address;
        }
    }

    /// Shows a reply's text, without a leading `OK\n`, and ends the page load.
    pub fn handle_server_message(&mut self, content: &str)
        ensures
            final(self)@ == shown(old(self)@, content@),
    {
        if starts_with(content, OK_PREFIX) {
            proof {
                reveal_strlit("OK\n");
            }
            self.current_content = suffix_from(content, 3);
        } else {
            self.current_content = String::from_str(content);
        }
        self.error = None;
        self.page_loading = false;
    }

    /// Issues a request for `request_path` under `id`, where `address_ok` is the
    /// transport's verdict on the trimmed server address: on success the request
    /// to send is returned and `id` replaces any request still outstanding.
    pub fn send_request_with_id(&mut self, request_path: &str, id: Vec<u8>, address_ok: bool) -> (r:
        Result<OutgoingRequest, String>)
        requires
            id@.len() == REQUEST_ID_LEN,
        ensures
            (result_view(r), final(self)@) == issue(old(self)@, request_path@, id@, address_ok),
    {
        let recipient = trim(self.server_address.as_str());
        if recipient.as_str().is_empty() {
            return Err(String::from_str(NO_SERVER_ERROR));
        }
        if !self.connected {
            return Err(String::from_str(NOT_CONNECTED_ERROR));
        }
        if !address_ok {
            return Err(String::from_str(INVALID_ADDRESS_ERROR));
        }
        if request_path.as_bytes().len() > 4294967295usize {
            return Err(String::from_str(PATH_TOO_LONG_ERROR));
        }
        let ask = Command::Ask { id: id.clone(), path: String::from_str(request_path) };
        let payload = encode(&ask);
        self.pending_request_id = Some(id.clone());
        Ok(OutgoingRequest { recipient, id, payload })
    }

    /// Asks `valid`, the transport's address check, about the trimmed server
    /// address.
    pub fn recipient_ok<F: Fn(String) -> bool>(&self, valid: &F) -> (r: bool)
        requires
            asks_anything(*valid),
        ensures
            judged(*valid, trimmed(self@.server_address), r),
    {
        let x = trim(self.server_address.as_str());
        let ghost g = x;
        let r = valid(x);
        assert(call_ensures(*valid, (g,), r));
        r
    }

    /// Issues a request for `request_path` under a fresh random id, with the
    /// server address checked by `valid` before anything is sent.
    pub fn send_request<F: Fn(String) -> bool>(&mut self, request_path: &str, valid: &F) -> (r:
        Result<OutgoingRequest, String>)
        requires
            asks_anything(*valid),
        ensures
            exists|id: Seq<u8>, ok: bool|
                id.len() == REQUEST_ID_LEN && judged(*valid, trimmed(old(self)@.server_address), ok)
                    && (result_view(r), final(self)@) == #[trigger] issue(
                    old(self)@,
                    request_path@,
                    id,
                    ok,
                ),
    {
        let ok = self.recipient_ok(valid);
        let id = fresh_request_id();
        let ghost g = id@;
        let r = self.send_request_with_id(request_path, id, ok);
        assert(g.len() == REQUEST_ID_LEN && (result_view(r), self@) == issue(
            old(self)@,
            request_path@,
            g,
            ok,
        ));
        r
    }

    /// Takes an inbound payload from the transport.
    pub fn on_payload(&mut self, payload: &Vec<u8>) -> (r: Delivery)
        ensures
            (r, final(self)@) == receive(old(self)@, payload@),
    {
        match decode(payload) {
            Err(DecodeError::UnknownTag) => Delivery::UnknownCommand,
            Err(DecodeError::Malformed) => Delivery::Malformed,
            Ok(Command::Ask { .. }) => Delivery::UnknownCommand,
            Ok(Command::Get { id, body }) => {
                let matches = match &self.pending_request_id {
                    Some(p) => bytes_equal(p, &id),
                    None => false,
                };
                if matches {
                    self.pending_request_id = None;
                    self.current_content = body;
                    self.error = None;
                    self.page_loading = false;
                    Delivery::Accepted
                } else {
                    Delivery::Unmatched
                }
            },
        }
    }
}

pub fn bytes_equal(a: &Vec<u8>, b: &Vec<u8>) -> (r: bool)
    ensures
        r == (a@ == b@),
{
    if a.len() != b.len() {
        return false;
    }
    let mut i: usize = 0;
    while i < a.len()
        invariant
            i <= a@.len(),
            a@.len() == b@.len(),
            a@.subrange(0, i as int) == b@.subrange(0, i as int),
        decreases a@.len() - i,
    {
        if a[i] != b[i] {
            assert(a@[i as int] != b@[i as int]);
            return false;
        }
        assert(a@.subrange(0, i + 1) =~= a@.subrange(0, i as int).push(a@[i as int]));
        assert(b@.subrange(0, i + 1) =~= b@.subrange(0, i as int).push(b@[i as int]));
        i = i + 1;
    }
    assert(a@.subrange(0, i as int) =~= a@);
    assert(b@.subrange(0, i as int) =~= b@);
    true
}

} // verus!

verus! {

/// A reply to any request other than the outstanding one changes nothing: the
/// content shown stays, and so does the outstanding request.
pub proof fn lemma_unmatched_reply_changes_nothing(
    s: BrowserView,
    a: Seq<u8>,
    b: Seq<u8>,
    body: Seq<char>,
)
    requires
        a != b,
        s.pending_request_id == Some(a),
        crate::codec::valid_command(CommandView::Get { id: b, body }),
    ensures
        receive(s, encoded(CommandView::Get { id: b, body })) == (Delivery::Unmatched, s),
{
    crate::codec::lemma_round_trip(CommandView::Get { id: b, body });
}

/// A reply is taken at most once: the same reply delivered again after it was
/// taken changes nothing.
pub proof fn lemma_reply_taken_once(s: BrowserView, payload: Seq<u8>)
    requires
        receive(s, payload).0 == Delivery::Accepted,
    ensures
        receive(receive(s, payload).1, payload) == (Delivery::Unmatched, receive(s, payload).1),
{
}

/// Of two requests issued one after the other, only the second stays
/// outstanding, whatever became of the first.
pub proof fn lemma_second_request_replaces_first(
    s: BrowserView,
    path1: Seq<char>,
    id1: Seq<u8>,
    ok1: bool,
    path2: Seq<char>,
    id2: Seq<u8>,
    ok2: bool,
)
    requires
        issue(issue(s, path1, id1, ok1).1, path2, id2, ok2).0 is Ok,
    ensures
        issue(issue(s, path1, id1, ok1).1, path2, id2, ok2).1.pending_request_id == Some(id2),
{
}

} // verus!

verus! {

pub open spec fn opt_out_view(o: Option<OutgoingRequest>) -> Option<OutgoingView> {
    match o {
        Some(r) => Some(r@),
        None => None,
    }
}

/// The state after reading `url` from the address bar: a locator sets the server
/// and the page, anything else is a page of the current server.
pub open spec fn url_set(s: BrowserView, url: Seq<char>) -> BrowserView {
    if has_scheme(url) {
        let split = split_server(url.subrange(NYM_SCHEME@.len() as int, url.len() as int));
        BrowserView { server_address: trimmed(split.0), address_bar: split.1, ..s }
    } else {
        BrowserView { address_bar: trimmed(url), ..s }
    }
}

/// Issuing a request for `path` under `id`, with a failure shown as the error and
/// ending the page load.
pub open spec fn send_or_fail(s: BrowserView, path: Seq<char>, id: Seq<u8>, address_ok: bool) -> (
    Option<OutgoingView>,
    BrowserView,
) {
    match issue(s, path, id, address_ok) {
        (Ok(o), t) => (Some(o), t),
        (Err(e), t) => (None, BrowserView { error: Some(e), page_loading: false, ..t }),
    }
}

/// The page path that `path` asks for: trimmed, without leading slashes.
pub open spec fn request_path(path: Seq<char>) -> Seq<char> {
    without_leading_slashes(trimmed(path))
}

/// `page`, or `index` when it is empty.
pub open spec fn or_index(page: Seq<char>) -> Seq<char> {
    if page.len() == 0 {
        index_key()
    } else {
        page
    }
}

/// Going to `path` on the current server: the current page goes onto the
/// history, and the address bar shows `path` once the request is issued.
pub open spec fn navigated(s: BrowserView, path: Seq<char>, id: Seq<u8>, address_ok: bool) -> (
    Option<OutgoingView>,
    BrowserView,
) {
    let s1 = BrowserView {
        history: s.history.push((s.server_address, s.address_bar)),
        page_loading: true,
        ..s
    };
    match issue(s1, request_path(path), id, address_ok) {
        (Ok(o), t) => (Some(o), BrowserView { address_bar: path, ..t }),
        (Err(e), t) => (None, BrowserView { error: Some(e), page_loading: false, ..t }),
    }
}

/// The state in which a navigation from the address bar issues its request.
pub open spec fn navigation_start(s: BrowserView) -> BrowserView {
    BrowserView { page_loading: true, ..url_set(s, s.address_bar) }
}

/// The page a navigation from the address bar asks for; an empty page is `index`.
pub open spec fn navigation_path(s: BrowserView) -> Seq<char> {
    or_index(url_set(s, s.address_bar).address_bar)
}

/// The state in which going back issues its request: the last history entry
/// taken off and made current.
pub open spec fn back_start(s: BrowserView) -> BrowserView {
    BrowserView {
        history: s.history.drop_last(),
        server_address: s.history.last().0,
        address_bar: s.history.last().1,
        page_loading: true,
        ..s
    }
}

/// The page that going back to `page` asks for again.
pub open spec fn back_path(page: Seq<char>) -> Seq<char> {
    or_index(request_path(page))
}

/// A `nym://` link that names a server of its own: it holds a dot or is long.
pub open spec fn full_address_link(href: Seq<char>) -> bool {
    has_scheme(href) && {
        let w = href.subrange(NYM_SCHEME@.len() as int, href.len() as int);
        w.contains('.') || encode_utf8(w).len() > SHORT_LINK_MAX
    }
}

/// A link to the web, which the browser does not follow.
pub open spec fn external_link(href: Seq<char>) -> bool {
    !has_scheme(href) && (is_prefix("http://"@, href) || is_prefix("https://"@, href))
}

/// The address that following `href` sends its request to.
pub open spec fn link_recipient(s: BrowserView, href: Seq<char>) -> Seq<char> {
    if full_address_link(href) {
        url_set(s, href).server_address
    } else {
        s.server_address
    }
}

/// Following the link `href`.
pub open spec fn link_followed(s: BrowserView, href: Seq<char>, id: Seq<u8>, address_ok: bool) -> (
    Option<OutgoingView>,
    BrowserView,
) {
    if has_scheme(href) {
        let w = href.subrange(NYM_SCHEME@.len() as int, href.len() as int);
        if full_address_link(href) {
            send_or_fail(
                BrowserView { page_loading: true, ..url_set(s, href) },
                or_index(split_server(w).1),
                id,
                address_ok,
            )
        } else {
            navigated(s, w, id, address_ok)
        }
    } else if external_link(href) {
        (None, BrowserView { error: Some(EXTERNAL_LINK_ERROR@), ..s })
    } else if is_prefix(seq!['/'], href) {
        navigated(s, href.subrange(1, href.len() as int), id, address_ok)
    } else {
        navigated(s, href, id, address_ok)
    }
}

pub fn contains_char(s: &str, c: char) -> (r: bool)
    ensures
        r == s@.contains(c),
{
    let n = s.unicode_len();
    let mut i: usize = 0;
    while i < n
        invariant
            i <= n,
            n == s@.len(),
            forall|j: int| 0 <= j < i ==> s@[j] != c,
        decreases n - i,
    {
        if s.get_char(i) == c {
            return true;
        }
        i = i + 1;
    }
    false
}

impl NymMixnetBrowser {
    /// Reads `url` as the address bar's new text.
    pub fn parse_and_set_url(&mut self, url: &str)
        ensures
            final(self)@ == url_set(old(self)@, url@),
    {
        proof {
            reveal_strlit("nym://");
        }
        match parse_nym_url(url) {
            Some((server, page)) => {
                self.server_address = trim(server.as_str());
                self.address_bar = page;
            },
            None => {
                self.address_bar = trim(url);
            },
        }
    }

    /// Issues a request for `path`, with the server address checked by `valid`;
    /// a failure becomes the shown error and ends the page load.
    pub fn request_or_report<F: Fn(String) -> bool>(&mut self, path: &str, valid: &F) -> (r: Option<
        OutgoingRequest,
    >)
        requires
            asks_anything(*valid),
        ensures
            exists|id: Seq<u8>, ok: bool|
                id.len() == REQUEST_ID_LEN && judged(*valid, trimmed(old(self)@.server_address), ok)
                    && (opt_out_view(r), final(self)@) == #[trigger] send_or_fail(
                    old(self)@,
                    path@,
                    id,
                    ok,
                ),
    {
        let ok = self.recipient_ok(valid);
        let id = fresh_request_id();
        let ghost g = id@;
        let r = match self.send_request_with_id(path, id, ok) {
            Ok(o) => Some(o),
            Err(e) => {
                self.error = Some(e);
                self.page_loading = false;
                None
            },
        };
        assert(g.len() == REQUEST_ID_LEN && (opt_out_view(r), self@) == send_or_fail(
            old(self)@,
            path@,
            g,
            ok,
        ));
        r
    }

    /// Goes to what the address bar holds; an empty page means `index`.
    pub fn handle_navigation<F: Fn(String) -> bool>(&mut self, valid: &F) -> (r: Option<
        OutgoingRequest,
    >)
        requires
            asks_anything(*valid),
        ensures
            exists|id: Seq<u8>, ok: bool|
                id.len() == REQUEST_ID_LEN && judged(
                    *valid,
                    trimmed(navigation_start(old(self)@).server_address),
                    ok,
                ) && (opt_out_view(r), final(self)@) == #[trigger] send_or_fail(
                    navigation_start(old(self)@),
                    navigation_path(old(self)@),
                    id,
                    ok,
                ),
    {
        let address = self.address_bar.clone();
        self.parse_and_set_url(address.as_str());
        self.page_loading = true;
        let path = if self.address_bar.as_str().is_empty() {
            String::from_str("index")
        } else {
            self.address_bar.clone()
        };
        proof {
            reveal_strlit("index");
            assert("index"@ =~= index_key());
        }
        assert(self@ == navigation_start(old(self)@));
        assert(path@ == navigation_path(old(self)@));
        self.request_or_report(path.as_str(), valid)
    }

    /// Goes to `path` on the current server, keeping the current page in the
    /// history.
    pub fn navigate_to<F: Fn(String) -> bool>(&mut self, path: &str, valid: &F) -> (r: Option<
        OutgoingRequest,
    >)
        requires
            asks_anything(*valid),
        ensures
            exists|id: Seq<u8>, ok: bool|
                id.len() == REQUEST_ID_LEN && judged(*valid, trimmed(old(self)@.server_address), ok)
                    && (opt_out_view(r), final(self)@) == #[trigger] navigated(
                    old(self)@,
                    path@,
                    id,
                    ok,
                ),
    {
        let ok = self.recipient_ok(valid);
        let entry = HistoryEntry {
            server: self.server_address.clone(),
            page: self.address_bar.clone(),
        };
        self.history.push(entry);
        self.page_loading = true;
        assert(self@.history =~= old(self)@.history.push(
            (old(self)@.server_address, old(self)@.address_bar),
        ));
        let trimmed_path = trim(path);
        let asked = strip_leading_slashes(trimmed_path.as_str());
        let id = fresh_request_id();
        let ghost g = id@;
        let r = match self.send_request_with_id(asked.as_str(), id, ok) {
            Ok(o) => {
                self.address_bar = String::from_str(path);
                Some(o)
            },
            Err(e) => {
                self.error = Some(e);
                self.page_loading = false;
                None
            },
        };
        assert(g.len() == REQUEST_ID_LEN && (opt_out_view(r), self@) == navigated(
            old(self)@,
            path@,
            g,
            ok,
        ));
        r
    }

    /// Goes back to the page before the current one, if there is one, and asks
    /// for it again.
    pub fn go_back<F: Fn(String) -> bool>(&mut self, valid: &F) -> (r: Option<OutgoingRequest>)
        requires
            asks_anything(*valid),
        ensures
            old(self)@.history.len() <= 1 ==> r is None && final(self)@ == old(self)@,
            old(self)@.history.len() > 1 ==> exists|id: Seq<u8>, ok: bool|
                id.len() == REQUEST_ID_LEN && judged(
                    *valid,
                    trimmed(back_start(old(self)@).server_address),
                    ok,
                ) && (opt_out_view(r), final(self)@) == #[trigger] send_or_fail(
                    back_start(old(self)@),
                    back_path(old(self)@.history.last().1),
                    id,
                    ok,
                ),
    {
        if self.history.len() <= 1 {
            return None;
        }
        let prev = self.history.pop().unwrap();
        self.server_address = prev.server;
        self.address_bar = prev.page;
        self.page_loading = true;
        proof {
            assert(self@.history =~= old(self)@.history.drop_last());
            reveal_strlit("index");
            assert("index"@ =~= index_key());
        }
        let trimmed_page = trim(self.address_bar.as_str());
        let asked = strip_leading_slashes(trimmed_page.as_str());
        let path = if asked.as_str().is_empty() {
            String::from_str("index")
        } else {
            asked
        };
        assert(self@ == back_start(old(self)@));
        assert(path@ == back_path(old(self)@.history.last().1));
        self.request_or_report(path.as_str(), valid)
    }

    /// Follows a link of a page, with the address it leads to checked by `valid`.
    pub fn handle_link_click<F: Fn(String) -> bool>(&mut self, href: &str, valid: &F) -> (r: Option<
        OutgoingRequest,
    >)
        requires
            asks_anything(*valid),
        ensures
            exists|id: Seq<u8>, ok: bool|
                id.len() == REQUEST_ID_LEN && (!external_link(href@) ==> judged(
                    *valid,
                    trimmed(link_recipient(old(self)@, href@)),
                    ok,
                )) && (opt_out_view(r), final(self)@) == #[trigger] link_followed(
                    old(self)@,
                    href@,
                    id,
                    ok,
                ),
    {
        proof {
            reveal_strlit("nym://");
            reveal_strlit("/");
            reveal_strlit("index");
            assert("/"@ =~= seq!['/']);
            assert("index"@ =~= index_key());
        }
        if starts_with(href, NYM_SCHEME) {
            let without = suffix_from(href, 6);
            if contains_char(without.as_str(), '.') || without.as_str().as_bytes().len()
                > SHORT_LINK_MAX {
                self.parse_and_set_url(href);
                self.page_loading = true;
                let page = match parse_nym_url(href) {
                    Some((_, page)) => page,
                    None => String::new(),
                };
                let path = if page.as_str().is_empty() {
                    String::from_str("index")
                } else {
                    page
                };
                let ghost w = href@.subrange(6, href@.len() as int);
                assert(path@ == or_index(split_server(w).1));
                let ghost start = self@;
                assert(start == (BrowserView { page_loading: true, ..url_set(old(self)@, href@) }));
                let r = self.request_or_report(path.as_str(), valid);
                proof {
                    let (id, ok) = choose|id: Seq<u8>, ok: bool|
                        id.len() == REQUEST_ID_LEN && judged(
                            *valid,
                            trimmed(start.server_address),
                            ok,
                        ) && (opt_out_view(r), self@) == #[trigger] send_or_fail(
                            start,
                            path@,
                            id,
                            ok,
                        );
                    assert((opt_out_view(r), self@) == link_followed(old(self)@, href@, id, ok));
                }
                r
            } else {
                let r = self.navigate_to(without.as_str(), valid);
                proof {
                    let (id, ok) = choose|id: Seq<u8>, ok: bool|
                        id.len() == REQUEST_ID_LEN && judged(
                            *valid,
                            trimmed(old(self)@.server_address),
                            ok,
                        ) && (opt_out_view(r), self@) == #[trigger] navigated(
                            old(self)@,
                            without@,
                            id,
                            ok,
                        );
                    assert((opt_out_view(r), self@) == link_followed(old(self)@, href@, id, ok));
                }
                r
            }
        } else if starts_with(href, "http://") || starts_with(href, "https://") {
            self.error = Some(String::from_str(EXTERNAL_LINK_ERROR));
            let ghost w = Seq::new(16, |i: int| 0u8);
            assert(w.len() == REQUEST_ID_LEN && (opt_out_view(None), self@) == link_followed(
                old(self)@,
                href@,
                w,
                true,
            ));
            None
        } else if starts_with(href, "/") {
            let rest = suffix_from(href, 1);
            let r = self.navigate_to(rest.as_str(), valid);
            proof {
                let (id, ok) = choose|id: Seq<u8>, ok: bool|
                    id.len() == REQUEST_ID_LEN && judged(
                        *valid,
                        trimmed(old(self)@.server_address),
                        ok,
                    ) && (opt_out_view(r), self@) == #[trigger] navigated(
                        old(self)@,
                        rest@,
                        id,
                        ok,
                    );
                assert((opt_out_view(r), self@) == link_followed(old(self)@, href@, id, ok));
            }
            r
        } else {
            let r = self.navigate_to(href, valid);
            proof {
                let (id, ok) = choose|id: Seq<u8>, ok: bool|
                    id.len() == REQUEST_ID_LEN && judged(
                        *valid,
                        trimmed(old(self)@.server_address),
                        ok,
                    ) && (opt_out_view(r), self@) == #[trigger] navigated(
                        old(self)@,
                        href@,
                        id,
                        ok,
                    );
                assert((opt_out_view(r), self@) == link_followed(old(self)@, href@, id, ok));
            }
            r
        }
    }
}

} // verus!

verus! {

pub const SEND_FAILED_ERROR: &'static str = "ERROR: Failed to send (mixnet down?)";

/// What the transport made of a request handed to it.
#[derive(Debug, Clone, Copy, PartialEq, Eq, Structural)]
pub enum SendOutcome {
    /// The request went out.
    Sent,
    /// The transport could not send the request.
    Failed,
}

/// An event for the browser from the loop that runs the transport.
#[derive(Debug)]
pub enum BrowserEvent {
    /// A text to show, from the transport loop.
    Received { content: String, from: String },
    /// A report on the connection.
    ConnectionStatus { status: String, loading: bool, client_address: String },
}

/// The state with the link left to be followed taken away.
pub open spec fn navigation_taken(s: BrowserView) -> BrowserView {
    BrowserView { pending_navigation: None, ..s }
}

impl NymMixnetBrowser {
    /// Takes what the transport made of a request: a failure is shown in place of
    /// the page, and is not retried.
    pub fn on_send_outcome(&mut self, outcome: SendOutcome)
        ensures
            outcome == SendOutcome::Sent ==> final(self)@ == old(self)@,
            outcome == SendOutcome::Failed ==> final(self)@ == shown(old(self)@, SEND_FAILED_ERROR@),
    {
        match outcome {
            SendOutcome::Sent => {},
            SendOutcome::Failed => self.handle_server_message(SEND_FAILED_ERROR),
        }
    }

    /// Takes an event from the transport loop.
    pub fn handle_event(&mut self, event: BrowserEvent)
        ensures
            match event {
                BrowserEvent::Received { content, from } => final(self)@ == shown(
                    old(self)@,
                    content@,
                ),
                BrowserEvent::ConnectionStatus { status, loading, client_address } => final(self)@
                    == (BrowserView {
                    connection_status: status@,
                    loading,
                    connected: !loading,
                    client_address: if client_address@.len() == 0 {
                        old(self)@.client_address
                    } else {
                        client_address@
                    },
                    ..old(self)@
                }),
            },
    {
        match event {
            BrowserEvent::Received { content, from } => self.handle_server_message(content.as_str()),
            BrowserEvent::ConnectionStatus { status, loading, client_address } => {
                self.set_connection_status(status, loading, client_address)
            },
        }
    }

    /// The address bar can be followed: the connection is up and the bar is not
    /// blank.
    pub fn can_navigate(&self) -> (r: bool)
        ensures
            r == (!self.loading && trimmed(self.address_bar@).len() > 0),
    {
        if self.loading {
            return false;
        }
        let t = trim(self.address_bar.as_str());
        !t.as_str().is_empty()
    }

    /// Follows the link that a click left to be followed, if any.
    pub fn take_pending_navigation<F: Fn(String) -> bool>(&mut self, valid: &F) -> (r: Option<
        OutgoingRequest,
    >)
        requires
            asks_anything(*valid),
        ensures
            old(self)@.pending_navigation is None ==> r is None && final(self)@ == old(self)@,
            old(self)@.pending_navigation is Some ==> exists|id: Seq<u8>, ok: bool|
                id.len() == REQUEST_ID_LEN && (!external_link(old(self)@.pending_navigation->0)
                    ==> judged(
                    *valid,
                    trimmed(
                        link_recipient(navigation_taken(old(self)@), old(self)@.pending_navigation->0),
                    ),
                    ok,
                )) && (opt_out_view(r), final(self)@) == #[trigger] link_followed(
                    navigation_taken(old(self)@),
                    old(self)@.pending_navigation->0,
                    id,
                    ok,
                ),
    {
        match self.pending_navigation.take() {
            None => None,
            Some(href) => {
                let ghost start = self@;
                assert(start == navigation_taken(old(self)@));
                assert(href@ == old(self)@.pending_navigation->0);
                self.handle_link_click(href.as_str(), valid)
            },
        }
    }
}

} // verus!

verus! {

impl NymMixnetBrowser {
    /// The current page's text as it is rendered: its `nym://` links shown as
    /// plain text.
    pub fn rendered_content(&self) -> (r: String)
        ensures
            r@ == links_replaced(
                self.current_content@,
                collected_links(self.current_content@, 0, Seq::empty()),
            ),
    {
        replace_nym_links(self.current_content.as_str())
    }

    /// A click on the page's text: its first `nym://` link, if it has one, is
    /// left to be followed.
    pub fn on_content_click(&mut self)
        ensures
            collected_links(old(self)@.current_content, 0, Seq::empty()).len() == 0 ==> final(self)@
                == old(self)@,
            collected_links(old(self)@.current_content, 0, Seq::empty()).len() > 0 ==> final(self)@
                == (BrowserView {
                pending_navigation: Some(
                    collected_links(old(self)@.current_content, 0, Seq::empty())[0],
                ),
                ..old(self)@
            }),
    {
        let links = extract_nym_links(self.current_content.as_str());
        if links.len() > 0 {
            proof {
                assert(crate::links::texts(links@)[0] == links@[0]@);
            }
            self.pending_navigation = Some(links[0].clone());
        }
    }
}

} // verus!

verus! {

/// The reply to the outstanding request is taken, and its body is shown whole.
pub proof fn lemma_matching_reply_shown(s: BrowserView, id: Seq<u8>, body: Seq<char>)
    requires
        s.pending_request_id == Some(id),
        crate::codec::valid_command(CommandView::Get { id, body }),
    ensures
        receive(s, encoded(CommandView::Get { id, body })) == (
            Delivery::Accepted,
            displayed(BrowserView { pending_request_id: None, ..s }, body),
        ),
{
    crate::codec::lemma_round_trip(CommandView::Get { id, body });
}

} // verus!
