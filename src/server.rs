//! The server side: the page cache it serves from, and what it does with each
//! message that arrives.
use vstd::prelude::*;
use vstd::string::*;
use vstd::utf8::encode_utf8;
use crate::cache::{files_view, joined_keys, loaded_page, PageCache, SourceFile};
use crate::codec::{decode, decoded, encode, encoded, fits_field, Command, CommandView, DecodeError};
use crate::default_page::{default_404, NOT_FOUND_PAGE};

verus! {

/// Why the server sent nothing back for a message.
#[derive(Debug, Clone, Copy, PartialEq, Eq, Structural)]
pub enum Dropped {
    /// The payload does not decode.
    Malformed,
    /// The payload holds a command the server does not serve.
    UnknownCommand,
    /// The page is too large for the length field of a reply.
    ReplyTooLarge,
}

/// What the server does with one inbound message.
#[derive(Debug)]
pub enum ServerAction {
    /// Send this payload back to the sender.
    Reply(Vec<u8>),
    /// Send nothing.
    Drop(Dropped),
}

/// A page server: its content directory, its own address, and the cache it
/// serves from.
pub struct NymMixnetServer {
    pub sites_dir: String,
    pub nym_address: String,
    pub cache: PageCache,
}

impl NymMixnetServer {
    /// The live cache stores each page name once.
    pub open spec fn wf(&self) -> bool {
        self.cache.wf()
    }

    /// The body of page `k` in the live cache.
    pub open spec fn page(&self, k: Seq<char>) -> Option<Seq<char>> {
        self.cache.page(k)
    }

    /// What a request for `path` is answered with: the page, or the built-in
    /// "not found" page.
    pub open spec fn reply_body(&self, path: Seq<char>) -> Seq<char> {
        match self.page(path) {
            Some(b) => b,
            None => NOT_FOUND_PAGE@,
        }
    }

    /// The server's answer to a payload: `Some` payload to send back, or `None`.
    pub open spec fn answer(&self, payload: Seq<u8>) -> Option<Seq<u8>> {
        match decoded(payload) {
            Ok(CommandView::Ask { id, path }) => if fits_field(self.reply_body(path)) {
                Some(encoded(CommandView::Get { id, body: self.reply_body(path) }))
            } else {
                None
            },
            _ => None,
        }
    }

    /// A server for `sites_dir`, reachable at `nym_address`, whose cache is
    /// loaded from the files of that directory.
    pub fn new(sites_dir: String, nym_address: String, files: &Vec<SourceFile>) -> (r: Self)
        ensures
            r.wf(),
            r.sites_dir@ == sites_dir@,
            r.nym_address@ == nym_address@,
            forall|k: Seq<char>| #[trigger] r.page(k) == loaded_page(files_view(files@), k),
    {
        NymMixnetServer { sites_dir, nym_address, cache: PageCache::load(files) }
    }

    pub fn get_nym_address(&self) -> (r: &str)
        ensures
            r@ == self.nym_address@,
    {
        self.nym_address.as_str()
    }

    /// The page at `path`, or the built-in "not found" page.
    pub fn page_or_404(&self, path: &str) -> (r: String)
        ensures
            r@ == self.reply_body(path@),
    {
        match self.cache.get(path) {
            Some(b) => b,
            None => String::from_str(default_404()),
        }
    }

    /// Handles one inbound message: an `ASK` is always answered with a `GET` of
    /// the same request id carrying the page, or the "not found" page on a miss;
    /// anything else is dropped, with the reason.
    pub fn handle_message(&self, payload: &Vec<u8>) -> (r: ServerAction)
        ensures
            match r {
                ServerAction::Reply(out) => self.answer(payload@) == Some(out@),
                ServerAction::Drop(why) => self.answer(payload@) is None && match decoded(payload@) {
                    Ok(CommandView::Ask { id, path }) => why == Dropped::ReplyTooLarge,
                    Ok(CommandView::Get { id, body }) => why == Dropped::UnknownCommand,
                    Err(DecodeError::UnknownTag) => why == Dropped::UnknownCommand,
                    Err(DecodeError::Malformed) => why == Dropped::Malformed,
                },
            },
    {
        match decode(payload) {
            Err(DecodeError::UnknownTag) => ServerAction::Drop(Dropped::UnknownCommand),
            Err(DecodeError::Malformed) => ServerAction::Drop(Dropped::Malformed),
            Ok(Command::Get { .. }) => ServerAction::Drop(Dropped::UnknownCommand),
            Ok(Command::Ask { id, path }) => {
                let body = self.page_or_404(path.as_str());
                let text = body.as_str();
                let n = text.as_bytes().len();
                assert(n == encode_utf8(body@).len());
                if n > 4294967295usize {
                    return ServerAction::Drop(Dropped::ReplyTooLarge);
                }
                assert(id@.len() == crate::codec::REQUEST_ID_LEN);
                assert(encode_utf8(body@).len() <= u32::MAX);
                let reply = Command::Get { id, body };
                ServerAction::Reply(encode(&reply))
            },
        }
    }

    /// Puts `cache` in the place of the live cache, whole.
    pub fn install_cache(&mut self, cache: PageCache)
        requires
            cache.wf(),
        ensures
            final(self).wf(),
            forall|k: Seq<char>| #[trigger] final(self).page(k) == cache.page(k),
            final(self).sites_dir == old(self).sites_dir,
            final(self).nym_address == old(self).nym_address,
    {
        self.cache = cache;
    }

    /// The reply to a listing request: `OK`, a line break, and the names of the
    /// cached pages separated by commas, each once.
    pub fn list_pages(&self) -> (r: String)
        requires
            self.wf(),
        ensures
            r@ == "OK\n"@ + joined_keys(self.cache.keys()),
            self.cache.keys().no_duplicates(),
            forall|k: Seq<char>| self.page(k) is Some <==> self.cache.keys().contains(k),
    {
        self.cache.list_pages()
    }

    /// Replaces the whole cache with one loaded from `files`. The new cache is
    /// built before it takes the place of the old one, and no page of the old one
    /// survives.
    pub fn reload_cache(&mut self, files: &Vec<SourceFile>) -> (r: String)
        ensures
            final(self).wf(),
            forall|k: Seq<char>| #[trigger] final(self).page(k) == loaded_page(files_view(files@), k),
            final(self).sites_dir == old(self).sites_dir,
            final(self).nym_address == old(self).nym_address,
            r@ == "OK\nCache reloaded"@,
    {
        let fresh = PageCache::load(files);
        self.cache = fresh;
        String::from_str("OK\nCache reloaded")
    }
}

/// A request for a page the cache does not hold is answered, with the built-in
/// "not found" page under the request's id.
pub proof fn lemma_miss_answers_not_found(server: NymMixnetServer, id: Seq<u8>, path: Seq<char>)
    requires
        server.page(path) is None,
        crate::codec::valid_command(CommandView::Ask { id, path }),
    ensures
        server.answer(encoded(CommandView::Ask { id, path })) == Some(
            encoded(CommandView::Get { id, body: NOT_FOUND_PAGE@ }),
        ),
{
    crate::codec::lemma_round_trip(CommandView::Ask { id, path });
    crate::default_page::lemma_default_pages_fit();
}

} // verus!

verus! {

/// Every well-formed request is answered under its own id, with the page or the
/// "not found" page, when that page fits in a reply.
pub proof fn lemma_ask_answered(server: NymMixnetServer, id: Seq<u8>, path: Seq<char>)
    requires
        crate::codec::valid_command(CommandView::Ask { id, path }),
        fits_field(server.reply_body(path)),
    ensures
        server.answer(encoded(CommandView::Ask { id, path })) == Some(
            encoded(CommandView::Get { id, body: server.reply_body(path) }),
        ),
{
    crate::codec::lemma_round_trip(CommandView::Ask { id, path });
}

} // verus!
