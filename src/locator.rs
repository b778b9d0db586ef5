//! Locators of the form `nym://<recipient>[/<path>]`.
use vstd::prelude::*;
use vstd::string::*;

verus! {

/// The scheme prefix of a locator.
pub const NYM_SCHEME: &'static str = "nym://";

/// `s` holds no `/`.
pub open spec fn no_slash(s: Seq<char>) -> bool {
    forall|i: int| 0 <= i < s.len() ==> s[i] != '/'
}

/// `rest` splits at its first `/` into `server` and `page`; with no `/`, the whole
/// of `rest` is the server and the page is empty.
pub open spec fn splits_at_first_slash(rest: Seq<char>, server: Seq<char>, page: Seq<char>) -> bool {
    &&& no_slash(server)
    &&& (rest == server && page.len() == 0 && no_slash(rest)) || rest == server + seq!['/'] + page
}

/// `rest` split at its first `/`: what comes before it, and what comes after it
/// (empty when there is no `/`).
pub open spec fn split_server(rest: Seq<char>) -> (Seq<char>, Seq<char>)
    decreases rest.len(),
{
    if rest.len() == 0 {
        (Seq::empty(), Seq::empty())
    } else if rest[0] == '/' {
        (Seq::empty(), rest.drop_first())
    } else {
        let (a, b) = split_server(rest.drop_first());
        (seq![rest[0]] + a, b)
    }
}

proof fn lemma_split_server(rest: Seq<char>, server: Seq<char>, page: Seq<char>)
    requires
        splits_at_first_slash(rest, server, page),
    ensures
        split_server(rest) == (server, page),
    decreases server.len(),
{
    if server.len() == 0 {
        if rest == server {
        } else {
            assert(rest.drop_first() =~= page);
        }
    } else {
        let tail = server.drop_first();
        if rest == server && page.len() == 0 && no_slash(rest) {
            assert(rest.drop_first() =~= tail);
            lemma_split_server(rest.drop_first(), tail, page);
        } else {
            assert(rest.drop_first() =~= tail + seq!['/'] + page);
            lemma_split_server(rest.drop_first(), tail, page);
        }
        assert(seq![rest[0]] + tail =~= server);
    }
}

/// `url` begins with the scheme prefix.
pub open spec fn has_scheme(url: Seq<char>) -> bool {
    url.len() >= NYM_SCHEME@.len() && url.subrange(0, NYM_SCHEME@.len() as int) == NYM_SCHEME@
}

pub fn starts_with_scheme(url: &str) -> (r: bool)
    ensures
        r == has_scheme(url@),
{
    proof {
        reveal_strlit("nym://");
    }
    let n = url.unicode_len();
    if n < 6 {
        return false;
    }
    let prefix = url.substring_char(0, 6);
    let p = String::from_str(prefix);
    let q = String::from_str(NYM_SCHEME);
    p == q
}

/// Splits a locator into its recipient and its page path; `None` when `url` does
/// not begin with `nym://`.
pub fn parse_nym_url(url: &str) -> (r: Option<(String, String)>)
    ensures
        r is Some <==> has_scheme(url@),
        match r {
            Some((server, page)) => splits_at_first_slash(
                url@.subrange(NYM_SCHEME@.len() as int, url@.len() as int),
                server@,
                page@,
            ) && (server@, page@) == split_server(
                url@.subrange(NYM_SCHEME@.len() as int, url@.len() as int),
            ),
            None => true,
        },
{
    if !starts_with_scheme(url) {
        return None;
    }
    proof {
        reveal_strlit("nym://");
    }
    let n = url.unicode_len();
    let rest = url.substring_char(6, n);
    let m = rest.unicode_len();
    let mut i: usize = 0;
    while i < m
        invariant
            i <= m,
            m == rest@.len(),
            has_scheme(url@),
            NYM_SCHEME@.len() == 6,
            rest@ == url@.subrange(6, url@.len() as int),
            no_slash(rest@.subrange(0, i as int)),
        decreases m - i,
    {
        if rest.get_char(i) == '/' {
            let server = String::from_str(rest.substring_char(0, i));
            let page = String::from_str(rest.substring_char(i + 1, m));
            assert(rest@ =~= server@ + seq!['/'] + page@);
            proof {
                lemma_split_server(rest@, server@, page@);
            }
            return Some((server, page));
        }
        i = i + 1;
        assert(rest@.subrange(0, i as int) =~= rest@.subrange(0, i - 1) + seq![rest@[i - 1]]);
    }
    assert(rest@.subrange(0, m as int) =~= rest@);
    let server = String::from_str(rest);
    let page = String::new();
    proof {
        lemma_split_server(rest@, server@, page@);
    }
    Some((server, page))
}

} // verus!
