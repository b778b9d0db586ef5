//! Finding `nym://` links in a page's text, and turning them into plain text.
use vstd::prelude::*;
use vstd::string::*;
use crate::text::{chars_of, unicode_white_space};

verus! {

/// A character that ends a link.
pub open spec fn link_stop(c: char) -> bool {
    unicode_white_space(c) || c == ')' || c == ']' || c == '>' || c == '"' || c == '\''
}

pub open spec fn nym_pattern() -> Seq<char> {
    seq!['n', 'y', 'm', ':', '/', '/']
}

/// `p` occurs in `s` at `i`.
pub open spec fn occurs_at(s: Seq<char>, i: int, p: Seq<char>) -> bool {
    0 <= i && i + p.len() <= s.len() && s.subrange(i, i + p.len()) == p
}

/// The first place at or after `pos` where `p` occurs in `s`.
pub open spec fn find_from(s: Seq<char>, pos: int, p: Seq<char>) -> Option<int>
    decreases s.len() + 1 - pos,
{
    if pos < 0 || pos + p.len() > s.len() {
        None
    } else if occurs_at(s, pos, p) {
        Some(pos)
    } else {
        find_from(s, pos + 1, p)
    }
}

/// Where the link that starts at `i` ends: the first stop character, or the end.
pub open spec fn link_end(s: Seq<char>, i: int) -> int
    decreases s.len() - i,
{
    if i >= s.len() || i < 0 {
        s.len() as int
    } else if link_stop(s[i]) {
        i
    } else {
        link_end(s, i + 1)
    }
}

/// The links of `s` from `pos` on, each new one added to `acc` in the order
/// they first appear.
pub open spec fn collected_links(s: Seq<char>, pos: int, acc: Seq<Seq<char>>) -> Seq<Seq<char>>
    decreases s.len() + 1 - pos,
{
    match find_from(s, pos, nym_pattern()) {
        None => acc,
        Some(st) => {
            let e = link_end(s, st);
            let link = s.subrange(st, e);
            let acc2 = if link.len() > 0 && !acc.contains(link) {
                acc.push(link)
            } else {
                acc
            };
            if e >= s.len() || e <= pos || pos < 0 {
                acc2
            } else {
                collected_links(s, e, acc2)
            }
        },
    }
}

/// `s` with each occurrence of `from`, left to right and without overlap,
/// replaced by `to`.
pub open spec fn replaced(s: Seq<char>, from: Seq<char>, to: Seq<char>) -> Seq<char>
    decreases s.len(),
{
    if from.len() == 0 || s.len() < from.len() {
        s
    } else if s.subrange(0, from.len() as int) == from {
        to + replaced(s.subrange(from.len() as int, s.len() as int), from, to)
    } else {
        seq![s[0]] + replaced(s.drop_first(), from, to)
    }
}

/// `s` with each of `links` in turn replaced by its text without `nym://`.
pub open spec fn links_replaced(s: Seq<char>, links: Seq<Seq<char>>) -> Seq<char>
    decreases links.len(),
{
    if links.len() == 0 {
        s
    } else {
        replaced(
            links_replaced(s, links.drop_last()),
            links.last(),
            replaced(links.last(), nym_pattern(), Seq::empty()),
        )
    }
}

pub open spec fn texts(v: Seq<String>) -> Seq<Seq<char>> {
    v.map_values(|s: String| s@)
}

/// `c` has the Unicode `White_Space` property.
pub fn is_whitespace(c: char) -> (r: bool)
    ensures
        r == unicode_white_space(c),
{
    let u = c as u32;
    (0x09 <= u && u <= 0x0d) || u == 0x20 || u == 0x85 || u == 0xa0 || u == 0x1680 || (0x2000 <= u
        && u <= 0x200a) || u == 0x2028 || u == 0x2029 || u == 0x202f || u == 0x205f || u == 0x3000
}

/// Relies on `str::replace`: every match of `from`, left to right and without
/// overlap, is replaced by `to`.
#[verifier::external_body]
fn replace_all(s: &str, from: &str, to: &str) -> (r: String)
    requires
        from@.len() > 0,
    ensures
        r@ == replaced(s@, from@, to@),
{
    s.replace(from, to)
}

fn is_link_stop(c: char) -> (r: bool)
    ensures
        r == link_stop(c),
{
    is_whitespace(c) || c == ')' || c == ']' || c == '>' || c == '"' || c == '\''
}

fn occurs_at_exec(s: &Vec<char>, i: usize, p: &Vec<char>) -> (r: bool)
    requires
        i + p@.len() <= s@.len(),
    ensures
        r == occurs_at(s@, i as int, p@),
{
    let n = s.len();
    let mut k: usize = 0;
    while k < p.len()
        invariant
            n == s@.len(),
            k <= p@.len(),
            i + p@.len() <= s@.len(),
            s@.subrange(i as int, i + k) == p@.subrange(0, k as int),
        decreases p@.len() - k,
    {
        if s[i + k] != p[k] {
            assert(s@.subrange(i as int, i + p@.len())[k as int] != p@[k as int]);
            return false;
        }
        assert(s@.subrange(i as int, i + k + 1) =~= s@.subrange(i as int, i + k).push(s@[i + k]));
        assert(p@.subrange(0, k + 1) =~= p@.subrange(0, k as int).push(p@[k as int]));
        k = k + 1;
    }
    assert(p@.subrange(0, p@.len() as int) =~= p@);
    true
}

proof fn lemma_find_from_bounds(s: Seq<char>, pos: int, p: Seq<char>)
    ensures
        find_from(s, pos, p) matches Some(st) ==> pos <= st && st + p.len() <= s.len() && occurs_at(
            s,
            st,
            p,
        ),
    decreases s.len() + 1 - pos,
{
    if pos < 0 || pos + p.len() > s.len() {
    } else if occurs_at(s, pos, p) {
    } else {
        lemma_find_from_bounds(s, pos + 1, p);
    }
}

fn find_link_start(s: &Vec<char>, pos: usize, p: &Vec<char>) -> (r: Option<usize>)
    requires
        p@ == nym_pattern(),
    ensures
        match find_from(s@, pos as int, nym_pattern()) {
            None => r is None,
            Some(st) => r == Some(st as usize) && pos <= st && st + nym_pattern().len() <= s@.len(),
        },
{
    proof {
        lemma_find_from_bounds(s@, pos as int, p@);
    }
    let mut i: usize = pos;
    while i <= s.len() && s.len() - i >= p.len()
        invariant
            pos <= i,
            p@ == nym_pattern(),
            find_from(s@, pos as int, p@) == find_from(s@, i as int, p@),
            forall|j: int| pos <= j <= i ==> find_from(s@, j, p@) == find_from(s@, i as int, p@),
        decreases s@.len() + 1 - i,
    {
        if occurs_at_exec(s, i, p) {
            return Some(i);
        }
        i = i + 1;
    }
    None
}

fn find_link_end(s: &Vec<char>, start: usize) -> (r: usize)
    requires
        start <= s@.len(),
    ensures
        r == link_end(s@, start as int),
        start <= r <= s@.len(),
{
    let mut i: usize = start;
    while i < s.len() && !is_link_stop(s[i])
        invariant
            start <= i <= s@.len(),
            link_end(s@, start as int) == link_end(s@, i as int),
        decreases s@.len() - i,
    {
        i = i + 1;
    }
    i
}

fn holds_text(v: &Vec<String>, t: &String) -> (r: bool)
    ensures
        r == texts(v@).contains(t@),
{
    let mut i: usize = 0;
    while i < v.len()
        invariant
            i <= v@.len(),
            forall|j: int| 0 <= j < i ==> v@[j]@ != t@,
        decreases v@.len() - i,
    {
        if v[i] == *t {
            assert(texts(v@)[i as int] == t@);
            return true;
        }
        i = i + 1;
    }
    assert forall|j: int| 0 <= j < texts(v@).len() implies texts(v@)[j] != t@ by {
        assert(texts(v@)[j] == v@[j]@);
    }
    false
}

/// The distinct `nym://` links of a page, in the order they first appear. A link
/// runs up to white space, a closing bracket or a quote.
pub fn extract_nym_links(content: &str) -> (r: Vec<String>)
    ensures
        texts(r@) == collected_links(content@, 0, Seq::empty()),
        forall|j: int| 0 <= j < r@.len() ==> (#[trigger] r@[j])@.len() > 0,
{
    let cs = chars_of(content);
    let pattern: Vec<char> = vec!['n', 'y', 'm', ':', '/', '/'];
    assert(pattern@ =~= nym_pattern());
    let mut links: Vec<String> = Vec::new();
    assert(texts(links@) =~= Seq::<Seq<char>>::empty());
    let mut pos: usize = 0;
    loop
        invariant
            pos <= cs@.len(),
            cs@ == content@,
            pattern@ == nym_pattern(),
            forall|j: int| 0 <= j < links@.len() ==> (#[trigger] links@[j])@.len() > 0,
            collected_links(content@, 0, Seq::empty()) == collected_links(
                content@,
                pos as int,
                texts(links@),
            ),
        decreases cs@.len() - pos,
    {
        let st = match find_link_start(&cs, pos, &pattern) {
            None => return links,
            Some(st) => st,
        };
        let e = find_link_end(&cs, st);
        let link = String::from_str(content.substring_char(st, e));
        let ghost before = texts(links@);
        if e > st && !holds_text(&links, &link) {
            links.push(link);
            assert(texts(links@) =~= before.push(content@.subrange(st as int, e as int)));
        }
        if e >= cs.len() || e <= pos {
            return links;
        }
        pos = e;
    }
}

/// The page's text with each `nym://` link shown without its scheme, so that it
/// is not rendered as a link.
pub fn replace_nym_links(content: &str) -> (r: String)
    ensures
        r@ == links_replaced(content@, collected_links(content@, 0, Seq::empty())),
{
    let links = extract_nym_links(content);
    let mut result = String::from_str(content);
    let mut i: usize = 0;
    proof {
        reveal_strlit("nym://");
        reveal_strlit("");
        assert(texts(links@).take(0) =~= Seq::<Seq<char>>::empty());
    }
    while i < links.len()
        invariant
            i <= links@.len(),
            result@ == links_replaced(content@, texts(links@).take(i as int)),
            "nym://"@ == nym_pattern(),
            ""@ == Seq::<char>::empty(),
            forall|j: int| 0 <= j < links@.len() ==> (#[trigger] links@[j])@.len() > 0,
        decreases links@.len() - i,
    {
        let link = &links[i];
        let display = replace_all(link.as_str(), "nym://", "");
        result = replace_all(result.as_str(), link.as_str(), display.as_str());
        assert(texts(links@).take(i + 1).drop_last() =~= texts(links@).take(i as int));
        i = i + 1;
    }
    assert(texts(links@).take(i as int) =~= texts(links@));
    result
}

} // verus!
