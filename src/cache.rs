//! The page cache: page names mapped to page bodies, built in full from the
//! markdown files of a content directory.
use vstd::prelude::*;
use vstd::string::*;
use crate::default_page::{default_index, DEFAULT_INDEX_PAGE};

verus! {

/// A file of the content directory: its name and its text.
#[derive(Debug, Clone)]
pub struct SourceFile {
    pub name: String,
    pub content: String,
}

/// The name and text of each file, in scan order.
pub open spec fn files_view(files: Seq<SourceFile>) -> Seq<(Seq<char>, Seq<char>)> {
    files.map_values(|f: SourceFile| (f.name@, f.content@))
}

pub open spec fn md_suffix() -> Seq<char> {
    seq!['.', 'm', 'd']
}

pub open spec fn markdown_suffix() -> Seq<char> {
    seq!['.', 'm', 'a', 'r', 'k', 'd', 'o', 'w', 'n']
}

pub open spec fn index_key() -> Seq<char> {
    seq!['i', 'n', 'd', 'e', 'x']
}

/// `name` without the suffix `suf`, if it ends with it and something comes before.
pub open spec fn strip_suffix(name: Seq<char>, suf: Seq<char>) -> Option<Seq<char>> {
    if name.len() > suf.len() && name.subrange(name.len() - suf.len(), name.len() as int) == suf {
        Some(name.subrange(0, name.len() - suf.len()))
    } else {
        None
    }
}

/// The page name of a file: its stem, when its extension is `md` or `markdown`.
pub open spec fn markdown_key(name: Seq<char>) -> Option<Seq<char>> {
    match strip_suffix(name, md_suffix()) {
        Some(k) => Some(k),
        None => strip_suffix(name, markdown_suffix()),
    }
}

/// The text of the last file called `name`.
pub open spec fn last_content(files: Seq<(Seq<char>, Seq<char>)>, name: Seq<char>) -> Option<Seq<char>>
    decreases files.len(),
{
    if files.len() == 0 {
        None
    } else if files.last().0 == name {
        Some(files.last().1)
    } else {
        last_content(files.drop_last(), name)
    }
}

/// The body that a scan gives to page `k`: the `.md` file of that stem, else the
/// `.markdown` one. This is the file that comes last in file-name order, so the
/// outcome does not depend on the order of the directory listing.
pub open spec fn scanned_page(files: Seq<(Seq<char>, Seq<char>)>, k: Seq<char>) -> Option<Seq<char>> {
    if k.len() == 0 {
        None
    } else {
        match last_content(files, k + md_suffix()) {
            Some(b) => Some(b),
            None => last_content(files, k + markdown_suffix()),
        }
    }
}

/// The body of page `k` in a cache loaded from `files`, with the built-in home
/// page standing in for a missing `index`.
pub open spec fn loaded_page(files: Seq<(Seq<char>, Seq<char>)>, k: Seq<char>) -> Option<Seq<char>> {
    match scanned_page(files, k) {
        Some(b) => Some(b),
        None => if k == index_key() {
            Some(DEFAULT_INDEX_PAGE@)
        } else {
            None
        },
    }
}

/// The body last stored under `k`.
pub open spec fn lookup(entries: Seq<(Seq<char>, Seq<char>)>, k: Seq<char>) -> Option<Seq<char>>
    decreases entries.len(),
{
    if entries.len() == 0 {
        None
    } else if entries.last().0 == k {
        Some(entries.last().1)
    } else {
        lookup(entries.drop_last(), k)
    }
}

/// No key occurs twice.
pub open spec fn distinct_keys(e: Seq<(Seq<char>, Seq<char>)>) -> bool {
    forall|i: int, j: int| 0 <= i < j < e.len() ==> e[i].0 != e[j].0
}

pub open spec fn keys_of(e: Seq<(Seq<char>, Seq<char>)>) -> Seq<Seq<char>> {
    e.map_values(|p: (Seq<char>, Seq<char>)| p.0)
}

/// The keys, separated by commas.
pub open spec fn joined_keys(keys: Seq<Seq<char>>) -> Seq<char>
    decreases keys.len(),
{
    if keys.len() == 0 {
        Seq::empty()
    } else if keys.len() == 1 {
        keys[0]
    } else {
        joined_keys(keys.drop_last()) + seq![','] + keys.last()
    }
}

proof fn lemma_lookup_absent(e: Seq<(Seq<char>, Seq<char>)>, k: Seq<char>)
    requires
        forall|i: int| 0 <= i < e.len() ==> e[i].0 != k,
    ensures
        lookup(e, k) is None,
    decreases e.len(),
{
    if e.len() > 0 {
        lemma_lookup_absent(e.drop_last(), k);
    }
}

proof fn lemma_lookup_at(e: Seq<(Seq<char>, Seq<char>)>, i: int)
    requires
        distinct_keys(e),
        0 <= i < e.len(),
    ensures
        lookup(e, e[i].0) == Some(e[i].1),
    decreases e.len(),
{
    if i < e.len() - 1 {
        lemma_lookup_at(e.drop_last(), i);
    }
}

proof fn lemma_lookup_update(
    e: Seq<(Seq<char>, Seq<char>)>,
    j: int,
    k: Seq<char>,
    b: Seq<char>,
    k2: Seq<char>,
)
    requires
        distinct_keys(e),
        0 <= j < e.len(),
        e[j].0 == k,
    ensures
        distinct_keys(e.update(j, (k, b))),
        lookup(e.update(j, (k, b)), k2) == if k2 == k {
            Some(b)
        } else {
            lookup(e, k2)
        },
{
    let e2 = e.update(j, (k, b));
    assert(distinct_keys(e2));
    if k2 == k {
        lemma_lookup_at(e2, j);
    } else if exists|i: int| 0 <= i < e.len() && e[i].0 == k2 {
        let i = choose|i: int| 0 <= i < e.len() && e[i].0 == k2;
        lemma_lookup_at(e, i);
        lemma_lookup_at(e2, i);
    } else {
        lemma_lookup_absent(e, k2);
        lemma_lookup_absent(e2, k2);
    }
}

pub proof fn lemma_strip_suffix(name: Seq<char>, suf: Seq<char>, k: Seq<char>)
    ensures
        strip_suffix(name, suf) == Some(k) <==> (name == k + suf && k.len() > 0),
{
    if name == k + suf && k.len() > 0 {
        assert(name.subrange(name.len() - suf.len(), name.len() as int) =~= suf);
        assert(name.subrange(0, name.len() - suf.len()) =~= k);
    }
    if strip_suffix(name, suf) == Some(k) {
        assert(name =~= k + suf);
    }
}

/// A cache of pages. Later entries take precedence over earlier ones.
pub struct PageCache {
    entries: Vec<(String, String)>,
}

impl PageCache {
    /// No page name is stored twice.
    pub closed spec fn wf(&self) -> bool {
        distinct_keys(self.entries_view())
    }

    /// Each entry's key and body.
    pub closed spec fn entries_view(&self) -> Seq<(Seq<char>, Seq<char>)> {
        self.entries@.map_values(|e: (String, String)| (e.0@, e.1@))
    }

    /// The body of page `k`, if the cache holds it.
    pub open spec fn page(&self, k: Seq<char>) -> Option<Seq<char>> {
        lookup(self.entries_view(), k)
    }

    /// A cache with no pages.
    pub fn new() -> (r: PageCache)
        ensures
            r.wf(),
            forall|k: Seq<char>| r.page(k) is None,
    {
        let r = PageCache { entries: Vec::new() };
        assert(r.entries_view().len() == 0);
        r
    }

    /// Stores `body` as page `key`, replacing what was there.
    pub fn insert(&mut self, key: String, body: String)
        requires
            old(self).wf(),
        ensures
            final(self).wf(),
            final(self).page(key@) == Some(body@),
            forall|k: Seq<char>| k != key@ ==> final(self).page(k) == old(self).page(k),
    {
        let ghost e = self.entries_view();
        let mut j: usize = 0;
        while j < self.entries.len()
            invariant
                j <= self.entries@.len(),
                e == self.entries_view(),
                e == old(self).entries_view(),
                distinct_keys(e),
                forall|i: int| 0 <= i < j ==> e[i].0 != key@,
            decreases self.entries@.len() - j,
        {
            if self.entries[j].0 == key {
                let ghost k = key@;
                let ghost b = body@;
                self.entries.set(j, (key, body));
                proof {
                    let e2 = self.entries_view();
                    assert(e2 =~= e.update(j as int, (k, b)));
                    assert forall|k2: Seq<char>| k2 != k implies self.page(k2) == old(self).page(
                        k2,
                    ) by {
                        lemma_lookup_update(e, j as int, k, b, k2);
                    }
                    lemma_lookup_update(e, j as int, k, b, k);
                }
                assert(self.wf());
                return;
            }
            j = j + 1;
        }
        let ghost k = key@;
        let ghost b = body@;
        self.entries.push((key, body));
        proof {
            let e2 = self.entries_view();
            assert(e2 =~= e.push((k, b)));
            assert(e2.drop_last() =~= e);
            assert(distinct_keys(e2));
        }
    }

    /// The names of the pages, each once, in the order they were first stored.
    pub closed spec fn keys(&self) -> Seq<Seq<char>> {
        keys_of(self.entries_view())
    }

    /// The reply to a listing request: `OK`, a line break, and the page names
    /// separated by commas.
    pub fn list_pages(&self) -> (r: String)
        requires
            self.wf(),
        ensures
            r@ == "OK\n"@ + joined_keys(self.keys()),
            self.keys().no_duplicates(),
            forall|k: Seq<char>| self.page(k) is Some <==> self.keys().contains(k),
    {
        proof {
            let e = self.entries_view();
            assert forall|k: Seq<char>| self.page(k) is Some <==> self.keys().contains(k) by {
                if self.keys().contains(k) {
                    let i = choose|i: int| 0 <= i < self.keys().len() && self.keys()[i] == k;
                    lemma_lookup_at(e, i);
                } else {
                    assert forall|i: int| 0 <= i < e.len() implies e[i].0 != k by {
                        assert(self.keys()[i] == e[i].0);
                    }
                    lemma_lookup_absent(e, k);
                }
            }
        }
        let ghost ks = self.keys();
        let mut r = String::from_str("OK\n");
        let mut i: usize = 0;
        proof {
            assert(ks.take(0) =~= Seq::<Seq<char>>::empty());
        }
        while i < self.entries.len()
            invariant
                i <= self.entries@.len(),
                ks == self.keys(),
                ks.len() == self.entries@.len(),
                r@ == "OK\n"@ + joined_keys(ks.take(i as int)),
            decreases self.entries@.len() - i,
        {
            if i > 0 {
                r.append(",");
            }
            r.append(self.entries[i].0.as_str());
            proof {
                reveal_strlit(",");
                assert(ks[i as int] == self.entries@[i as int].0@);
                assert(ks.take(i + 1).drop_last() =~= ks.take(i as int));
                if i == 0 {
                    assert(ks.take(1) =~= seq![ks[0]]);
                }
                assert(r@ =~= "OK\n"@ + joined_keys(ks.take(i + 1)));
            }
            i = i + 1;
        }
        assert(ks.take(i as int) =~= ks);
        r
    }

    /// The body of page `key`.
    pub fn get(&self, key: &str) -> (r: Option<String>)
        ensures
            r matches Some(b) ==> self.page(key@) == Some(b@),
            r is None ==> self.page(key@) is None,
    {
        let k = String::from_str(key);
        let ghost ev = self.entries_view();
        let mut i: usize = self.entries.len();
        assert(ev.subrange(0, i as int) =~= ev);
        while i > 0
            invariant
                i <= self.entries@.len(),
                ev == self.entries_view(),
                k@ == key@,
                lookup(ev, key@) == lookup(ev.subrange(0, i as int), key@),
            decreases i,
        {
            i = i - 1;
            assert(ev.subrange(0, i + 1).drop_last() =~= ev.subrange(0, i as int));
            if self.entries[i].0 == k {
                return Some(self.entries[i].1.clone());
            }
        }
        None
    }

    /// Builds the cache from the files of a content directory: each file with
    /// extension `md` or `markdown` becomes the page named by its stem, a `.md`
    /// file winning over a `.markdown` file of the same stem, and the built-in
    /// home page stands in for a missing `index`.
    pub fn load(files: &Vec<SourceFile>) -> (r: PageCache)
        ensures
            r.wf(),
            forall|k: Seq<char>| #[trigger] r.page(k) == loaded_page(files_view(files@), k),
    {
        let ghost fv = files_view(files@);
        let mut cache = PageCache::new();
        // The `.markdown` files first, so that the `.md` files overwrite them.
        let mut i: usize = 0;
        while i < files.len()
            invariant
                i <= files@.len(),
                cache.wf(),
                fv == files_view(files@),
                forall|k: Seq<char>| #[trigger] cache.page(k) == (if k.len() == 0 {
                    None
                } else {
                    last_content(fv.subrange(0, i as int), k + markdown_suffix())
                }),
            decreases files@.len() - i,
        {
            let ghost before = cache;
            let name = &files[i].name;
            let ghost prefix = fv.subrange(0, i + 1);
            assert(prefix.drop_last() =~= fv.subrange(0, i as int));
            assert(prefix.last() == (name@, files@[i as int].content@));
            proof {
                reveal_strlit(".markdown");
                assert(".markdown"@ =~= markdown_suffix());
            }
            if let Some(k) = strip_suffix_exec(name.as_str(), ".markdown") {
                cache.insert(k, files[i].content.clone());
            }
            assert forall|k2: Seq<char>| #[trigger] cache.page(k2) == (if k2.len() == 0 {
                None
            } else {
                last_content(prefix, k2 + markdown_suffix())
            }) by {
                lemma_strip_suffix(name@, markdown_suffix(), k2);
                assert(before.page(k2) == (if k2.len() == 0 {
                    None
                } else {
                    last_content(fv.subrange(0, i as int), k2 + markdown_suffix())
                }));
            }
            i = i + 1;
        }
        assert(fv.subrange(0, files@.len() as int) =~= fv);
        assert forall|k: Seq<char>| #[trigger] cache.page(k) == (if k.len() == 0 {
            None
        } else {
            match last_content(fv.subrange(0, 0), k + md_suffix()) {
                Some(b) => Some(b),
                None => last_content(fv, k + markdown_suffix()),
            }
        }) by {
            assert(fv.subrange(0, 0).len() == 0);
        }
        let mut j: usize = 0;
        while j < files.len()
            invariant
                j <= files@.len(),
                cache.wf(),
                fv == files_view(files@),
                fv.subrange(0, files@.len() as int) == fv,
                forall|k: Seq<char>| #[trigger] cache.page(k) == (if k.len() == 0 {
                    None
                } else {
                    match last_content(fv.subrange(0, j as int), k + md_suffix()) {
                        Some(b) => Some(b),
                        None => last_content(fv, k + markdown_suffix()),
                    }
                }),
            decreases files@.len() - j,
        {
            let name = &files[j].name;
            let ghost before = cache;
            let ghost prefix = fv.subrange(0, j + 1);
            assert(prefix.drop_last() =~= fv.subrange(0, j as int));
            assert(prefix.last() == (name@, files@[j as int].content@));
            proof {
                reveal_strlit(".md");
                assert(".md"@ =~= md_suffix());
            }
            if let Some(k) = strip_suffix_exec(name.as_str(), ".md") {
                cache.insert(k, files[j].content.clone());
            }
            assert forall|k2: Seq<char>| #[trigger] cache.page(k2) == (if k2.len() == 0 {
                None
            } else {
                match last_content(prefix, k2 + md_suffix()) {
                    Some(b) => Some(b),
                    None => last_content(fv, k2 + markdown_suffix()),
                }
            }) by {
                lemma_strip_suffix(name@, md_suffix(), k2);
                assert(before.page(k2) == (if k2.len() == 0 {
                    None
                } else {
                    match last_content(fv.subrange(0, j as int), k2 + md_suffix()) {
                        Some(b) => Some(b),
                        None => last_content(fv, k2 + markdown_suffix()),
                    }
                }));
            }
            j = j + 1;
        }
        let index = String::from_str("index");
        proof {
            reveal_strlit("index");
            assert(index@ =~= index_key());
        }
        if cache.get("index").is_none() {
            cache.insert(index, String::from_str(default_index()));
        }
        cache
    }
}

/// The page name that a file called `name` is served under, if it is a
/// markdown file.
pub fn page_key(name: &str) -> (r: Option<String>)
    ensures
        r matches Some(k) ==> markdown_key(name@) == Some(k@),
        r is None ==> markdown_key(name@) is None,
{
    proof {
        reveal_strlit(".md");
        reveal_strlit(".markdown");
        assert(".md"@ =~= md_suffix());
        assert(".markdown"@ =~= markdown_suffix());
    }
    match strip_suffix_exec(name, ".md") {
        Some(k) => Some(k),
        None => strip_suffix_exec(name, ".markdown"),
    }
}

/// `name` without `suf`, if it ends with it and something comes before.
pub fn strip_suffix_exec(name: &str, suf: &str) -> (r: Option<String>)
    ensures
        r matches Some(k) ==> strip_suffix(name@, suf@) == Some(k@),
        r is None ==> strip_suffix(name@, suf@) is None,
{
    let n = name.unicode_len();
    let m = suf.unicode_len();
    if n <= m {
        return None;
    }
    let tail = String::from_str(name.substring_char(n - m, n));
    let s = String::from_str(suf);
    if tail == s {
        Some(String::from_str(name.substring_char(0, n - m)))
    } else {
        None
    }
}

} // verus!

verus! {

/// A directory with neither `index.md` nor `index.markdown` loads with the
/// built-in home page as its `index` page.
pub proof fn lemma_index_fallback(files: Seq<SourceFile>)
    requires
        last_content(files_view(files), index_key() + md_suffix()) is None,
        last_content(files_view(files), index_key() + markdown_suffix()) is None,
    ensures
        loaded_page(files_view(files), index_key()) == Some(DEFAULT_INDEX_PAGE@),
{
}

} // verus!

verus! {

/// A `.md` file of the directory is served, after a load, under its stem.
pub proof fn lemma_markdown_file_is_page(files: Seq<SourceFile>, k: Seq<char>, body: Seq<char>)
    requires
        k.len() > 0,
        last_content(files_view(files), k + md_suffix()) == Some(body),
    ensures
        loaded_page(files_view(files), k) == Some(body),
{
}

} // verus!
