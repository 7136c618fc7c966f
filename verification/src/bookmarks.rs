//! Bookmarks: titled links kept in a small keyed store.

use vstd::prelude::*;
use crate::assoc::{
    lemma_insert_at_index, lemma_insert_absent, lemma_lookup_at_index, lemma_lookup_none,
    lemma_remove_absent, lemma_remove_at_index, spec_insert, spec_lookup, spec_remove,
};

verus! {

/// One bookmark: a title, an optional description, and the URL it points
/// to.
#[derive(Debug, Clone)]
pub struct Bookmark {
    title: String,
    description: Option<String>,
    url: String,
}

impl Bookmark {
    /// The title's characters.
    pub closed spec fn spec_title(&self) -> Seq<char> {
        self.title@
    }

    /// The description's characters, if one is set.
    pub closed spec fn spec_description(&self) -> Option<Seq<char>> {
        match self.description {
            Some(d) => Some(d@),
            None => None,
        }
    }

    /// The URL's characters.
    pub closed spec fn spec_url(&self) -> Seq<char> {
        self.url@
    }

    /// The title.
    pub fn title(&self) -> (r: String)
        ensures
            r@ == self.spec_title(),
    {
        self.title.clone()
    }

    /// Replace the title.
    pub fn set_title(&mut self, title: &str)
        ensures
            final(self).spec_title() == title@,
            final(self).spec_description() == old(self).spec_description(),
            final(self).spec_url() == old(self).spec_url(),
    {
        self.title = title.to_owned();
    }

    /// The description, if one is set.
    pub fn description(&self) -> (r: Option<String>)
        ensures
            match self.spec_description() {
                Some(d) => r matches Some(rd) && rd@ == d,
                None => r is None,
            },
    {
        match &self.description {
            Some(d) => Some(d.clone()),
            None => None,
        }
    }

    /// Set the description.
    pub fn set_description(&mut self, description: &str)
        ensures
            final(self).spec_description() == Some(description@),
            final(self).spec_title() == old(self).spec_title(),
            final(self).spec_url() == old(self).spec_url(),
    {
        self.description = Some(description.to_owned());
    }

    /// The URL.
    pub fn url(&self) -> (r: String)
        ensures
            r@ == self.spec_url(),
    {
        self.url.clone()
    }

    /// Replace the URL.
    pub fn set_url(&mut self, url: &str)
        ensures
            final(self).spec_url() == url@,
            final(self).spec_title() == old(self).spec_title(),
            final(self).spec_description() == old(self).spec_description(),
    {
        self.url = url.to_owned();
    }
}

/// Builds a `Bookmark` field by field.
#[derive(Debug, Clone)]
pub struct BookmarkBuilder {
    title: String,
    description: Option<String>,
    url: String,
}

impl BookmarkBuilder {
    /// The builder's title so far.
    pub closed spec fn spec_title(&self) -> Seq<char> {
        self.title@
    }

    /// The builder's description so far.
    pub closed spec fn spec_description(&self) -> Option<Seq<char>> {
        match self.description {
            Some(d) => Some(d@),
            None => None,
        }
    }

    /// The builder's URL so far.
    pub closed spec fn spec_url(&self) -> Seq<char> {
        self.url@
    }

    /// An empty builder: empty title and URL, no description.
    pub fn new() -> (r: Self)
        ensures
            r.spec_title() == Seq::<char>::empty(),
            r.spec_description() is None,
            r.spec_url() == Seq::<char>::empty(),
    {
        BookmarkBuilder { title: String::new(), description: None, url: String::new() }
    }

    /// Set the title.
    pub fn title(self, title: &str) -> (r: Self)
        ensures
            r.spec_title() == title@,
            r.spec_description() == self.spec_description(),
            r.spec_url() == self.spec_url(),
    {
        let mut b = self;
        b.title = title.to_owned();
        b
    }

    /// Set or clear the description.
    pub fn description(self, description: Option<&str>) -> (r: Self)
        ensures
            match description {
                Some(d) => r.spec_description() == Some(d@),
                None => r.spec_description() is None,
            },
            r.spec_title() == self.spec_title(),
            r.spec_url() == self.spec_url(),
    {
        let mut b = self;
        match description {
            Some(desc) => b.description = Some(desc.to_owned()),
            None => b.description = None,
        }
        b
    }

    /// Set the URL.
    pub fn url(self, url: &str) -> (r: Self)
        ensures
            r.spec_url() == url@,
            r.spec_title() == self.spec_title(),
            r.spec_description() == self.spec_description(),
    {
        let mut b = self;
        b.url = url.to_owned();
        b
    }

    /// The finished bookmark, carrying exactly the fields set so far.
    pub fn build(self) -> (r: Bookmark)
        ensures
            r.spec_title() == self.spec_title(),
            r.spec_description() == self.spec_description(),
            r.spec_url() == self.spec_url(),
    {
        Bookmark { title: self.title, description: self.description, url: self.url }
    }
}

/// The bookmark store: bookmarks keyed by a number, one per key, in
/// insertion order.
#[derive(Debug, Clone)]
pub struct Bookmarks {
    entries: Vec<(u32, Bookmark)>,
}

impl Bookmarks {
    /// The keyed bookmarks the store holds, in insertion order.
    pub closed spec fn entries(&self) -> Seq<(u32, Bookmark)> {
        self.entries@
    }

    /// An empty store.
    pub fn new() -> (r: Self)
        ensures
            r.entries() == Seq::<(u32, Bookmark)>::empty(),
    {
        let r = Bookmarks { entries: Vec::new() };
        proof {
            assert(r.entries() =~= Seq::<(u32, Bookmark)>::empty());
        }
        r
    }

    /// The index of the first entry under `key`, if any.
    fn find(&self, key: u32) -> (r: Option<usize>)
        ensures
            match r {
                Some(i) => i < self.entries().len() && self.entries()[i as int].0 == key && forall|
                    j: int,
                | 0 <= j < i ==> (#[trigger] self.entries()[j]).0 != key,
                None => forall|j: int|
                    0 <= j < self.entries().len() ==> (#[trigger] self.entries()[j]).0 != key,
            },
    {
        let n = self.entries.len();
        let mut i: usize = 0;
        while i < n
            invariant
                i <= n,
                n == self.entries().len(),
                forall|j: int| 0 <= j < i ==> (#[trigger] self.entries()[j]).0 != key,
            decreases n - i,
        {
            if self.entries[i].0 == key {
                return Some(i);
            }
            i = i + 1;
        }
        None
    }

    /// The bookmark stored under `key`, if any.
    pub fn get(&self, key: u32) -> (r: Option<&Bookmark>)
        ensures
            match spec_lookup(self.entries(), key) {
                Some(b) => r matches Some(rb) && *rb == b,
                None => r is None,
            },
    {
        match self.find(key) {
            Some(i) => {
                proof {
                    lemma_lookup_at_index(self.entries(), key, i as int);
                }
                Some(&self.entries[i].1)
            },
            None => {
                proof {
                    lemma_lookup_none(self.entries(), key);
                }
                None
            },
        }
    }

    /// How many bookmarks the store holds.
    pub fn len(&self) -> (r: usize)
        ensures
            r == self.entries().len(),
    {
        self.entries.len()
    }

    /// The keyed bookmark at position `i` of the store's order.
    pub fn get_index(&self, i: usize) -> (r: Option<&(u32, Bookmark)>)
        ensures
            i < self.entries().len() ==> (r matches Some(p) && *p == self.entries()[i as int]),
            i >= self.entries().len() ==> r is None,
    {
        if i < self.entries.len() {
            Some(&self.entries[i])
        } else {
            None
        }
    }

    /// Store a bookmark under `key`, replacing any bookmark already there.
    pub fn update_bookmark(&mut self, key: u32, new_bookmark: Bookmark)
        ensures
            final(self).entries() == spec_insert(old(self).entries(), key, new_bookmark),
    {
        let ghost s = self.entries();
        match self.find(key) {
            Some(i) => {
                proof {
                    lemma_insert_at_index(s, key, new_bookmark, i as int);
                }
                self.entries.remove(i);
                self.entries.insert(i, (key, new_bookmark));
                proof {
                    assert(self.entries() =~= s.update(i as int, (key, new_bookmark)));
                }
            },
            None => {
                proof {
                    lemma_insert_absent(s, key, new_bookmark);
                }
                self.entries.push((key, new_bookmark));
            },
        }
    }

    /// Store a bookmark under key 1, replacing any bookmark already there.
    pub fn insert_bookmark(&mut self, bookmark: Bookmark)
        ensures
            final(self).entries() == spec_insert(old(self).entries(), 1u32, bookmark),
    {
        self.update_bookmark(1, bookmark);
    }

    /// Drop the bookmark under `key`, if any.
    pub fn remove_bookmark(&mut self, key: u32)
        ensures
            final(self).entries() == spec_remove(old(self).entries(), key),
    {
        if self.entries.is_empty() {
            proof {
                lemma_remove_absent(self.entries(), key);
            }
            return ;
        }
        let ghost s = self.entries();
        match self.find(key) {
            Some(i) => {
                proof {
                    lemma_remove_at_index(s, key, i as int);
                }
                self.entries.remove(i);
                proof {
                    assert(self.entries() =~= s.remove(i as int));
                }
            },
            None => {
                proof {
                    lemma_remove_absent(s, key);
                }
            },
        }
    }
}

} // verus!
