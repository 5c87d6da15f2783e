use vstd::prelude::*;

verus! {

/// One stored link: a long URL and the short code assigned to it.
#[derive(Clone)]
pub struct LinkEntry {
    pub long_url: String,
    pub short_code: String,
}

/// Raised by `LinkTable::insert` when the long URL or the short code is
/// already present.
#[derive(Debug, PartialEq, Eq, Structural)]
pub enum DuplicateKey {
    LongUrl,
    ShortCode,
}

/// The characters of an optional string.
pub open spec fn opt_text(s: Option<String>) -> Option<Seq<char>> {
    match s {
        Some(t) => Some(t@),
        None => None,
    }
}

/// No two long URLs share a short code.
pub open spec fn codes_unique(links: Map<Seq<char>, Seq<char>>) -> bool {
    forall|u1: Seq<char>, u2: Seq<char>|
        #![trigger links[u1], links[u2]]
        links.dom().contains(u1) && links.dom().contains(u2) && u1 != u2 ==> links[u1] != links[u2]
}

/// Some long URL maps to `code`.
pub open spec fn code_taken(links: Map<Seq<char>, Seq<char>>, code: Seq<char>) -> bool {
    exists|u: Seq<char>| links.dom().contains(u) && links[u] == code
}

/// The long URL that maps to `code`, if any.
pub open spec fn long_for(links: Map<Seq<char>, Seq<char>>, code: Seq<char>) -> Option<
    Seq<char>,
> {
    if code_taken(links, code) {
        Some(choose|u: Seq<char>| links.dom().contains(u) && links[u] == code)
    } else {
        None
    }
}

/// Under unique codes, `long_for` finds the one URL holding a code.
pub proof fn lemma_long_for_unique(links: Map<Seq<char>, Seq<char>>, u: Seq<char>)
    requires
        codes_unique(links),
        links.dom().contains(u),
    ensures
        long_for(links, links[u]) == Some(u),
{
    assert(code_taken(links, links[u]));
    let w = choose|w: Seq<char>| links.dom().contains(w) && links[w] == links[u];
    assert(links[w] == links[u]);
}

/// The short code of an entry when `by_code` holds, else its long URL.
pub open spec fn key_field(e: LinkEntry, by_code: bool) -> Seq<char> {
    if by_code {
        e.short_code@
    } else {
        e.long_url@
    }
}

/// The durable mapping between long URLs and short codes, both of which are
/// unique keys. Entries are never changed or removed once inserted.
#[derive(Clone)]
pub struct LinkTable {
    entries: Vec<LinkEntry>,
    links: Ghost<Map<Seq<char>, Seq<char>>>,
}

impl View for LinkTable {
    type V = Map<Seq<char>, Seq<char>>;

    /// The table as a map from long URL to short code.
    closed spec fn view(&self) -> Map<Seq<char>, Seq<char>> {
        self.links@
    }
}

impl LinkTable {
    /// The entries agree with the map, and both keys are unique.
    pub closed spec fn wf(&self) -> bool {
        let e = self.entries@;
        let m = self.links@;
        &&& forall|i: int|
            0 <= i < e.len() ==> #[trigger] m.dom().contains(e[i].long_url@) && m[e[i].long_url@]
                == e[i].short_code@
        &&& forall|u: Seq<char>|
            #[trigger] m.dom().contains(u) ==> exists|i: int|
                0 <= i < e.len() && #[trigger] e[i].long_url@ == u
        &&& forall|i: int, j: int|
            0 <= i < e.len() && 0 <= j < e.len() && i != j ==> #[trigger] e[i].long_url@
                != #[trigger] e[j].long_url@
        &&& codes_unique(m)
    }

    pub fn new() -> (r: LinkTable)
        ensures
            r.wf(),
            r@ == Map::<Seq<char>, Seq<char>>::empty(),
    {
        LinkTable { entries: Vec::new(), links: Ghost(Map::empty()) }
    }

    /// No two long URLs in a well-formed table share a short code.
    pub proof fn lemma_codes_unique(&self)
        requires
            self.wf(),
        ensures
            codes_unique(self@),
    {
    }

    pub fn len(&self) -> (r: usize)
        requires
            self.wf(),
        ensures
            r == self@.len(),
    {
        proof {
            self.lemma_len();
        }
        self.entries.len()
    }

    proof fn lemma_len(&self)
        requires
            self.wf(),
        ensures
            self@.len() == self.entries@.len(),
            self@.dom().finite(),
    {
        let e = self.entries@;
        let m = self.links@;
        let keys = Seq::new(e.len(), |i: int| e[i].long_url@);
        assert forall|u: Seq<char>| m.dom().contains(u) <==> keys.contains(u) by {
            if m.dom().contains(u) {
                let i = choose|i: int| 0 <= i < e.len() && #[trigger] e[i].long_url@ == u;
                assert(keys[i] == u);
            }
            if keys.contains(u) {
                let i = choose|i: int| 0 <= i < keys.len() && keys[i] == u;
                assert(m.dom().contains(e[i].long_url@));
            }
        }
        assert(keys.no_duplicates()) by {
            assert forall|i: int, j: int| 0 <= i < keys.len() && 0 <= j < keys.len() && i != j implies keys[i] != keys[j] by {
                assert(e[i].long_url@ != e[j].long_url@);
            }
        }
        assert(m.dom() =~= keys.to_set());
        keys.unique_seq_to_set();
    }

    /// Index of the entry whose field picked by `by_code` equals `key`.
    fn position(&self, key: &String, by_code: bool) -> (r: Option<usize>)
        requires
            self.wf(),
        ensures
            match r {
                Some(i) => i < self.entries@.len() && key_field(self.entries@[i as int], by_code)
                    == key@,
                None => forall|i: int|
                    0 <= i < self.entries@.len() ==> #[trigger] key_field(self.entries@[i], by_code)
                        != key@,
            },
    {
        let mut i: usize = 0;
        while i < self.entries.len()
            invariant
                i <= self.entries@.len(),
                forall|j: int| 0 <= j < i ==> #[trigger] key_field(self.entries@[j], by_code) != key@,
            decreases self.entries@.len() - i,
        {
            let entry = &self.entries[i];
            let hit = if by_code {
                entry.short_code == *key
            } else {
                entry.long_url == *key
            };
            if hit {
                return Some(i);
            }
            i = i + 1;
        }
        None
    }

    /// The short code stored for `url`, if any.
    pub fn find_by_long_url(&self, url: &str) -> (r: Option<String>)
        requires
            self.wf(),
        ensures
            match r {
                Some(code) => self@.dom().contains(url@) && self@[url@] == code@,
                None => !self@.dom().contains(url@),
            },
    {
        let key = url.to_owned();
        match self.position(&key, false) {
            Some(i) => {
                proof {
                    assert(self.links@.dom().contains(self.entries@[i as int].long_url@));
                }
                Some(self.entries[i].short_code.clone())
            },
            None => {
                proof {
                    if self@.dom().contains(url@) {
                        let i = choose|i: int|
                            0 <= i < self.entries@.len() && #[trigger] self.entries@[i].long_url@
                                == url@;
                        assert(key_field(self.entries@[i], false) != url@);
                    }
                }
                None
            },
        }
    }

    /// The long URL stored under `code`, if any.
    pub fn find_by_short_code(&self, code: &str) -> (r: Option<String>)
        requires
            self.wf(),
        ensures
            opt_text(r) == long_for(self@, code@),
    {
        let key = code.to_owned();
        match self.position(&key, true) {
            Some(i) => {
                let ghost u = self.entries@[i as int].long_url@;
                proof {
                    lemma_long_for_unique(self@, u);
                }
                Some(self.entries[i].long_url.clone())
            },
            None => {
                proof {
                    if code_taken(self@, code@) {
                        let u = choose|u: Seq<char>| self@.dom().contains(u) && self@[u] == code@;
                        let i = choose|i: int|
                            0 <= i < self.entries@.len() && #[trigger] self.entries@[i].long_url@
                                == u;
                        assert(key_field(self.entries@[i], true) != code@);
                    }
                }
                None
            },
        }
    }

    /// Adds the entry `long_url -> short_code`, unless either key is
    /// already present.
    pub fn insert(&mut self, long_url: String, short_code: String) -> (r: Result<
        (),
        DuplicateKey,
    >)
        requires
            old(self).wf(),
        ensures
            final(self).wf(),
            r == (if old(self)@.dom().contains(long_url@) {
                Err::<(), DuplicateKey>(DuplicateKey::LongUrl)
            } else if code_taken(old(self)@, short_code@) {
                Err(DuplicateKey::ShortCode)
            } else {
                Ok(())
            }),
            r is Ok ==> final(self)@ == old(self)@.insert(long_url@, short_code@),
            r is Err ==> final(self)@ == old(self)@,
    {
        if self.position(&long_url, false).is_some() {
            return Err(DuplicateKey::LongUrl);
        }
        proof {
            if self@.dom().contains(long_url@) {
                let i = choose|i: int|
                    0 <= i < self.entries@.len() && #[trigger] self.entries@[i].long_url@
                        == long_url@;
                assert(key_field(self.entries@[i], false) != long_url@);
            }
        }
        if let Some(i) = self.position(&short_code, true) {
            proof {
                assert(self.links@.dom().contains(self.entries@[i as int].long_url@));
            }
            return Err(DuplicateKey::ShortCode);
        }
        proof {
            if code_taken(self@, short_code@) {
                let u = choose|u: Seq<char>| self@.dom().contains(u) && self@[u] == short_code@;
                let i = choose|i: int|
                    0 <= i < self.entries@.len() && #[trigger] self.entries@[i].long_url@ == u;
                assert(key_field(self.entries@[i], true) != short_code@);
            }
        }
        let ghost old_entries = self.entries@;
        let ghost new_links = self.links@.insert(long_url@, short_code@);
        self.links = Ghost(new_links);
        self.entries.push(LinkEntry { long_url, short_code });
        proof {
            let e = self.entries@;
            let n = old_entries.len();
            assert(e[n as int].long_url@ == long_url@);
            assert(e[n as int].short_code@ == short_code@);
            assert forall|u: Seq<char>| #[trigger] new_links.dom().contains(u) implies exists|i: int|
                0 <= i < e.len() && #[trigger] e[i].long_url@ == u by {
                if u == e[n as int].long_url@ {
                    assert(e[n as int].long_url@ == u);
                } else {
                    assert(old(self).links@.dom().contains(u));
                    let i = choose|i: int|
                        0 <= i < old_entries.len() && #[trigger] old_entries[i].long_url@ == u;
                    assert(e[i] == old_entries[i]);
                }
            }
            assert forall|i: int| 0 <= i < e.len() implies #[trigger] new_links.dom().contains(
                e[i].long_url@,
            ) && new_links[e[i].long_url@] == e[i].short_code@ by {
                if i < n {
                    assert(e[i] == old_entries[i]);
                }
            }
            assert forall|u1: Seq<char>, u2: Seq<char>|
                new_links.dom().contains(u1) && new_links.dom().contains(u2) && u1
                    != u2 implies #[trigger] new_links[u1] != #[trigger] new_links[u2] by {
                if u1 == long_url@ {
                    assert(old(self)@.dom().contains(u2) && old(self)@[u2] == new_links[u2]);
                } else if u2 == long_url@ {
                    assert(old(self)@.dom().contains(u1) && old(self)@[u1] == new_links[u1]);
                }
            }
        }
        Ok(())
    }
}

} // verus!
