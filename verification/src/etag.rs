//! Remembered `ETag`s and bodies, so that an unchanged page costs a `304`.

use vstd::prelude::*;

verus! {

/// For each address, the last `ETag` the provider sent and the body that came with it.
#[derive(Debug)]
pub struct EtagCache {
    entries: Vec<(String, (String, String))>,
}

/// The address-to-(etag, body) map that a list of entries holds; later entries win.
pub open spec fn entries_map(s: Seq<(String, (String, String))>) -> Map<
    Seq<char>,
    (Seq<char>, Seq<char>),
>
    decreases s.len(),
{
    if s.len() == 0 {
        Map::empty()
    } else {
        entries_map(s.drop_last()).insert(s.last().0@, (s.last().1.0@, s.last().1.1@))
    }
}

/// No address occurs twice.
pub open spec fn keys_distinct(s: Seq<(String, (String, String))>) -> bool {
    forall|i: int, j: int| 0 <= i < j < s.len() ==> s[i].0@ != s[j].0@
}

proof fn lemma_entries_map_lookup(s: Seq<(String, (String, String))>)
    requires
        keys_distinct(s),
    ensures
        forall|i: int|
            0 <= i < s.len() ==> #[trigger] entries_map(s).contains_key(s[i].0@) && entries_map(
                s,
            )[s[i].0@] == (s[i].1.0@, s[i].1.1@),
        forall|k: Seq<char>|
            entries_map(s).contains_key(k) ==> exists|i: int| 0 <= i < s.len() && #[trigger] s[i].0@ == k,
    decreases s.len(),
{
    if s.len() > 0 {
        let rest = s.drop_last();
        lemma_entries_map_lookup(rest);
        assert forall|i: int| 0 <= i < s.len() implies #[trigger] entries_map(s).contains_key(
            s[i].0@,
        ) && entries_map(s)[s[i].0@] == (s[i].1.0@, s[i].1.1@) by {
            if i < s.len() - 1 {
                assert(rest[i] == s[i]);
                assert(s[i].0@ != s[s.len() - 1].0@);
                assert(entries_map(rest).contains_key(rest[i].0@));
            } else {
                assert(s[i] == s.last());
            }
        }
        assert forall|k: Seq<char>| entries_map(s).contains_key(k) implies exists|i: int|
            0 <= i < s.len() && #[trigger] s[i].0@ == k by {
            if k != s.last().0@ {
                assert(entries_map(rest).contains_key(k));
                let i = choose|i: int| 0 <= i < rest.len() && #[trigger] rest[i].0@ == k;
                assert(s[i] == rest[i]);
            } else {
                assert(s[s.len() - 1].0@ == k);
            }
        }
    }
}

proof fn lemma_entries_map_update(s: Seq<(String, (String, String))>, i: int, e: (String, (String, String)))
    requires
        keys_distinct(s),
        0 <= i < s.len(),
        s[i].0@ == e.0@,
    ensures
        keys_distinct(s.update(i, e)),
        entries_map(s.update(i, e)) == entries_map(s).insert(e.0@, (e.1.0@, e.1.1@)),
    decreases s.len(),
{
    let t = s.update(i, e);
    lemma_entries_map_lookup(s);
    lemma_entries_map_lookup(t);
    assert(entries_map(t) =~= entries_map(s).insert(e.0@, (e.1.0@, e.1.1@))) by {
        assert forall|k: Seq<char>| #[trigger] entries_map(t).contains_key(k) == entries_map(
            s,
        ).insert(e.0@, (e.1.0@, e.1.1@)).contains_key(k) by {
            if entries_map(t).contains_key(k) {
                let j = choose|j: int| 0 <= j < t.len() && #[trigger] t[j].0@ == k;
                assert(s[j].0@ == k);
            }
            if entries_map(s).contains_key(k) {
                let j = choose|j: int| 0 <= j < s.len() && #[trigger] s[j].0@ == k;
                assert(t[j].0@ == k);
            }
            if k == e.0@ {
                assert(t[i].0@ == k);
            }
        }
        assert forall|k: Seq<char>| #[trigger] entries_map(t).contains_key(k) implies entries_map(
            t,
        )[k] == entries_map(s).insert(e.0@, (e.1.0@, e.1.1@))[k] by {
            let j = choose|j: int| 0 <= j < t.len() && #[trigger] t[j].0@ == k;
            if j != i {
                assert(s[j] == t[j]);
            }
        }
    }
}

impl EtagCache {
    #[verifier::type_invariant]
    spec fn distinct(self) -> bool {
        keys_distinct(self.entries@)
    }

    /// The address-to-(etag, body) map.
    pub closed spec fn view(self) -> Map<Seq<char>, (Seq<char>, Seq<char>)> {
        entries_map(self.entries@)
    }

    /// An empty cache.
    pub fn new() -> (c: EtagCache)
        ensures
            c.view() == Map::<Seq<char>, (Seq<char>, Seq<char>)>::empty(),
    {
        EtagCache { entries: Vec::new() }
    }

    /// The etag and body stored for `url`.
    pub fn get(&self, url: &str) -> (r: Option<&(String, String)>)
        ensures
            match r {
                Some(e) => self.view().contains_key(url@) && self.view()[url@] == (e.0@, e.1@),
                None => !self.view().contains_key(url@),
            },
    {
        proof {
            use_type_invariant(self);
        }
        let mut i: usize = 0;
        while i < self.entries.len()
            invariant
                i <= self.entries@.len(),
                keys_distinct(self.entries@),
                forall|j: int| 0 <= j < i ==> self.entries@[j].0@ != url@,
            decreases self.entries@.len() - i,
        {
            if crate::text::str_eq(self.entries[i].0.as_str(), url) {
                proof {
                    lemma_entries_map_lookup(self.entries@);
                    assert(entries_map(self.entries@).contains_key(self.entries@[i as int].0@));
                }
                return Some(&self.entries[i].1);
            }
            i = i + 1;
        }
        proof {
            lemma_entries_map_lookup(self.entries@);
            if self.view().contains_key(url@) {
                let j = choose|j: int| 0 <= j < self.entries@.len() && #[trigger] self.entries@[j].0@ == url@;
                assert(self.entries@[j].0@ != url@);
            }
        }
        None
    }

    /// Stores the etag and body for `url`, replacing what was there.
    pub fn store(&mut self, url: &str, etag: String, body: String)
        ensures
            final(self).view() == old(self).view().insert(url@, (etag@, body@)),
    {
        proof {
            use_type_invariant(&*self);
        }
        let ghost before = self.entries@;
        let mut i: usize = 0;
        while i < self.entries.len()
            invariant
                i <= self.entries@.len(),
                self.entries@ == before,
                before == old(self).entries@,
                keys_distinct(before),
                forall|j: int| 0 <= j < i ==> before[j].0@ != url@,
            decreases self.entries@.len() - i,
        {
            if crate::text::str_eq(self.entries[i].0.as_str(), url) {
                let entry = (String::from_str(url), (etag, body));
                proof {
                    lemma_entries_map_update(before, i as int, entry);
                }
                let mut entries: Vec<(String, (String, String))> = Vec::new();
                std::mem::swap(&mut entries, &mut self.entries);
                assert(entries@ == before);
                entries.set(i, entry);
                assert(entries@ == before.update(i as int, entry));
                self.entries = entries;
                assert(self.view() == entries_map(before).insert(url@, (etag@, body@)));
                return ;
            }
            i = i + 1;
        }
        let entry = (String::from_str(url), (etag, body));
        let mut entries: Vec<(String, (String, String))> = Vec::new();
        std::mem::swap(&mut entries, &mut self.entries);
        entries.push(entry);
        proof {
            lemma_entries_map_lookup(before);
            assert(entries@.drop_last() =~= before);
            assert forall|a: int, b: int| 0 <= a < b < entries@.len() implies entries@[a].0@
                != entries@[b].0@ by {
                if b == entries@.len() - 1 {
                    assert(before[a].0@ != url@);
                }
            }
        }
        self.entries = entries;
    }
}

impl Default for EtagCache {
    fn default() -> (c: EtagCache)
        ensures
            c.view() == Map::<Seq<char>, (Seq<char>, Seq<char>)>::empty(),
    {
        EtagCache::new()
    }
}

/// What a store writes, a later get of the same address reads; other addresses keep theirs.
pub proof fn lemma_get_after_store(
    before: Map<Seq<char>, (Seq<char>, Seq<char>)>,
    url: Seq<char>,
    etag: Seq<char>,
    body: Seq<char>,
    other: Seq<char>,
)
    requires
        other != url,
    ensures
        before.insert(url, (etag, body)).contains_key(url),
        before.insert(url, (etag, body))[url] == (etag, body),
        before.insert(url, (etag, body)).contains_key(other) == before.contains_key(other),
        before.contains_key(other) ==> before.insert(url, (etag, body))[other] == before[other],
{
}

} // verus!
