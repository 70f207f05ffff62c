//! The event cache: the latest event of each path, owned by one task that
//! serves requests one at a time.
//!
//! Entries keep the order in which their paths first arrived. An upsert of
//! a known path replaces its event in place; `pop` removes the oldest path.
use vstd::prelude::*;
use crate::event::Data;

verus! {

/// No path occurs twice.
pub open spec fn paths_unique(s: Seq<(String, Data)>) -> bool {
    forall|i: int, j: int| 0 <= i < j < s.len() ==> s[i].0@ != s[j].0@
}

/// Whether some entry is for path `k`.
pub open spec fn has_path(s: Seq<(String, Data)>, k: Seq<char>) -> bool {
    exists|i: int| 0 <= i < s.len() && s[i].0@ == k
}

/// The position of the entry for path `k`.
pub open spec fn path_index(s: Seq<(String, Data)>, k: Seq<char>) -> int
    recommends
        has_path(s, k),
{
    choose|i: int| 0 <= i < s.len() && s[i].0@ == k
}

/// The event held for path `k`, if any.
pub open spec fn lookup(s: Seq<(String, Data)>, k: Seq<char>) -> Option<Data> {
    if has_path(s, k) {
        Some(s[path_index(s, k)].1)
    } else {
        None
    }
}

/// The entries after an upsert: a known path has its entry replaced where
/// it stands, a new one is added at the end.
pub open spec fn put_spec(s: Seq<(String, Data)>, path: String, data: Data) -> Seq<(String, Data)> {
    if has_path(s, path@) {
        s.update(path_index(s, path@), (path, data))
    } else {
        s.push((path, data))
    }
}

/// A request to the cache's owner.
pub enum CacheRequest {
    Put(String, Data),
    Get,
    Pop,
    IsEmpty,
}

/// A reply of the cache's owner.
pub enum CacheResponse {
    Get(Vec<(String, Data)>),
    IsEmpty(bool),
    Pop(Option<(String, Data)>),
}

/// What a request leads to, as seen by the caller.
pub enum Reply {
    Nothing,
    Snapshot(Seq<(String, Data)>),
    Empty(bool),
    Popped(Option<(String, Data)>),
}

/// The caller's view of an optional response.
pub open spec fn reply_of(r: Option<CacheResponse>) -> Reply {
    match r {
        None => Reply::Nothing,
        Some(CacheResponse::Get(v)) => Reply::Snapshot(v@),
        Some(CacheResponse::IsEmpty(b)) => Reply::Empty(b),
        Some(CacheResponse::Pop(p)) => Reply::Popped(p),
    }
}

/// The entries after serving `req`, and the reply.
pub open spec fn step(s: Seq<(String, Data)>, req: CacheRequest) -> (Seq<(String, Data)>, Reply) {
    match req {
        CacheRequest::Put(path, data) => (put_spec(s, path, data), Reply::Nothing),
        CacheRequest::Get => (s, Reply::Snapshot(s)),
        CacheRequest::Pop => if s.len() == 0 {
            (s, Reply::Popped(None))
        } else {
            (s.drop_first(), Reply::Popped(Some(s[0])))
        },
        CacheRequest::IsEmpty => (s, Reply::Empty(s.len() == 0)),
    }
}

/// The latest event of each path seen so far.
pub struct EventCache {
    entries: Vec<(String, Data)>,
}

impl View for EventCache {
    type V = Seq<(String, Data)>;

    closed spec fn view(&self) -> Seq<(String, Data)> {
        self.entries@
    }
}

impl EventCache {
    /// At most one entry per path.
    pub open spec fn wf(&self) -> bool {
        paths_unique(self@)
    }

    pub fn new() -> (r: EventCache)
        ensures
            r.wf(),
            r@ == Seq::<(String, Data)>::empty(),
    {
        EventCache { entries: Vec::new() }
    }

    /// Inserts or overwrites the event of `path`.
    pub fn put(&mut self, path: String, data: Data)
        requires
            old(self).wf(),
        ensures
            final(self).wf(),
            final(self)@ == put_spec(old(self)@, path, data),
    {
        let ghost s = self.entries@;
        let n = self.entries.len();
        let mut i: usize = 0;
        while i < n
            invariant
                s == self.entries@,
                s == old(self)@,
                paths_unique(s),
                n == s.len(),
                i <= n,
                forall|j: int| 0 <= j < i ==> s[j].0@ != path@,
            decreases n - i,
        {
            if self.entries[i].0 == path {
                assert(has_path(s, path@));
                assert(path_index(s, path@) == i);
                self.entries.set(i, (path, data));
                return;
            }
            i = i + 1;
        }
        assert(!has_path(s, path@));
        self.entries.push((path, data));
    }

    /// A copy of every entry, in order; the cache is left as it was.
    pub fn get(&self) -> (r: Vec<(String, Data)>)
        ensures
            r@ == self@,
    {
        let mut out: Vec<(String, Data)> = Vec::new();
        let mut i: usize = 0;
        while i < self.entries.len()
            invariant
                i <= self.entries@.len(),
                out@ =~= self.entries@.take(i as int),
            decreases self.entries@.len() - i,
        {
            let e = &self.entries[i];
            out.push((e.0.clone(), e.1.duplicate()));
            i = i + 1;
        }
        out
    }

    /// Removes and returns the oldest entry, if there is one.
    pub fn pop(&mut self) -> (r: Option<(String, Data)>)
        requires
            old(self).wf(),
        ensures
            final(self).wf(),
            old(self)@.len() == 0 ==> r is None && final(self)@ == old(self)@,
            old(self)@.len() > 0 ==> r == Some(old(self)@[0]) && final(self)@ == old(
                self,
            )@.drop_first(),
    {
        if self.entries.len() == 0 {
            None
        } else {
            let e = self.entries.remove(0);
            assert(self.entries@ =~= old(self)@.drop_first());
            Some(e)
        }
    }

    pub fn is_empty(&self) -> (r: bool)
        ensures
            r == (self@.len() == 0),
    {
        self.entries.len() == 0
    }

    /// The number of distinct paths held.
    pub fn len(&self) -> (r: usize)
        ensures
            r == self@.len(),
    {
        self.entries.len()
    }

    /// Serves one request to completion: the cache's owner calls this for
    /// each request in the order they arrive.
    pub fn handle(&mut self, req: CacheRequest) -> (r: Option<CacheResponse>)
        requires
            old(self).wf(),
        ensures
            final(self).wf(),
            (final(self)@, reply_of(r)) == step(old(self)@, req),
    {
        match req {
            CacheRequest::Put(path, data) => {
                self.put(path, data);
                None
            },
            CacheRequest::Get => Some(CacheResponse::Get(self.get())),
            CacheRequest::Pop => Some(CacheResponse::Pop(self.pop())),
            CacheRequest::IsEmpty => Some(CacheResponse::IsEmpty(self.is_empty())),
        }
    }
}

/// The entries after upserting each event of `events` to `path`, in order.
pub open spec fn put_all(s: Seq<(String, Data)>, path: String, events: Seq<Data>) -> Seq<
    (String, Data),
>
    decreases events.len(),
{
    if events.len() == 0 {
        s
    } else {
        put_spec(put_all(s, path, events.drop_last()), path, events.last())
    }
}

/// The entries after `n` pops.
pub open spec fn pops(s: Seq<(String, Data)>, n: nat) -> Seq<(String, Data)>
    decreases n,
{
    if n == 0 {
        s
    } else {
        step(pops(s, (n - 1) as nat), CacheRequest::Pop).0
    }
}

/// An upsert keeps paths unique, makes `path` hold `data`, and leaves
/// every other path as it was.
proof fn lemma_put(s: Seq<(String, Data)>, path: String, data: Data)
    requires
        paths_unique(s),
    ensures
        paths_unique(put_spec(s, path, data)),
        lookup(put_spec(s, path, data), path@) == Some(data),
        forall|k: Seq<char>| k != path@ ==> #[trigger] lookup(put_spec(s, path, data), k) == lookup(s, k),
{
    let r = put_spec(s, path, data);
    if has_path(s, path@) {
        let i = path_index(s, path@);
        assert(r[i].0@ == path@);
        assert forall|k: Seq<char>| k != path@ implies #[trigger] lookup(r, k) == lookup(s, k) by {
            if has_path(s, k) {
                let j = path_index(s, k);
                assert(r[j].0@ == k);
            }
            if has_path(r, k) {
                let j = path_index(r, k);
                assert(s[j].0@ == k);
            }
        }
    } else {
        let n = s.len() as int;
        assert(r[n].0@ == path@);
        assert forall|k: Seq<char>| k != path@ implies #[trigger] lookup(r, k) == lookup(s, k) by {
            if has_path(s, k) {
                let j = path_index(s, k);
                assert(r[j].0@ == k);
            }
            if has_path(r, k) {
                let j = path_index(r, k);
                assert(s[j].0@ == k);
            }
        }
    }
}

/// Last write wins: after upserting any non-empty sequence of events to one
/// path, the cache holds exactly one entry for that path (paths stay
/// unique), and it is the last event; every other path keeps its event.
pub proof fn lemma_last_write_wins(s: Seq<(String, Data)>, path: String, events: Seq<Data>)
    requires
        paths_unique(s),
        events.len() > 0,
    ensures
        paths_unique(put_all(s, path, events)),
        lookup(put_all(s, path, events), path@) == Some(events.last()),
        forall|k: Seq<char>|
            k != path@ ==> #[trigger] lookup(put_all(s, path, events), k) == lookup(s, k),
    decreases events.len(),
{
    let prev = put_all(s, path, events.drop_last());
    if events.len() == 1 {
        assert(prev == s);
    } else {
        lemma_last_write_wins(s, path, events.drop_last());
    }
    lemma_put(prev, path, events.last());
}

/// A snapshot changes nothing: taking a second one right after the first
/// gives the same entries.
pub proof fn lemma_snapshot_repeatable(s: Seq<(String, Data)>)
    ensures
        step(s, CacheRequest::Get).0 == s,
        step(step(s, CacheRequest::Get).0, CacheRequest::Get).1 == step(s, CacheRequest::Get).1,
{
}

proof fn lemma_pops_suffix(s: Seq<(String, Data)>, n: nat)
    requires
        n <= s.len(),
    ensures
        pops(s, n) == s.subrange(n as int, s.len() as int),
    decreases n,
{
    if n == 0 {
        assert(s.subrange(0, s.len() as int) =~= s);
    } else {
        lemma_pops_suffix(s, (n - 1) as nat);
        assert(s.subrange(n - 1, s.len() as int).drop_first() =~= s.subrange(
            n as int,
            s.len() as int,
        ));
    }
}

/// Popping drains the cache: with N distinct paths, pops return the
/// entries one at a time, oldest first, and after exactly N pops the cache
/// is empty, reports so, and a further pop returns nothing.
pub proof fn lemma_pops_drain(s: Seq<(String, Data)>)
    requires
        paths_unique(s),
    ensures
        s.map_values(|e: (String, Data)| e.0@).to_set().len() == s.len(),
        forall|k: int|
            0 <= k < s.len() ==> #[trigger] step(pops(s, k as nat), CacheRequest::Pop).1
                == Reply::Popped(Some(s[k])),
        pops(s, s.len()).len() == 0,
        step(pops(s, s.len()), CacheRequest::IsEmpty).1 == Reply::Empty(true),
        step(pops(s, s.len()), CacheRequest::Pop).1 == Reply::Popped(None),
{
    let keys = s.map_values(|e: (String, Data)| e.0@);
    assert(keys.no_duplicates()) by {
        assert forall|i: int, j: int| 0 <= i < keys.len() && 0 <= j < keys.len() && i != j implies keys[i]
            != keys[j] by {
            if i < j {
                assert(s[i].0@ != s[j].0@);
            } else {
                assert(s[j].0@ != s[i].0@);
            }
        }
    }
    keys.unique_seq_to_set();
    assert forall|k: int| 0 <= k < s.len() implies #[trigger] step(
        pops(s, k as nat),
        CacheRequest::Pop,
    ).1 == Reply::Popped(Some(s[k])) by {
        lemma_pops_suffix(s, k as nat);
    }
    lemma_pops_suffix(s, s.len());
}

} // verus!
