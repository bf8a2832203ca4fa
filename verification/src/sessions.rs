//! The open client sessions of the desktop program, by session id.
//!
//! Each connected server gets a session id; later requests name it. A
//! request for an id that is not open fails with "no such session".
use vstd::prelude::*;

verus! {

/// The map that a list of (id, session) pairs records; a later pair for the
/// same id replaces an earlier one.
pub open spec fn session_map<S>(s: Seq<(String, S)>) -> Map<Seq<char>, S>
    decreases s.len(),
{
    if s.len() == 0 {
        Map::empty()
    } else {
        session_map(s.drop_last()).insert(s.last().0@, s.last().1)
    }
}

/// No id occurs twice.
pub open spec fn distinct_ids<S>(s: Seq<(String, S)>) -> bool {
    forall|i: int, j: int| 0 <= i < j < s.len() ==> s[i].0@ != s[j].0@
}

proof fn lemma_session_has<S>(s: Seq<(String, S)>, i: int)
    requires
        distinct_ids(s),
        0 <= i < s.len(),
    ensures
        session_map(s).contains_key(s[i].0@),
        session_map(s)[s[i].0@] == s[i].1,
    decreases s.len(),
{
    if i < s.len() - 1 {
        lemma_session_has(s.drop_last(), i);
    }
}

proof fn lemma_session_lacks<S>(s: Seq<(String, S)>, k: Seq<char>)
    requires
        forall|i: int| 0 <= i < s.len() ==> s[i].0@ != k,
    ensures
        !session_map(s).contains_key(k),
    decreases s.len(),
{
    if s.len() > 0 {
        lemma_session_lacks(s.drop_last(), k);
    }
}

proof fn lemma_session_update<S>(s: Seq<(String, S)>, i: int, e: (String, S))
    requires
        distinct_ids(s),
        0 <= i < s.len(),
        e.0@ == s[i].0@,
    ensures
        session_map(s.update(i, e)) == session_map(s).insert(e.0@, e.1),
        distinct_ids(s.update(i, e)),
    decreases s.len(),
{
    let t = s.update(i, e);
    if i == s.len() - 1 {
        assert(t.drop_last() =~= s.drop_last());
        assert(session_map(t) =~= session_map(s).insert(e.0@, e.1));
    } else {
        assert(t.drop_last() =~= s.drop_last().update(i, e));
        lemma_session_update(s.drop_last(), i, e);
        assert(session_map(t) =~= session_map(s).insert(e.0@, e.1));
    }
}

proof fn lemma_session_remove<S>(s: Seq<(String, S)>, i: int)
    requires
        distinct_ids(s),
        0 <= i < s.len(),
    ensures
        session_map(s.remove(i)) == session_map(s).remove(s[i].0@),
        distinct_ids(s.remove(i)),
    decreases s.len(),
{
    let k = s[i].0@;
    let t = s.remove(i);
    if i == s.len() - 1 {
        assert(t =~= s.drop_last());
        lemma_session_lacks(s.drop_last(), k);
        assert(session_map(t) =~= session_map(s).remove(k));
    } else {
        assert(t.drop_last() =~= s.drop_last().remove(i));
        assert(t.last() == s.last());
        lemma_session_remove(s.drop_last(), i);
        assert(session_map(t) =~= session_map(s).remove(k));
    }
}

/// Why a session request is refused.
#[derive(Debug, Clone, Copy, PartialEq, Eq)]
pub enum SessionError {
    /// No session is open under the id.
    NoSuchSession,
}

/// The open sessions, by id.
pub struct SessionTable<S> {
    entries: Vec<(String, S)>,
}

impl<S> View for SessionTable<S> {
    type V = Map<Seq<char>, S>;

    open spec fn view(&self) -> Map<Seq<char>, S> {
        session_map(self.pairs())
    }
}

impl<S> SessionTable<S> {
    /// The (id, session) pairs, in the order they are kept.
    pub closed spec fn pairs(&self) -> Seq<(String, S)> {
        self.entries@
    }

    #[verifier::type_invariant]
    spec fn no_duplicate_ids(self) -> bool {
        distinct_ids(self.entries@)
    }

    /// No session is open.
    pub fn new() -> (t: Self)
        ensures
            t@ == Map::<Seq<char>, S>::empty(),
    {
        SessionTable { entries: Vec::new() }
    }

    fn position(&self, id: &str) -> (r: Option<usize>)
        ensures
            match r {
                Some(i) => i < self.entries@.len() && self.entries@[i as int].0@ == id@,
                None => forall|i: int| 0 <= i < self.entries@.len() ==> self.entries@[i].0@ != id@,
            },
    {
        let key = id.to_owned();
        let mut i: usize = 0;
        while i < self.entries.len()
            invariant
                i <= self.entries@.len(),
                key@ == id@,
                forall|j: int| 0 <= j < i ==> self.entries@[j].0@ != id@,
            decreases self.entries@.len() - i,
        {
            if self.entries[i].0 == key {
                return Some(i);
            }
            i = i + 1;
        }
        None
    }

    /// Whether a session is open under `id`.
    pub fn contains(&self, id: &str) -> (b: bool)
        ensures
            b == self@.contains_key(id@),
    {
        proof {
            use_type_invariant(self);
        }
        match self.position(id) {
            Some(i) => {
                proof {
                    lemma_session_has(self.entries@, i as int);
                }
                true
            },
            None => {
                proof {
                    lemma_session_lacks(self.entries@, id@);
                }
                false
            },
        }
    }

    /// The session open under `id`, for a request that names it; refused if
    /// none is open.
    pub fn get(&self, id: &str) -> (r: Result<&S, SessionError>)
        ensures
            match r {
                Ok(s) => self@.contains_key(id@) && *s == self@[id@],
                Err(e) => !self@.contains_key(id@) && e == SessionError::NoSuchSession,
            },
    {
        proof {
            use_type_invariant(self);
        }
        match self.position(id) {
            Some(i) => {
                proof {
                    lemma_session_has(self.entries@, i as int);
                }
                Ok(&self.entries[i].1)
            },
            None => {
                proof {
                    lemma_session_lacks(self.entries@, id@);
                }
                Err(SessionError::NoSuchSession)
            },
        }
    }

    /// Opens `session` under `id`, replacing any session open under it.
    pub fn insert(&mut self, id: String, session: S)
        ensures
            final(self)@ == old(self)@.insert(id@, session),
    {
        proof {
            use_type_invariant(&*self);
        }
        let ghost before = self.entries@;
        let found = self.position(id.as_str());
        let mut entries: Vec<(String, S)> = Vec::new();
        std::mem::swap(&mut entries, &mut self.entries);
        match found {
            Some(i) => {
                proof {
                    lemma_session_update(before, i as int, (id, session));
                }
                entries.set(i, (id, session));
            },
            None => {
                entries.push((id, session));
                assert(entries@.drop_last() =~= before);
                assert(distinct_ids(entries@));
            },
        }
        self.entries = entries;
    }

    /// Closes the session under `id`, handing it back; refused if none is open.
    pub fn remove(&mut self, id: &str) -> (r: Result<S, SessionError>)
        ensures
            final(self)@ == old(self)@.remove(id@),
            match r {
                Ok(s) => old(self)@.contains_key(id@) && s == old(self)@[id@],
                Err(e) => !old(self)@.contains_key(id@) && e == SessionError::NoSuchSession,
            },
    {
        proof {
            use_type_invariant(&*self);
        }
        let ghost before = self.entries@;
        match self.position(id) {
            Some(i) => {
                proof {
                    lemma_session_has(before, i as int);
                    lemma_session_remove(before, i as int);
                }
                let mut entries: Vec<(String, S)> = Vec::new();
                std::mem::swap(&mut entries, &mut self.entries);
                let (_, s) = entries.remove(i);
                self.entries = entries;
                Ok(s)
            },
            None => {
                proof {
                    lemma_session_lacks(before, id@);
                    assert(self@.remove(id@) =~= self@);
                }
                Err(SessionError::NoSuchSession)
            },
        }
    }
}

/// A session opened under an id is the one a later request under that id gets.
pub proof fn law_open_then_find<S>(m: Map<Seq<char>, S>, id: Seq<char>, session: S)
    ensures
        m.insert(id, session).contains_key(id),
        m.insert(id, session)[id] == session,
{
}

/// Closing a session leaves the others as they were, and its id unknown.
pub proof fn law_close_is_local<S>(m: Map<Seq<char>, S>, id: Seq<char>, other: Seq<char>)
    requires
        other != id,
    ensures
        !m.remove(id).contains_key(id),
        m.remove(id).contains_key(other) == m.contains_key(other),
        m.contains_key(other) ==> m.remove(id)[other] == m[other],
{
}

} // verus!
