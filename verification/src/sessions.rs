//! Session keys and the per-session table of agent handles.

use vstd::prelude::*;
use vstd::string::*;
use vstd::utf8::*;

verus! {

broadcast use vstd::utf8::group_utf8_lib;

/// Prefix of every session key this host hands out.
pub const NATS_SESSION_PREFIX: &'static str = "nats_";

/// What a session key is made of: the configured session when it is not empty,
/// else the reply subject, else `anonymous`.
pub open spec fn session_seed(configured_session: Option<&str>, reply: Option<&str>) -> Seq<char> {
    match configured_session {
        Some(s) if s@.len() > 0 => s@,
        _ => match reply {
            Some(r) => r@,
            None => "anonymous"@,
        },
    }
}

/// The session key for a request.
pub fn session_key_from_request(configured_session: Option<&str>, reply: Option<&str>) -> (k: String)
    ensures
        k@ == NATS_SESSION_PREFIX@ + session_seed(configured_session, reply),
{
    let mut key = String::from_str(NATS_SESSION_PREFIX);
    match configured_session {
        Some(s) if !s.is_empty() => {
            key.append(s);
            return key;
        },
        _ => {},
    }
    let seed: &str = match reply {
        Some(r) => r,
        None => "anonymous",
    };
    key.append(seed);
    key
}

/// `key` with the session prefix removed, when it carries it.
pub open spec fn strip_session_prefix(key: Seq<char>) -> Seq<char> {
    if key.len() >= NATS_SESSION_PREFIX@.len() && key.take(NATS_SESSION_PREFIX@.len() as int)
        == NATS_SESSION_PREFIX@ {
        key.skip(NATS_SESSION_PREFIX@.len() as int)
    } else {
        key
    }
}

/// The part of a session key that names the agent's memory session:
/// the key without its `nats_` prefix.
pub fn memory_session_seed(session_key: &str) -> (seed: &str)
    ensures
        seed@ == strip_session_prefix(session_key@),
{
    proof {
        reveal_strlit("nats_");
    }
    let n = session_key.unicode_len();
    if n >= 5 && session_key.get_char(0) == 'n' && session_key.get_char(1) == 'a'
        && session_key.get_char(2) == 't' && session_key.get_char(3) == 's'
        && session_key.get_char(4) == '_' {
        assert(session_key@.take(5) =~= NATS_SESSION_PREFIX@);
        session_key.substring_char(5, n)
    } else {
        assert(session_key@.len() >= 5 ==> session_key@.take(5) != NATS_SESSION_PREFIX@) by {
            if session_key@.len() >= 5 && session_key@.take(5) == NATS_SESSION_PREFIX@ {
                assert(session_key@.take(5)[0] == 'n');
                assert(session_key@.take(5)[1] == 'a');
                assert(session_key@.take(5)[2] == 't');
                assert(session_key@.take(5)[3] == 's');
                assert(session_key@.take(5)[4] == '_');
            }
        }
        assert(session_key@.subrange(0, n as int) =~= session_key@);
        session_key.substring_char(0, n)
    }
}

/// A configured non-empty session gives every request the same key, whatever
/// its reply subject; without one, the key carries the whole reply subject, so
/// different reply subjects give different keys.
pub proof fn law_session_keys_by_reply(configured_session: Option<&str>, reply1: Option<&str>, reply2: Option<&str>)
    ensures
        (configured_session matches Some(s) && s@.len() > 0) ==> NATS_SESSION_PREFIX@ + session_seed(
            configured_session,
            reply1,
        ) == NATS_SESSION_PREFIX@ + configured_session->0@,
        !(configured_session matches Some(s) && s@.len() > 0) && reply1 is Some ==>
            NATS_SESSION_PREFIX@ + session_seed(configured_session, reply1) == NATS_SESSION_PREFIX@
            + reply1->0@,
        !(configured_session matches Some(s) && s@.len() > 0) && reply1 is Some && reply2 is Some
            && reply1->0@ != reply2->0@ ==> NATS_SESSION_PREFIX@ + session_seed(
            configured_session,
            reply1,
        ) != NATS_SESSION_PREFIX@ + session_seed(configured_session, reply2),
{
    let p = NATS_SESSION_PREFIX@;
    let k1 = p + session_seed(configured_session, reply1);
    let k2 = p + session_seed(configured_session, reply2);
    if k1 == k2 {
        assert(k1.skip(p.len() as int) =~= session_seed(configured_session, reply1));
        assert(k2.skip(p.len() as int) =~= session_seed(configured_session, reply2));
    }
}

/// Stripping the prefix gives back what the key was made of.
pub proof fn law_memory_seed_of_session_key(configured_session: Option<&str>, reply: Option<&str>)
    ensures
        strip_session_prefix(NATS_SESSION_PREFIX@ + session_seed(configured_session, reply))
            == session_seed(configured_session, reply),
{
    let seed = session_seed(configured_session, reply);
    let k = NATS_SESSION_PREFIX@ + seed;
    assert(k.take(NATS_SESSION_PREFIX@.len() as int) =~= NATS_SESSION_PREFIX@);
    assert(k.skip(NATS_SESSION_PREFIX@.len() as int) =~= seed);
}

// ---------------------------------------------------------------------------
// Session table
// ---------------------------------------------------------------------------
/// The map an entry list stands for: later entries win over earlier ones.
pub open spec fn entries_map<A>(entries: Seq<(String, A)>) -> Map<Seq<char>, A>
    decreases entries.len(),
{
    if entries.len() == 0 {
        Map::empty()
    } else {
        entries_map(entries.drop_last()).insert(entries.last().0@, entries.last().1)
    }
}

proof fn lemma_entries_map_absent<A>(entries: Seq<(String, A)>, key: Seq<char>)
    requires
        forall|k: int| 0 <= k < entries.len() ==> (#[trigger] entries[k]).0@ != key,
    ensures
        !entries_map(entries).contains_key(key),
    decreases entries.len(),
{
    if entries.len() > 0 {
        assert(forall|k: int|
            0 <= k < entries.drop_last().len() ==> entries.drop_last()[k] == entries[k]);
        lemma_entries_map_absent(entries.drop_last(), key);
    }
}

proof fn lemma_entries_map_last_match<A>(entries: Seq<(String, A)>, key: Seq<char>, i: int)
    requires
        0 <= i < entries.len(),
        entries[i].0@ == key,
        forall|k: int| i < k < entries.len() ==> (#[trigger] entries[k]).0@ != key,
    ensures
        entries_map(entries).contains_key(key),
        entries_map(entries)[key] == entries[i].1,
    decreases entries.len(),
{
    if i < entries.len() - 1 {
        let d = entries.drop_last();
        assert(forall|k: int| 0 <= k < d.len() ==> d[k] == entries[k]);
        lemma_entries_map_last_match(d, key, i);
    }
}

fn str_eq(a: &str, b: &str) -> (r: bool)
    ensures
        r == (a@ == b@),
{
    let x = a.as_bytes();
    let y = b.as_bytes();
    proof {
        encode_utf8_decode_utf8(a@);
        encode_utf8_decode_utf8(b@);
    }
    if x.len() != y.len() {
        return false;
    }
    let mut i: usize = 0;
    while i < x.len()
        invariant
            0 <= i <= x@.len(),
            x@.len() == y@.len(),
            x@ == a.spec_bytes(),
            y@ == b.spec_bytes(),
            forall|k: int| 0 <= k < i ==> x@[k] == y@[k],
        decreases x@.len() - i,
    {
        if x[i] != y[i] {
            return false;
        }
        i += 1;
    }
    assert(x@ =~= y@);
    true
}

/// No key appears twice in the entry list.
pub open spec fn keys_unique<A>(entries: Seq<(String, A)>) -> bool {
    forall|i: int, j: int|
        0 <= i < entries.len() && 0 <= j < entries.len() && i != j ==> (#[trigger] entries[i]).0@
            != (#[trigger] entries[j]).0@
}

proof fn lemma_entries_map_update<A>(entries: Seq<(String, A)>, i: int, entry: (String, A))
    requires
        keys_unique(entries),
        0 <= i < entries.len(),
        entry.0@ == entries[i].0@,
    ensures
        entries_map(entries.update(i, entry)) == entries_map(entries).insert(entry.0@, entry.1),
    decreases entries.len(),
{
    let u = entries.update(i, entry);
    let d = entries.drop_last();
    if i == entries.len() - 1 {
        assert(u.drop_last() =~= d);
        assert(entries_map(u) =~= entries_map(entries).insert(entry.0@, entry.1));
    } else {
        assert(u.drop_last() =~= d.update(i, entry));
        assert(keys_unique(d)) by {
            assert forall|x: int, y: int|
                0 <= x < d.len() && 0 <= y < d.len() && x != y implies (#[trigger] d[x]).0@ != (
                #[trigger] d[y]).0@ by {
                assert(d[x] == entries[x] && d[y] == entries[y]);
            }
        }
        lemma_entries_map_update(d, i, entry);
        assert(entries[i].0@ != entries.last().0@);
        assert(u.last() == entries.last());
        assert(entries_map(u) =~= entries_map(entries).insert(entry.0@, entry.1));
    }
}

/// The agent handles of live sessions, by session key.
pub struct SessionTable<A> {
    entries: Vec<(String, A)>,
}

impl<A> View for SessionTable<A> {
    type V = Map<Seq<char>, A>;

    closed spec fn view(&self) -> Map<Seq<char>, A> {
        entries_map(self.entries@)
    }
}

impl<A> SessionTable<A> {
    /// Each session key has one entry.
    #[verifier::type_invariant]
    spec fn each_key_once(self) -> bool {
        keys_unique(self.entries@)
    }

    /// A table with no session.
    pub fn new() -> (t: Self)
        ensures
            t@ == Map::<Seq<char>, A>::empty(),
    {
        SessionTable { entries: Vec::new() }
    }

    fn position(&self, key: &str) -> (r: Option<usize>)
        ensures
            match r {
                Some(i) => i < self.entries@.len() && self.entries@[i as int].0@ == key@ && forall|
                    k: int,
                | i < k < self.entries@.len() ==> (#[trigger] self.entries@[k]).0@ != key@,
                None => forall|k: int|
                    0 <= k < self.entries@.len() ==> (#[trigger] self.entries@[k]).0@ != key@,
            },
    {
        let mut i = self.entries.len();
        while i > 0
            invariant
                i <= self.entries@.len(),
                forall|k: int|
                    i <= k < self.entries@.len() ==> (#[trigger] self.entries@[k]).0@ != key@,
            decreases i,
        {
            if str_eq(self.entries[i - 1].0.as_str(), key) {
                return Some(i - 1);
            }
            i -= 1;
        }
        None
    }

    /// The handle stored for `key`, if any.
    pub fn get(&self, key: &str) -> (r: Option<&A>)
        ensures
            r == (if self@.contains_key(key@) {
                Some(&self@[key@])
            } else {
                None
            }),
    {
        match self.position(key) {
            Some(i) => {
                proof {
                    lemma_entries_map_last_match(self.entries@, key@, i as int);
                }
                Some(&self.entries[i].1)
            },
            None => {
                proof {
                    lemma_entries_map_absent(self.entries@, key@);
                }
                None
            },
        }
    }

    /// Stores `value` for `key`, replacing what was stored for it.
    pub fn insert(&mut self, key: String, value: A)
        ensures
            final(self)@ == old(self)@.insert(key@, value),
    {
        proof {
            use_type_invariant(&*self);
        }
        let pos = self.position(key.as_str());
        let mut entries: Vec<(String, A)> = Vec::new();
        std::mem::swap(&mut entries, &mut self.entries);
        let ghost before = entries@;
        match pos {
            Some(i) => {
                proof {
                    lemma_entries_map_update(before, i as int, (key, value));
                }
                entries.set(i, (key, value));
                assert(entries@ == before.update(i as int, (key, value)));
                assert forall|x: int, y: int|
                    0 <= x < entries@.len() && 0 <= y < entries@.len() && x != y implies (
                    #[trigger] entries@[x]).0@ != (#[trigger] entries@[y]).0@ by {
                    assert(before[x].0@ == entries@[x].0@);
                    assert(before[y].0@ == entries@[y].0@);
                }
            },
            None => {
                entries.push((key, value));
                assert(entries@.drop_last() =~= before);
                assert forall|x: int, y: int|
                    0 <= x < entries@.len() && 0 <= y < entries@.len() && x != y implies (
                    #[trigger] entries@[x]).0@ != (#[trigger] entries@[y]).0@ by {
                    if x < before.len() {
                        assert(entries@[x] == before[x]);
                    }
                    if y < before.len() {
                        assert(entries@[y] == before[y]);
                    }
                }
            },
        }
        self.entries = entries;
    }
}

/// A session stored for a key is what later lookups of that key find, and
/// storing it leaves every other key's session as it was.
pub proof fn law_lookup_after_insert<A>(
    before: SessionTable<A>,
    after: SessionTable<A>,
    key: Seq<char>,
    value: A,
    other: Seq<char>,
)
    requires
        after@ == before@.insert(key, value),
    ensures
        after@.contains_key(key),
        after@[key] == value,
        other != key ==> (after@.contains_key(other) == before@.contains_key(other)),
        other != key && before@.contains_key(other) ==> after@[other] == before@[other],
{
}

} // verus!
