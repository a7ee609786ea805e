//! Peer authentication: known public keys, challenge-response and sessions.

use vstd::prelude::*;
use vstd::string::StringSliceAdditionalSpecFns;

use crate::clock::{is_uuid_v4_text, new_uuid_string, unix_now};
use crate::store::KeyedStore;
use crate::text::{hex_lower, is_ascii_alnum, lemma_hex_lower_shape, str_eq, to_hex};

verus! {

// ───────────────────────── outside calls ─────────────────────────

/// `len` characters drawn with `rand::distributions::Alphanumeric`, which
/// samples uniformly from the ASCII letters and digits.
#[verifier::external_body]
fn random_alphanumeric(len: usize) -> (r: String)
    ensures
        r@.len() == len,
        forall|i: int| 0 <= i < r@.len() ==> is_ascii_alnum(#[trigger] r@[i]),
{
    rand::Rng::sample_iter(rand::thread_rng(), &rand::distributions::Alphanumeric)
        .take(len)
        .map(char::from)
        .collect()
}

/// The HMAC-SHA256 tag of `msg` under `key`.
pub uninterp spec fn hmac_sha256_tag(key: Seq<u8>, msg: Seq<u8>) -> Seq<u8>;

/// `Hmac<Sha256>` (crates `hmac` and `sha2`): keyed with `key` (any length is
/// accepted), fed `msg`, finalized. The tag is 32 bytes long.
#[verifier::external_body]
fn hmac_sha256(key: &[u8], msg: &[u8]) -> (r: Vec<u8>)
    ensures
        r@ == hmac_sha256_tag(key@, msg@),
        r@.len() == 32,
{
    let mut mac = <hmac::Hmac<sha2::Sha256> as hmac::Mac>::new_from_slice(key)
        .expect("any key length");
    hmac::Mac::update(&mut mac, msg);
    hmac::Mac::finalize(mac).into_bytes().to_vec()
}

// ───────────────────────── authenticator ─────────────────────────

/// How long an issued challenge stays answerable, in seconds.
pub const CHALLENGE_TTL_SECS: i64 = 60;

/// Whether a challenge issued at `issued` has expired at time `now`.
pub open spec fn challenge_expired(now: i64, issued: i64) -> bool {
    now - issued > CHALLENGE_TTL_SECS
}

fn challenge_expired_at(now: i64, issued: i64) -> (b: bool)
    ensures
        b == challenge_expired(now, issued),
{
    let age: i128 = now as i128 - issued as i128;
    age > CHALLENGE_TTL_SECS as i128
}

/// The answer to a challenge response: the node had a pending challenge, it
/// has not expired, the signature is not empty and the challenge matches.
pub open spec fn challenge_accepted(
    pending: Option<(String, i64)>,
    signature: Seq<char>,
    challenge: Seq<char>,
    now: i64,
) -> bool {
    match pending {
        Some(p) => !challenge_expired(now, p.1) && signature.len() > 0 && p.0@ == challenge,
        None => false,
    }
}

/// The challenges of `m` that have not expired at time `now`.
pub open spec fn unexpired(m: Map<Seq<char>, (String, i64)>, now: i64) -> Map<Seq<char>, (String, i64)> {
    m.restrict(m.dom().filter(|k: Seq<char>| !challenge_expired(now, m[k].1)))
}

/// The pending challenge of `node`, if any.
pub open spec fn pending_of(m: Map<Seq<char>, (String, i64)>, node: Seq<char>) -> Option<(String, i64)> {
    if m.contains_key(node) {
        Some(m[node])
    } else {
        None
    }
}

/// Authentication manager for handling peer authentication.
pub struct Authenticator {
    /// Known public keys by node ID
    known_keys: KeyedStore<String>,
    /// Pending challenges by node ID
    challenges: KeyedStore<(String, i64)>,
}

impl Authenticator {
    pub closed spec fn known_keys(&self) -> Map<Seq<char>, String> {
        self.known_keys.view()
    }

    pub closed spec fn challenges(&self) -> Map<Seq<char>, (String, i64)> {
        self.challenges.view()
    }

    pub closed spec fn wf(&self) -> bool {
        self.known_keys.wf() && self.challenges.wf()
    }

    pub fn new() -> (a: Authenticator)
        ensures
            a.wf(),
            a.known_keys() == Map::<Seq<char>, String>::empty(),
            a.challenges() == Map::<Seq<char>, (String, i64)>::empty(),
    {
        Authenticator { known_keys: KeyedStore::new(), challenges: KeyedStore::new() }
    }

    /// Register a known node's public key.
    pub fn register_known_node(&mut self, node_id: String, public_key: String)
        requires
            old(self).wf(),
        ensures
            final(self).wf(),
            final(self).known_keys() == old(self).known_keys().insert(node_id@, public_key),
            final(self).challenges() == old(self).challenges(),
    {
        self.known_keys.insert(node_id, public_key);
    }

    /// Generate a challenge for a node: 32 random letters and digits,
    /// remembered with the time it was issued.
    pub fn generate_challenge(&mut self, node_id: &str) -> (c: String)
        requires
            old(self).wf(),
        ensures
            final(self).wf(),
            c@.len() == 32,
            forall|i: int| 0 <= i < c@.len() ==> is_ascii_alnum(#[trigger] c@[i]),
            final(self).challenges().contains_key(node_id@),
            final(self).challenges()[node_id@].0 == c,
            final(self).challenges() == old(self).challenges().insert(
                node_id@,
                final(self).challenges()[node_id@],
            ),
            final(self).known_keys() == old(self).known_keys(),
    {
        let challenge = random_alphanumeric(32);
        let timestamp = unix_now();
        self.challenges.insert(String::from_str(node_id), (challenge.clone(), timestamp));
        challenge
    }

    /// Checks a challenge response at time `now`. The pending challenge of the
    /// node is consumed whatever the answer.
    pub fn verify_challenge_at(
        &mut self,
        node_id: &str,
        signature: &str,
        challenge: &str,
        now: i64,
    ) -> (ok: bool)
        requires
            old(self).wf(),
        ensures
            final(self).wf(),
            ok == challenge_accepted(
                pending_of(old(self).challenges(), node_id@),
                signature@,
                challenge@,
                now,
            ),
            final(self).challenges() == old(self).challenges().remove(node_id@),
            final(self).known_keys() == old(self).known_keys(),
    {
        match self.challenges.remove(node_id) {
            Some((stored, timestamp)) => {
                if challenge_expired_at(now, timestamp) {
                    return false;
                }
                crate::text::chars_of(signature).len() > 0 && str_eq(stored.as_str(), challenge)
            },
            None => false,
        }
    }

    /// Checks a challenge response against the clock.
    pub fn verify_challenge(&mut self, node_id: &str, signature: &str, challenge: &str) -> (ok: bool)
        requires
            old(self).wf(),
        ensures
            final(self).wf(),
            exists|now: i64|
                ok == challenge_accepted(
                    pending_of(old(self).challenges(), node_id@),
                    signature@,
                    challenge@,
                    now,
                ),
            final(self).challenges() == old(self).challenges().remove(node_id@),
            final(self).known_keys() == old(self).known_keys(),
    {
        let now = unix_now();
        self.verify_challenge_at(node_id, signature, challenge, now)
    }

    /// The signature of a challenge: HMAC-SHA256 keyed with the private key,
    /// in lowercase hex.
    pub fn sign_challenge(challenge: &str, private_key: &str) -> (s: String)
        ensures
            s@ == hex_lower(hmac_sha256_tag(private_key.spec_bytes(), challenge.spec_bytes())),
            s@.len() == 64,
    {
        let tag = hmac_sha256(private_key.as_bytes(), challenge.as_bytes());
        proof {
            lemma_hex_lower_shape(tag@);
        }
        to_hex(&tag)
    }

    /// A (public, private) key pair: two strings of 64 random letters and digits.
    pub fn generate_key_pair() -> (pair: (String, String))
        ensures
            pair.0@.len() == 64,
            pair.1@.len() == 64,
            forall|i: int| 0 <= i < 64 ==> is_ascii_alnum(#[trigger] pair.0@[i]),
            forall|i: int| 0 <= i < 64 ==> is_ascii_alnum(#[trigger] pair.1@[i]),
    {
        let private = random_alphanumeric(64);
        let public = random_alphanumeric(64);
        (public, private)
    }

    /// Validate a peer's identity: a known node must present its registered
    /// key; an unknown node is accepted.
    pub fn validate_peer(&self, node_id: &str, public_key: &str) -> (ok: bool)
        requires
            self.wf(),
        ensures
            ok == if self.known_keys().contains_key(node_id@) {
                self.known_keys()[node_id@]@ == public_key@
            } else {
                true
            },
    {
        match self.known_keys.get(node_id) {
            Some(stored) => str_eq(stored.as_str(), public_key),
            None => true,
        }
    }

    /// Drops the challenges that have expired at time `now`.
    pub fn clear_expired_at(&mut self, now: i64)
        requires
            old(self).wf(),
        ensures
            final(self).wf(),
            final(self).known_keys() == old(self).known_keys(),
            final(self).challenges() == unexpired(old(self).challenges(), now),
    {
        let ghost start = self.challenges.view();
        let keys = self.challenges.keys();
        proof {
            self.challenges.lemma_order();
        }
        let ghost ks = crate::text::string_views(keys@);
        let mut i: usize = 0;
        while i < keys.len()
            invariant
                i <= keys@.len(),
                ks == crate::text::string_views(keys@),
                ks.no_duplicates(),
                forall|k: Seq<char>| start.contains_key(k) <==> ks.contains(k),
                self.challenges.wf(),
                self.known_keys.wf(),
                self.known_keys.view() == old(self).known_keys.view(),
                start == old(self).challenges.view(),
                self.challenges.view() == start.restrict(
                    start.dom().filter(
                        |k: Seq<char>|
                            !(challenge_expired(now, start[k].1) && ks.take(i as int).contains(k)),
                    ),
                ),
            decreases keys@.len() - i,
        {
            let key = keys[i].as_str();
            let ghost before = self.challenges.view();
            let expired = match self.challenges.get(key) {
                Some(entry) => challenge_expired_at(now, entry.1),
                None => false,
            };
            if expired {
                self.challenges.remove(key);
            }
            assert(ks[i as int] == key@);
            assert(self.challenges.view() =~= start.restrict(
                start.dom().filter(
                    |k: Seq<char>|
                        !(challenge_expired(now, start[k].1) && ks.take(i + 1).contains(k)),
                ),
            )) by {
                assert forall|k: Seq<char>| ks.take(i + 1).contains(k) == (ks.take(i as int).contains(k) || k == key@) by {
                    if ks.take(i + 1).contains(k) {
                        let j = choose|j: int| 0 <= j < i + 1 && #[trigger] ks.take(i + 1)[j] == k;
                        if j < i {
                            assert(ks.take(i as int)[j] == k);
                        }
                    }
                    if ks.take(i as int).contains(k) {
                        let j = choose|j: int| 0 <= j < i && #[trigger] ks.take(i as int)[j] == k;
                        assert(ks.take(i + 1)[j] == k);
                    }
                    if k == key@ {
                        assert(ks.take(i + 1)[i as int] == k);
                    }
                }
                assert forall|k: Seq<char>| ks.take(i as int).contains(k) implies k != key@ by {
                    let j = choose|j: int| 0 <= j < i && #[trigger] ks.take(i as int)[j] == k;
                    assert(ks[j] == k);
                }
            }
            i = i + 1;
        }
        assert(ks.take(keys@.len() as int) =~= ks);
        assert(self.challenges.view() =~= unexpired(start, now));
    }

    /// Drops the challenges that have expired by the clock.
    pub fn clear_expired(&mut self)
        requires
            old(self).wf(),
        ensures
            final(self).wf(),
            final(self).known_keys() == old(self).known_keys(),
            exists|now: i64| final(self).challenges() == #[trigger] unexpired(old(self).challenges(), now),
    {
        let now = unix_now();
        self.clear_expired_at(now);
        assert(final(self).challenges() == unexpired(old(self).challenges(), now));
    }
}

// ───────────────────────── sessions ─────────────────────────

/// How long a session survives without activity, in seconds.
pub const SESSION_TTL_SECS: i64 = 86400;

/// Session management for authenticated connections.
#[derive(Debug, Clone)]
pub struct Session {
    pub node_id: String,
    pub session_id: String,
    pub established_at: i64,
    pub last_activity: i64,
}

/// A session after activity recorded at `now`.
pub open spec fn touched(s: Session, now: i64) -> Session {
    Session { last_activity: now, ..s }
}

/// Whether a session last active at `last` is still valid at time `now`.
pub open spec fn session_valid(now: i64, last: i64) -> bool {
    now - last < SESSION_TTL_SECS
}

impl Session {
    /// A new session for a node, with a random id, established now.
    pub fn new(node_id: String) -> (s: Session)
        ensures
            s.node_id == node_id,
            is_uuid_v4_text(s.session_id@),
            s.established_at == s.last_activity,
    {
        let session_id = new_uuid_string();
        let now = unix_now();
        Session { node_id, session_id, established_at: now, last_activity: now }
    }

    /// A copy of the session.
    pub fn duplicate(&self) -> (r: Session)
        ensures
            r == *self,
    {
        Session {
            node_id: self.node_id.clone(),
            session_id: self.session_id.clone(),
            established_at: self.established_at,
            last_activity: self.last_activity,
        }
    }

    /// Records activity at time `now`.
    pub fn touch_at(&mut self, now: i64)
        ensures
            final(self).node_id == old(self).node_id,
            final(self).session_id == old(self).session_id,
            final(self).established_at == old(self).established_at,
            final(self).last_activity == now,
    {
        self.last_activity = now;
    }

    /// Records activity now.
    pub fn update_activity(&mut self)
        ensures
            final(self).node_id == old(self).node_id,
            final(self).session_id == old(self).session_id,
            final(self).established_at == old(self).established_at,
    {
        let now = unix_now();
        self.touch_at(now);
    }

    pub fn is_valid_at(&self, now: i64) -> (b: bool)
        ensures
            b == session_valid(now, self.last_activity),
    {
        let idle: i128 = now as i128 - self.last_activity as i128;
        idle < SESSION_TTL_SECS as i128
    }

    /// Whether the session is still valid by the clock.
    pub fn is_valid(&self) -> (b: bool)
        ensures
            exists|now: i64| b == session_valid(now, self.last_activity),
    {
        let now = unix_now();
        self.is_valid_at(now)
    }
}

/// Session manager: one session per node.
pub struct SessionManager {
    sessions: KeyedStore<Session>,
}

impl SessionManager {
    pub closed spec fn sessions(&self) -> Map<Seq<char>, Session> {
        self.sessions.view()
    }

    pub closed spec fn wf(&self) -> bool {
        self.sessions.wf()
    }

    pub fn new() -> (m: SessionManager)
        ensures
            m.wf(),
            m.sessions() == Map::<Seq<char>, Session>::empty(),
    {
        SessionManager { sessions: KeyedStore::new() }
    }

    /// Opens a new session for the node, replacing any previous one.
    pub fn create_session(&mut self, node_id: String) -> (s: Session)
        requires
            old(self).wf(),
        ensures
            final(self).wf(),
            s.node_id == node_id,
            final(self).sessions() == old(self).sessions().insert(node_id@, s),
    {
        let key = node_id.clone();
        let session = Session::new(node_id);
        self.sessions.insert(key, session.duplicate());
        session
    }

    pub fn get_session(&self, node_id: &str) -> (r: Option<Session>)
        requires
            self.wf(),
        ensures
            match r {
                Some(s) => self.sessions().contains_key(node_id@) && self.sessions()[node_id@] == s,
                None => !self.sessions().contains_key(node_id@),
            },
    {
        match self.sessions.get(node_id) {
            Some(s) => Some(s.duplicate()),
            None => None,
        }
    }

    /// Records activity of the node's session at time `now`, if it has one.
    pub fn update_activity_at(&mut self, node_id: &str, now: i64)
        requires
            old(self).wf(),
        ensures
            final(self).wf(),
            final(self).sessions().dom() == old(self).sessions().dom(),
            old(self).sessions().contains_key(node_id@) ==> final(self).sessions() == old(
                self,
            ).sessions().insert(
                node_id@,
                Session { last_activity: now, ..old(self).sessions()[node_id@] },
            ),
            !old(self).sessions().contains_key(node_id@) ==> final(self).sessions() == old(
                self,
            ).sessions(),
    {
        let current = match self.sessions.get(node_id) {
            Some(s) => Some(s.duplicate()),
            None => None,
        };
        match current {
            Some(mut s) => {
                s.touch_at(now);
                self.sessions.set_value(node_id, s);
                assert(self.sessions().dom() =~= old(self).sessions().dom());
            },
            None => {},
        }
    }

    /// Records activity of the node's session now, if it has one.
    pub fn update_activity(&mut self, node_id: &str)
        requires
            old(self).wf(),
        ensures
            final(self).wf(),
            final(self).sessions().dom() == old(self).sessions().dom(),
            old(self).sessions().contains_key(node_id@) ==> exists|now: i64|
                final(self).sessions() == old(self).sessions().insert(
                    node_id@,
                    #[trigger] touched(old(self).sessions()[node_id@], now),
                ),
            !old(self).sessions().contains_key(node_id@) ==> final(self).sessions() == old(
                self,
            ).sessions(),
    {
        let now = unix_now();
        self.update_activity_at(node_id, now);
        assert(old(self).sessions().contains_key(node_id@) ==> final(self).sessions() == old(
            self,
        ).sessions().insert(node_id@, touched(old(self).sessions()[node_id@], now)));
    }

    pub fn remove_session(&mut self, node_id: &str)
        requires
            old(self).wf(),
        ensures
            final(self).wf(),
            final(self).sessions() == old(self).sessions().remove(node_id@),
    {
        self.sessions.remove(node_id);
    }
}

/// A challenge answers once: after a check consumed it, the same answer is
/// refused, whatever the time.
pub proof fn lemma_challenge_single_use(
    challenges: Map<Seq<char>, (String, i64)>,
    node_id: Seq<char>,
    signature: Seq<char>,
    challenge: Seq<char>,
    now: i64,
)
    ensures
        !challenge_accepted(pending_of(challenges.remove(node_id), node_id), signature, challenge, now),
{
}

/// A response is accepted exactly when the node has a pending challenge
/// that has not expired, the response is that challenge, and a signature
/// was sent.
pub proof fn lemma_challenge_accepted(
    challenges: Map<Seq<char>, (String, i64)>,
    node_id: Seq<char>,
    signature: Seq<char>,
    challenge: Seq<char>,
    now: i64,
)
    ensures
        challenge_accepted(pending_of(challenges, node_id), signature, challenge, now) <==> (
        challenges.contains_key(node_id) && !challenge_expired(now, challenges[node_id].1)
            && challenges[node_id].0@ == challenge && signature.len() > 0),
{
}

/// A challenge stays answerable for one minute after it was issued, and no
/// longer: up to sixty seconds after issue the right challenge with a
/// signature is accepted, past that it is refused.
pub proof fn lemma_challenge_lifetime(c: String, issued: i64, now: i64, signature: Seq<char>)
    ensures
        challenge_expired(now, issued) <==> now - issued > 60,
        now - issued > 60 ==> !challenge_accepted(Some((c, issued)), signature, c@, now),
        now - issued <= 60 && signature.len() > 0 ==> challenge_accepted(
            Some((c, issued)),
            signature,
            c@,
            now,
        ),
{
}

/// A session stays valid for a day after its last activity, and no longer.
pub proof fn lemma_session_lifetime(last: i64, now: i64)
    ensures
        last <= now < last + SESSION_TTL_SECS ==> session_valid(now, last),
        now >= last + SESSION_TTL_SECS ==> !session_valid(now, last),
{
}

} // verus!
