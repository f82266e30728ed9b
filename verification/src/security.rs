//! Security decisions of the daemon: authentication tokens with expiry, the
//! record of dropped privileges, and root detection.
//!
//! Time is given in milliseconds since the Unix epoch by the caller, which
//! also supplies the hash that a new token is made from.
use vstd::prelude::*;
use crate::strmap::StrMap;
use crate::text::{hex_lower, hex_lower_string, owned, push_str};

verus! {

/// How long a token stays valid: 24 hours, in milliseconds.
pub const TOKEN_LIFETIME_MS: u64 = 86_400_000;

/// Whether a raw user id is root (`nix::unistd::Uid::is_root`, which compares
/// the id with root's id, 0).
#[verifier::external_body]
fn uid_is_root(raw: u32) -> (r: bool)
    ensures
        r == (raw == 0),
{
    nix::unistd::Uid::from_raw(raw).is_root()
}

/// The text of the token made from `hash`: `razermapper-` and the hash in
/// lower-case hexadecimal.
pub open spec fn token_text(hash: u64) -> Seq<char> {
    "razermapper-"@ + hex_lower(hash as nat)
}

/// Privilege state and authentication tokens of the daemon.
pub struct SecurityManager {
    privileges_dropped: bool,
    auth_tokens: StrMap<u64>,
    token_auth_enabled: bool,
}

impl SecurityManager {
    /// Whether privileges were dropped.
    pub closed spec fn dropped_spec(&self) -> bool {
        self.privileges_dropped
    }

    /// The tokens and the time each one expires at.
    pub closed spec fn tokens(&self) -> StrMap<u64> {
        self.auth_tokens
    }

    /// Whether tokens are checked.
    pub closed spec fn auth_enabled_spec(&self) -> bool {
        self.token_auth_enabled
    }

    /// The manager's invariant.
    pub open spec fn wf(&self) -> bool {
        self.tokens().wf()
    }

    /// Whether `token` is accepted at time `now`: every token is when tokens
    /// are not checked; otherwise only a recorded token that has not expired.
    pub open spec fn accepts(&self, token: Seq<char>, now: u64) -> bool {
        !self.auth_enabled_spec() || (self.tokens().view().contains_key(token)
            && self.tokens().view()[token] > now)
    }

    /// A manager with privileges not yet dropped and no tokens.
    pub fn new(token_auth_enabled: bool) -> (m: Self)
        ensures
            m.wf(),
            !m.dropped_spec(),
            m.tokens().view() == Map::<Seq<char>, u64>::empty(),
            m.auth_enabled_spec() == token_auth_enabled,
    {
        SecurityManager { privileges_dropped: false, auth_tokens: StrMap::new(), token_auth_enabled }
    }

    /// Whether privileges were dropped.
    pub fn privileges_dropped(&self) -> (r: bool)
        ensures
            r == self.dropped_spec(),
    {
        self.privileges_dropped
    }

    /// Whether tokens are checked.
    pub fn token_auth_enabled(&self) -> (r: bool)
        ensures
            r == self.auth_enabled_spec(),
    {
        self.token_auth_enabled
    }

    /// Records that privileges are dropped; returns whether the capabilities
    /// still have to be dropped now (false when that was done before).
    pub fn drop_privileges(&mut self) -> (todo: bool)
        ensures
            todo == !old(self).dropped_spec(),
            final(self).dropped_spec(),
            final(self).tokens() == old(self).tokens(),
            final(self).auth_enabled_spec() == old(self).auth_enabled_spec(),
    {
        if self.privileges_dropped {
            return false;
        }
        self.privileges_dropped = true;
        true
    }

    /// Whether the process with user id `uid` runs as root.
    pub fn is_root(uid: u32) -> (r: bool)
        ensures
            r == (uid == 0),
    {
        uid_is_root(uid)
    }

    /// Forgets the tokens that expire at or before `now`.
    pub fn cleanup_expired_tokens(&mut self, now: u64)
        requires
            old(self).wf(),
        ensures
            final(self).wf(),
            forall|k: Seq<char>|
                #[trigger] final(self).tokens().view().contains_key(k) <==> (old(self).tokens().view().contains_key(k) && old(self).tokens().view()[k] > now),
            forall|k: Seq<char>|
                #[trigger] final(self).tokens().view().contains_key(k) ==> final(self).tokens().view()[k]
                    == old(self).tokens().view()[k],
            final(self).dropped_spec() == old(self).dropped_spec(),
            final(self).auth_enabled_spec() == old(self).auth_enabled_spec(),
    {
        let ghost old_tokens = self.auth_tokens;
        proof {
            old_tokens.lemma_shape();
        }
        let n = self.auth_tokens.len();
        let mut kept: StrMap<u64> = StrMap::new();
        let mut i: usize = 0;
        while i < n
            invariant
                old_tokens == self.auth_tokens,
                old_tokens.wf(),
                n == old_tokens.keys().len(),
                old_tokens.vals().len() == n,
                i <= n,
                kept.wf(),
                forall|k: Seq<char>|
                    #[trigger] kept.view().contains_key(k) <==> exists|j: int|
                        0 <= j < i && old_tokens.keys()[j] == k && old_tokens.vals()[j] > now,
                forall|j: int|
                    0 <= j < i && old_tokens.vals()[j] > now ==> kept.view()[#[trigger] old_tokens.keys()[j]]
                        == old_tokens.vals()[j],
            decreases n - i,
        {
            let exp = *self.auth_tokens.value_at(i);
            if exp > now {
                let key = self.auth_tokens.key_at(i).clone();
                let ghost before = kept.view();
                kept.insert(key, exp);
                proof {
                    assert forall|j: int|
                        0 <= j < i + 1 && old_tokens.vals()[j] > now implies kept.view()[#[trigger] old_tokens.keys()[j]]
                        == old_tokens.vals()[j] by {
                        if j < i {
                            assert(old_tokens.keys()[j] != old_tokens.keys()[i as int]);
                        }
                    }
                    assert forall|k: Seq<char>| #[trigger] kept.view().contains_key(k) <==> exists|j: int|
                        0 <= j < i + 1 && old_tokens.keys()[j] == k && old_tokens.vals()[j] > now by {
                        if k == old_tokens.keys()[i as int] {
                            assert(old_tokens.keys()[i as int] == k && old_tokens.vals()[i as int] > now);
                        }
                        if before.contains_key(k) {
                        }
                    }
                }
            } else {
                proof {
                    assert forall|k: Seq<char>| #[trigger] kept.view().contains_key(k) <==> exists|j: int|
                        0 <= j < i + 1 && old_tokens.keys()[j] == k && old_tokens.vals()[j] > now by {
                        if exists|j: int| 0 <= j < i + 1 && old_tokens.keys()[j] == k && old_tokens.vals()[j] > now {
                            let j = choose|j: int| 0 <= j < i + 1 && old_tokens.keys()[j] == k && old_tokens.vals()[j] > now;
                            assert(j != i);
                        }
                    }
                }
            }
            i = i + 1;
        }
        proof {
            assert forall|k: Seq<char>| #[trigger] kept.view().contains_key(k) <==> (old_tokens.view().contains_key(
                k,
            ) && old_tokens.view()[k] > now) by {
                if old_tokens.view().contains_key(k) {
                    let j = old_tokens.keys().index_of(k);
                    assert(old_tokens.keys()[j] == k);
                    assert(old_tokens.view()[old_tokens.keys()[j]] == old_tokens.vals()[j]);
                }
                if kept.view().contains_key(k) {
                    let j = choose|j: int| 0 <= j < n && old_tokens.keys()[j] == k && old_tokens.vals()[j] > now;
                    assert(old_tokens.view()[old_tokens.keys()[j]] == old_tokens.vals()[j]);
                    assert(old_tokens.keys().contains(k));
                }
            }
            assert forall|k: Seq<char>| #[trigger] kept.view().contains_key(k) implies kept.view()[k]
                == old_tokens.view()[k] by {
                let j = choose|j: int| 0 <= j < n && old_tokens.keys()[j] == k && old_tokens.vals()[j] > now;
                assert(old_tokens.view()[old_tokens.keys()[j]] == old_tokens.vals()[j]);
            }
        }
        self.auth_tokens = kept;
    }

    /// Makes the token for `hash`, records it as valid for 24 hours from
    /// `now`, forgets expired tokens, and returns it.
    pub fn generate_auth_token(&mut self, hash: u64, now: u64) -> (token: String)
        requires
            old(self).wf(),
            now <= u64::MAX - TOKEN_LIFETIME_MS,
        ensures
            final(self).wf(),
            token@ == token_text(hash),
            final(self).tokens().view().contains_key(token@),
            final(self).tokens().view()[token@] == now + TOKEN_LIFETIME_MS,
            forall|k: Seq<char>|
                k != token@ ==> (#[trigger] final(self).tokens().view().contains_key(k) <==> (old(self).tokens().view().contains_key(k) && old(self).tokens().view()[k] > now)),
            forall|k: Seq<char>|
                k != token@ && #[trigger] final(self).tokens().view().contains_key(k) ==> final(self).tokens().view()[k] == old(self).tokens().view()[k],
            final(self).dropped_spec() == old(self).dropped_spec(),
            final(self).auth_enabled_spec() == old(self).auth_enabled_spec(),
    {
        let mut token = owned("razermapper-");
        let hex = hex_lower_string(hash);
        push_str(&mut token, hex.as_str());
        let expiration = now + TOKEN_LIFETIME_MS;
        let ghost before = self.auth_tokens.view();
        self.auth_tokens.insert(token.clone(), expiration);
        self.cleanup_expired_tokens(now);
        token
    }

    /// Records `token` as valid until `expires_at`.
    pub fn record_token(&mut self, token: String, expires_at: u64)
        requires
            old(self).wf(),
        ensures
            final(self).wf(),
            final(self).tokens().view() == old(self).tokens().view().insert(token@, expires_at),
            final(self).dropped_spec() == old(self).dropped_spec(),
            final(self).auth_enabled_spec() == old(self).auth_enabled_spec(),
    {
        self.auth_tokens.insert(token, expires_at);
    }

    /// Whether `token` is accepted at time `now`: always when tokens are not
    /// checked, otherwise only a recorded token that expires after `now`.
    pub fn validate_auth_token(&self, token: &str, now: u64) -> (r: bool)
        requires
            self.wf(),
        ensures
            r == self.accepts(token@, now),
    {
        if !self.token_auth_enabled {
            return true;
        }
        match self.auth_tokens.get(token) {
            Some(expiration) => *expiration > now,
            None => false,
        }
    }
}

/// A security manager with token checks on or off.
pub fn create_security_manager(token_auth_enabled: bool) -> (m: SecurityManager)
    ensures
        m.wf(),
        !m.dropped_spec(),
        m.tokens().view() == Map::<Seq<char>, u64>::empty(),
        m.auth_enabled_spec() == token_auth_enabled,
{
    SecurityManager::new(token_auth_enabled)
}

/// A token that was just generated is accepted until it expires, 24 hours
/// later, and is refused from then on.
pub proof fn lemma_fresh_token_accepted(m: SecurityManager, token: Seq<char>, now: u64, later: u64)
    requires
        m.tokens().view().contains_key(token),
        m.tokens().view()[token] == now + TOKEN_LIFETIME_MS,
    ensures
        later < now + TOKEN_LIFETIME_MS ==> m.accepts(token, later),
        m.auth_enabled_spec() && later >= now + TOKEN_LIFETIME_MS ==> !m.accepts(token, later),
{
}

} // verus!
