//! Temporary/permanent passwords and two-factor secrets.
//!
//! The store owns the in-memory credential state: a short rotating
//! temporary password, the mirror of the user-set permanent password, the
//! at-most-one active two-factor secret, and the per-peer credential
//! cache.  Persistence belongs to an external configuration collaborator;
//! its success or failure arrives here as a plain value, and a failed
//! persist is surfaced as `PersistFailed` without touching the stored
//! value the collaborator still holds.

use vstd::prelude::*;

use crate::encoding::{base32_encode, base32_of};
use crate::text::push_char;

verus! {

/// Errors surfaced by credential mutations.
#[derive(Clone, Copy, PartialEq, Eq, Structural, Debug)]
pub enum CredentialError {
    /// The in-memory value changed but the configuration collaborator
    /// failed to persist it.
    PersistFailed,
}

/// Relies on `rand::random`: a value drawn from thread-local randomness.
/// Nothing is promised of which value comes back.
pub assume_specification<T>[ rand::random::<T> ]() -> (r: T)
    where
        rand::distributions::Standard: rand::distributions::Distribution<T>,
;

/// The six-digit time-based one-time code for `secret` at time step
/// `step` (RFC 6238: HMAC-SHA1, 30-second steps, six digits).  A pure
/// function of the secret bytes and the step index.
pub uninterp spec fn totp_code_of(secret: Seq<u8>, step: int) -> Seq<char>;

/// Relies on `totp_rs::TOTP::generate`: the code it returns depends only
/// on the secret bytes and on `time / 30` (the step index), and is always
/// rendered as exactly six digits.
#[verifier::external_body]
fn totp_code(secret: &Vec<u8>, time: u64) -> (r: String)
    ensures
        r@ == totp_code_of(secret@, time as int / 30),
        r@.len() == 6,
{
    let totp = totp_rs::TOTP::new_unchecked(totp_rs::Algorithm::SHA1, 6, 1, 30, secret.clone());
    totp.generate(time)
}

/// A well-formed temporary password: six decimal digits.
pub open spec fn valid_temp_password(s: Seq<char>) -> bool {
    s.len() == 6 && (forall|i: int| 0 <= i < s.len() ==> 48 <= #[trigger] s[i] as int <= 57)
}

/// Six decimal digits derived from a random seed.
fn digits_from_seed(seed: u64) -> (r: String)
    ensures
        valid_temp_password(r@),
{
    let digits: &str = "0123456789";
    proof {
        assert(digits@.len() == 10 && (forall|d: int|
            0 <= d < 10 ==> 48 <= #[trigger] digits@[d] as int <= 57)) by {
            reveal_strlit("0123456789");
        }
    }
    let mut s = seed;
    let mut out = String::new();
    let mut k: usize = 0;
    while k < 6
        invariant
            k <= 6,
            digits@.len() == 10,
            forall|d: int| 0 <= d < 10 ==> 48 <= #[trigger] digits@[d] as int <= 57,
            out@.len() == k,
            forall|i: int| 0 <= i < k ==> 48 <= #[trigger] out@[i] as int <= 57,
        decreases 6 - k,
    {
        let d = (s % 10) as usize;
        let c = digits.get_char(d);
        push_char(&mut out, c);
        s = s / 10;
        k = k + 1;
    }
    out
}

/// One uniformly random byte.
fn random_byte() -> (r: u8) {
    let x: u64 = rand::random();
    (x % 256) as u8
}

/// Mathematical shape of the credential state.
pub struct CredentialModel {
    /// Current temporary password, if one has been generated.
    pub temporary: Option<Seq<char>>,
    /// Permanent password as last set in memory.
    pub permanent_local: Seq<char>,
    /// Permanent password as the configuration collaborator holds it.
    pub permanent_stored: Seq<char>,
    /// Raw bytes of the active two-factor secret, if any.
    pub twofa_secret: Option<Seq<u8>>,
    /// Peers with a cached credential.
    pub peers_with_password: Seq<Seq<char>>,
}

/// Owns temporary-password rotation, permanent-password set/verify, the
/// two-factor secret, and the per-peer credential cache.
pub struct CredentialStore {
    temporary: Option<String>,
    permanent_local: String,
    permanent_stored: String,
    twofa_secret: Option<Vec<u8>>,
    peers_with_password: Vec<String>,
}

impl View for CredentialStore {
    type V = CredentialModel;

    closed spec fn view(&self) -> CredentialModel {
        CredentialModel {
            temporary: match self.temporary {
                Some(ref t) => Some(t@),
                None => None,
            },
            permanent_local: self.permanent_local@,
            permanent_stored: self.permanent_stored@,
            twofa_secret: match self.twofa_secret {
                Some(ref s) => Some(s@),
                None => None,
            },
            peers_with_password: self.peers_with_password.deep_view(),
        }
    }
}

/// Whether a submitted code passes two-factor verification at time `now`
/// (seconds): some secret is configured and the code equals the one-time
/// code of the current 30-second step or of one step on either side.
pub open spec fn twofa_accepts(m: CredentialModel, code: Seq<char>, now: u64) -> bool {
    match m.twofa_secret {
        None => false,
        Some(s) => code == totp_code_of(s, now as int / 30) || (now >= 30 && code == totp_code_of(
            s,
            (now - 30) as int / 30,
        )) || (now <= u64::MAX - 30 && code == totp_code_of(s, (now + 30) as int / 30)),
    }
}

impl CredentialStore {
    /// Well-formed: any stored temporary password is six digits.
    pub closed spec fn wf(&self) -> bool {
        self@.temporary matches Some(t) ==> valid_temp_password(t)
    }

    /// A fresh store: no temporary password, empty permanent password, no
    /// two-factor secret, no cached peer credentials.
    pub fn new() -> (r: CredentialStore)
        ensures
            r.wf(),
            r@ == (CredentialModel {
                temporary: None,
                permanent_local: Seq::<char>::empty(),
                permanent_stored: Seq::<char>::empty(),
                twofa_secret: None,
                peers_with_password: Seq::<Seq<char>>::empty(),
            }),
    {
        let r = CredentialStore {
            temporary: None,
            permanent_local: String::new(),
            permanent_stored: String::new(),
            twofa_secret: None,
            peers_with_password: Vec::new(),
        };
        proof {
            assert(r@.peers_with_password =~= Seq::<Seq<char>>::empty());
        }
        r
    }

    /// Returns the current temporary password, generating a fresh one if
    /// none is present.
    pub fn get_temporary_password(&mut self) -> (r: String)
        requires
            old(self).wf(),
        ensures
            final(self).wf(),
            final(self)@.temporary == Some(r@),
            valid_temp_password(r@),
            old(self)@.temporary is Some ==> final(self)@ == old(self)@ && Some(r@) == old(
                self,
            )@.temporary,
            final(self)@ == (CredentialModel {
                temporary: Some(r@),
                ..old(self)@
            }),
    {
        match &self.temporary {
            Some(t) => t.clone(),
            None => {
                let fresh = digits_from_seed(rand::random());
                self.temporary = Some(fresh.clone());
                fresh
            },
        }
    }

    /// Forces immediate rotation: the next read sees a fresh password.
    pub fn update_temporary_password(&mut self)
        requires
            old(self).wf(),
        ensures
            final(self).wf(),
            final(self)@.temporary matches Some(t) && valid_temp_password(t),
            final(self)@ == (CredentialModel {
                temporary: final(self)@.temporary,
                ..old(self)@
            }),
    {
        let fresh = digits_from_seed(rand::random());
        self.temporary = Some(fresh);
    }

    /// The permanent password as the configuration collaborator holds it.
    pub fn get_permanent_password(&self) -> (r: String)
        ensures
            r@ == self@.permanent_stored,
    {
        self.permanent_stored.clone()
    }

    /// Sets the permanent password.  The in-memory value always changes;
    /// `persist_ok` reports whether the configuration collaborator
    /// persisted it.  On failure the collaborator keeps its old value and
    /// the caller sees `PersistFailed` (the in-memory value is not rolled
    /// back; the caller is expected to retry).
    pub fn set_permanent_password(&mut self, new: String, persist_ok: bool) -> (r: Result<
        (),
        CredentialError,
    >)
        requires
            old(self).wf(),
        ensures
            final(self).wf(),
            persist_ok ==> r is Ok && final(self)@ == (CredentialModel {
                permanent_local: new@,
                permanent_stored: new@,
                ..old(self)@
            }),
            !persist_ok ==> r == Err::<(), CredentialError>(CredentialError::PersistFailed)
                && final(self)@ == (CredentialModel { permanent_local: new@, ..old(self)@ }),
    {
        if persist_ok {
            self.permanent_stored = new.clone();
            self.permanent_local = new;
            Ok(())
        } else {
            self.permanent_local = new;
            Err(CredentialError::PersistFailed)
        }
    }

    /// Whether a two-factor secret is configured.
    pub fn has_valid_two_factor(&self) -> (r: bool)
        ensures
            r == (self@.twofa_secret is Some),
    {
        self.twofa_secret.is_some()
    }

    /// Creates and stores a fresh 20-byte two-factor secret, invalidating
    /// any previously issued one, and returns it in base32 as an
    /// authenticator app enrolls it.
    pub fn generate_two_factor(&mut self) -> (r: String)
        requires
            old(self).wf(),
        ensures
            final(self).wf(),
            final(self)@.twofa_secret matches Some(s) && s.len() == 20 && r@ == base32_of(s),
            final(self)@ == (CredentialModel {
                twofa_secret: final(self)@.twofa_secret,
                ..old(self)@
            }),
    {
        let mut secret: Vec<u8> = Vec::new();
        let mut k: usize = 0;
        while k < 20
            invariant
                k <= 20,
                secret@.len() == k,
            decreases 20 - k,
        {
            secret.push(random_byte());
            k = k + 1;
        }
        let encoded = base32_encode(&secret);
        self.twofa_secret = Some(secret);
        encoded
    }

    /// Verifies a submitted one-time code against the stored secret at
    /// time `now` (seconds), across the one-step skew window on either
    /// side.  Mutates nothing and never errors: with no secret configured,
    /// or a code outside the window, the answer is plain `false`.
    pub fn verify_two_factor(&self, code: &String, now: u64) -> (r: bool)
        ensures
            r == twofa_accepts(self@, code@, now),
    {
        match &self.twofa_secret {
            None => false,
            Some(sec) => {
                let current = totp_code(sec, now);
                if *code == current {
                    return true;
                }
                if now >= 30 {
                    let earlier = totp_code(sec, now - 30);
                    if *code == earlier {
                        return true;
                    }
                }
                if now <= u64::MAX - 30 {
                    let later = totp_code(sec, now + 30);
                    if *code == later {
                        return true;
                    }
                }
                false
            },
        }
    }

    /// Whether the peer-configuration collaborator holds a cached
    /// credential for this peer.
    pub fn peer_has_password(&self, peer_id: &String) -> (r: bool)
        ensures
            r == self@.peers_with_password.contains(peer_id@),
    {
        let n = self.peers_with_password.len();
        let mut i: usize = 0;
        while i < n
            invariant
                i <= n,
                n == self.peers_with_password@.len(),
                forall|j: int| 0 <= j < i ==> self.peers_with_password@[j]@ != peer_id@,
            decreases n - i,
        {
            if self.peers_with_password[i] == *peer_id {
                proof {
                    assert(self@.peers_with_password[i as int] == peer_id@);
                }
                return true;
            }
            i = i + 1;
        }
        proof {
            assert forall|j: int| 0 <= j < self@.peers_with_password.len() implies self@
                .peers_with_password[j] != peer_id@ by {
                assert(self@.peers_with_password[j] == self.peers_with_password@[j]@);
            }
        }
        false
    }

    /// Records that the collaborator now caches a credential for the peer.
    pub fn record_peer_password(&mut self, peer_id: String)
        requires
            old(self).wf(),
        ensures
            final(self).wf(),
            final(self)@.peers_with_password.contains(peer_id@),
            forall|n: Seq<char>|
                n != peer_id@ ==> final(self)@.peers_with_password.contains(n) == old(
                    self,
                )@.peers_with_password.contains(n),
            final(self)@ == (CredentialModel {
                peers_with_password: final(self)@.peers_with_password,
                ..old(self)@
            }),
    {
        let ghost pre = self.peers_with_password.deep_view();
        let already = self.peer_has_password(&peer_id);
        if !already {
            let ghost prev = self.peers_with_password@;
            self.peers_with_password.push(peer_id);
            proof {
                let len = prev.len() as int;
                assert(self.peers_with_password@ == prev.push(self.peers_with_password@[len]));
                assert forall|n: Seq<char>| #[trigger] self@.peers_with_password.contains(n)
                    == (pre.contains(n) || n == self@.peers_with_password[len]) by {
                    let post = self@.peers_with_password;
                    assert(post.len() == len + 1);
                    assert(forall|j: int| 0 <= j < len ==> post[j] == pre[j]);
                    if post.contains(n) {
                        let w = choose|w: int| 0 <= w < post.len() && post[w] == n;
                        if w < len {
                            assert(pre[w] == n);
                        }
                    }
                    if pre.contains(n) {
                        let w = choose|w: int| 0 <= w < pre.len() && pre[w] == n;
                        assert(post[w] == n);
                    }
                }
            }
        }
    }

    /// Forgets the cached credential for this peer: afterwards the peer
    /// has no cached password, and no other peer's entry changes.
    pub fn forget_peer_password(&mut self, peer_id: &String)
        requires
            old(self).wf(),
        ensures
            final(self).wf(),
            !final(self)@.peers_with_password.contains(peer_id@),
            forall|n: Seq<char>|
                n != peer_id@ ==> final(self)@.peers_with_password.contains(n) == old(
                    self,
                )@.peers_with_password.contains(n),
            final(self)@ == (CredentialModel {
                peers_with_password: final(self)@.peers_with_password,
                ..old(self)@
            }),
    {
        let ghost orig = self.peers_with_password.deep_view();
        let mut kept: Vec<String> = Vec::new();
        let n = self.peers_with_password.len();
        let mut i: usize = 0;
        while i < n
            invariant
                i <= n,
                n == self.peers_with_password@.len(),
                orig == self.peers_with_password.deep_view(),
                orig.len() == n,
                forall|j: int| 0 <= j < kept@.len() ==> #[trigger] kept@[j]@ != peer_id@,
                forall|m: Seq<char>|
                    m != peer_id@ ==> #[trigger] kept.deep_view().contains(m) == orig.take(
                        i as int,
                    ).contains(m),
            decreases n - i,
        {
            let keep = !(self.peers_with_password[i] == *peer_id);
            let ghost prekept = kept.deep_view();
            let ghost prev = kept@;
            if keep {
                kept.push(self.peers_with_password[i].clone());
            }
            proof {
                let e = orig[i as int];
                assert(e == self.peers_with_password@[i as int]@);
                assert(orig.take(i + 1) =~= orig.take(i as int).push(e));
                assert forall|m: Seq<char>| m != peer_id@ implies #[trigger] kept.deep_view()
                    .contains(m) == orig.take(i + 1).contains(m) by {
                    let former = orig.take(i as int);
                    let post = kept.deep_view();
                    if keep {
                        assert(kept@ == prev.push(kept@[prev.len() as int]));
                        assert(post.len() == prekept.len() + 1);
                        assert(forall|j: int| 0 <= j < prekept.len() ==> post[j] == prekept[j]);
                        assert(post[prekept.len() as int] == e);
                        if post.contains(m) {
                            let w = choose|w: int| 0 <= w < post.len() && post[w] == m;
                            if w < prekept.len() {
                                assert(prekept[w] == m);
                                assert(prekept.contains(m));
                                assert(former.contains(m));
                                let u = choose|u: int| 0 <= u < i && former[u] == m;
                                assert(orig.take(i + 1)[u] == m);
                                assert(orig.take(i + 1).contains(m));
                            } else {
                                assert(orig.take(i + 1)[i as int] == m);
                            }
                        }
                        if orig.take(i + 1).contains(m) {
                            let w = choose|w: int|
                                0 <= w < i + 1 && (#[trigger] orig.take(i + 1)[w]) == m;
                            if w < i {
                                assert(former[w] == m);
                                assert(prekept.contains(m));
                                let u = choose|u: int| 0 <= u < prekept.len() && prekept[u] == m;
                                assert(post[u] == m);
                            } else {
                                assert(m == e);
                                assert(post[prekept.len() as int] == m);
                            }
                        }
                    } else {
                        assert(e == peer_id@);
                        assert(post == prekept);
                        if orig.take(i + 1).contains(m) {
                            let w = choose|w: int|
                                0 <= w < i + 1 && (#[trigger] orig.take(i + 1)[w]) == m;
                            assert(w < i);
                            assert(former[w] == m);
                        }
                        if former.contains(m) {
                            let w = choose|w: int| 0 <= w < i && former[w] == m;
                            assert(orig.take(i + 1)[w] == m);
                        }
                    }
                }
            }
            i = i + 1;
        }
        proof {
            assert(orig.take(n as int) =~= orig);
        }
        self.peers_with_password = kept;
        proof {
            assert(!self@.peers_with_password.contains(peer_id@)) by {
                if self@.peers_with_password.contains(peer_id@) {
                    let w = choose|w: int|
                        0 <= w < self@.peers_with_password.len() && self@.peers_with_password[w]
                            == peer_id@;
                    assert(self.peers_with_password@[w]@ == peer_id@);
                }
            }
        }
    }
}

/// With a secret configured, the code computed for the current time step
/// is always accepted.
pub proof fn lemma_twofa_accepts_current(m: CredentialModel, now: u64)
    requires
        m.twofa_secret is Some,
    ensures
        twofa_accepts(m, totp_code_of(m.twofa_secret->0, now as int / 30), now),
{
}

/// A submitted code matching none of the three steps in the skew window
/// is rejected, and without a configured secret every code is rejected.
pub proof fn lemma_twofa_rejects(m: CredentialModel, code: Seq<char>, now: u64)
    requires
        m.twofa_secret matches Some(s) ==> code != totp_code_of(s, now as int / 30) && code
            != totp_code_of(s, (now - 30) as int / 30) && code != totp_code_of(
            s,
            (now + 30) as int / 30,
        ),
    ensures
        !twofa_accepts(m, code, now),
{
}

/// The skew window really is one 30-second step on either side: for times
/// at least one step in, the probed neighbours are exactly the previous
/// and the next step index.
pub proof fn lemma_skew_window_steps(now: u64)
    requires
        30 <= now <= u64::MAX - 30,
    ensures
        (now - 30) as int / 30 == now as int / 30 - 1,
        (now + 30) as int / 30 == now as int / 30 + 1,
{
    assert((now - 30) as int / 30 == now as int / 30 - 1) by (nonlinear_arith);
    assert((now + 30) as int / 30 == now as int / 30 + 1) by (nonlinear_arith);
}

} // verus!
