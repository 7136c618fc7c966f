//! Known hosts: the host-to-fingerprint trust store and the
//! trust-on-first-use validation policy built on it.
//!
//! A store maps a host name to the fingerprint pinned for it: the lowercase
//! hex SHA-256 digest of the DER bytes of the certificate first seen for that
//! host. Validation accepts a presented certificate when its fingerprint
//! matches the pinned one and the certificate is inside its validity window;
//! an unseen host is pinned on first use.
//!
//! The store is modelled as a sequence of `(host, fingerprint)` pairs in
//! insertion order; `spec_lookup`, `spec_insert` and `spec_remove` give the
//! meaning of the store operations over that sequence.

use vstd::prelude::*;
use crate::assoc::{
    lemma_insert_at_index, lemma_lookup_at_index, lemma_lookup_none, lemma_remove_at_index,
    spec_insert, spec_lookup, spec_remove, unique_keys,
};
use crate::text::string_eq_str;

verus! {

/// Why a presented certificate was not accepted.
#[derive(Debug, Clone, Copy, PartialEq, Eq, Structural)]
pub enum CertificateError {
    /// The host had no pinned fingerprint yet. Reserved for designs that
    /// surface first use as a signal; the validation here pins and accepts
    /// instead.
    FirstUse,
    /// The certificate's validity window ended in the past.
    Expired,
    /// The certificate was revoked. Reserved: revocation is not checked here.
    Revoked,
    /// The certificate's validity window starts in the future.
    NotActivated,
    /// The presented fingerprint differs from the pinned one.
    BadIdentity,
    /// A certificate-library failure with no more precise reading.
    GenericError,
}

/// What the trust policy reads from a TLS certificate: the fingerprint
/// (lowercase hex SHA-256 of the DER bytes) and the validity window as unix
/// timestamps, where the certificate carries one.
#[derive(Debug, Clone)]
pub struct Certificate {
    pub fingerprint: String,
    pub not_valid_before: Option<i64>,
    pub not_valid_after: Option<i64>,
}

impl Certificate {
    /// The validity window ended before `now`.
    pub open spec fn spec_expired(self, now: i64) -> bool {
        match self.not_valid_after {
            Some(t) => t < now,
            None => false,
        }
    }

    /// The validity window starts after `now`.
    pub open spec fn spec_not_activated(self, now: i64) -> bool {
        match self.not_valid_before {
            Some(t) => t > now,
            None => false,
        }
    }
}

/// The pairs a store holds, in insertion order.
pub type Entries = Seq<(Seq<char>, Seq<char>)>;

/// The contract every trust store meets: a host-to-fingerprint mapping with
/// lookup, last-write-wins insertion, removal and a full snapshot.
pub trait KnownHostsRepo: Sized {
    /// The pairs the store holds, in insertion order.
    spec fn entries(&self) -> Entries;

    /// The fingerprint stored for `host`, if any.
    fn get(&self, host: &str) -> (r: Option<&str>)
        ensures
            match spec_lookup(self.entries(), host@) {
                Some(f) => r matches Some(sf) && sf@ == f,
                None => r is None,
            },
    ;

    /// Store `sha` for `host`, replacing any prior fingerprint. True exactly
    /// when the host was new.
    fn insert(&mut self, host: &str, sha: &str) -> (newly: bool)
        ensures
            final(self).entries() == spec_insert(old(self).entries(), host@, sha@),
            newly == (spec_lookup(old(self).entries(), host@) is None),
    ;

    /// Drop the fingerprint stored for `host`. True exactly when one existed.
    fn remove(&mut self, host: &str) -> (existed: bool)
        ensures
            final(self).entries() == spec_remove(old(self).entries(), host@),
            existed == (spec_lookup(old(self).entries(), host@) is Some),
    ;

    /// A snapshot of every pair, in insertion order.
    fn values(&self) -> (r: Vec<(String, String)>)
        ensures
            r@.map_values(|p: (String, String)| (p.0@, p.1@)) == self.entries(),
    ;
}

/// The in-memory trust store: pairs in insertion order, one per host.
#[derive(Debug, Clone)]
pub struct KnownHostsMap {
    entries: Vec<(String, String)>,
}

impl KnownHostsMap {
    /// An empty store.
    pub fn new() -> (r: Self)
        ensures
            r.entries() == Seq::<(Seq<char>, Seq<char>)>::empty(),
    {
        let r = KnownHostsMap { entries: Vec::new() };
        proof {
            assert(r.entries() =~= Seq::<(Seq<char>, Seq<char>)>::empty());
        }
        r
    }

    /// The index of the first pair for `host`, if any.
    fn find(&self, host: &str) -> (r: Option<usize>)
        ensures
            match r {
                Some(i) => i < self.entries().len() && self.entries()[i as int].0 == host@ && forall|
                    j: int,
                | 0 <= j < i ==> (#[trigger] self.entries()[j]).0 != host@,
                None => forall|j: int|
                    0 <= j < self.entries().len() ==> (#[trigger] self.entries()[j]).0 != host@,
            },
    {
        let n = self.entries.len();
        let mut i: usize = 0;
        while i < n
            invariant
                i <= n,
                n == self.entries().len(),
                forall|j: int| 0 <= j < i ==> (#[trigger] self.entries()[j]).0 != host@,
            decreases n - i,
        {
            if string_eq_str(&self.entries[i].0, host) {
                return Some(i);
            }
            i = i + 1;
        }
        None
    }
}

impl KnownHostsRepo for KnownHostsMap {
    closed spec fn entries(&self) -> Entries {
        self.entries@.map_values(|p: (String, String)| (p.0@, p.1@))
    }

    fn get(&self, host: &str) -> (r: Option<&str>) {
        match self.find(host) {
            Some(i) => {
                proof {
                    lemma_lookup_at_index(self.entries(), host@, i as int);
                }
                Some(self.entries[i].1.as_str())
            },
            None => {
                proof {
                    lemma_lookup_none(self.entries(), host@);
                }
                None
            },
        }
    }

    fn insert(&mut self, host: &str, sha: &str) -> (newly: bool) {
        let ghost s = self.entries();
        match self.find(host) {
            Some(i) => {
                proof {
                    lemma_lookup_at_index(s, host@, i as int);
                    lemma_insert_at_index(s, host@, sha@, i as int);
                }
                self.entries.remove(i);
                self.entries.insert(i, (host.to_owned(), sha.to_owned()));
                proof {
                    assert(self.entries() =~= s.update(i as int, (host@, sha@)));
                }
                false
            },
            None => {
                proof {
                    lemma_lookup_none(s, host@);
                    crate::assoc::lemma_insert_absent(s, host@, sha@);
                }
                self.entries.push((host.to_owned(), sha.to_owned()));
                proof {
                    assert(self.entries() =~= s.push((host@, sha@)));
                }
                true
            },
        }
    }

    fn remove(&mut self, host: &str) -> (existed: bool) {
        let ghost s = self.entries();
        match self.find(host) {
            Some(i) => {
                proof {
                    lemma_lookup_at_index(s, host@, i as int);
                    lemma_remove_at_index(s, host@, i as int);
                }
                self.entries.remove(i);
                proof {
                    assert(self.entries() =~= s.remove(i as int));
                }
                true
            },
            None => {
                proof {
                    lemma_lookup_none(s, host@);
                    crate::assoc::lemma_remove_absent(s, host@);
                }
                false
            },
        }
    }

    fn values(&self) -> (r: Vec<(String, String)>) {
        let n = self.entries.len();
        let mut r: Vec<(String, String)> = Vec::new();
        let mut i: usize = 0;
        while i < n
            invariant
                i <= n,
                n == self.entries@.len(),
                r@ == self.entries@.take(i as int),
            decreases n - i,
        {
            r.push((self.entries[i].0.clone(), self.entries[i].1.clone()));
            i = i + 1;
            proof {
                assert(r@ =~= self.entries@.take(i as int));
            }
        }
        proof {
            assert(self.entries@.take(n as int) =~= self.entries@);
            assert(r@.map_values(|p: (String, String)| (p.0@, p.1@)) =~= self.entries());
        }
        r
    }
}

/// The result of validating `cert` for `host` against the pairs `s` at time
/// `now`: a pinned mismatch is a bad identity; a match or a first use is
/// accepted when the certificate is inside its validity window, the window's
/// end taking precedence over its start.
pub open spec fn spec_validate_outcome(
    s: Entries,
    host: Seq<char>,
    cert: Certificate,
    now: i64,
) -> Result<(), CertificateError> {
    match spec_lookup(s, host) {
        Some(f) => if f != cert.fingerprint@ {
            Err(CertificateError::BadIdentity)
        } else if cert.spec_expired(now) {
            Err(CertificateError::Expired)
        } else if cert.spec_not_activated(now) {
            Err(CertificateError::NotActivated)
        } else {
            Ok(())
        },
        None => if cert.spec_expired(now) {
            Err(CertificateError::Expired)
        } else if cert.spec_not_activated(now) {
            Err(CertificateError::NotActivated)
        } else {
            Ok(())
        },
    }
}

/// The store after validating `cert` for `host`: unchanged for a pinned
/// host, the fingerprint pinned on first use.
pub open spec fn spec_validate_entries(s: Entries, host: Seq<char>, cert: Certificate) -> Entries {
    if spec_lookup(s, host) is Some {
        s
    } else {
        spec_insert(s, host, cert.fingerprint@)
    }
}

/// Whether `cert` is inside its validity window at `now`; the window's end
/// is checked first.
fn check_window(cert: &Certificate, now: i64) -> (r: Result<(), CertificateError>)
    ensures
        r == (if cert.spec_expired(now) {
            Err(CertificateError::Expired)
        } else if cert.spec_not_activated(now) {
            Err(CertificateError::NotActivated)
        } else {
            Result::<(), CertificateError>::Ok(())
        }),
{
    match cert.not_valid_after {
        Some(t) => if t < now {
            return Err(CertificateError::Expired);
        },
        None => {},
    }
    match cert.not_valid_before {
        Some(t) => if t > now {
            return Err(CertificateError::NotActivated);
        },
        None => {},
    }
    Ok(())
}

/// Trust-on-first-use validation of `cert` for `host` against `repo`:
/// an unseen host is pinned to the presented fingerprint, a pinned host must
/// match it, and an accepted certificate must be inside its validity window
/// at `now`.
pub fn validate<R: KnownHostsRepo>(repo: &mut R, host: &str, cert: &Certificate, now: i64) -> (r:
    Result<(), CertificateError>)
    ensures
        r == spec_validate_outcome(old(repo).entries(), host@, *cert, now),
        final(repo).entries() == spec_validate_entries(old(repo).entries(), host@, *cert),
{
    let stored: Option<String> = match repo.get(host) {
        Some(f) => Some(f.to_owned()),
        None => None,
    };
    match stored {
        Some(f) => {
            if !string_eq_str(&cert.fingerprint, f.as_str()) {
                return Err(CertificateError::BadIdentity);
            }
            check_window(cert, now)
        },
        None => {
            repo.insert(host, cert.fingerprint.as_str());
            check_window(cert, now)
        },
    }
}

/// The result of session-aware validation: a session override accepts
/// anything; otherwise the store decides as in `spec_validate_outcome`.
pub open spec fn spec_session_outcome(
    overridden: bool,
    s: Entries,
    host: Seq<char>,
    cert: Certificate,
    now: i64,
) -> Result<(), CertificateError> {
    if overridden {
        Ok(())
    } else {
        spec_validate_outcome(s, host, cert, now)
    }
}

/// The store after session-aware validation: untouched under an override.
pub open spec fn spec_session_entries(
    overridden: bool,
    s: Entries,
    host: Seq<char>,
    cert: Certificate,
) -> Entries {
    if overridden {
        s
    } else {
        spec_validate_entries(s, host, cert)
    }
}

/// Whether some string in `ov` spells `host`.
pub open spec fn spec_in_set(ov: Seq<String>, host: Seq<char>) -> bool {
    exists|i: int| 0 <= i < ov.len() && (#[trigger] ov[i])@ == host
}

/// The trust-on-first-use policy engine: a store of pinned fingerprints and
/// a session-lifetime set of hosts whose checks are overridden.
#[derive(Debug)]
pub struct CertificateValidator {
    store: KnownHostsMap,
    overrides: Vec<String>,
}

impl CertificateValidator {
    /// The pairs the underlying store holds.
    pub closed spec fn entries(&self) -> Entries {
        self.store.entries()
    }

    /// Whether `host` is in the session override set.
    pub closed spec fn overridden(&self, host: Seq<char>) -> bool {
        spec_in_set(self.overrides@, host)
    }

    /// A policy engine over `store`, with no session overrides yet.
    pub fn new(store: KnownHostsMap) -> (r: Self)
        ensures
            r.entries() == store.entries(),
            forall|h: Seq<char>| !r.overridden(h),
    {
        CertificateValidator { store, overrides: Vec::new() }
    }

    /// The underlying store.
    pub fn store(&self) -> (r: &KnownHostsMap)
        ensures
            r.entries() == self.entries(),
    {
        &self.store
    }

    /// Whether `host` is in the session override set.
    fn is_overridden(&self, host: &str) -> (r: bool)
        ensures
            r == self.overridden(host@),
    {
        let n = self.overrides.len();
        let mut i: usize = 0;
        while i < n
            invariant
                i <= n,
                n == self.overrides@.len(),
                forall|j: int| 0 <= j < i ==> (#[trigger] self.overrides@[j])@ != host@,
            decreases n - i,
        {
            if string_eq_str(&self.overrides[i], host) {
                return true;
            }
            i = i + 1;
        }
        false
    }

    /// Validate a presented certificate: a session override for the host
    /// accepts it outright and touches nothing; otherwise the store decides,
    /// pinning on first use.
    pub fn validate(&mut self, host: &str, cert: &Certificate, now: i64) -> (r: Result<
        (),
        CertificateError,
    >)
        ensures
            r == spec_session_outcome(
                old(self).overridden(host@),
                old(self).entries(),
                host@,
                *cert,
                now,
            ),
            final(self).entries() == spec_session_entries(
                old(self).overridden(host@),
                old(self).entries(),
                host@,
                *cert,
            ),
            forall|h: Seq<char>| final(self).overridden(h) == old(self).overridden(h),
    {
        if self.is_overridden(host) {
            return Ok(());
        }
        validate(&mut self.store, host, cert, now)
    }

    /// Add `host` to the session override set, idempotently; the store is
    /// untouched.
    pub fn override_trust(&mut self, host: &str)
        ensures
            final(self).entries() == old(self).entries(),
            forall|h: Seq<char>|
                final(self).overridden(h) <==> old(self).overridden(h) || h == host@,
    {
        if !self.is_overridden(host) {
            let ghost before = self.overrides@;
            self.overrides.push(host.to_owned());
            proof {
                assert forall|h: Seq<char>|
                    spec_in_set(self.overrides@, h) <==> spec_in_set(before, h) || h == host@ by {
                    if h == host@ {
                        assert((self.overrides@[before.len() as int])@ == h);
                    }
                    if spec_in_set(self.overrides@, h) {
                        let i = choose|i: int|
                            0 <= i < self.overrides@.len() && (#[trigger] self.overrides@[i])@
                                == h;
                        if i < before.len() {
                            assert((before[i])@ == h);
                        }
                    }
                    if spec_in_set(before, h) {
                        let i = choose|i: int|
                            0 <= i < before.len() && (#[trigger] before[i])@ == h;
                        assert((self.overrides@[i])@ == h);
                    }
                }
            }
        }
    }

    /// Drop the pinned fingerprint for `host`; the session override set is
    /// untouched.
    pub fn remove_known(&mut self, host: &str)
        ensures
            final(self).entries() == spec_remove(old(self).entries(), host@),
            forall|h: Seq<char>| final(self).overridden(h) == old(self).overridden(h),
    {
        self.store.remove(host);
    }
}

/// The store operations keep hosts unique: a store with unique hosts still
/// has them after a validation (which at most pins one new host) and after
/// a removal. Every store grown from an empty one therefore satisfies
/// `unique_keys`, which the removal and round-trip laws ask for.
pub proof fn lemma_operations_keep_unique(s: Entries, host: Seq<char>, cert: Certificate)
    requires
        unique_keys(s),
    ensures
        unique_keys(spec_validate_entries(s, host, cert)),
        unique_keys(spec_remove(s, host)),
{
    if spec_lookup(s, host) is None {
        crate::assoc::lemma_insert_keeps_unique(s, host, cert.fingerprint@);
    }
    crate::assoc::lemma_remove_keeps_unique(s, host);
}

/// Trust on first use: validating an unseen host with no session override
/// and a certificate inside its validity window succeeds, and pins the
/// presented fingerprint so that a lookup then returns it.
pub proof fn lemma_tofu_first_use(s: Entries, host: Seq<char>, cert: Certificate, now: i64)
    requires
        spec_lookup(s, host) is None,
        !cert.spec_expired(now),
        !cert.spec_not_activated(now),
    ensures
        spec_session_outcome(false, s, host, cert, now) == Result::<(), CertificateError>::Ok(()),
        spec_lookup(spec_session_entries(false, s, host, cert), host) == Some(cert.fingerprint@),
{
    crate::assoc::lemma_lookup_insert_same(s, host, cert.fingerprint@);
}

/// Trust-on-first-use mismatch: once a host is pinned, a certificate with a
/// different fingerprint is rejected as a bad identity and the store is left
/// unchanged.
pub proof fn lemma_tofu_mismatch(s: Entries, host: Seq<char>, cert: Certificate, now: i64)
    requires
        spec_lookup(s, host) is Some,
        spec_lookup(s, host) != Some(cert.fingerprint@),
    ensures
        spec_session_outcome(false, s, host, cert, now) == Result::<(), CertificateError>::Err(
            CertificateError::BadIdentity,
        ),
        spec_session_entries(false, s, host, cert) == s,
{
}

/// Session override bypass: with the host overridden, validation accepts any
/// certificate and the underlying store is untouched.
pub proof fn lemma_override_bypass(s: Entries, host: Seq<char>, cert: Certificate, now: i64)
    ensures
        spec_session_outcome(true, s, host, cert, now) == Result::<(), CertificateError>::Ok(()),
        spec_session_entries(true, s, host, cert) == s,
{
}

/// Removal resets trust: after a host's pin is removed from a store with
/// unique keys, the host has no fingerprint any more, and validating it with
/// no session override behaves as first use — a certificate inside its
/// validity window is accepted and its fingerprint re-pinned. (A host still
/// in the session override set is accepted before the store is consulted, so
/// the re-pin does not happen for it.)
pub proof fn lemma_removal_resets_trust(s: Entries, host: Seq<char>, cert: Certificate, now: i64)
    requires
        unique_keys(s),
        !cert.spec_expired(now),
        !cert.spec_not_activated(now),
    ensures
        spec_lookup(spec_remove(s, host), host) is None,
        spec_session_outcome(false, spec_remove(s, host), host, cert, now) == Result::<
            (),
            CertificateError,
        >::Ok(()),
        spec_lookup(
            spec_session_entries(false, spec_remove(s, host), host, cert),
            host,
        ) == Some(cert.fingerprint@),
{
    crate::assoc::lemma_lookup_remove_same(s, host);
    lemma_tofu_first_use(spec_remove(s, host), host, cert, now);
}

} // verus!
