//! The composition root: wires the dispatcher's output into the session
//! registry and exposes credential and job operations to the rendering
//! boundary, which talks to nothing else.
//!
//! Workers never call back into the rendering layer: background work
//! (identity change, reachability probes, codec probes) reports through
//! the job ledger and the boundary polls.  The wall clock reaches the
//! core only through [`UI::tick`], so every decision here is a
//! function of plain values.

use vstd::prelude::*;

use crate::credentials::{
    twofa_accepts, valid_temp_password, CredentialError, CredentialModel, CredentialStore,
};
use crate::dispatch::{DispatchError, LaunchPlan};
use crate::encoding::{base64_encode, base64_of};
use crate::jobs::{AsyncJobTracker, JobOutcome, JobStatus};
use crate::session::{session_of_plan, SessionRegistry};

verus! {

/// The PNG image of the QR code for `data`: error correction level Low,
/// 128 pixels; a pure function of the encoded text.
pub uninterp spec fn qr_png_of(data: Seq<char>) -> Seq<u8>;

/// Whether the QR encoder accepts `data` at those settings: it refuses
/// exactly when the data is too long for any QR code version or the
/// module count does not fit the image size, both functions of the data
/// alone.
pub uninterp spec fn qr_encodes(data: Seq<char>) -> bool;

/// Relies on `qrcode_generator::to_png_to_vec`: a deterministic PNG
/// rendering of the QR code for `data` (error correction Low, 128 px).
/// Whether it succeeds depends on the data alone, so `None` comes back
/// exactly when the encoder refuses the data.
#[verifier::external_body]
fn qr_png(data: &String) -> (r: Option<Vec<u8>>)
    ensures
        r is Some <==> qr_encodes(data@),
        r matches Some(v) ==> v@ == qr_png_of(data@),
{
    match qrcode_generator::to_png_to_vec(data.as_bytes(), qrcode_generator::QrCodeEcc::Low, 128) {
        Ok(v) => Some(v),
        Err(_) => None,
    }
}

/// Renders PNG bytes as a `data:` URI with a base64 payload.
pub fn png_data_uri(png: &Vec<u8>) -> (r: String)
    ensures
        r@ == "data:image/png;base64,"@ + base64_of(png@),
{
    let mut out = String::from_str("data:image/png;base64,");
    let payload = base64_encode(png);
    out.append(payload.as_str());
    out
}

/// Composition root: owns the credential store, the job ledger and the
/// session registry, and is the single surface the rendering boundary
/// calls.
pub struct UI {
    pub credentials: CredentialStore,
    pub jobs: AsyncJobTracker,
    pub sessions: SessionRegistry,
    /// Wall-clock seconds as last reported through [`UI::tick`].
    pub clock_seconds: u64,
}

impl UI {
    /// Well-formed: the owned components are.
    pub open spec fn wf(&self) -> bool {
        self.credentials.wf() && self.jobs.wf()
    }

    /// A fresh core: empty credentials, no jobs, no session, clock at the
    /// epoch.
    pub fn new() -> (r: UI)
        ensures
            r.wf(),
            r.credentials@ == (CredentialModel {
                temporary: None,
                permanent_local: Seq::<char>::empty(),
                permanent_stored: Seq::<char>::empty(),
                twofa_secret: None,
                peers_with_password: Seq::<Seq<char>>::empty(),
            }),
            forall|n: Seq<char>| r.jobs.status_of(n) == JobOutcome::Pending,
            r.sessions@ is None,
            r.clock_seconds == 0,
    {
        UI {
            credentials: CredentialStore::new(),
            jobs: AsyncJobTracker::new(),
            sessions: SessionRegistry::new(),
            clock_seconds: 0,
        }
    }

    /// Reports the current wall-clock time (seconds) into the core.
    pub fn tick(&mut self, now_seconds: u64)
        ensures
            final(self).clock_seconds == now_seconds,
            final(self).credentials == old(self).credentials,
            final(self).jobs == old(self).jobs,
            final(self).sessions == old(self).sessions,
    {
        self.clock_seconds = now_seconds;
    }

    /// Realizes a launch plan: a remote plan launches the one active
    /// session (refused with `SessionAlreadyActive` if one exists); the
    /// window modes store nothing here.
    pub fn realize_plan(&mut self, plan: LaunchPlan) -> (r: Result<(), DispatchError>)
        ensures
            final(self).credentials == old(self).credentials,
            final(self).jobs == old(self).jobs,
            final(self).clock_seconds == old(self).clock_seconds,
            !(plan is Remote) ==> r is Ok && final(self).sessions == old(self).sessions,
            plan is Remote && old(self).sessions@ is None ==> r is Ok && final(self).sessions@
                == Some(session_of_plan(plan@)),
            plan is Remote && old(self).sessions@ is Some ==> r == Err::<(), DispatchError>(
                DispatchError::SessionAlreadyActive,
            ) && final(self).sessions@ == old(self).sessions@,
    {
        if let LaunchPlan::Remote { .. } = &plan {
            self.sessions.launch(plan)
        } else {
            Ok(())
        }
    }

    /// Current temporary password, generated on first use.
    pub fn temporary_password(&mut self) -> (r: String)
        requires
            old(self).wf(),
        ensures
            final(self).wf(),
            final(self).credentials@.temporary == Some(r@),
            valid_temp_password(r@),
            final(self).credentials@ == (CredentialModel {
                temporary: Some(r@),
                ..old(self).credentials@
            }),
            old(self).credentials@.temporary is Some ==> final(self).credentials@ == old(
                self,
            ).credentials@,
            final(self).jobs == old(self).jobs,
            final(self).sessions == old(self).sessions,
            final(self).clock_seconds == old(self).clock_seconds,
    {
        self.credentials.get_temporary_password()
    }

    /// Forces immediate rotation of the temporary password.
    pub fn update_temporary_password(&mut self)
        requires
            old(self).wf(),
        ensures
            final(self).wf(),
            final(self).credentials@.temporary matches Some(t) && valid_temp_password(t),
            final(self).credentials@ == (CredentialModel {
                temporary: final(self).credentials@.temporary,
                ..old(self).credentials@
            }),
            final(self).jobs == old(self).jobs,
            final(self).sessions == old(self).sessions,
            final(self).clock_seconds == old(self).clock_seconds,
    {
        self.credentials.update_temporary_password()
    }

    /// The permanent password as persisted by the configuration
    /// collaborator.
    pub fn permanent_password(&self) -> (r: String)
        ensures
            r@ == self.credentials@.permanent_stored,
    {
        self.credentials.get_permanent_password()
    }

    /// Sets the permanent password; `persist_ok` is the configuration
    /// collaborator's report.  On failure the persisted value stays and
    /// `PersistFailed` is surfaced.
    pub fn set_permanent_password(&mut self, new: String, persist_ok: bool) -> (r: Result<
        (),
        CredentialError,
    >)
        requires
            old(self).wf(),
        ensures
            final(self).wf(),
            persist_ok ==> r is Ok && final(self).credentials@ == (CredentialModel {
                permanent_local: new@,
                permanent_stored: new@,
                ..old(self).credentials@
            }),
            !persist_ok ==> r == Err::<(), CredentialError>(CredentialError::PersistFailed)
                && final(self).credentials@ == (CredentialModel {
                permanent_local: new@,
                ..old(self).credentials@
            }),
            final(self).jobs == old(self).jobs,
            final(self).sessions == old(self).sessions,
            final(self).clock_seconds == old(self).clock_seconds,
    {
        self.credentials.set_permanent_password(new, persist_ok)
    }

    /// Whether a two-factor secret is configured.
    pub fn has_valid_2fa(&self) -> (r: bool)
        ensures
            r == (self.credentials@.twofa_secret is Some),
    {
        self.credentials.has_valid_two_factor()
    }

    /// Creates and stores a fresh two-factor secret; returns its base32
    /// form for enrollment.
    pub fn generate2fa(&mut self) -> (r: String)
        requires
            old(self).wf(),
        ensures
            final(self).wf(),
            final(self).credentials@.twofa_secret matches Some(s) && s.len() == 20 && r@
                == crate::encoding::base32_of(s),
            final(self).credentials@ == (CredentialModel {
                twofa_secret: final(self).credentials@.twofa_secret,
                ..old(self).credentials@
            }),
            final(self).jobs == old(self).jobs,
            final(self).sessions == old(self).sessions,
            final(self).clock_seconds == old(self).clock_seconds,
    {
        self.credentials.generate_two_factor()
    }

    /// Verifies a submitted one-time code at the last reported time.
    /// Never errors and consumes nothing: the same submission at the same
    /// time answers the same.
    pub fn verify2fa(&self, code: String) -> (r: bool)
        ensures
            r == twofa_accepts(self.credentials@, code@, self.clock_seconds),
    {
        self.credentials.verify_two_factor(&code, self.clock_seconds)
    }

    /// QR enrollment image for `data` as a `data:` URI.  When the QR
    /// encoder refuses the data, the URI of the empty image (bare prefix)
    /// comes back, as the boundary tolerates.
    pub fn generate_2fa_img_src(&self, data: String) -> (r: String)
        ensures
            qr_encodes(data@) ==> r@ == "data:image/png;base64,"@ + base64_of(qr_png_of(data@)),
            !qr_encodes(data@) ==> r@ == "data:image/png;base64,"@ + base64_of(
                Seq::<u8>::empty(),
            ),
    {
        let png = match qr_png(&data) {
            Some(v) => v,
            None => Vec::new(),
        };
        proof {
            if !qr_encodes(data@) {
                assert(png@ =~= Seq::<u8>::empty());
            }
        }
        png_data_uri(&png)
    }

    /// Whether the peer-configuration collaborator caches a credential
    /// for this peer.
    pub fn peer_has_password(&self, id: String) -> (r: bool)
        ensures
            r == self.credentials@.peers_with_password.contains(id@),
    {
        self.credentials.peer_has_password(&id)
    }

    /// Forgets the cached credential for this peer.
    pub fn forget_password(&mut self, id: String)
        requires
            old(self).wf(),
        ensures
            final(self).wf(),
            !final(self).credentials@.peers_with_password.contains(id@),
            forall|n: Seq<char>|
                n != id@ ==> final(self).credentials@.peers_with_password.contains(n) == old(
                    self,
                ).credentials@.peers_with_password.contains(n),
            final(self).credentials@ == (CredentialModel {
                peers_with_password: final(self).credentials@.peers_with_password,
                ..old(self).credentials@
            }),
            final(self).jobs == old(self).jobs,
            final(self).sessions == old(self).sessions,
            final(self).clock_seconds == old(self).clock_seconds,
    {
        self.credentials.forget_peer_password(&id)
    }

    /// Begins an identity change: the `change_id` job resets to `Pending`
    /// at once; the worker that performs the change reports through
    /// [`UI::complete_async_job`].
    pub fn change_id(&mut self, _new_id: String)
        requires
            old(self).wf(),
        ensures
            final(self).wf(),
            final(self).jobs.status_of("change_id"@) == JobOutcome::Pending,
            forall|n: Seq<char>|
                n != "change_id"@ ==> final(self).jobs.status_of(n) == old(self).jobs.status_of(n),
            final(self).credentials == old(self).credentials,
            final(self).sessions == old(self).sessions,
            final(self).clock_seconds == old(self).clock_seconds,
    {
        self.jobs.start("change_id".to_owned());
    }

    /// Status of the identity-change job: `Pending` until the worker's
    /// terminal write arrives.
    pub fn get_async_job_status(&self) -> (r: JobStatus)
        requires
            self.wf(),
        ensures
            r@ == self.jobs.status_of("change_id"@),
    {
        let key = String::from_str("change_id");
        self.jobs.poll(&key)
    }

    /// Begins a reachability probe for `url`, keyed `http:<url>`: that
    /// job resets to `Pending` at once; the worker performing the request
    /// reports through [`UI::complete_async_job`].
    pub fn http_request(&mut self, url: String)
        requires
            old(self).wf(),
        ensures
            final(self).wf(),
            final(self).jobs.status_of("http:"@ + url@) == JobOutcome::Pending,
            forall|n: Seq<char>|
                n != "http:"@ + url@ ==> final(self).jobs.status_of(n) == old(self).jobs.status_of(
                    n,
                ),
            final(self).credentials == old(self).credentials,
            final(self).sessions == old(self).sessions,
            final(self).clock_seconds == old(self).clock_seconds,
    {
        let mut key = String::from_str("http:");
        key.append(url.as_str());
        self.jobs.start(key);
    }

    /// Status of the reachability probe for `url`.
    pub fn get_http_status(&self, url: String) -> (r: JobStatus)
        requires
            self.wf(),
        ensures
            r@ == self.jobs.status_of("http:"@ + url@),
    {
        let mut key = String::from_str("http:");
        key.append(url.as_str());
        self.jobs.poll(&key)
    }

    /// Begins the hardware-codec probe: its job resets to `Pending`; the
    /// worker that inspects the codecs reports through
    /// [`UI::complete_async_job`].
    pub fn check_hwcodec(&mut self)
        requires
            old(self).wf(),
        ensures
            final(self).wf(),
            final(self).jobs.status_of("check_hwcodec"@) == JobOutcome::Pending,
            forall|n: Seq<char>|
                n != "check_hwcodec"@ ==> final(self).jobs.status_of(n) == old(
                    self,
                ).jobs.status_of(n),
            final(self).credentials == old(self).credentials,
            final(self).sessions == old(self).sessions,
            final(self).clock_seconds == old(self).clock_seconds,
    {
        self.jobs.start("check_hwcodec".to_owned());
    }

    /// The worker's single terminal write for any named job.
    pub fn complete_async_job(&mut self, name: String, outcome: Result<String, String>)
        requires
            old(self).wf(),
        ensures
            final(self).wf(),
            final(self).jobs.status_of(name@) == match outcome {
                Ok(d) => JobOutcome::Succeeded(d@),
                Err(e) => JobOutcome::Failed(e@),
            },
            forall|n: Seq<char>|
                n != name@ ==> final(self).jobs.status_of(n) == old(self).jobs.status_of(n),
            final(self).credentials == old(self).credentials,
            final(self).sessions == old(self).sessions,
            final(self).clock_seconds == old(self).clock_seconds,
    {
        self.jobs.complete(name, outcome);
    }

    /// Peer id of the active session, if one is active.
    pub fn active_session_peer_id(&self) -> (r: Option<String>)
        ensures
            match r {
                Some(p) => self.sessions@ matches Some(s) && p@ == s.peer_id,
                None => self.sessions@ is None,
            },
    {
        self.sessions.active_peer_id()
    }

    /// Credential of the active session, if one is active.
    pub fn active_session_password(&self) -> (r: Option<String>)
        ensures
            match r {
                Some(p) => self.sessions@ matches Some(s) && p@ == s.password,
                None => self.sessions@ is None,
            },
    {
        self.sessions.active_password()
    }

    /// Closes the remote view: the registry returns to the empty state.
    pub fn close_session(&mut self)
        ensures
            final(self).sessions@ is None,
            final(self).credentials == old(self).credentials,
            final(self).jobs == old(self).jobs,
            final(self).clock_seconds == old(self).clock_seconds,
    {
        self.sessions.close()
    }
}

} // verus!
