//! Supervision of the certificate lifecycle: the ACME client reports events,
//! and this state machine decides what state the domain's certificate is in
//! and how each event is logged. No event stops the server or withdraws a
//! certificate that is being served.

use vstd::prelude::*;
use vstd::string::{StrSliceExecFns, StringSliceAdditionalSpecFns};

verus! {

/// Port of the plaintext listener used locally and in tests.
pub const PLAIN_PORT: u16 = 8080;

/// Port of the TLS listener in production.
pub const TLS_PORT: u16 = 443;

/// How the server listens.
#[derive(Clone, Copy, Debug, PartialEq, Eq, Structural)]
pub enum ServeMode {
    Plain,
    Tls,
}

/// The port the listener binds in `mode`.
pub fn listen_port(mode: ServeMode) -> (r: u16)
    ensures
        r == match mode {
            ServeMode::Plain => PLAIN_PORT,
            ServeMode::Tls => TLS_PORT,
        },
{
    match mode {
        ServeMode::Plain => PLAIN_PORT,
        ServeMode::Tls => TLS_PORT,
    }
}

/// The ALPN protocols the TLS listener offers, most preferred first.
pub open spec fn alpn_view() -> Seq<Seq<u8>> {
    seq!["h2".spec_bytes(), "http/1.1".spec_bytes()]
}

/// The ALPN protocols: `h2`, then `http/1.1`.
pub fn alpn_protocols() -> (r: Vec<Vec<u8>>)
    ensures
        r@.map_values(|p: Vec<u8>| p@) == alpn_view(),
{
    let r = vec!["h2".as_bytes_vec(), "http/1.1".as_bytes_vec()];
    assert(r@.map_values(|p: Vec<u8>| p@) =~= alpn_view());
    r
}

/// What the ACME client reports.
#[derive(Clone, Copy, Debug, PartialEq, Eq, Structural)]
pub enum AcmeEvent {
    DeployedCachedCert,
    DeployedNewCert,
    CertCacheStored,
    AccountCacheStored,
    CertCacheLoadFailed,
    AccountCacheLoadFailed,
    CertCacheStoreFailed,
    AccountCacheStoreFailed,
    CachedCertParseFailed,
    OrderFailed,
    NewCertParseFailed,
}

/// Where the domain's certificate stands.
#[derive(Clone, Copy, Debug, PartialEq, Eq, Structural)]
pub enum CertState {
    /// Nothing loaded or ordered yet.
    Uninitialized,
    /// No certificate is served; one is being ordered.
    Ordering,
    /// A certificate is served; renewals happen behind it.
    Active,
}

/// How an event is logged.
#[derive(Clone, Copy, Debug, PartialEq, Eq, Structural)]
pub enum LogLevel {
    Info,
    Error,
}

pub open spec fn is_failure(e: AcmeEvent) -> bool {
    match e {
        AcmeEvent::DeployedCachedCert => false,
        AcmeEvent::DeployedNewCert => false,
        AcmeEvent::CertCacheStored => false,
        AcmeEvent::AccountCacheStored => false,
        _ => true,
    }
}

/// A failure that leaves no certificate to serve unless one already is: the
/// cache held none that could be used, or an order did not succeed.
pub open spec fn is_issuance_failure(e: AcmeEvent) -> bool {
    match e {
        AcmeEvent::CertCacheLoadFailed => true,
        AcmeEvent::CachedCertParseFailed => true,
        AcmeEvent::OrderFailed => true,
        AcmeEvent::NewCertParseFailed => true,
        _ => false,
    }
}

/// The state after an event.
pub open spec fn next_state(s: CertState, e: AcmeEvent) -> CertState {
    match e {
        AcmeEvent::DeployedCachedCert => CertState::Active,
        AcmeEvent::DeployedNewCert => CertState::Active,
        _ => if is_issuance_failure(e) && s != CertState::Active {
            CertState::Ordering
        } else {
            s
        },
    }
}

/// Failed attempts since a certificate was last deployed, stopping at the
/// largest `u64`.
pub open spec fn next_failures(n: u64, e: AcmeEvent) -> u64 {
    match e {
        AcmeEvent::DeployedCachedCert => 0,
        AcmeEvent::DeployedNewCert => 0,
        _ => if is_failure(e) && n < u64::MAX {
            (n + 1) as u64
        } else {
            n
        },
    }
}

/// The log level of an event.
pub open spec fn level_of(e: AcmeEvent) -> LogLevel {
    if is_failure(e) {
        LogLevel::Error
    } else {
        LogLevel::Info
    }
}

/// A failed renewal, or any other event, never withdraws a certificate that
/// is being served: once active, the domain stays active, and a failure is
/// logged as an error and counted.
pub proof fn lemma_failure_keeps_serving(s: CertState, n: u64, e: AcmeEvent)
    requires
        s == CertState::Active,
    ensures
        next_state(s, e) == CertState::Active,
        is_failure(e) ==> level_of(e) == LogLevel::Error,
        is_failure(e) && n < u64::MAX ==> next_failures(n, e) == n + 1,
{
}

/// Failures before the first certificate keep the domain ordering; a
/// deployed certificate makes it active from any state.
pub proof fn lemma_ordering_until_deployed(s: CertState, e: AcmeEvent)
    ensures
        is_issuance_failure(e) && s != CertState::Active ==> next_state(s, e) == CertState::Ordering,
        (e == AcmeEvent::DeployedCachedCert || e == AcmeEvent::DeployedNewCert) ==> next_state(s, e)
            == CertState::Active,
{
}

/// The supervisor's record of one domain's certificate.
#[derive(Clone, Copy, Debug)]
pub struct CertLifecycle {
    pub state: CertState,
    pub failures: u64,
}

impl CertLifecycle {
    /// At startup: nothing loaded, no failures.
    pub fn new() -> (r: Self)
        ensures
            r.state == CertState::Uninitialized,
            r.failures == 0,
    {
        CertLifecycle { state: CertState::Uninitialized, failures: 0 }
    }

    /// Records `event` and returns the level at which it is logged.
    pub fn observe(&mut self, event: AcmeEvent) -> (r: LogLevel)
        ensures
            final(self).state == next_state(old(self).state, event),
            final(self).failures == next_failures(old(self).failures, event),
            r == level_of(event),
    {
        match event {
            AcmeEvent::DeployedCachedCert | AcmeEvent::DeployedNewCert => {
                self.state = CertState::Active;
                self.failures = 0;
                LogLevel::Info
            },
            AcmeEvent::CertCacheStored | AcmeEvent::AccountCacheStored => LogLevel::Info,
            AcmeEvent::CertCacheLoadFailed | AcmeEvent::CachedCertParseFailed
            | AcmeEvent::OrderFailed | AcmeEvent::NewCertParseFailed => {
                if self.state != CertState::Active {
                    self.state = CertState::Ordering;
                }
                self.failures = self.failures.saturating_add(1);
                LogLevel::Error
            },
            _ => {
                self.failures = self.failures.saturating_add(1);
                LogLevel::Error
            },
        }
    }

    /// Whether a certificate is being served.
    pub fn serving(&self) -> (r: bool)
        ensures
            r == (self.state == CertState::Active),
    {
        self.state == CertState::Active
    }
}

} // verus!
