use asset_server::certs::{
    alpn_protocols, listen_port, AcmeEvent, CertLifecycle, CertState, LogLevel, ServeMode,
};

#[test]
fn alpn_prefers_h2() {
    assert_eq!(alpn_protocols(), vec![b"h2".to_vec(), b"http/1.1".to_vec()]);
}

#[test]
fn ports_by_mode() {
    assert_eq!(listen_port(ServeMode::Plain), 8080);
    assert_eq!(listen_port(ServeMode::Tls), 443);
}

#[test]
fn cached_certificate_activates() {
    let mut c = CertLifecycle::new();
    assert_eq!(c.state, CertState::Uninitialized);
    assert!(!c.serving());
    assert_eq!(c.observe(AcmeEvent::DeployedCachedCert), LogLevel::Info);
    assert_eq!(c.state, CertState::Active);
    assert!(c.serving());
}

#[test]
fn failed_orders_keep_ordering_until_success() {
    let mut c = CertLifecycle::new();
    assert_eq!(c.observe(AcmeEvent::CertCacheLoadFailed), LogLevel::Error);
    assert_eq!(c.state, CertState::Ordering);
    assert_eq!(c.observe(AcmeEvent::OrderFailed), LogLevel::Error);
    assert_eq!(c.observe(AcmeEvent::OrderFailed), LogLevel::Error);
    assert_eq!(c.state, CertState::Ordering);
    assert_eq!(c.failures, 3);
    assert!(!c.serving());
    assert_eq!(c.observe(AcmeEvent::DeployedNewCert), LogLevel::Info);
    assert_eq!(c.state, CertState::Active);
    assert_eq!(c.failures, 0);
    assert_eq!(c.observe(AcmeEvent::CertCacheStored), LogLevel::Info);
    assert_eq!(c.observe(AcmeEvent::AccountCacheStored), LogLevel::Info);
    assert_eq!(c.state, CertState::Active);
}

#[test]
fn renewal_failure_keeps_serving() {
    let mut c = CertLifecycle::new();
    c.observe(AcmeEvent::DeployedNewCert);
    let failures = [
        AcmeEvent::OrderFailed,
        AcmeEvent::NewCertParseFailed,
        AcmeEvent::CertCacheStoreFailed,
        AcmeEvent::AccountCacheStoreFailed,
        AcmeEvent::AccountCacheLoadFailed,
        AcmeEvent::CertCacheLoadFailed,
        AcmeEvent::CachedCertParseFailed,
    ];
    for (k, e) in failures.into_iter().enumerate() {
        assert_eq!(c.observe(e), LogLevel::Error);
        assert!(c.serving());
        assert_eq!(c.failures, k as u64 + 1);
    }
}

#[test]
fn failure_count_saturates() {
    let mut c = CertLifecycle { state: CertState::Ordering, failures: u64::MAX };
    c.observe(AcmeEvent::OrderFailed);
    assert_eq!(c.failures, u64::MAX);
}

#[test]
fn store_failure_before_certificate_keeps_state() {
    let mut c = CertLifecycle::new();
    assert_eq!(c.observe(AcmeEvent::AccountCacheStoreFailed), LogLevel::Error);
    assert_eq!(c.state, CertState::Uninitialized);
}
