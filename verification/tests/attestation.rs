use robot_attestation::{
    AttestationAdapter, AttestationError, AttestationRegistry, AttestationResult,
    RevocationStatus, Timestamp,
};

// Mock adapter for testing
struct MockAdapter {
    vendor: String,
    measurement: u8,
    refreshed: u32,
}

fn mock(vendor: &str, measurement: u8) -> MockAdapter {
    MockAdapter { vendor: vendor.to_string(), measurement, refreshed: 0 }
}

impl AttestationAdapter for MockAdapter {
    fn vendor_name(&self) -> &str {
        &self.vendor
    }

    fn verify_quote(
        &self,
        quote: &[u8],
        nonce: Option<&[u8]>,
    ) -> Result<AttestationResult, AttestationError> {
        if quote.is_empty() {
            return Err(AttestationError::InvalidQuote("empty".to_string()));
        }
        Ok(AttestationResult {
            vendor: self.vendor.clone(),
            enclave_measurement: vec![self.measurement; 32],
            quote_verified: true,
            verified_at: Timestamp::new(0, 0),
            revoke_check: RevocationStatus::Valid,
            raw_quote: Some(quote.to_vec()),
            pck_chain: nonce.map(|n| format!("{:?}", n)),
        })
    }

    fn check_revocation(&self, _measurement: &[u8]) -> Result<RevocationStatus, AttestationError> {
        Ok(RevocationStatus::Valid)
    }

    fn root_ca_certs(&self) -> &[String] {
        &[]
    }

    fn update_trust_anchors(&mut self) -> Result<(), AttestationError> {
        self.refreshed += 1;
        Ok(())
    }
}

#[test]
fn test_registry() {
    let mut registry = AttestationRegistry::new();

    registry.register(mock("mock-vendor", 0));

    assert_eq!(registry.vendors(), vec!["mock-vendor"]);

    let result = registry.verify_quote("mock-vendor", b"test", None);
    assert!(result.is_ok());
}

#[test]
fn test_unsupported_vendor() {
    let registry: AttestationRegistry<MockAdapter> = AttestationRegistry::new();
    let result = registry.verify_quote("nonexistent", b"test", None);
    assert!(matches!(result, Err(AttestationError::UnsupportedVendor(_))));
}

#[test]
fn unsupported_vendor_is_named_in_the_error() {
    let mut registry = AttestationRegistry::new();
    registry.register(mock("aws-nitro", 1));
    match registry.verify_quote("arm-trustzone", b"test", None) {
        Err(AttestationError::UnsupportedVendor(name)) => assert_eq!(name, "arm-trustzone"),
        _ => panic!("the vendor is not reported as unsupported"),
    }
    match registry.verify_quote("", b"test", None) {
        Err(AttestationError::UnsupportedVendor(name)) => assert_eq!(name, ""),
        _ => panic!("the vendor is not reported as unsupported"),
    }
}

#[test]
fn dispatch_gives_the_result_of_the_vendors_own_adapter() {
    let mut registry = AttestationRegistry::new();
    registry.register(mock("intel-sgx", 1));
    registry.register(mock("aws-nitro", 2));
    registry.register(mock("arm-trustzone", 3));

    let nonce = [9u8, 8];
    let through = registry.verify_quote("aws-nitro", b"quote", Some(&nonce)).unwrap();
    let direct = mock("aws-nitro", 2).verify_quote(b"quote", Some(&nonce)).unwrap();
    assert_eq!(through.vendor, direct.vendor);
    assert_eq!(through.enclave_measurement, vec![2u8; 32]);
    assert_eq!(through.enclave_measurement, direct.enclave_measurement);
    assert_eq!(through.raw_quote, direct.raw_quote);
    assert_eq!(through.pck_chain, direct.pck_chain);

    // an error of the adapter is handed on as it is
    assert!(matches!(
        registry.verify_quote("intel-sgx", b"", None),
        Err(AttestationError::InvalidQuote(_))
    ));
}

#[test]
fn registering_a_vendor_again_replaces_its_adapter() {
    let mut registry = AttestationRegistry::new();
    registry.register(mock("intel-sgx", 1));
    registry.register(mock("aws-nitro", 2));
    registry.register(mock("intel-sgx", 7));
    assert_eq!(registry.vendors(), vec!["intel-sgx", "aws-nitro"]);
    let result = registry.verify_quote("intel-sgx", b"quote", None).unwrap();
    assert_eq!(result.enclave_measurement, vec![7u8; 32]);
}

#[test]
fn register_as_files_an_adapter_under_the_given_name() {
    let mut registry = AttestationRegistry::new();
    registry.register_as("alias".to_string(), mock("intel-sgx", 4));
    registry.register(mock("intel-sgx", 5));
    assert_eq!(registry.vendors(), vec!["alias", "intel-sgx"]);
    let through = registry.verify_quote("alias", b"quote", None).unwrap();
    assert_eq!(through.enclave_measurement, vec![4u8; 32]);
    registry.register_as("alias".to_string(), mock("aws-nitro", 6));
    assert_eq!(registry.vendors(), vec!["alias", "intel-sgx"]);
    assert_eq!(registry.get("alias").unwrap().vendor_name(), "aws-nitro");
}

#[test]
fn get_finds_registered_adapters_only() {
    let mut registry = AttestationRegistry::new();
    assert!(registry.get("intel-sgx").is_none());
    registry.register(mock("intel-sgx", 1));
    assert_eq!(registry.get("intel-sgx").unwrap().vendor_name(), "intel-sgx");
    assert!(registry.get("aws-nitro").is_none());
    assert!(registry.get_mut("aws-nitro").is_none());
    let default: AttestationRegistry<MockAdapter> = AttestationRegistry::default();
    assert!(default.vendors().is_empty());
}

#[test]
fn get_mut_lets_an_adapter_refresh() {
    let mut registry = AttestationRegistry::new();
    registry.register(mock("intel-sgx", 1));
    registry.get_mut("intel-sgx").unwrap().update_trust_anchors().unwrap();
    registry.get_mut("intel-sgx").unwrap().update_trust_anchors().unwrap();
    assert_eq!(registry.get("intel-sgx").unwrap().refreshed, 2);
}

#[test]
fn attestation_errors_say_what_they_are() {
    assert_eq!(
        AttestationError::InvalidQuote("short".to_string()).to_string(),
        "Invalid quote format: short"
    );
    assert_eq!(
        AttestationError::VerificationFailed("debug".to_string()).to_string(),
        "Quote verification failed: debug"
    );
    assert_eq!(
        AttestationError::RevocationCheckFailed("crl".to_string()).to_string(),
        "Revocation check failed: crl"
    );
    assert_eq!(AttestationError::MeasurementRevoked.to_string(), "Enclave measurement is revoked");
    assert_eq!(AttestationError::Network("timeout".to_string()).to_string(), "Network error: timeout");
    assert_eq!(
        AttestationError::UnsupportedVendor("x".to_string()).to_string(),
        "Unsupported vendor: x"
    );
    assert_eq!(AttestationError::Config("url".to_string()).to_string(), "Configuration error: url");
    assert_eq!(AttestationError::Internal("bug".to_string()).to_string(), "Internal error: bug");
}
