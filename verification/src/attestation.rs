//! Attestation adapter interface for multi-vendor TEE support.
//!
//! Every vendor's adapter verifies quotes by its own protocol behind one interface, and a
//! registry dispatches to the adapter that is registered under a vendor's name.

use crate::types::{same_text, AttestationResult, RevocationStatus};
use vstd::prelude::*;
use vstd::string::StringExecFns;

verus! {

/// Errors that can occur during attestation verification.
#[derive(Debug)]
pub enum AttestationError {
    /// The quote cannot be read.
    InvalidQuote(String),
    /// The quote was read and refused.
    VerificationFailed(String),
    /// The revocation check could not be made.
    RevocationCheckFailed(String),
    /// The enclave measurement is revoked.
    MeasurementRevoked,
    /// A request to a collaborator failed.
    Network(String),
    /// No adapter is registered under the vendor's name.
    UnsupportedVendor(String),
    /// The configuration is unusable.
    Config(String),
    /// An invariant of the adapter is broken.
    Internal(String),
}

impl AttestationError {
    /// What the error says, as shown to people.
    pub open spec fn message(self) -> Seq<char> {
        match self {
            AttestationError::InvalidQuote(detail) => "Invalid quote format: "@ + detail@,
            AttestationError::VerificationFailed(detail) => "Quote verification failed: "@
                + detail@,
            AttestationError::RevocationCheckFailed(detail) => "Revocation check failed: "@
                + detail@,
            AttestationError::MeasurementRevoked => "Enclave measurement is revoked"@,
            AttestationError::Network(detail) => "Network error: "@ + detail@,
            AttestationError::UnsupportedVendor(detail) => "Unsupported vendor: "@ + detail@,
            AttestationError::Config(detail) => "Configuration error: "@ + detail@,
            AttestationError::Internal(detail) => "Internal error: "@ + detail@,
        }
    }

    /// What the error says, as shown to people.
    pub fn to_string(&self) -> (text: String)
        ensures
            text@ == self.message(),
    {
        match self {
            AttestationError::InvalidQuote(detail) => String::from_str(
                "Invalid quote format: ",
            ).concat(detail.as_str()),
            AttestationError::VerificationFailed(detail) => String::from_str(
                "Quote verification failed: ",
            ).concat(detail.as_str()),
            AttestationError::RevocationCheckFailed(detail) => String::from_str(
                "Revocation check failed: ",
            ).concat(detail.as_str()),
            AttestationError::MeasurementRevoked => String::from_str(
                "Enclave measurement is revoked",
            ),
            AttestationError::Network(detail) => String::from_str("Network error: ").concat(
                detail.as_str(),
            ),
            AttestationError::UnsupportedVendor(detail) => String::from_str(
                "Unsupported vendor: ",
            ).concat(detail.as_str()),
            AttestationError::Config(detail) => String::from_str("Configuration error: ").concat(
                detail.as_str(),
            ),
            AttestationError::Internal(detail) => String::from_str("Internal error: ").concat(
                detail.as_str(),
            ),
        }
    }
}

/// The bytes of a nonce, if there is one.
pub open spec fn nonce_view(nonce: Option<&[u8]>) -> Option<Seq<u8>> {
    match nonce {
        Some(bytes) => Some(bytes@),
        None => None,
    }
}

/// Interface of attestation verification adapters.
///
/// Each vendor (Intel SGX, AWS Nitro, ARM TrustZone) implements it to verify quotes by its
/// own protocol. An implementation may say in `names_vendor`, `quote_verdict` and
/// `revocation_verdict` which results it gives; the registry promises its callers exactly
/// that. An implementation that says nothing may give any result.
pub trait AttestationAdapter {
    /// Whether `name` is a name that `vendor_name` may give.
    open spec fn names_vendor(&self, name: Seq<char>) -> bool {
        true
    }

    /// Whether `result` is a result that `verify_quote` may give for the quote and nonce.
    open spec fn quote_verdict(
        &self,
        quote: Seq<u8>,
        nonce: Option<Seq<u8>>,
        result: Result<AttestationResult, AttestationError>,
    ) -> bool {
        true
    }

    /// Whether `result` is a result that `check_revocation` may give for the measurement.
    open spec fn revocation_verdict(
        &self,
        measurement: Seq<u8>,
        result: Result<RevocationStatus, AttestationError>,
    ) -> bool {
        true
    }

    /// Get the vendor name (e.g., "intel-sgx", "aws-nitro", "arm-trustzone").
    fn vendor_name(&self) -> (name: &str)
        ensures
            self.names_vendor(name@),
    ;

    /// Verify an attestation quote in the vendor's format; `nonce` prevents replay where the
    /// vendor supports one.
    fn verify_quote(&self, quote: &[u8], nonce: Option<&[u8]>) -> (result: Result<
        AttestationResult,
        AttestationError,
    >)
        ensures
            self.quote_verdict(quote@, nonce_view(nonce), result),
    ;

    /// Check if an enclave measurement is revoked.
    fn check_revocation(&self, measurement: &[u8]) -> (result: Result<
        RevocationStatus,
        AttestationError,
    >)
        ensures
            self.revocation_verdict(measurement@, result),
    ;

    /// Get the PEM-encoded root CA certificates of this vendor's attestation chain.
    fn root_ca_certs(&self) -> &[String];

    /// Update cached CRLs and root certificates.
    fn update_trust_anchors(&mut self) -> Result<(), AttestationError>;
}

/// The first position at or after `from` of the given vendor name; the number of names if
/// there is none.
pub open spec fn vendor_position(names: Seq<Seq<char>>, vendor: Seq<char>, from: int) -> int
    decreases names.len() - from,
{
    if from < 0 || from >= names.len() {
        names.len() as int
    } else if names[from] == vendor {
        from
    } else {
        vendor_position(names, vendor, from + 1)
    }
}

/// What `vendor_position` finds.
pub proof fn lemma_vendor_position(names: Seq<Seq<char>>, vendor: Seq<char>, from: int)
    requires
        0 <= from <= names.len(),
    ensures
        from <= vendor_position(names, vendor, from) <= names.len(),
        vendor_position(names, vendor, from) < names.len() ==> names[vendor_position(
            names,
            vendor,
            from,
        )] == vendor,
        forall|i: int|
            from <= i < vendor_position(names, vendor, from) ==> #[trigger] names[i] != vendor,
    decreases names.len() - from,
{
    if from < names.len() && names[from] != vendor {
        lemma_vendor_position(names, vendor, from + 1);
    }
}

/// The registrations of a registry as mathematical values: the vendor names, and the
/// adapter that is registered under each.
#[verifier::ext_equal]
pub struct Registrations<A> {
    pub names: Seq<Seq<char>>,
    pub adapters: Seq<A>,
}

impl<A> Registrations<A> {
    /// The position of the adapter that is registered under the vendor's name; the number
    /// of registrations if there is none.
    pub open spec fn position(self, vendor: Seq<char>) -> int {
        vendor_position(self.names, vendor, 0)
    }

    /// Whether an adapter is registered under the vendor's name.
    pub open spec fn registered(self, vendor: Seq<char>) -> bool {
        0 <= self.position(vendor) < self.names.len()
    }

    /// The registrations after `adapter` was registered under `vendor`: it takes the place
    /// of the adapter of that name, if there is one, and else is added.
    pub open spec fn with(self, vendor: Seq<char>, adapter: A) -> Registrations<A> {
        let at = self.position(vendor);
        if 0 <= at < self.names.len() {
            Registrations { names: self.names, adapters: self.adapters.update(at, adapter) }
        } else {
            Registrations {
                names: self.names.push(vendor),
                adapters: self.adapters.push(adapter),
            }
        }
    }
}

/// What the registry owes for a quote: for a vendor without an adapter the error
/// `UnsupportedVendor` with the vendor's name, and else a result of that vendor's adapter.
pub open spec fn dispatch_verdict<A: AttestationAdapter>(
    registrations: Registrations<A>,
    vendor: Seq<char>,
    quote: Seq<u8>,
    nonce: Option<Seq<u8>>,
    result: Result<AttestationResult, AttestationError>,
) -> bool {
    if registrations.registered(vendor) {
        registrations.adapters[registrations.position(vendor)].quote_verdict(quote, nonce, result)
    } else {
        match result {
            Err(AttestationError::UnsupportedVendor(name)) => name@ == vendor,
            _ => false,
        }
    }
}

/// Whether an adapter never reports a vendor as unsupported by itself.
pub open spec fn never_unsupported<A: AttestationAdapter>(adapter: A) -> bool {
    forall|quote: Seq<u8>, nonce: Option<Seq<u8>>, result: Result<AttestationResult, AttestationError>|
        #[trigger] adapter.quote_verdict(quote, nonce, result) ==> !(result matches Err(
            AttestationError::UnsupportedVendor(_),
        ))
}

/// Dispatch by vendor: for adapters that never report a vendor as unsupported themselves,
/// verifying a quote through the registry fails with `UnsupportedVendor` if and only if no
/// adapter is registered under the vendor's name; and under a registered name the result is
/// one of that adapter's own.
pub proof fn law_unsupported_iff_unregistered<A: AttestationAdapter>(
    registrations: Registrations<A>,
    vendor: Seq<char>,
    quote: Seq<u8>,
    nonce: Option<Seq<u8>>,
    result: Result<AttestationResult, AttestationError>,
)
    requires
        registrations.names.len() == registrations.adapters.len(),
        forall|i: int|
            0 <= i < registrations.adapters.len() ==> never_unsupported(
                #[trigger] registrations.adapters[i],
            ),
        dispatch_verdict(registrations, vendor, quote, nonce, result),
    ensures
        (result matches Err(AttestationError::UnsupportedVendor(_))) <==> !registrations.registered(
            vendor,
        ),
        registrations.registered(vendor) ==> registrations.adapters[registrations.position(
            vendor,
        )].quote_verdict(quote, nonce, result),
{
    if registrations.registered(vendor) {
        let adapter = registrations.adapters[registrations.position(vendor)];
        assert(never_unsupported(adapter));
        assert(adapter.quote_verdict(quote, nonce, result));
    }
}

/// The vendor names of a list of registrations.
pub open spec fn entry_names<A>(entries: Seq<(String, A)>) -> Seq<Seq<char>> {
    Seq::new(entries.len(), |i: int| entries[i].0@)
}

/// The adapters of a list of registrations.
pub open spec fn entry_adapters<A>(entries: Seq<(String, A)>) -> Seq<A> {
    Seq::new(entries.len(), |i: int| entries[i].1)
}

/// Registry of attestation adapters, by vendor name.
pub struct AttestationRegistry<A: AttestationAdapter> {
    entries: Vec<(String, A)>,
}

impl<A: AttestationAdapter> View for AttestationRegistry<A> {
    type V = Registrations<A>;

    /// The registrations, in the order in which their vendors were first registered.
    closed spec fn view(&self) -> Registrations<A> {
        Registrations { names: entry_names(self.entries@), adapters: entry_adapters(self.entries@) }
    }
}

impl<A: AttestationAdapter> AttestationRegistry<A> {
    /// Create a new empty registry.
    pub fn new() -> (registry: AttestationRegistry<A>)
        ensures
            registry@.names.len() == 0,
            registry@.adapters.len() == 0,
    {
        AttestationRegistry { entries: Vec::new() }
    }

    /// The position of the adapter of the given vendor; the number of adapters if none.
    fn position(&self, vendor: &str) -> (at: usize)
        ensures
            at == self@.position(vendor@),
            at <= self.entries@.len(),
            at < self.entries@.len() <==> self@.registered(vendor@),
    {
        let ghost names = entry_names(self.entries@);
        proof {
            lemma_vendor_position(names, vendor@, 0);
        }
        let mut at: usize = 0;
        while at < self.entries.len() && !same_text(self.entries[at].0.as_str(), vendor)
            invariant
                at <= self.entries@.len(),
                names == entry_names(self.entries@),
                vendor_position(names, vendor@, 0) == vendor_position(names, vendor@, at as int),
            decreases self.entries@.len() - at,
        {
            assert(names[at as int] == self.entries@[at as int].0@);
            at += 1;
        }
        proof {
            if at < self.entries@.len() {
                assert(names[at as int] == self.entries@[at as int].0@);
            }
        }
        at
    }

    /// Register an adapter under the given vendor name. An adapter that was registered
    /// under that name before is replaced.
    pub fn register_as(&mut self, vendor: String, adapter: A)
        ensures
            final(self)@ == old(self)@.with(vendor@, adapter),
            final(self)@.registered(vendor@),
            final(self)@.adapters[final(self)@.position(vendor@)] == adapter,
    {
        let at = self.position(vendor.as_str());
        let ghost before = self@;
        let ghost name = vendor@;
        proof {
            lemma_vendor_position(before.names, name, 0);
        }
        if at < self.entries.len() {
            self.entries.set(at, (vendor, adapter));
            assert(self@.names =~= before.names);
            assert(self@.adapters =~= before.adapters.update(at as int, adapter));
        } else {
            self.entries.push((vendor, adapter));
            assert(self@.names =~= before.names.push(name));
            assert(self@.adapters =~= before.adapters.push(adapter));
        }
        proof {
            lemma_vendor_position(self@.names, name, 0);
            if at >= before.names.len() {
                assert(self@.names[before.names.len() as int] == name);
            }
        }
    }

    /// Register an attestation adapter under the name that its `vendor_name` gives.
    pub fn register(&mut self, adapter: A)
        ensures
            exists|vendor: Seq<char>|
                adapter.names_vendor(vendor) && #[trigger] final(self)@.registered(vendor)
                    && final(self)@ == old(self)@.with(vendor, adapter),
    {
        let vendor = String::from_str(adapter.vendor_name());
        let ghost name = vendor@;
        self.register_as(vendor, adapter);
        assert(self@.registered(name));
    }

    /// Get an adapter by vendor name.
    pub fn get(&self, vendor: &str) -> (adapter: Option<&A>)
        ensures
            adapter is Some <==> self@.registered(vendor@),
            adapter is Some ==> *adapter.unwrap() == self@.adapters[self@.position(vendor@)],
    {
        let at = self.position(vendor);
        if at < self.entries.len() {
            Some(&self.entries[at].1)
        } else {
            None
        }
    }

    /// Get a mutable adapter by vendor name. What the caller does to the adapter is done to
    /// the registered adapter; the registrations are otherwise unchanged.
    pub fn get_mut(&mut self, vendor: &str) -> (adapter: Option<&mut A>)
        ensures
            adapter is Some <==> old(self)@.registered(vendor@),
            adapter is Some ==> *adapter.unwrap() == old(self)@.adapters[old(self)@.position(
                vendor@,
            )],
            adapter is Some ==> final(self)@ =~= old(self)@.with(vendor@, *final(adapter.unwrap())),
            adapter is None ==> final(self)@ == old(self)@,
    {
        let at = self.position(vendor);
        let ghost before = self@;
        if at < self.entries.len() {
            Some(&mut self.entries[at].1)
        } else {
            None
        }
    }

    /// Get all registered vendor names, in the order of registration.
    pub fn vendors(&self) -> (names: Vec<&str>)
        ensures
            names@.len() == self@.names.len(),
            forall|i: int| 0 <= i < self@.names.len() ==> (#[trigger] names@[i])@ == self@.names[i],
    {
        let mut names: Vec<&str> = Vec::new();
        let mut i: usize = 0;
        while i < self.entries.len()
            invariant
                i <= self.entries@.len(),
                names@.len() == i,
                forall|j: int| 0 <= j < i ==> (#[trigger] names@[j])@ == self.entries@[j].0@,
            decreases self.entries@.len() - i,
        {
            names.push(self.entries[i].0.as_str());
            i += 1;
        }
        names
    }

    /// Verify a quote using the adapter that is registered under the vendor's name.
    ///
    /// Fails with `UnsupportedVendor` when no adapter is registered under that name;
    /// otherwise the result is the adapter's own.
    pub fn verify_quote(&self, vendor: &str, quote: &[u8], nonce: Option<&[u8]>) -> (result: Result<
        AttestationResult,
        AttestationError,
    >)
        ensures
            dispatch_verdict(self@, vendor@, quote@, nonce_view(nonce), result),
    {
        let at = self.position(vendor);
        if at >= self.entries.len() {
            return Err(AttestationError::UnsupportedVendor(String::from_str(vendor)));
        }
        self.entries[at].1.verify_quote(quote, nonce)
    }
}

impl<A: AttestationAdapter> Default for AttestationRegistry<A> {
    fn default() -> (registry: AttestationRegistry<A>)
        ensures
            registry@.names.len() == 0,
            registry@.adapters.len() == 0,
    {
        AttestationRegistry::new()
    }
}

} // verus!
