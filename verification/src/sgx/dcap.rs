//! DCAP (Data Center Attestation Primitives) protocol: the requests to Intel PCS
//! (Provisioning Certification Service) for PCK certificates, CRLs and TCB info, and the
//! reading of its answers. Sending the requests is left to the host.

use crate::text::{decimal, push_decimal};
use vstd::prelude::*;
use vstd::string::StringExecFns;

verus! {

/// Why a request to Intel PCS fails.
#[derive(Debug)]
pub enum DcapError {
    /// The request did not get an answer; the message says why.
    Network(String),
    /// PCS answered with a status outside the 2xx range.
    PcsApi(String),
    /// The answer cannot be read.
    InvalidResponse(String),
}

/// Whether an HTTP status stands for success.
pub open spec fn is_success(status: u16) -> bool {
    200 <= status < 300
}

/// What an HTTP status means for a PCS request: a status outside the 2xx range is an API
/// error that names the status.
pub fn check_status(status: u16) -> (result: Result<(), DcapError>)
    ensures
        result is Ok <==> is_success(status),
        result is Err ==> status_failure(result.unwrap_err(), status),
{
    if 200 <= status && status < 300 {
        Ok(())
    } else {
        let mut message = String::from_str("HTTP ");
        push_decimal(&mut message, status as u64);
        Err(DcapError::PcsApi(message))
    }
}

/// Whether `error` is the API error for the given status.
pub open spec fn status_failure(error: DcapError, status: u16) -> bool {
    match error {
        DcapError::PcsApi(message) => message@ == "HTTP "@ + decimal(status as nat),
        _ => false,
    }
}

/// The address of the request for a PCK certificate.
pub open spec fn pck_certificate_address(base: Seq<char>, fmspc: Seq<char>, pce_id: Seq<char>) -> Seq<
    char,
> {
    base + "/pckcert?fmspc="@ + fmspc + "&pceid="@ + pce_id
}

/// The address of the request for a PCK CRL in DER form.
pub open spec fn pck_crl_address(base: Seq<char>, ca: Seq<char>) -> Seq<char> {
    base + "/pckcrl?ca="@ + ca + "&encoding=der"@
}

/// The address of the request for TCB info.
pub open spec fn tcb_info_address(base: Seq<char>, fmspc: Seq<char>) -> Seq<char> {
    base + "/tcb?fmspc="@ + fmspc
}

/// Intel PCS client: knows the service's base URL and the addresses of its requests.
#[derive(Debug, Clone)]
pub struct PcsClient {
    base_url: String,
}

impl PcsClient {
    /// The base URL of the service, as text.
    pub closed spec fn base(&self) -> Seq<char> {
        self.base_url@
    }

    /// Create a new PCS client.
    pub fn new(base_url: String) -> (client: PcsClient)
        ensures
            client.base() == base_url@,
    {
        PcsClient { base_url }
    }

    /// The base URL of the service.
    pub fn base_url(&self) -> (url: &str)
        ensures
            url@ == self.base(),
    {
        self.base_url.as_str()
    }

    /// The address from which to fetch the PCK certificate of a platform: `fmspc` is the
    /// platform's family/model/stepping (6 bytes hex), `pce_id` its PCE identifier (2 bytes
    /// hex).
    pub fn pck_certificate_url(&self, fmspc: &str, pce_id: &str) -> (url: String)
        ensures
            url@ == pck_certificate_address(self.base(), fmspc@, pce_id@),
    {
        let mut url = self.base_url.clone();
        url.append("/pckcert?fmspc=");
        url.append(fmspc);
        url.append("&pceid=");
        url.append(pce_id);
        url
    }

    /// The address from which to fetch the PCK CRL of a CA ("processor" or "platform").
    pub fn pck_crl_url(&self, ca: &str) -> (url: String)
        ensures
            url@ == pck_crl_address(self.base(), ca@),
    {
        let mut url = self.base_url.clone();
        url.append("/pckcrl?ca=");
        url.append(ca);
        url.append("&encoding=der");
        url
    }

    /// The address from which to fetch the TCB info of a platform.
    pub fn tcb_info_url(&self, fmspc: &str) -> (url: String)
        ensures
            url@ == tcb_info_address(self.base(), fmspc@),
    {
        let mut url = self.base_url.clone();
        url.append("/tcb?fmspc=");
        url.append(fmspc);
        url
    }
}

/// TCB (Trusted Computing Base) information from Intel PCS.
#[derive(Debug, Clone)]
pub struct TcbInfo {
    pub version: u32,
    pub issue_date: String,
    pub next_update: String,
    pub fmspc: String,
    pub pce_id: String,
    pub tcb_type: u32,
    pub tcb_evaluation_data_number: u32,
    pub tcb_levels: Vec<TcbLevel>,
}

/// One TCB level: the component versions it asks for, and its status.
#[derive(Debug, Clone)]
pub struct TcbLevel {
    pub tcb: TcbComponents,
    pub tcb_date: String,
    pub tcb_status: String,
}

/// The security version numbers of the TCB components.
#[derive(Debug, Clone)]
pub struct TcbComponents {
    pub sgxtcbcomp01svn: u8,
    pub sgxtcbcomp02svn: u8,
    pub sgxtcbcomp03svn: u8,
    pub sgxtcbcomp04svn: u8,
    pub sgxtcbcomp05svn: u8,
    pub sgxtcbcomp06svn: u8,
    pub sgxtcbcomp07svn: u8,
    pub sgxtcbcomp08svn: u8,
    pub sgxtcbcomp09svn: u8,
    pub sgxtcbcomp10svn: u8,
    pub sgxtcbcomp11svn: u8,
    pub sgxtcbcomp12svn: u8,
    pub sgxtcbcomp13svn: u8,
    pub sgxtcbcomp14svn: u8,
    pub sgxtcbcomp15svn: u8,
    pub sgxtcbcomp16svn: u8,
    pub pcesvn: u16,
}

} // verus!
