//! The record shapes of the Gandi LiveDNS API, and the record-level rules
//! the daemon applies to them: an "A" record carries its address values as
//! dotted-quad text, at most one value may be present, and an update always
//! writes exactly one value.
//!
//! The HTTP transport that carries these records lives outside the
//! library; it hands complete records in and takes complete updates out.

use vstd::prelude::*;

use crate::addr::{dotted, parse_ipv4, Ipv4Address};

verus! {

/// An API error body.
#[derive(Debug)]
pub struct Error {
    pub object: String,
    pub cause: String,
    pub code: u32,
    pub message: String,
}

/// One record set, as the API returns it.
#[derive(Debug)]
pub struct Record {
    pub rrset_name: String,
    pub rrset_type: String,
    pub rrset_values: Vec<String>,
    pub rrset_href: String,
    pub rrset_ttl: Option<u32>,
}

/// The body of a record update.
#[derive(Debug)]
pub struct RecordUpdate {
    pub rrset_values: Vec<String>,
    pub rrset_ttl: Option<u32>,
}

/// A domain owner contact.
#[derive(Debug)]
pub struct Owner {
    pub city: String,
    pub given: String,
    pub family: String,
    pub zip: String,
    pub country: String,
    pub streetaddr: String,
    pub phone: String,
    pub state: String,
    pub owner_type: String,
    pub email: String,
}

/// The body of a domain creation request.
#[derive(Debug)]
pub struct CreateDomain {
    pub fqdn: String,
    pub owner: Owner,
}

/// Why a returned "A" record could not be read as one IPv4 address.
#[derive(Clone, Copy, Debug, PartialEq, Eq, Structural)]
pub enum RecordError {
    /// The record carries more than one value; a dynamic-DNS host record
    /// must hold at most one.
    TooManyValues,
    /// The record's single value is not a dotted-quad IPv4 address.
    InvalidAddress,
}

/// The IPv4 address published in an "A" record: its single value, parsed.
/// A record with no value means no address is published, which is not an
/// error; more than one value, or a value that is not a dotted quad, is.
pub fn record_to_ipv4(rec: &Record) -> (r: Result<Option<Ipv4Address>, RecordError>)
    ensures
        ({
            let vals = rec.rrset_values@;
            match r {
                Ok(Some(ip)) => vals.len() == 1 && vals[0]@ == dotted(ip),
                Ok(None) => vals.len() == 0,
                Err(RecordError::TooManyValues) => vals.len() > 1,
                Err(RecordError::InvalidAddress) => vals.len() == 1 && (forall|ip: Ipv4Address|
                    vals[0]@ != #[trigger] dotted(ip)),
            }
        }),
{
    let nr = rec.rrset_values.len();
    if nr > 1 {
        Err(RecordError::TooManyValues)
    } else if nr == 0 {
        Ok(None)
    } else {
        match parse_ipv4(rec.rrset_values[0].as_str()) {
            Some(ip) => Ok(Some(ip)),
            None => Err(RecordError::InvalidAddress),
        }
    }
}

/// The update body that publishes `ip`: exactly one value, the address in
/// dotted-quad text, with the fixed five-minute TTL.
pub fn make_record_update(ip: &Ipv4Address) -> (r: RecordUpdate)
    ensures
        r.rrset_values@.len() == 1,
        r.rrset_values@[0]@ == dotted(*ip),
        r.rrset_ttl == Some(300u32),
{
    let mut vals: Vec<String> = Vec::new();
    vals.push(ip.to_dotted());
    RecordUpdate { rrset_values: vals, rrset_ttl: Some(300) }
}

} // verus!
