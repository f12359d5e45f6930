//! An earlier cut of the search-result records, kept for callers that still
//! name this module. It differs from the current cut in a few field types.
//!
//! The full result and match records carry geographic coordinates, which
//! this crate does not model; an I/O layer decodes those replies into its
//! own shapes.

use vstd::prelude::*;

use std::collections::HashMap;

verus! {

/// The cloud a crawled service runs in.
#[derive(Debug, PartialEq)]
pub struct Cloud {
    pub region: Option<String>,
    pub service: Option<String>,
    pub provider: String,
}

/// The HTTP portion of a crawled service.
#[derive(Debug, PartialEq)]
pub struct Http {
    pub status: i64,
    pub robots_hash: Option<i64>,
    pub redirects: Vec<Redirect>,
    pub securitytxt: Option<String>,
    pub title: Option<String>,
    pub sitemap_hash: Option<i64>,
    pub robots: Option<String>,
    pub server: Option<String>,
    pub headers_hash: i64,
    pub host: String,
    pub html: String,
    pub location: String,
    pub components: Option<HashMap<String, Component>>,
    pub html_hash: i64,
    pub sitemap: Option<String>,
    pub securitytxt_hash: Option<String>,
    pub favicon: Option<Favicon>,
    pub waf: Option<String>,
}

/// The categories of one detected web component.
#[derive(Debug, PartialEq)]
pub struct Component {
    pub categories: Vec<String>,
}

/// A site's favicon as crawled.
#[derive(Debug, PartialEq)]
pub struct Favicon {
    pub hash: i64,
    pub data: String,
    pub location: String,
}

/// One redirect followed while crawling.
#[derive(Debug, PartialEq)]
pub struct Redirect {
    pub host: String,
    pub data: String,
    pub location: String,
    pub html: Option<String>,
}

/// The MySQL portion of a crawled service.
#[derive(Debug, PartialEq)]
pub struct Mysql {
    pub authentication_plugin: String,
    pub capabilities: i64,
    pub server_status: String,
    pub thread_id: i64,
    pub version: String,
    pub extended_server_capabilities: i64,
    pub protocol_version: i64,
    pub server_language: i64,
}

/// The crawler's own notes on one observation.
#[derive(Debug, PartialEq)]
pub struct Shodan {
    pub region: String,
    pub ptr: Option<bool>,
    pub module: String,
    pub id: String,
    pub options: HashMap<String, String>,
    pub crawler: String,
}

/// One X.509 extension of a served certificate.
#[derive(Debug, PartialEq)]
pub struct Extension {
    pub critical: Option<bool>,
    pub data: String,
    pub name: String,
}

/// The digests of a served certificate.
#[derive(Debug, PartialEq)]
pub struct Fingerprint {
    pub sha256: String,
    pub sha1: String,
}

/// A certificate's subject or issuer name.
#[derive(Debug, PartialEq)]
pub struct Issuer {
    pub c: Option<String>,
    pub cn: String,
    pub o: Option<String>,
    pub l: Option<String>,
    pub st: Option<String>,
    pub ou: Option<String>,
    pub email_address: Option<String>,
}

/// A certificate's public key.
#[derive(Debug, PartialEq)]
pub struct Pubkey {
    pub pubkey_type: String,
    pub bits: i64,
}

/// The cipher a TLS handshake settled on.
#[derive(Debug, PartialEq)]
pub struct Cipher {
    pub version: String,
    pub bits: i64,
    pub name: String,
}

/// The Diffie-Hellman parameters a TLS service offered.
#[derive(Debug, PartialEq)]
pub struct Dhparams {
    pub prime: String,
    pub public_key: String,
    pub bits: i64,
    pub generator: i64,
    pub fingerprint: String,
}

/// The OCSP response served during the handshake.
#[derive(Debug, PartialEq)]
pub struct Ocsp {
    pub version: Option<String>,
    pub response_status: Option<String>,
    pub responder_id: Option<String>,
    pub cert_status: Option<String>,
    pub produced_at: Option<String>,
    pub signature_algorithm: Option<String>,
    pub next_update: Option<String>,
    pub this_update: Option<String>,
    pub certificate_id: Option<CertificateId>,
}

/// The identifier of the certificate an OCSP response speaks of.
#[derive(Debug, PartialEq)]
pub struct CertificateId {
    pub hash_algorithm: String,
    pub issuer_name_hash: String,
    pub issuer_name_key: String,
    pub serial_number: String,
}

/// One TLS extension a service offered.
#[derive(Debug, PartialEq)]
pub struct Tlsext {
    pub id: i64,
    pub name: String,
}

/// Whether a served certificate is trusted, and by whom.
#[derive(Debug, PartialEq)]
pub struct Trust {
    pub revoked: bool,
    pub browser: Option<Browser>,
}

/// Which browser vendors trust a served certificate.
#[derive(Debug, PartialEq)]
pub struct Browser {
    pub mozilla: bool,
    pub apple: bool,
    pub microsoft: bool,
}

} // verus!
