//! The server's TLS identity: a self-signed certificate for
//! `subspace-conduit.local` and its private key, kept as PEM files.
use vstd::prelude::*;
use std::io::BufReader;
use vstd::utf8::encode_utf8;

verus! {

#[verifier::external_type_specification]
#[verifier::external_body]
pub struct ExRcgenError(rcgen::Error);

/// The name a server's certificate is issued for, and that clients ask for.
pub open spec fn spec_tls_name() -> Seq<char> {
    "subspace-conduit.local"@
}

/// The TLS name of every server, which is also the host key that clients
/// record its fingerprint under.
pub fn tls_name() -> (s: String)
    ensures
        s@ == spec_tls_name(),
{
    "subspace-conduit.local".to_owned()
}

/// What `rustls_pemfile::certs` yields first for the PEM text `pem`: the DER
/// bytes of the first certificate, an error, or nothing if there is none.
pub uninterp spec fn pem_first_certificate(pem: Seq<u8>) -> Option<Result<Seq<u8>, ()>>;

/// What `rustls_pemfile::pkcs8_private_keys` yields first for `pem`: the DER
/// bytes of the first PKCS#8 key, an error, or nothing if there is none.
pub uninterp spec fn pem_first_pkcs8_key(pem: Seq<u8>) -> Option<Result<Seq<u8>, ()>>;

/// The first item of `rustls_pemfile::certs` over `pem`, as DER bytes.
#[verifier::external_body]
fn first_certificate(pem: &[u8]) -> (r: Option<Result<Vec<u8>, std::io::Error>>)
    ensures
        match r {
            None => pem_first_certificate(pem@) is None,
            Some(Ok(der)) => pem_first_certificate(pem@) == Some(Ok::<Seq<u8>, ()>(der@)),
            Some(Err(_)) => pem_first_certificate(pem@) == Some(Err::<Seq<u8>, ()>(())),
        },
{
    match rustls_pemfile::certs(&mut BufReader::new(pem)).next() {
        None => None,
        Some(Ok(cert)) => Some(Ok(cert.to_vec())),
        Some(Err(e)) => Some(Err(e)),
    }
}

/// The first item of `rustls_pemfile::pkcs8_private_keys` over `pem`, as DER bytes.
#[verifier::external_body]
fn first_pkcs8_key(pem: &[u8]) -> (r: Option<Result<Vec<u8>, std::io::Error>>)
    ensures
        match r {
            None => pem_first_pkcs8_key(pem@) is None,
            Some(Ok(der)) => pem_first_pkcs8_key(pem@) == Some(Ok::<Seq<u8>, ()>(der@)),
            Some(Err(_)) => pem_first_pkcs8_key(pem@) == Some(Err::<Seq<u8>, ()>(())),
        },
{
    match rustls_pemfile::pkcs8_private_keys(&mut BufReader::new(pem)).next() {
        None => None,
        Some(Ok(key)) => Some(Ok(key.secret_pkcs8_der().to_vec())),
        Some(Err(e)) => Some(Err(e)),
    }
}

/// A subject-alternative name of a generated certificate.
#[derive(Debug, Clone, PartialEq, Eq)]
pub enum CertName {
    /// A DNS name.
    Dns(String),
    /// An IP address.
    Ip,
    /// Any other kind of name.
    Other,
}

/// A character that can occur in the text of an IPv4 or IPv6 address.
pub open spec fn ip_text_char(c: char) -> bool {
    ('0' <= c && c <= '9') || ('a' <= c && c <= 'f') || ('A' <= c && c <= 'F') || c == '.' || c == ':'
}

/// Whether `s` could be the text of an IP address: every character of it
/// is one that such a text is made of.
pub open spec fn may_be_ip_text(s: Seq<char>) -> bool {
    forall|i: int| 0 <= i < s.len() ==> ip_text_char(#[trigger] s[i])
}

/// `rcgen::generate_simple_self_signed` for the names `subject_alt_names`:
/// the certificate and key as PEM text, then as DER bytes, then the
/// certificate's subject-alternative names. The key is drawn at random.
/// What is stated: each PEM text is the PEM encoding of the DER bytes beside
/// it, so that `rustls_pemfile` reads them back; and the certificate names
/// the given texts in order, each as a DNS name, except that a text that
/// parses as an IP address is named as one. Which texts parse as IP
/// addresses is left unsaid beyond their being made of address characters.
#[verifier::external_body]
fn generate_simple_self_signed(subject_alt_names: Vec<String>) -> (r: Result<(String, String, Vec<u8>, Vec<u8>, Vec<CertName>), rcgen::Error>)
    ensures
        r matches Ok((cert_pem, key_pem, cert_der, key_der, names)) ==> (
            pem_first_certificate(encode_utf8(cert_pem@)) == Some(Ok::<Seq<u8>, ()>(cert_der@))
            && pem_first_pkcs8_key(encode_utf8(key_pem@)) == Some(Ok::<Seq<u8>, ()>(key_der@))
            && names@.len() == subject_alt_names@.len()
            && forall|i: int| 0 <= i < names@.len() ==> (
                (#[trigger] names@[i] matches CertName::Dns(d) && d@ == subject_alt_names@[i]@)
                || (names@[i] is Ip && may_be_ip_text(subject_alt_names@[i]@)))),
{
    match rcgen::generate_simple_self_signed(subject_alt_names) {
        Ok(k) => {
            let names = k.cert.params().subject_alt_names.iter().map(|san| match san {
                rcgen::SanType::DnsName(d) => CertName::Dns(d.as_str().to_string()),
                rcgen::SanType::IpAddress(_) => CertName::Ip,
                _ => CertName::Other,
            }).collect();
            Ok((k.cert.pem(), k.key_pair.serialize_pem(), k.cert.der().to_vec(), k.key_pair.serialize_der(), names))
        },
        Err(e) => Err(e),
    }
}

/// The names a server's certificate is issued for: its TLS name alone.
pub fn certificate_names() -> (v: Vec<String>)
    ensures
        v@.len() == 1,
        v@[0]@ == spec_tls_name(),
{
    let mut v: Vec<String> = Vec::new();
    v.push(tls_name());
    v
}

/// A certificate (DER) and its PKCS#8 private key (DER).
#[derive(Debug, Clone, PartialEq, Eq)]
pub struct Identity {
    pub cert_der: Vec<u8>,
    pub key_der: Vec<u8>,
}

/// A fresh identity, with the PEM texts to store it under.
#[derive(Debug, Clone, PartialEq, Eq)]
pub struct GeneratedIdentity {
    pub cert_pem: String,
    pub key_pem: String,
    pub identity: Identity,
    /// The certificate's subject-alternative names.
    pub names: Vec<CertName>,
}

/// Why no identity could be had.
#[derive(Debug, Clone, Copy, PartialEq, Eq)]
pub enum IdentityError {
    /// The certificate file holds no certificate.
    NoCertificate,
    /// The key file holds no PKCS#8 private key.
    NoPrivateKey,
    /// A PEM file could not be read.
    BadPem,
    /// The certificate could not be generated.
    Generation,
}

/// Reads a stored identity: the first certificate of `cert_pem` and the
/// first PKCS#8 key of `key_pem`.
pub fn identity_from_pem(cert_pem: &[u8], key_pem: &[u8]) -> (r: Result<Identity, IdentityError>)
    ensures
        match pem_first_certificate(cert_pem@) {
            None => r == Err::<Identity, _>(IdentityError::NoCertificate),
            Some(Err(_)) => r == Err::<Identity, _>(IdentityError::BadPem),
            Some(Ok(cert)) => match pem_first_pkcs8_key(key_pem@) {
                None => r == Err::<Identity, _>(IdentityError::NoPrivateKey),
                Some(Err(_)) => r == Err::<Identity, _>(IdentityError::BadPem),
                Some(Ok(key)) => r matches Ok(id) && id.cert_der@ == cert && id.key_der@ == key,
            },
        },
{
    let cert_der = match first_certificate(cert_pem) {
        None => return Err(IdentityError::NoCertificate),
        Some(Err(_)) => return Err(IdentityError::BadPem),
        Some(Ok(der)) => der,
    };
    let key_der = match first_pkcs8_key(key_pem) {
        None => return Err(IdentityError::NoPrivateKey),
        Some(Err(_)) => return Err(IdentityError::BadPem),
        Some(Ok(der)) => der,
    };
    Ok(Identity { cert_der, key_der })
}

/// Generates a self-signed certificate for `subspace-conduit.local`.
pub fn generate_self_signed_cert() -> (r: Result<GeneratedIdentity, IdentityError>)
    ensures
        r matches Err(e) ==> e == IdentityError::Generation,
        r matches Ok(g) ==> (pem_first_certificate(encode_utf8(g.cert_pem@)) == Some(Ok::<Seq<u8>, ()>(g.identity.cert_der@))
            && pem_first_pkcs8_key(encode_utf8(g.key_pem@)) == Some(Ok::<Seq<u8>, ()>(g.identity.key_der@))),
        r matches Ok(g) ==> g.names@.len() == 1,
        r matches Ok(g) ==> (g.names@[0] matches CertName::Dns(d) && d@ == spec_tls_name()),
{
    let names = certificate_names();
    proof {
        reveal_strlit("subspace-conduit.local");
        assert(!ip_text_char(spec_tls_name()[0]));
        assert(!may_be_ip_text(names@[0]@));
    }
    match generate_simple_self_signed(names) {
        Ok((cert_pem, key_pem, cert_der, key_der, names)) => Ok(GeneratedIdentity {
            cert_pem,
            key_pem,
            identity: Identity { cert_der, key_der },
            names,
        }),
        Err(_) => Err(IdentityError::Generation),
    }
}

} // verus!
