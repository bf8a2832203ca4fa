use subspace_conduit::digest::fingerprint;
use subspace_conduit::identity::{
    certificate_names, generate_self_signed_cert, identity_from_pem, tls_name, CertName, IdentityError,
};

#[test]
fn tls_name_is_the_service_host() {
    assert_eq!(tls_name(), "subspace-conduit.local");
}

#[test]
fn generated_identity_reads_back_from_its_pem() {
    let g = generate_self_signed_cert().unwrap();
    assert!(g.cert_pem.contains("BEGIN CERTIFICATE"));
    assert!(g.key_pem.contains("PRIVATE KEY"));
    let id = identity_from_pem(g.cert_pem.as_bytes(), g.key_pem.as_bytes()).unwrap();
    assert_eq!(id, g.identity);
    assert_eq!(fingerprint(&id.cert_der).len(), 64);
}

#[test]
fn missing_pem_sections_are_reported() {
    let g = generate_self_signed_cert().unwrap();
    assert_eq!(identity_from_pem(b"", g.key_pem.as_bytes()), Err(IdentityError::NoCertificate));
    assert_eq!(identity_from_pem(g.cert_pem.as_bytes(), b""), Err(IdentityError::NoPrivateKey));
    // a certificate file holds no key
    assert_eq!(
        identity_from_pem(g.cert_pem.as_bytes(), g.cert_pem.as_bytes()),
        Err(IdentityError::NoPrivateKey)
    );
}

#[test]
fn broken_pem_is_reported() {
    let broken = b"-----BEGIN CERTIFICATE-----\n!!!!\n-----END CERTIFICATE-----\n";
    assert_eq!(identity_from_pem(broken, b""), Err(IdentityError::BadPem));
}

#[test]
fn generated_certificate_names_the_service_host() {
    assert_eq!(certificate_names(), vec!["subspace-conduit.local".to_string()]);
    let g = generate_self_signed_cert().unwrap();
    assert_eq!(g.names, vec![CertName::Dns("subspace-conduit.local".to_string())]);
}
