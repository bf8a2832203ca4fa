//! Certificate fingerprints and transfer checksums: SHA-256, written in
//! lower-case hexadecimal.
use vstd::prelude::*;
use sha2::Digest;

verus! {

/// The SHA-256 digest of `data` (32 bytes).
pub uninterp spec fn sha256_of(data: Seq<u8>) -> Seq<u8>;

/// `sha2::Sha256::digest`: the SHA-256 digest of `data`, 32 bytes long.
#[verifier::external_body]
fn sha256(data: &[u8]) -> (d: Vec<u8>)
    ensures
        d@ == sha256_of(data@),
        d@.len() == 32,
{
    sha2::Sha256::digest(data).to_vec()
}

/// A SHA-256 computation in progress, fed a file chunk by chunk.
#[verifier::external_body]
pub struct Sha256State {
    inner: sha2::Sha256,
}

/// The bytes fed to a SHA-256 computation so far, in order.
pub uninterp spec fn absorbed(s: Sha256State) -> Seq<u8>;

/// `sha2::Sha256::new`: a computation that has been fed nothing.
#[verifier::external_body]
fn sha256_start() -> (s: Sha256State)
    ensures
        absorbed(s) == Seq::<u8>::empty(),
{
    Sha256State { inner: sha2::Sha256::new() }
}

/// `sha2::Digest::update`: feeds `data` after what was fed before.
#[verifier::external_body]
fn sha256_absorb(s: &mut Sha256State, data: &[u8])
    ensures
        absorbed(*final(s)) == absorbed(*old(s)) + data@,
{
    s.inner.update(data)
}

/// `sha2::Digest::finalize`: the digest of everything fed, 32 bytes long.
#[verifier::external_body]
fn sha256_finish(s: Sha256State) -> (d: Vec<u8>)
    ensures
        d@ == sha256_of(absorbed(s)),
        d@.len() == 32,
{
    s.inner.finalize().to_vec()
}

impl Sha256State {
    /// A computation that has been fed nothing.
    pub fn new() -> (s: Self)
        ensures
            absorbed(s) == Seq::<u8>::empty(),
    {
        sha256_start()
    }

    /// Feeds `data` after what was fed before.
    pub fn absorb(&mut self, data: &[u8])
        ensures
            absorbed(*final(self)) == absorbed(*old(self)) + data@,
    {
        sha256_absorb(self, data)
    }
}

/// The checksum of a transfer: the hexadecimal SHA-256 of every byte fed.
pub fn transfer_checksum(s: Sha256State) -> (c: String)
    ensures
        c@ == spec_hex(sha256_of(absorbed(s))),
{
    let d = sha256_finish(s);
    hex_encode(d.as_slice())
}

/// The lower-case hexadecimal digit for `d`, which is below sixteen.
pub open spec fn hex_digit(d: nat) -> char {
    if d < 10 {
        crate::text::digit_char(d)
    } else if d == 10 { 'a' }
    else if d == 11 { 'b' }
    else if d == 12 { 'c' }
    else if d == 13 { 'd' }
    else if d == 14 { 'e' }
    else { 'f' }
}

/// Lower-case hexadecimal of `data`: two digits per byte, high nibble first.
pub open spec fn spec_hex(data: Seq<u8>) -> Seq<char>
    decreases data.len(),
{
    if data.len() == 0 {
        seq![]
    } else {
        spec_hex(data.drop_last()) + seq![
            hex_digit(data.last() as nat / 16),
            hex_digit(data.last() as nat % 16),
        ]
    }
}

/// `hex::encode`: lower-case hexadecimal, two digits per byte, high nibble first.
#[verifier::external_body]
fn hex_encode(data: &[u8]) -> (s: String)
    ensures
        s@ == spec_hex(data@),
{
    hex::encode(data)
}

/// The fingerprint of a certificate: the hexadecimal SHA-256 of its DER bytes.
pub open spec fn spec_fingerprint(der: Seq<u8>) -> Seq<char> {
    spec_hex(sha256_of(der))
}

/// The fingerprint that identifies a server's certificate.
pub fn fingerprint(der: &[u8]) -> (f: String)
    ensures
        f@ == spec_fingerprint(der@),
        f@.len() == 64,
{
    let d = sha256(der);
    proof {
        lemma_hex_len(d@);
    }
    hex_encode(d.as_slice())
}

/// Hexadecimal has two digits per byte.
pub proof fn lemma_hex_len(data: Seq<u8>)
    ensures
        spec_hex(data).len() == 2 * data.len(),
    decreases data.len(),
{
    if data.len() > 0 {
        lemma_hex_len(data.drop_last());
    }
}

/// Whether a checksum received from the peer agrees with the one computed here.
pub fn checksums_agree(computed: &String, received: &String) -> (b: bool)
    ensures
        b == (computed@ == received@),
{
    *computed == *received
}

} // verus!
