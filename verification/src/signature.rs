//! The signature primitive: RSA PKCS#1 v1.5 over SHA3-256.
//!
//! The RSA operations are done by OpenSSL. Keys are read with the empty
//! passphrase, so that no call ever waits for one to be typed; each outcome
//! is then a function of the bytes handed over, has a name here, and
//! everything around the calls is stated over those names. OpenSSL takes
//! lengths as a C `int`: a longer key is refused before any call.

use crate::bytes::append_bytes;
use openssl::hash::MessageDigest;
use openssl::pkey::PKey;
use openssl::rsa::{Padding, Rsa};
use openssl::sign::{Signer, Verifier};
use vstd::prelude::*;

verus! {

/// Length in bytes of every signature on a tag or in a ledger.
pub const SIGNATURE_SIZE: usize = 256;

/// Length in bytes of a SHA3-256 digest.
pub const DIGEST_SIZE: usize = 32;

/// Length in bytes of the header that precedes the digest in a decrypted
/// PKCS#1 v1.5 signature block made over SHA3-256.
pub const DIGEST_INFO_PREFIX: usize = 19;

/// The longest key, and the longest input to the RSA public operation,
/// that OpenSSL takes: lengths are handed over as a C `int`.
pub const MAX_RSA_INPUT: usize = 0x7fff_ffff;

/// The PKCS#1 v1.5 signature over the SHA3-256 digest of `message` under the
/// PEM-encoded RSA private key `private_key`; `None` where the key cannot be
/// read or the signature cannot be made. A key that is kept under a
/// passphrase is read with the empty passphrase.
pub uninterp spec fn rsa_sha3_signature(private_key: Seq<u8>, message: Seq<u8>) -> Option<Seq<u8>>;

/// Whether `signature` is a signature over the SHA3-256 digest of `message`
/// under the PEM-encoded public key `public_key`; `None` where the key cannot
/// be read or the check cannot be carried out. A key that is kept under a
/// passphrase is read with the empty passphrase.
pub uninterp spec fn rsa_sha3_verdict(
    public_key: Seq<u8>,
    message: Seq<u8>,
    signature: Seq<u8>,
) -> Option<bool>;

/// The block that the RSA public operation with PKCS#1 v1.5 padding recovers
/// from `signature` under the PEM-encoded RSA public key `public_key`; `None`
/// where the key cannot be read, is no RSA key, or the padding is not as it
/// should be. A key that is kept under a passphrase is read with the empty
/// passphrase.
pub uninterp spec fn rsa_public_block(public_key: Seq<u8>, signature: Seq<u8>) -> Option<Seq<u8>>;

/// Whether `pem` can be read as a PEM-encoded RSA public key. A key that is
/// kept under a passphrase is read with the empty passphrase.
pub uninterp spec fn rsa_public_key_readable(pem: Seq<u8>) -> bool;

/// The parts, one after the other, with nothing between them.
pub open spec fn concat_all(parts: Seq<Seq<u8>>) -> Seq<u8>
    decreases parts.len(),
{
    if parts.len() == 0 {
        Seq::empty()
    } else {
        concat_all(parts.drop_last()) + parts.last()
    }
}

/// The views of a list of byte strings.
pub open spec fn views_of(parts: Seq<Vec<u8>>) -> Seq<Seq<u8>> {
    parts.map_values(|p: Vec<u8>| p@)
}

/// A raw signature is kept only if it has the one length that a tag can carry.
pub open spec fn spec_checked_signature(raw: Option<Seq<u8>>) -> Option<Seq<u8>> {
    match raw {
        Some(s) => if s.len() == SIGNATURE_SIZE {
            Some(s)
        } else {
            None
        },
        None => None,
    }
}

/// The 256-byte signature over `message` under `private_key`, if there is
/// one: a key too long to be handed over gives none.
pub open spec fn spec_sign(private_key: Seq<u8>, message: Seq<u8>) -> Option<Seq<u8>> {
    if private_key.len() > MAX_RSA_INPUT {
        None
    } else {
        spec_checked_signature(rsa_sha3_signature(private_key, message))
    }
}

/// What `create_signature` returns.
pub open spec fn spec_create_signature(private_key: Seq<u8>, members: Seq<Seq<u8>>) -> Option<
    Seq<u8>,
> {
    spec_sign(private_key, concat_all(members))
}

/// What `verify_signature` returns: a failed check, a check that could not
/// be made and a key too long to be handed over all count as a signature
/// that does not verify.
pub open spec fn spec_verify_signature(
    signature: Seq<u8>,
    expected_data: Seq<u8>,
    public_key: Seq<u8>,
) -> bool {
    public_key.len() <= MAX_RSA_INPUT && rsa_sha3_verdict(public_key, expected_data, signature)
        == Some(true)
}

/// What `is_rsa_public_key` returns: the key is short enough to be handed
/// over and can be read.
pub open spec fn spec_is_rsa_public_key(pem: Seq<u8>) -> bool {
    pem.len() <= MAX_RSA_INPUT && rsa_public_key_readable(pem)
}

/// The 32 bytes that follow the 19-byte header of a recovered block; positions
/// past the end of the block read as zero.
pub open spec fn spec_digest_from_block(block: Seq<u8>) -> Seq<u8> {
    Seq::new(
        DIGEST_SIZE as nat,
        |i: int|
            if DIGEST_INFO_PREFIX + i < block.len() {
                block[DIGEST_INFO_PREFIX + i]
            } else {
                0u8
            },
    )
}

/// What `hash_from_signature` returns.
pub open spec fn spec_hash_from_signature(pub_key: Seq<u8>, signature: Seq<u8>) -> Option<
    Seq<u8>,
> {
    if signature.len() != SIGNATURE_SIZE || pub_key.len() > MAX_RSA_INPUT {
        None
    } else {
        match rsa_public_block(pub_key, signature) {
            Some(block) => Some(spec_digest_from_block(block)),
            None => None,
        }
    }
}

/// The view of an optional byte string.
pub open spec fn option_bytes(v: Option<Vec<u8>>) -> Option<Seq<u8>> {
    match v {
        Some(b) => Some(b@),
        None => None,
    }
}

/// Signs with OpenSSL: `Rsa::private_key_from_pem_passphrase` with the empty
/// passphrase, `PKey::from_rsa`, `Signer::new` with
/// `MessageDigest::sha3_256`, `Signer::set_rsa_padding` with
/// `Padding::PKCS1`, `Signer::update` and `Signer::sign_to_vec`.
/// Trusted: the outcome is the one named `rsa_sha3_signature`, and an error
/// at any step is `None`. The key reader panics on a key longer than a C
/// `int` can count, which `requires` leaves out; with a passphrase given it
/// never asks for one.
#[verifier::external_body]
fn rsa_sign(private_key: &[u8], message: &[u8]) -> (out: Option<Vec<u8>>)
    requires
        private_key@.len() <= MAX_RSA_INPUT,
    ensures
        option_bytes(out) == rsa_sha3_signature(private_key@, message@),
{
    let rsa = Rsa::private_key_from_pem_passphrase(private_key, b"").ok()?;
    let keypair = PKey::from_rsa(rsa).ok()?;
    let mut signer = Signer::new(MessageDigest::sha3_256(), &keypair).ok()?;
    signer.set_rsa_padding(Padding::PKCS1).ok()?;
    signer.update(message).ok()?;
    signer.sign_to_vec().ok()
}

/// Verifies with OpenSSL: `PKey::public_key_from_pem_passphrase` with the
/// empty passphrase, `Verifier::new` with `MessageDigest::sha3_256`,
/// `Verifier::update` and `Verifier::verify`.
/// Trusted: the outcome is the one named `rsa_sha3_verdict`, and an error at
/// any step is `None`. The key reader panics on a key longer than a C `int`
/// can count, which `requires` leaves out; with a passphrase given it never
/// asks for one.
#[verifier::external_body]
fn rsa_verify(public_key: &[u8], message: &[u8], signature: &[u8]) -> (out: Option<bool>)
    requires
        public_key@.len() <= MAX_RSA_INPUT,
    ensures
        out == rsa_sha3_verdict(public_key@, message@, signature@),
{
    let pkey = PKey::public_key_from_pem_passphrase(public_key, b"").ok()?;
    let mut verifier = Verifier::new(MessageDigest::sha3_256(), &pkey).ok()?;
    verifier.update(message).ok()?;
    verifier.verify(signature).ok()
}

/// Applies the public key with OpenSSL: `PKey::public_key_from_pem_passphrase`
/// with the empty passphrase and `PKeyRef::rsa`, then `Rsa::public_decrypt`
/// with `Padding::PKCS1` into a buffer of `Rsa::size` bytes, cut to the
/// number of bytes that the call reports.
/// Trusted: the outcome is the one named `rsa_public_block`, and an error at
/// any step is `None`. The key reader and `public_decrypt` panic on a key or
/// an input longer than a C `int` can count, which `requires` leaves out;
/// with a passphrase given the reader never asks for one.
#[verifier::external_body]
fn rsa_public_decrypt(public_key: &[u8], signature: &[u8]) -> (out: Option<Vec<u8>>)
    requires
        public_key@.len() <= MAX_RSA_INPUT,
        signature@.len() <= MAX_RSA_INPUT,
    ensures
        option_bytes(out) == rsa_public_block(public_key@, signature@),
{
    let rsa = PKey::public_key_from_pem_passphrase(public_key, b"").ok()?.rsa().ok()?;
    let mut block = vec![0u8; rsa.size() as usize];
    let written = rsa.public_decrypt(signature, &mut block, Padding::PKCS1).ok()?;
    block.truncate(written);
    Some(block)
}

/// Reads a key with OpenSSL's `PKey::public_key_from_pem_passphrase`, with
/// the empty passphrase, and `PKeyRef::rsa`, and drops it.
/// Trusted: the result says whether both calls succeeded, which is the
/// property named `rsa_public_key_readable`. The key reader panics on a key
/// longer than a C `int` can count, which `requires` leaves out; with a
/// passphrase given it never asks for one.
#[verifier::external_body]
fn rsa_public_key_parses(pem: &[u8]) -> (out: bool)
    requires
        pem@.len() <= MAX_RSA_INPUT,
    ensures
        out == rsa_public_key_readable(pem@),
{
    match PKey::public_key_from_pem_passphrase(pem, b"") {
        Ok(key) => key.rsa().is_ok(),
        Err(_) => false,
    }
}

/// Whether `pem` holds an RSA public key that can be read.
pub fn is_rsa_public_key(pem: &[u8]) -> (out: bool)
    ensures
        out == spec_is_rsa_public_key(pem@),
{
    if pem.len() > MAX_RSA_INPUT {
        false
    } else {
        rsa_public_key_parses(pem)
    }
}

/// Joins the parts in order, with no separators.
pub fn concat_parts(members: &Vec<Vec<u8>>) -> (out: Vec<u8>)
    ensures
        out@ == concat_all(views_of(members@)),
{
    let mut out: Vec<u8> = Vec::new();
    let mut i: usize = 0;
    while i < members.len()
        invariant
            i <= members@.len(),
            out@ == concat_all(views_of(members@).take(i as int)),
        decreases members@.len() - i,
    {
        proof {
            let all = views_of(members@);
            assert(all.take(i + 1).drop_last() =~= all.take(i as int));
            assert(all.take(i + 1).last() == members@[i as int]@);
        }
        append_bytes(&mut out, members[i].as_slice());
        i = i + 1;
    }
    assert(views_of(members@).take(members@.len() as int) =~= views_of(members@));
    out
}

/// Keeps a raw signature only if it is exactly `SIGNATURE_SIZE` bytes long.
pub fn checked_signature(raw: Option<Vec<u8>>) -> (out: Option<Vec<u8>>)
    ensures
        option_bytes(out) == spec_checked_signature(option_bytes(raw)),
{
    match raw {
        Some(signature) => {
            if signature.len() == SIGNATURE_SIZE {
                Some(signature)
            } else {
                None
            }
        },
        None => None,
    }
}

/// Signs the concatenation of `members` with the PEM-encoded RSA private key.
///
/// The result is a 256-byte signature, or `None` where the key is longer
/// than `MAX_RSA_INPUT`, is not a usable RSA private key, or does not give
/// signatures of that length.
pub fn create_signature(private_key: &[u8], members: &Vec<Vec<u8>>) -> (out: Option<Vec<u8>>)
    ensures
        option_bytes(out) == spec_create_signature(private_key@, views_of(members@)),
        out matches Some(signature) ==> signature@.len() == SIGNATURE_SIZE,
{
    if private_key.len() > MAX_RSA_INPUT {
        return None;
    }
    let message = concat_parts(members);
    checked_signature(rsa_sign(private_key, message.as_slice()))
}

/// Whether `signature` verifies over `expected_data` under `public_key`.
/// Anything that keeps the check from being made counts as a failed check,
/// a key longer than `MAX_RSA_INPUT` among it.
pub fn verify_signature(signature: &[u8], expected_data: &[u8], public_key: &[u8]) -> (out: bool)
    ensures
        out == spec_verify_signature(signature@, expected_data@, public_key@),
{
    if public_key.len() > MAX_RSA_INPUT {
        return false;
    }
    verdict_holds(rsa_verify(public_key, expected_data, signature))
}

/// Reads the outcome of a signature check: only a completed check that
/// succeeded counts.
pub fn verdict_holds(verdict: Option<bool>) -> (out: bool)
    ensures
        out == (verdict == Some(true)),
{
    match verdict {
        Some(ok) => ok,
        None => false,
    }
}

/// Takes the committed digest out of a recovered signature block: drops the
/// 19-byte header and keeps the next 32 bytes, reading zero past the end.
pub fn digest_from_block(block: &Vec<u8>) -> (out: Vec<u8>)
    ensures
        out@ == spec_digest_from_block(block@),
{
    let mut out: Vec<u8> = Vec::new();
    let mut i: usize = 0;
    while i < DIGEST_SIZE
        invariant
            i <= DIGEST_SIZE,
            out@.len() == i,
            forall|j: int| 0 <= j < i ==> out@[j] == spec_digest_from_block(block@)[j],
        decreases DIGEST_SIZE - i,
    {
        let byte: u8 = if i < block.len() && DIGEST_INFO_PREFIX < block.len() - i {
            block[DIGEST_INFO_PREFIX + i]
        } else {
            0u8
        };
        out.push(byte);
        i = i + 1;
    }
    assert(out@ =~= spec_digest_from_block(block@));
    out
}

/// Recovers the 32 bytes that a signature commits to; for a signature made
/// over SHA3-256 these are the digest of what was signed.
///
/// Returns `None` where the signature is not 256 bytes long, the key is
/// longer than `MAX_RSA_INPUT` or is not a readable RSA public key, or the
/// signature does not decrypt under it.
pub fn hash_from_signature(pub_key: &[u8], signature: &[u8]) -> (out: Option<Vec<u8>>)
    ensures
        option_bytes(out) == spec_hash_from_signature(pub_key@, signature@),
        out matches Some(digest) ==> digest@.len() == DIGEST_SIZE,
{
    if signature.len() != SIGNATURE_SIZE || pub_key.len() > MAX_RSA_INPUT {
        return None;
    }
    match rsa_public_decrypt(pub_key, signature) {
        Some(block) => Some(digest_from_block(&block)),
        None => None,
    }
}

/// From a block of the layout that PKCS#1 v1.5 gives a SHA3-256 signature,
/// a 19-byte header followed by the 32-byte digest, what is cut out is the
/// digest.
pub proof fn lemma_digest_of_framed_block(header: Seq<u8>, digest: Seq<u8>)
    requires
        header.len() == DIGEST_INFO_PREFIX,
        digest.len() == DIGEST_SIZE,
    ensures
        spec_digest_from_block(header + digest) == digest,
{
    assert(spec_digest_from_block(header + digest) =~= digest);
}

/// Where a 256-byte signature opens under a key to a block of that layout,
/// `hash_from_signature` gives the digest in it. That the block recovered
/// from a signature made over SHA3-256 has this layout, with the digest of
/// the signed message in it, is a fact about RSA and is taken as given here.
pub proof fn lemma_hash_from_framed_signature(
    pub_key: Seq<u8>,
    signature: Seq<u8>,
    header: Seq<u8>,
    digest: Seq<u8>,
)
    requires
        pub_key.len() <= MAX_RSA_INPUT,
        signature.len() == SIGNATURE_SIZE,
        header.len() == DIGEST_INFO_PREFIX,
        digest.len() == DIGEST_SIZE,
        rsa_public_block(pub_key, signature) == Some(header + digest),
    ensures
        spec_hash_from_signature(pub_key, signature) == Some(digest),
{
    lemma_digest_of_framed_block(header, digest);
}

/// An entry of a chain: something that carries a signature.
pub trait BlockChainEntry {
    /// The signature that the entry carries.
    spec fn spec_signature(&self) -> Seq<u8>;

    /// A copy of the entry's signature.
    fn signature(&self) -> (out: Vec<u8>)
        ensures
            out@ == self.spec_signature(),
    ;

    /// Signs the concatenation of `members`; see the free function of the
    /// same name.
    fn create_signature(private_key: Vec<u8>, members: Vec<Vec<u8>>) -> (out: Option<Vec<u8>>)
        ensures
            option_bytes(out) == spec_create_signature(private_key@, views_of(members@)),
            out matches Some(signature) ==> signature@.len() == SIGNATURE_SIZE,
    {
        self::create_signature(private_key.as_slice(), &members)
    }

    /// Whether the entry's signature verifies over `expected_data` under
    /// `public_key`.
    fn verify_signature(&self, expected_data: &[u8], public_key: &[u8]) -> (out: bool)
        ensures
            out == spec_verify_signature(self.spec_signature(), expected_data@, public_key@),
    {
        let signature = self.signature();
        self::verify_signature(signature.as_slice(), expected_data, public_key)
    }
}

} // verus!
