//! Stream encryption, RSA key exchange and randomness, behind trusted
//! wrappers around the aes, cfb8, rsa and rand crates.
use vstd::prelude::*;

use cfb8::cipher::generic_array::GenericArray;
use cfb8::cipher::{BlockDecryptMut, BlockEncryptMut, KeyIvInit};
use rsa::pkcs8::DecodePublicKey;

verus! {

/// The ciphertext that AES-128/CFB8 produces from `plain` under `key`
/// (which also serves as the initialisation vector): a deterministic
/// byte-for-byte stream transform.
pub uninterp spec fn cfb8_encrypt_of(key: Seq<u8>, plain: Seq<u8>) -> Seq<u8>;

/// The plaintext that AES-128/CFB8 recovers from `cipher` under `key`:
/// the inverse transform.
pub uninterp spec fn cfb8_decrypt_of(key: Seq<u8>, cipher: Seq<u8>) -> Seq<u8>;

/// Holds cfb8's AES-128 encryptor; the declaration of that generic type
/// is beyond the verifier, so the whole handle is opaque to it.
#[verifier::external_body]
struct EncryptorHandle {
    inner: cfb8::Encryptor<aes::Aes128>,
}

/// Holds cfb8's AES-128 decryptor, likewise opaque.
#[verifier::external_body]
struct DecryptorHandle {
    inner: cfb8::Decryptor<aes::Aes128>,
}

/// Relies on cfb8's Encryptor with AES-128, keyed and IV'd by the same
/// sixteen bytes; a sixteen-byte key can never be rejected.
#[verifier::external_body]
fn make_encryptor(key: &[u8; 16]) -> EncryptorHandle {
    EncryptorHandle { inner: cfb8::Encryptor::new_from_slices(key.as_slice(), key.as_slice()).unwrap() }
}

/// Relies on cfb8's Decryptor with AES-128, keyed and IV'd by the same
/// sixteen bytes; a sixteen-byte key can never be rejected.
#[verifier::external_body]
fn make_decryptor(key: &[u8; 16]) -> DecryptorHandle {
    DecryptorHandle { inner: cfb8::Decryptor::new_from_slices(key.as_slice(), key.as_slice()).unwrap() }
}

/// The encrypting half of the stream cipher, together with the stream of
/// plaintext it has transformed so far.
pub struct StreamEncryptor {
    inner: EncryptorHandle,
    key: Ghost<Seq<u8>>,
    fed: Ghost<Seq<u8>>,
}

impl StreamEncryptor {
    /// The sixteen key bytes this cipher was made with.
    pub closed spec fn key(&self) -> Seq<u8> {
        self.key@
    }

    /// Every plaintext byte fed through the cipher so far, in order.
    pub closed spec fn fed(&self) -> Seq<u8> {
        self.fed@
    }

    pub fn new(key: &[u8; 16]) -> (r: Self)
        ensures
            r.key() == key@,
            r.fed() == Seq::<u8>::empty(),
    {
        StreamEncryptor {
            inner: make_encryptor(key),
            key: Ghost(key@),
            fed: Ghost(Seq::empty()),
        }
    }

    /// Relies on cfb8's byte-granular CFB-8 encryption: `data` becomes the
    /// ciphertext segment that continues the stream; the transform keeps
    /// length, earlier output never changes, and decryption inverts it.
    #[verifier::external_body]
    pub fn apply(&mut self, data: &mut Vec<u8>)
        ensures
            final(self).key() == old(self).key(),
            final(self).fed() == old(self).fed() + old(data)@,
            cfb8_encrypt_of(old(self).key(), final(self).fed()).len() == final(self).fed().len(),
            cfb8_encrypt_of(old(self).key(), final(self).fed()).take(old(self).fed().len() as int)
                == cfb8_encrypt_of(old(self).key(), old(self).fed()),
            final(data)@ == cfb8_encrypt_of(old(self).key(), final(self).fed()).subrange(
                old(self).fed().len() as int,
                final(self).fed().len() as int,
            ),
            cfb8_decrypt_of(old(self).key(), cfb8_encrypt_of(old(self).key(), final(self).fed()))
                == final(self).fed(),
    {
        for chunk in data.as_mut_slice().chunks_mut(1) {
            self.inner.inner.encrypt_block_mut(GenericArray::from_mut_slice(chunk));
        }
    }
}

/// The decrypting half of the stream cipher, together with the stream of
/// ciphertext it has transformed so far.
pub struct StreamDecryptor {
    inner: DecryptorHandle,
    key: Ghost<Seq<u8>>,
    fed: Ghost<Seq<u8>>,
}

impl StreamDecryptor {
    /// The sixteen key bytes this cipher was made with.
    pub closed spec fn key(&self) -> Seq<u8> {
        self.key@
    }

    /// Every ciphertext byte fed through the cipher so far, in order.
    pub closed spec fn fed(&self) -> Seq<u8> {
        self.fed@
    }

    pub fn new(key: &[u8; 16]) -> (r: Self)
        ensures
            r.key() == key@,
            r.fed() == Seq::<u8>::empty(),
    {
        StreamDecryptor {
            inner: make_decryptor(key),
            key: Ghost(key@),
            fed: Ghost(Seq::empty()),
        }
    }

    /// Relies on cfb8's byte-granular CFB-8 decryption: `data` becomes the
    /// plaintext segment that continues the stream; the transform keeps
    /// length and earlier output never changes.
    #[verifier::external_body]
    pub fn apply(&mut self, data: &mut Vec<u8>)
        ensures
            final(self).key() == old(self).key(),
            final(self).fed() == old(self).fed() + old(data)@,
            cfb8_decrypt_of(old(self).key(), final(self).fed()).len() == final(self).fed().len(),
            cfb8_decrypt_of(old(self).key(), final(self).fed()).take(old(self).fed().len() as int)
                == cfb8_decrypt_of(old(self).key(), old(self).fed()),
            final(data)@ == cfb8_decrypt_of(old(self).key(), final(self).fed()).subrange(
                old(self).fed().len() as int,
                final(self).fed().len() as int,
            ),
    {
        for chunk in data.as_mut_slice().chunks_mut(1) {
            self.inner.inner.decrypt_block_mut(GenericArray::from_mut_slice(chunk));
        }
    }
}

/// A matched pair of stream ciphers recovers the stream: chunk by chunk,
/// the decrypting half's output so far together with the next segment is
/// always the decryption of everything fed so far, because earlier output
/// never changes. The premises are exactly what the cipher halves
/// guarantee at each call.
pub proof fn lemma_decrypt_stream_extends(key: Seq<u8>, f0: Seq<u8>, chunk: Seq<u8>)
    requires
        cfb8_decrypt_of(key, f0).len() == f0.len(),
        cfb8_decrypt_of(key, f0 + chunk).len() == (f0 + chunk).len(),
        cfb8_decrypt_of(key, f0 + chunk).take(f0.len() as int) == cfb8_decrypt_of(key, f0),
    ensures
        cfb8_decrypt_of(key, f0) + cfb8_decrypt_of(key, f0 + chunk).subrange(
            f0.len() as int,
            (f0 + chunk).len() as int,
        ) == cfb8_decrypt_of(key, f0 + chunk),
{
    assert(cfb8_decrypt_of(key, f0 + chunk).take(f0.len() as int) + cfb8_decrypt_of(
        key,
        f0 + chunk,
    ).subrange(f0.len() as int, (f0 + chunk).len() as int) =~= cfb8_decrypt_of(key, f0 + chunk));
}

/// Relies on rand's OsRng: sixteen bytes from the operating system's
/// cryptographically secure generator. Nothing can be promised of their
/// values.
#[verifier::external_body]
pub fn random_key_16() -> (r: [u8; 16]) {
    rand::Rng::gen::<[u8; 16]>(&mut rand::rngs::OsRng)
}

#[verifier::external_type_specification]
#[verifier::external_body]
pub struct ExRsaPublicKey(rsa::RsaPublicKey);

/// Whether rsa's X.509 SubjectPublicKeyInfo parse and key validation
/// accept the document: a deterministic function of its bytes.
pub uninterp spec fn rsa_der_key_accepted(der: Seq<u8>) -> bool;

/// The byte size of the modulus of the key an accepted document holds.
pub uninterp spec fn rsa_der_key_size(der: Seq<u8>) -> int;

/// A server's RSA public key, remembered together with the document it
/// was read from.
pub struct ServerPublicKey {
    inner: rsa::RsaPublicKey,
    der: Ghost<Seq<u8>>,
}

impl ServerPublicKey {
    /// The DER document this key was read from.
    pub closed spec fn der(&self) -> Seq<u8> {
        self.der@
    }

    /// Relies on rsa's RsaPublicKey::from_public_key_der: a deterministic,
    /// error-returning parse of an X.509 SubjectPublicKeyInfo document and
    /// validation of the key it holds, whose modulus the crate caps at
    /// 4096 bits — so an accepted key's modulus is at most 512 bytes.
    #[verifier::external_body]
    pub fn from_der(der: &Vec<u8>) -> (r: Option<ServerPublicKey>)
        ensures
            r is Some <==> rsa_der_key_accepted(der@),
            r matches Some(k) ==> k.der() == der@ && 0 < rsa_der_key_size(der@) <= 512,
    {
        match rsa::RsaPublicKey::from_public_key_der(der.as_slice()) {
            Ok(inner) => Some(ServerPublicKey { inner, der: Ghost(der@) }),
            Err(_) => None,
        }
    }

    /// Relies on rsa's PKCS#1 v1.5 sealing under OsRng: it fails exactly
    /// when the message cannot fit the modulus less the padding's eleven
    /// bytes, and the ciphertext fills the modulus exactly. The padding is
    /// drawn fresh, so nothing is promised of the ciphertext's bytes.
    #[verifier::external_body]
    pub fn encrypt(&self, msg: &Vec<u8>) -> (r: Option<Vec<u8>>)
        ensures
            r is Some <==> msg@.len() + 11 <= rsa_der_key_size(self.der()),
            r matches Some(c) ==> c@.len() == rsa_der_key_size(self.der()),
    {
        self.inner.encrypt(&mut rand::rngs::OsRng, rsa::Pkcs1v15Encrypt, msg.as_slice()).ok()
    }
}

} // verus!
