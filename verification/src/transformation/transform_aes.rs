//! AES in CBC mode with PKCS#7 padding. The transformation decrypts.

use aes::{Aes128, Aes192, Aes256};
use block_modes::block_padding::Pkcs7;
use block_modes::{BlockMode, Cbc};
use vstd::prelude::*;
use crate::bytes::copy_of;
use crate::error::H2Error;
use crate::transformation::key_or_iv::to_array;

verus! {

#[derive(Clone, Copy, Debug)]
pub enum AESKey {
    Bits128([u8; 16]),
    Bits192([u8; 24]),
    Bits256([u8; 32]),
}

impl View for AESKey {
    type V = Seq<u8>;

    open spec fn view(&self) -> Seq<u8> {
        match *self {
            AESKey::Bits128(k) => k@,
            AESKey::Bits192(k) => k@,
            AESKey::Bits256(k) => k@,
        }
    }
}

/// A key and an optional IV. Without an IV, sixteen zero bytes are used.
#[derive(Clone, Copy, Debug)]
pub struct AESSettings {
    key: AESKey,
    iv: Option<[u8; 16]>,
}

/// The plaintext that `decrypt_vec` of `Cbc<Aes128, Pkcs7>`, made by `new_var`
/// from `key` and `iv`, returns for `data`; `None` where either reports an
/// error.
pub uninterp spec fn aes128_cbc_plaintext(key: Seq<u8>, iv: Seq<u8>, data: Seq<u8>) -> Option<
    Seq<u8>,
>;

/// The same for `Cbc<Aes192, Pkcs7>`.
pub uninterp spec fn aes192_cbc_plaintext(key: Seq<u8>, iv: Seq<u8>, data: Seq<u8>) -> Option<
    Seq<u8>,
>;

/// The same for `Cbc<Aes256, Pkcs7>`.
pub uninterp spec fn aes256_cbc_plaintext(key: Seq<u8>, iv: Seq<u8>, data: Seq<u8>) -> Option<
    Seq<u8>,
>;

/// `Cbc::<Aes128, Pkcs7>::new_var` followed by `decrypt_vec`. The result is
/// the named plaintext. `decrypt_vec` refuses data that is not a whole number
/// of blocks, and the padding it takes off is at least one byte.
#[verifier::external_body]
fn cbc_aes128_decrypt(key: &[u8; 16], iv: &[u8; 16], data: &Vec<u8>) -> (r: Option<Vec<u8>>)
    ensures
        r matches Some(v) ==> aes128_cbc_plaintext(key@, iv@, data@) == Some(v@),
        r is None ==> aes128_cbc_plaintext(key@, iv@, data@) is None,
        data@.len() % 16 != 0 ==> r is None,
        r matches Some(v) ==> v@.len() < data@.len(),
{
    match Cbc::<Aes128, Pkcs7>::new_var(key, iv) {
        Ok(c) => match c.decrypt_vec(data) {
            Ok(d) => Some(d),
            Err(_) => None,
        },
        Err(_) => None,
    }
}

/// `Cbc::<Aes192, Pkcs7>::new_var` followed by `decrypt_vec`. The result is
/// the named plaintext. `decrypt_vec` refuses data that is not a whole number
/// of blocks, and the padding it takes off is at least one byte.
#[verifier::external_body]
fn cbc_aes192_decrypt(key: &[u8; 24], iv: &[u8; 16], data: &Vec<u8>) -> (r: Option<Vec<u8>>)
    ensures
        r matches Some(v) ==> aes192_cbc_plaintext(key@, iv@, data@) == Some(v@),
        r is None ==> aes192_cbc_plaintext(key@, iv@, data@) is None,
        data@.len() % 16 != 0 ==> r is None,
        r matches Some(v) ==> v@.len() < data@.len(),
{
    match Cbc::<Aes192, Pkcs7>::new_var(key, iv) {
        Ok(c) => match c.decrypt_vec(data) {
            Ok(d) => Some(d),
            Err(_) => None,
        },
        Err(_) => None,
    }
}

/// `Cbc::<Aes256, Pkcs7>::new_var` followed by `decrypt_vec`. The result is
/// the named plaintext. `decrypt_vec` refuses data that is not a whole number
/// of blocks, and the padding it takes off is at least one byte.
#[verifier::external_body]
fn cbc_aes256_decrypt(key: &[u8; 32], iv: &[u8; 16], data: &Vec<u8>) -> (r: Option<Vec<u8>>)
    ensures
        r matches Some(v) ==> aes256_cbc_plaintext(key@, iv@, data@) == Some(v@),
        r is None ==> aes256_cbc_plaintext(key@, iv@, data@) is None,
        data@.len() % 16 != 0 ==> r is None,
        r matches Some(v) ==> v@.len() < data@.len(),
{
    match Cbc::<Aes256, Pkcs7>::new_var(key, iv) {
        Ok(c) => match c.decrypt_vec(data) {
            Ok(d) => Some(d),
            Err(_) => None,
        },
        Err(_) => None,
    }
}

/// Sixteen zero bytes: the IV used where none is given.
pub open spec fn zero_iv() -> Seq<u8> {
    Seq::new(16, |i: int| 0u8)
}

impl AESSettings {
    /// The bytes of the key.
    pub closed spec fn key_bytes(self) -> Seq<u8> {
        self.key@
    }

    /// The IV that decryption starts from.
    pub closed spec fn iv_bytes(self) -> Seq<u8> {
        match self.iv {
            Some(iv) => iv@,
            None => zero_iv(),
        }
    }

    /// Settings with the key `key`, taken as it is, and the IV `iv`. The key
    /// has 16, 24 or 32 bytes.
    pub fn new(key: Vec<u8>, iv: Option<[u8; 16]>) -> (r: Result<Self, H2Error>)
        ensures
            (key@.len() == 16 || key@.len() == 24 || key@.len() == 32) ==> r is Ok
                && r->Ok_0.key_bytes() == key@ && r->Ok_0.iv_bytes() == (match iv {
                Some(v) => v@,
                None => zero_iv(),
            }),
            !(key@.len() == 16 || key@.len() == 24 || key@.len() == 32) ==> r == Err::<
                Self,
                H2Error,
            >(H2Error::BadKeyLength),
    {
        let n = key.len();
        let key: AESKey = if n == 16 {
            AESKey::Bits128(to_array::<16>(&key))
        } else if n == 24 {
            AESKey::Bits192(to_array::<24>(&key))
        } else if n == 32 {
            AESKey::Bits256(to_array::<32>(&key))
        } else {
            return Err(H2Error::BadKeyLength);
        };
        Ok(AESSettings { key, iv })
    }

    /// A copy of the key's bytes.
    pub fn key(&self) -> (k: Vec<u8>)
        ensures
            k@ == self.key_bytes(),
    {
        match &self.key {
            AESKey::Bits128(a) => copy_of(a.as_slice()),
            AESKey::Bits192(a) => copy_of(a.as_slice()),
            AESKey::Bits256(a) => copy_of(a.as_slice()),
        }
    }

    /// The IV that was given, if one was.
    pub fn iv(&self) -> (v: Option<[u8; 16]>)
        ensures
            v matches Some(a) ==> self.iv_bytes() == a@,
            v is None ==> self.iv_bytes() == zero_iv(),
    {
        self.iv
    }
}

/// What decrypting `data` under `settings` gives: the plaintext without its
/// padding, or `None` where the data is no whole number of blocks or the
/// padding found after decryption is malformed.
pub open spec fn aes_plaintext(settings: AESSettings, data: Seq<u8>) -> Option<Seq<u8>> {
    let key = settings.key_bytes();
    let iv = settings.iv_bytes();
    if key.len() == 16 {
        aes128_cbc_plaintext(key, iv, data)
    } else if key.len() == 24 {
        aes192_cbc_plaintext(key, iv, data)
    } else {
        aes256_cbc_plaintext(key, iv, data)
    }
}

/// What a transformation reports for a decryption that gave `outcome`.
pub open spec fn decrypted_spec(outcome: Option<Seq<u8>>) -> Result<Seq<u8>, H2Error> {
    match outcome {
        Some(plain) => Ok(plain),
        None => Err(H2Error::TransformFailed),
    }
}

/// Turns the outcome of a decryption into the result of the transformation:
/// the plaintext if there is one, a failure of the transformation if not.
pub fn decrypted(outcome: Option<Vec<u8>>) -> (r: Result<Vec<u8>, H2Error>)
    ensures
        match (r, outcome) {
            (Ok(v), Some(p)) => v@ == p@,
            (Err(e), None) => e == H2Error::TransformFailed,
            _ => false,
        },
{
    match outcome {
        Some(plain) => Ok(plain),
        None => Err(H2Error::TransformFailed),
    }
}

pub struct TransformAES {
    settings: AESSettings,
}

impl TransformAES {
    pub closed spec fn settings_spec(self) -> AESSettings {
        self.settings
    }

    pub fn new(settings: AESSettings) -> (t: Self)
        ensures
            t.settings_spec() == settings,
    {
        TransformAES { settings }
    }

    /// Decrypts `buffer` and takes the padding off. Data that is no whole
    /// number of blocks is refused, and what comes out is shorter than what
    /// went in.
    pub fn transform(&self, buffer: &Vec<u8>) -> (r: Result<Vec<u8>, H2Error>)
        ensures
            r matches Ok(v) ==> decrypted_spec(aes_plaintext(self.settings_spec(), buffer@)) == Ok::<
                Seq<u8>,
                H2Error,
            >(v@),
            r matches Err(e) ==> decrypted_spec(aes_plaintext(self.settings_spec(), buffer@))
                == Err::<Seq<u8>, H2Error>(e),
            buffer@.len() % 16 != 0 ==> r is Err,
            r matches Ok(v) ==> v@.len() < buffer@.len(),
    {
        let zero = [0u8; 16];
        let iv: [u8; 16] = match self.settings.iv {
            Some(iv) => iv,
            None => zero,
        };
        assert(zero@ =~= zero_iv());
        let out = match &self.settings.key {
            AESKey::Bits128(k) => cbc_aes128_decrypt(k, &iv, buffer),
            AESKey::Bits192(k) => cbc_aes192_decrypt(k, &iv, buffer),
            AESKey::Bits256(k) => cbc_aes256_decrypt(k, &iv, buffer),
        };
        decrypted(out)
    }

    /// Encryption is not offered, so the transformation has no inverse.
    pub fn untransform(&self, _buffer: &Vec<u8>) -> (r: Result<Vec<u8>, H2Error>)
        ensures
            r == Err::<Vec<u8>, H2Error>(H2Error::NotInvertible),
    {
        Err(H2Error::NotInvertible)
    }

    /// Any bytes may be a ciphertext as far as a glance can tell.
    pub fn check(&self, _buffer: &Vec<u8>) -> (b: bool)
        ensures
            b,
    {
        true
    }
}

} // verus!
