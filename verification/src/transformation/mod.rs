//! Byte-to-byte transformations.

use vstd::prelude::*;
use crate::bytes::copy_of;
use crate::error::H2Error;

pub mod key_or_iv;
pub mod transform_aes;
pub mod transform_base64;
pub mod transform_hex;
pub mod transform_xor;

use transform_aes::{aes_plaintext, decrypted_spec, AESSettings, TransformAES};
use transform_base64::{
    base64_decoded,
    base64_encoded,
    check_base64,
    from_base64,
    from_base64_spec,
    lemma_base64_round_trip,
    to_base64,
};
use transform_hex::{
    check_hex,
    from_hex,
    from_hex_spec,
    hex_encoded,
    is_hex,
    is_lower_hex,
    lemma_hex_round_trip,
    to_hex,
};
use transform_xor::{lemma_xor_twice, xor, xor_spec};

verus! {

/// One transformation with its parameters.
#[derive(Debug)]
pub enum Transformation {
    /// Leaves the bytes as they are.
    Null,
    /// XOR with a key of at least one byte, which repeats.
    Xor(Vec<u8>),
    /// From pairs of hexadecimal digits, in either case, to the bytes they
    /// spell.
    FromHex,
    /// From Base64 with the standard alphabet and padding to the bytes it
    /// spells.
    FromBase64,
    /// AES in CBC mode with PKCS#7 padding: decrypts.
    FromAES(AESSettings),
}

/// What a transformation stands for.
pub enum TransformationView {
    Null,
    Xor(Seq<u8>),
    FromHex,
    FromBase64,
    FromAES(AESSettings),
}

impl View for Transformation {
    type V = TransformationView;

    open spec fn view(&self) -> TransformationView {
        match *self {
            Transformation::Null => TransformationView::Null,
            Transformation::Xor(key) => TransformationView::Xor(key@),
            Transformation::FromHex => TransformationView::FromHex,
            Transformation::FromBase64 => TransformationView::FromBase64,
            Transformation::FromAES(settings) => TransformationView::FromAES(settings),
        }
    }
}

impl Clone for Transformation {
    fn clone(&self) -> (r: Self)
        ensures
            r@ == self@,
    {
        match self {
            Transformation::Null => Transformation::Null,
            Transformation::Xor(key) => Transformation::Xor(copy_of(key.as_slice())),
            Transformation::FromHex => Transformation::FromHex,
            Transformation::FromBase64 => Transformation::FromBase64,
            Transformation::FromAES(settings) => Transformation::FromAES(*settings),
        }
    }
}

impl TransformationView {
    /// What the transformation makes of `data`, or why it fails.
    pub open spec fn transform_spec(self, data: Seq<u8>) -> Result<Seq<u8>, H2Error> {
        match self {
            TransformationView::Null => Ok(data),
            TransformationView::Xor(key) => xor_spec(key, data),
            TransformationView::FromHex => from_hex_spec(data),
            TransformationView::FromBase64 => from_base64_spec(data),
            TransformationView::FromAES(settings) => decrypted_spec(aes_plaintext(settings, data)),
        }
    }

    /// What the inverse of the transformation makes of `data`, or why it
    /// fails.
    pub open spec fn untransform_spec(self, data: Seq<u8>) -> Result<Seq<u8>, H2Error> {
        match self {
            TransformationView::Null => Ok(data),
            TransformationView::Xor(key) => xor_spec(key, data),
            TransformationView::FromHex => Ok(hex_encoded(data)),
            TransformationView::FromBase64 => Ok(base64_encoded(data)),
            TransformationView::FromAES(_) => Err(H2Error::NotInvertible),
        }
    }

    /// Whether `data` looks like something the transformation accepts.
    pub open spec fn check_spec(self, data: Seq<u8>) -> bool {
        match self {
            TransformationView::Null => true,
            TransformationView::Xor(key) => key.len() > 0,
            TransformationView::FromHex => is_hex(data),
            TransformationView::FromBase64 => base64_decoded(data) is Some,
            TransformationView::FromAES(_) => true,
        }
    }

    /// Whether the transformation has an inverse.
    pub open spec fn is_two_way(self) -> bool {
        !(self is FromAES)
    }

    /// Whether `data` is written the one way that the inverse writes it.
    /// Hexadecimal digits are accepted in both cases and written back in
    /// lower case.
    pub open spec fn is_canonical(self, data: Seq<u8>) -> bool {
        match self {
            TransformationView::FromHex => is_lower_hex(data),
            _ => true,
        }
    }
}

/// The inverse of a transformation undoes it: on input that the
/// transformation accepts and that is written the way the inverse writes,
/// transforming and then inverting gives the input back.
pub proof fn lemma_untransform_inverts(t: TransformationView, x: Seq<u8>)
    requires
        t.is_two_way(),
        t.check_spec(x),
        t.transform_spec(x) is Ok,
        t.is_canonical(x),
    ensures
        t.untransform_spec(t.transform_spec(x)->Ok_0) == Ok::<Seq<u8>, H2Error>(x),
{
    match t {
        TransformationView::Xor(key) => {
            lemma_xor_twice(key, x);
        },
        TransformationView::FromHex => {
            lemma_hex_round_trip(x);
        },
        TransformationView::FromBase64 => {
            lemma_base64_round_trip(x);
        },
        _ => {},
    }
}

impl Transformation {
    pub fn transform(&self, buffer: &Vec<u8>) -> (r: Result<Vec<u8>, H2Error>)
        ensures
            r matches Ok(v) ==> self@.transform_spec(buffer@) == Ok::<Seq<u8>, H2Error>(v@),
            r matches Err(e) ==> self@.transform_spec(buffer@) == Err::<Seq<u8>, H2Error>(e),
    {
        match self {
            Transformation::Null => Ok(copy_of(buffer.as_slice())),
            Transformation::Xor(key) => xor(key, buffer),
            Transformation::FromHex => from_hex(buffer),
            Transformation::FromBase64 => from_base64(buffer),
            Transformation::FromAES(settings) => TransformAES::new(*settings).transform(buffer),
        }
    }

    pub fn untransform(&self, buffer: &Vec<u8>) -> (r: Result<Vec<u8>, H2Error>)
        ensures
            r matches Ok(v) ==> self@.untransform_spec(buffer@) == Ok::<Seq<u8>, H2Error>(v@),
            r matches Err(e) ==> self@.untransform_spec(buffer@) == Err::<Seq<u8>, H2Error>(e),
    {
        match self {
            Transformation::Null => Ok(copy_of(buffer.as_slice())),
            Transformation::Xor(key) => xor(key, buffer),
            Transformation::FromHex => Ok(to_hex(buffer)),
            Transformation::FromBase64 => Ok(to_base64(buffer)),
            Transformation::FromAES(settings) => TransformAES::new(*settings).untransform(buffer),
        }
    }

    pub fn check(&self, buffer: &Vec<u8>) -> (b: bool)
        ensures
            b == self@.check_spec(buffer@),
    {
        match self {
            Transformation::Null => true,
            Transformation::Xor(key) => key.len() > 0,
            Transformation::FromHex => check_hex(buffer),
            Transformation::FromBase64 => check_base64(buffer),
            Transformation::FromAES(settings) => TransformAES::new(*settings).check(buffer),
        }
    }

    pub fn is_two_way(&self) -> (b: bool)
        ensures
            b == self@.is_two_way(),
    {
        match self {
            Transformation::FromAES(_) => false,
            _ => true,
        }
    }
}

} // verus!
