//! XOR with a repeating key.

use vstd::prelude::*;
use crate::error::H2Error;

verus! {

/// `data` with each byte combined by XOR with the byte of `key` at the same
/// place, the key repeating as often as needed.
pub open spec fn xored(key: Seq<u8>, data: Seq<u8>) -> Seq<u8> {
    Seq::new(data.len(), |i: int| data[i] ^ key[i % (key.len() as int)])
}

/// XOR with `key`, which has at least one byte.
pub open spec fn xor_spec(key: Seq<u8>, data: Seq<u8>) -> Result<Seq<u8>, H2Error> {
    if key.len() == 0 {
        Err(H2Error::BadKeyLength)
    } else {
        Ok(xored(key, data))
    }
}

/// Applying the same key twice gives the data back.
pub proof fn lemma_xor_twice(key: Seq<u8>, data: Seq<u8>)
    requires
        key.len() > 0,
    ensures
        xored(key, xored(key, data)) == data,
{
    let twice = xored(key, xored(key, data));
    assert forall|i: int| 0 <= i < data.len() implies twice[i] == data[i] by {
        let d = data[i];
        let k = key[i % (key.len() as int)];
        assert((d ^ k) ^ k == d) by (bit_vector);
    }
    assert(twice =~= data);
}

pub fn xor(key: &Vec<u8>, buffer: &Vec<u8>) -> (r: Result<Vec<u8>, H2Error>)
    ensures
        r matches Ok(v) ==> xor_spec(key@, buffer@) == Ok::<Seq<u8>, H2Error>(v@),
        r matches Err(e) ==> xor_spec(key@, buffer@) == Err::<Seq<u8>, H2Error>(e),
{
    if key.len() == 0 {
        return Err(H2Error::BadKeyLength);
    }
    let mut out: Vec<u8> = Vec::new();
    let mut i: usize = 0;
    while i < buffer.len()
        invariant
            i <= buffer.len(),
            key.len() > 0,
            out@ =~= xored(key@, buffer@).subrange(0, i as int),
        decreases buffer.len() - i,
    {
        out.push(buffer[i] ^ key[i % key.len()]);
        i += 1;
    }
    assert(xored(key@, buffer@).subrange(0, buffer@.len() as int) =~= xored(key@, buffer@));
    Ok(out)
}

} // verus!
