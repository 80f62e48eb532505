//! One-time-pad encapsulation: a target-group element is hashed into a keystream of the
//! message's length, which is XORed with the message.
use vstd::prelude::*;

verus! {

/// Length in bytes of every transferred message.
pub const MSG_SIZE: usize = 16;

/// The first `MSG_SIZE` bytes of the BLAKE3 extendable output for the input.
pub uninterp spec fn keystream_of(data: Seq<u8>) -> Seq<u8>;

/// Relies on `blake3::Hasher::finalize_xof` and `OutputReader::fill`: the first bytes of the
/// extendable output of the hashed input.
#[verifier::external_body]
fn keystream(data: &Vec<u8>) -> (r: [u8; MSG_SIZE])
    ensures
        r@ == keystream_of(data@),
{
    let mut hsh = blake3::Hasher::new();
    hsh.update(&data[..]);
    let mut out = [0u8; MSG_SIZE];
    hsh.finalize_xof().fill(&mut out);
    out
}

/// The byte-wise XOR of a pad with a message, as long as the message.
pub open spec fn xor_seq(a: Seq<u8>, b: Seq<u8>) -> Seq<u8> {
    Seq::new(b.len(), |i: int| a[i] ^ b[i])
}

/// XOR of a message with a pad of the same length.
pub fn xor_with(pad: &[u8; MSG_SIZE], msg: &[u8; MSG_SIZE]) -> (r: [u8; MSG_SIZE])
    ensures
        r@ == xor_seq(pad@, msg@),
{
    let mut res: [u8; MSG_SIZE] = *msg;
    let mut i: usize = 0;
    while i < MSG_SIZE
        invariant
            i <= MSG_SIZE,
            res@.len() == MSG_SIZE,
            forall|k: int| 0 <= k < i ==> res@[k] == pad@[k] ^ msg@[k],
            forall|k: int| i <= k < MSG_SIZE ==> res@[k] == msg@[k],
        decreases MSG_SIZE - i,
    {
        res[i] = pad[i] ^ msg[i];
        i = i + 1;
    }
    assert(res@ =~= xor_seq(pad@, msg@));
    res
}

/// Encrypts a message under the encoded target-group element `pad`.
pub fn encrypt(pad: &Vec<u8>, msg: &[u8; MSG_SIZE]) -> (r: [u8; MSG_SIZE])
    ensures
        r@ == xor_seq(keystream_of(pad@), msg@),
{
    let ks = keystream(pad);
    xor_with(&ks, msg)
}

/// Decrypts a ciphertext under the encoded target-group element `pad`: the same keystream
/// XORed once more.
pub fn decrypt(pad: &Vec<u8>, ct: &[u8; MSG_SIZE]) -> (r: [u8; MSG_SIZE])
    ensures
        r@ == xor_seq(keystream_of(pad@), ct@),
{
    encrypt(pad, ct)
}

/// XOR with the same keystream twice gives the message back, whatever the keystream: so
/// decrypting under a pad what was encrypted under it gives the plaintext.
pub proof fn lemma_decrypt_encrypt(pad: Seq<u8>, msg: Seq<u8>)
    ensures
        xor_seq(keystream_of(pad), xor_seq(keystream_of(pad), msg)) == msg,
{
    let ks = keystream_of(pad);
    let once = xor_seq(ks, msg);
    assert forall|i: int| 0 <= i < msg.len() implies #[trigger] xor_seq(ks, once)[i] == msg[i] by {
        let a = ks[i];
        let b = msg[i];
        assert(a ^ (a ^ b) == b) by (bit_vector);
    }
    assert(xor_seq(ks, once) =~= msg);
}

} // verus!
