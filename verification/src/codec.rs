use vstd::prelude::*;

use vstd::bytes::{
    lemma_auto_spec_u64_to_from_le_bytes, spec_u64_from_le_bytes, spec_u64_to_le_bytes,
    u64_from_le_bytes, u64_to_le_bytes,
};
use vstd::slice::slice_subrange;

use crate::errors::FheError;
use crate::scheme::{Cipher, PureRustFheRuntime};

verus! {

/// Fixed-width little-endian encoding of a coefficient vector: 8 bytes per
/// coefficient, in coefficient order.
pub open spec fn serialize_words(ws: Seq<u64>) -> Seq<u8> {
    Seq::new(ws.len() * 8, |j: int| spec_u64_to_le_bytes(ws[j / 8])[j % 8])
}

/// The coefficient vector read back from a little-endian byte string, 8 bytes
/// per coefficient.
pub open spec fn words_from_bytes(bs: Seq<u8>) -> Seq<u64> {
    Seq::new(bs.len() / 8, |i: int| spec_u64_from_le_bytes(bs.subrange(8 * i, 8 * i + 8)))
}

impl Cipher {
    /// Serializes the ciphertext: each coefficient as 8 little-endian bytes,
    /// in coefficient order, `16 n` bytes in all.
    pub fn serialize(&self) -> (r: Vec<u8>)
        ensures
            r@ == serialize_words(self.ciphertext_data@),
            r@.len() == self.ciphertext_data@.len() * 8,
    {
        let words = &self.ciphertext_data;
        let len = words.len();
        let mut result: Vec<u8> = Vec::new();
        let mut i: usize = 0;
        while i < len
            invariant
                i <= len,
                len == words@.len(),
                result@.len() == 8 * i,
                forall|j: int|
                    0 <= j < 8 * i ==> result@[j] == spec_u64_to_le_bytes(words@[j / 8])[j % 8],
            decreases len - i,
        {
            let mut bytes = u64_to_le_bytes(words[i]);
            let ghost old_result = result@;
            result.append(&mut bytes);
            proof {
                assert forall|j: int| 0 <= j < 8 * (i + 1) implies result@[j]
                    == spec_u64_to_le_bytes(words@[j / 8])[j % 8] by {
                    if j < 8 * i {
                        assert(result@[j] == old_result[j]);
                    } else {
                        vstd::arithmetic::div_mod::lemma_div_multiples_vanish_fancy(
                            i as int,
                            j - 8 * i,
                            8,
                        );
                        vstd::arithmetic::div_mod::lemma_mod_multiples_vanish(
                            i as int,
                            j - 8 * i,
                            8,
                        );
                        vstd::arithmetic::div_mod::lemma_small_mod((j - 8 * i) as nat, 8);
                        assert(j / 8 == i && j % 8 == j - 8 * i);
                    }
                }
            }
            i = i + 1;
        }
        proof {
            assert(result@ =~= serialize_words(words@));
        }
        result
    }
}

impl PureRustFheRuntime {
    /// Parses a serialized ciphertext: accepts exactly `16 n` bytes and reads
    /// `2 n` little-endian coefficients out of them; any other length fails
    /// with `LengthMismatch`. The coefficients are taken as transmitted and
    /// may exceed the ciphertext modulus; all downstream arithmetic reduces
    /// them first.
    pub fn deserialize_ciphertext(&self, data: &[u8]) -> (r: Result<Cipher, FheError>)
        requires
            self.wf(),
        ensures
            r is Ok <==> data@.len() == 16 * self.spec_params().polynomial_degree,
            r matches Ok(c) ==> c.ciphertext_data@ == words_from_bytes(data@) && c.valid_shape(
                self.spec_params(),
            ),
            r matches Err(e) ==> e == (FheError::LengthMismatch {
                expected: (16 * self.spec_params().polynomial_degree) as usize,
                actual: data@.len() as usize,
            }),
    {
        let n = self.params.polynomial_degree;
        let expected: usize = 16 * n;
        if data.len() != expected {
            return Err(FheError::LengthMismatch { expected, actual: data.len() });
        }
        let two_n = 2 * n;
        let mut words: Vec<u64> = Vec::new();
        let mut i: usize = 0;
        while i < two_n
            invariant
                self.wf(),
                n == self.spec_params().polynomial_degree,
                i <= two_n,
                two_n == 2 * n,
                data@.len() == 16 * n,
                words@.len() == i,
                forall|k: int|
                    0 <= k < i ==> words@[k] == spec_u64_from_le_bytes(
                        data@.subrange(8 * k, 8 * k + 8),
                    ),
            decreases two_n - i,
        {
            let chunk = slice_subrange(data, 8 * i, 8 * i + 8);
            words.push(u64_from_le_bytes(chunk));
            i = i + 1;
        }
        proof {
            vstd::arithmetic::div_mod::lemma_div_by_multiple(2 * n as int, 8);
            assert(data@.len() / 8 == 2 * n);
            assert(words@ =~= words_from_bytes(data@));
        }
        Ok(Cipher { ciphertext_data: words })
    }
}

/// Serializing any coefficient vector and reading it back yields the vector
/// unchanged, and the encoding holds 8 bytes per coefficient.
pub proof fn lemma_words_round_trip(ws: Seq<u64>)
    ensures
        serialize_words(ws).len() == ws.len() * 8,
        words_from_bytes(serialize_words(ws)) == ws,
{
    lemma_auto_spec_u64_to_from_le_bytes();
    let bs = serialize_words(ws);
    vstd::arithmetic::div_mod::lemma_div_by_multiple(ws.len() as int, 8);
    assert(bs.len() / 8 == ws.len());
    assert forall|i: int| 0 <= i < ws.len() implies words_from_bytes(bs)[i] == ws[i] by {
        assert(bs.subrange(8 * i, 8 * i + 8) =~= spec_u64_to_le_bytes(ws[i])) by {
            assert forall|j: int| 0 <= j < 8 implies bs.subrange(8 * i, 8 * i + 8)[j]
                == spec_u64_to_le_bytes(ws[i])[j] by {
                vstd::arithmetic::div_mod::lemma_div_multiples_vanish_fancy(i, j, 8);
                vstd::arithmetic::div_mod::lemma_mod_multiples_vanish(i, j, 8);
                vstd::arithmetic::div_mod::lemma_small_mod(j as nat, 8);
                assert((8 * i + j) / 8 == i && (8 * i + j) % 8 == j);
            }
        }
        assert(spec_u64_from_le_bytes(spec_u64_to_le_bytes(ws[i])) == ws[i]);
    }
    assert(words_from_bytes(bs) =~= ws);
}

/// Round trip at the ciphertext level: a well-shaped ciphertext survives
/// serialization and deserialization unchanged, and its encoding has the
/// `16 n` bytes that deserialization demands.
pub proof fn lemma_cipher_round_trip(
    params: crate::params::FheParameters,
    c: Cipher,
)
    requires
        c.valid_shape(params),
    ensures
        serialize_words(c.ciphertext_data@).len() == 16 * params.polynomial_degree,
        words_from_bytes(serialize_words(c.ciphertext_data@)) == c.ciphertext_data@,
{
    lemma_words_round_trip(c.ciphertext_data@);
}

} // verus!
