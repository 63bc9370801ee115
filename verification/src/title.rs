//! Titles as words: the bytes of a text packed eight to a 64-bit word, the
//! first byte in the lowest place.

use std::borrow::Cow;
use vstd::prelude::*;
use vstd::string::StringSliceAdditionalSpecFns;
use vstd::utf8::{
    decode_utf8, encode_utf8, encode_utf8_decode_utf8, encode_utf8_valid_utf8, valid_utf8,
};
use crate::market::MarketData;

verus! {

/// Bytes to a word.
pub const WORD_BYTES: usize = 8;

/// The first `n` bytes of `chunk` packed into a word: byte `i` stands
/// `8 * i` bits up.
pub open spec fn pack_bytes(chunk: Seq<u8>, n: nat) -> u64
    decreases n,
{
    if n == 0 {
        0
    } else {
        pack_bytes(chunk, (n - 1) as nat) | ((chunk[n - 1] as u64) << (((n - 1) * 8) as u64))
    }
}

/// The bytes of `bytes` that belong to word `k`: eight of them, or fewer in
/// the last word.
pub open spec fn chunk_at(bytes: Seq<u8>, k: int) -> Seq<u8> {
    bytes.subrange(
        k * WORD_BYTES,
        if bytes.len() - k * WORD_BYTES >= WORD_BYTES {
            k * WORD_BYTES + WORD_BYTES
        } else {
            bytes.len() as int
        },
    )
}

/// The number of words that `len` bytes take.
pub open spec fn words_for(len: nat) -> nat {
    (len / WORD_BYTES as nat) + if len % WORD_BYTES as nat != 0 {
        1nat
    } else {
        0nat
    }
}

/// The words that `bytes` pack into.
pub open spec fn pack_title(bytes: Seq<u8>) -> Seq<u64> {
    Seq::new(
        words_for(bytes.len()),
        |k: int| pack_bytes(chunk_at(bytes, k), chunk_at(bytes, k).len()),
    )
}

/// Byte `i` of `word`, counted from the lowest.
pub open spec fn byte_of(word: u64, i: nat) -> u8 {
    ((word >> ((i * 8) as u64)) & 0xff) as u8
}

/// The bytes of `word` from byte `i` up to its first zero byte.
pub open spec fn word_text(word: u64, i: nat) -> Seq<u8>
    decreases WORD_BYTES - i,
{
    if i >= WORD_BYTES || byte_of(word, i) == 0 {
        Seq::empty()
    } else {
        seq![byte_of(word, i)] + word_text(word, i + 1)
    }
}

/// The bytes that `title` holds: of each word in turn, the bytes up to its
/// first zero byte.
pub open spec fn title_text(title: Seq<u64>) -> Seq<u8>
    decreases title.len(),
{
    if title.len() == 0 {
        Seq::empty()
    } else {
        title_text(title.drop_last()) + word_text(title.last(), 0)
    }
}

/// The text that `String::from_utf8_lossy` makes of `bytes`.
pub uninterp spec fn utf8_lossy(bytes: Seq<u8>) -> Seq<char>;

/// `String::from_utf8_lossy` turns bytes into text and puts U+FFFD in the
/// place of whatever is not UTF-8. The result depends on the bytes alone,
/// and for bytes that are UTF-8 it is the text they encode.
pub assume_specification<'a>[ String::from_utf8_lossy ](v: &'a [u8]) -> (res: Cow<'a, str>)
    ensures
        res@ == utf8_lossy(v@),
        valid_utf8(v@) ==> res@ == decode_utf8(v@),
;

/// The bytes that `title` holds.
pub fn title_bytes(title: &[u64]) -> (bytes: Vec<u8>)
    ensures
        bytes@ == title_text(title@),
{
    let mut bytes: Vec<u8> = Vec::new();
    let mut k: usize = 0;
    while k < title.len()
        invariant
            k <= title@.len(),
            bytes@ == title_text(title@.take(k as int)),
        decreases title@.len() - k,
    {
        let value: u64 = title[k];
        let ghost before = bytes@;
        let mut i: u64 = 0;
        while i < 8
            invariant
                i <= 8,
                before + word_text(value, 0) == bytes@ + word_text(value, i as nat),
            decreases 8 - i,
        {
            let wide: u64 = (value >> (i * 8)) & 0xFF;
            assert(wide <= 0xff) by (bit_vector)
                requires
                    wide == (value >> (i * 8)) & 0xFF,
            ;
            let byte: u8 = wide as u8;
            if byte != 0 {
                bytes.push(byte);
                assert(bytes@ + word_text(value, (i + 1) as nat) =~= before + word_text(value, 0));
                i += 1;
            } else {
                assert(word_text(value, i as nat) =~= Seq::<u8>::empty());
                i = 8;
            }
        }
        assert(bytes@ =~= before + word_text(value, 0));
        assert(title@.take(k + 1).drop_last() =~= title@.take(k as int));
        k += 1;
    }
    assert(title@.take(k as int) =~= title@);
    bytes
}

impl MarketData {
    /// Packs the UTF-8 bytes of `s` into words, eight bytes to a word, the
    /// first byte lowest; the last word is filled up with zero bytes.
    pub fn string_to_u64_vec(s: &str) -> (result: Vec<u64>)
        ensures
            result@ == pack_title(s.spec_bytes()),
    {
        let bytes: &[u8] = s.as_bytes();
        let len: usize = bytes.len();
        let words: usize = len / WORD_BYTES + if len % WORD_BYTES != 0 {
            1
        } else {
            0
        };
        let mut result: Vec<u64> = Vec::new();
        let mut k: usize = 0;
        while k < words
            invariant
                k <= words == words_for(bytes@.len()),
                len == bytes@.len(),
                result@.len() == k,
                forall|j: int|
                    0 <= j < k ==> result@[j] == pack_bytes(
                        chunk_at(bytes@, j),
                        chunk_at(bytes@, j).len(),
                    ),
            decreases words - k,
        {
            let start: usize = k * WORD_BYTES;
            let end: usize = if len - start >= WORD_BYTES {
                start + WORD_BYTES
            } else {
                len
            };
            let ghost chunk = chunk_at(bytes@, k as int);
            let mut value: u64 = 0;
            let mut i: usize = 0;
            while i < end - start
                invariant
                    start <= end <= len == bytes@.len(),
                    end - start <= WORD_BYTES,
                    i <= end - start,
                    chunk == bytes@.subrange(start as int, end as int),
                    value == pack_bytes(chunk, i as nat),
                decreases end - start - i,
            {
                let shift: u64 = (i as u64) * 8;
                value |= (bytes[start + i] as u64) << shift;
                i += 1;
            }
            result.push(value);
            k += 1;
        }
        assert(result@ =~= pack_title(bytes@));
        result
    }

    /// The text that `title` holds: of each word the bytes up to its first
    /// zero byte, read as UTF-8, with U+FFFD in the place of whatever is
    /// not.
    pub fn u64_vec_to_string(title: &[u64]) -> (text: String)
        ensures
            text@ == utf8_lossy(title_text(title@)),
            valid_utf8(title_text(title@)) ==> text@ == decode_utf8(title_text(title@)),
    {
        let bytes: Vec<u8> = title_bytes(title);
        match String::from_utf8_lossy(bytes.as_slice()) {
            Cow::Borrowed(text) => text.to_owned(),
            Cow::Owned(text) => text,
        }
    }

    /// The market's title as text.
    pub fn get_title_string(&self) -> (text: String)
        ensures
            text@ == utf8_lossy(title_text(self.title@)),
            valid_utf8(title_text(self.title@)) ==> text@ == decode_utf8(title_text(self.title@)),
    {
        Self::u64_vec_to_string(self.title.as_slice())
    }
}

/// Whether no byte of `bytes` is zero.
pub open spec fn zero_free(bytes: Seq<u8>) -> bool {
    forall|i: int| 0 <= i < bytes.len() ==> bytes[i] != 0
}

/// Putting a byte into place `k` of a word sets byte `k` and leaves every
/// other byte as it was.
proof fn lemma_byte_placed(word: u64, byte: u64, k: u64, i: u64)
    by (bit_vector)
    requires
        byte <= 0xff,
        k < 8,
        i < 8,
    ensures
        ((word | (byte << (k * 8))) >> (i * 8)) & 0xff == if i == k {
            ((word >> (i * 8)) & 0xff) | byte
        } else {
            (word >> (i * 8)) & 0xff
        },
        (0u64 >> (i * 8)) & 0xff == 0,
        (word >> (i * 8)) & 0xff <= 0xff,
        0u64 | byte == byte,
{
}

/// Byte `i` of the first `n` bytes of `chunk` packed is `chunk[i]` below
/// `n` and zero from `n` on.
pub proof fn lemma_bytes_of_packed(chunk: Seq<u8>, n: nat, i: nat)
    requires
        n <= chunk.len(),
        n <= WORD_BYTES,
        i < WORD_BYTES,
    ensures
        byte_of(pack_bytes(chunk, n), i) == if i < n {
            chunk[i as int]
        } else {
            0u8
        },
    decreases n,
{
    let shift_i: u64 = (i * 8) as u64;
    if n == 0 {
        lemma_byte_placed(0, 0, 0, i as u64);
    } else {
        let k = (n - 1) as nat;
        let rest = pack_bytes(chunk, k);
        let byte = chunk[k as int] as u64;
        lemma_bytes_of_packed(chunk, k, i);
        lemma_byte_placed(rest, byte, k as u64, i as u64);
        assert((k as u64) * 8 == ((n - 1) * 8) as u64);
        assert((i as u64) * 8 == shift_i);
    }
}

/// A word packed from zero-free bytes holds exactly those bytes.
pub proof fn lemma_text_of_packed_word(chunk: Seq<u8>, i: nat)
    requires
        chunk.len() <= WORD_BYTES,
        zero_free(chunk),
        i <= chunk.len(),
    ensures
        word_text(pack_bytes(chunk, chunk.len()), i) == chunk.subrange(
            i as int,
            chunk.len() as int,
        ),
    decreases chunk.len() - i,
{
    let word = pack_bytes(chunk, chunk.len());
    if i < WORD_BYTES {
        lemma_bytes_of_packed(chunk, chunk.len(), i);
    }
    if i < chunk.len() {
        lemma_text_of_packed_word(chunk, i + 1);
        assert(chunk.subrange(i as int, chunk.len() as int) =~= seq![chunk[i as int]]
            + chunk.subrange(i as int + 1, chunk.len() as int));
    } else {
        assert(chunk.subrange(i as int, chunk.len() as int) =~= Seq::<u8>::empty());
    }
}

/// The first `k` words packed from zero-free bytes hold the bytes that were
/// packed into them.
proof fn lemma_text_of_packed_prefix(bytes: Seq<u8>, k: nat)
    requires
        zero_free(bytes),
        k <= words_for(bytes.len()),
    ensures
        title_text(pack_title(bytes).take(k as int)) == bytes.take(
            if k * WORD_BYTES <= bytes.len() {
                (k * WORD_BYTES) as int
            } else {
                bytes.len() as int
            },
        ),
    decreases k,
{
    let words = pack_title(bytes);
    if k == 0 {
        assert(bytes.take(0) =~= Seq::<u8>::empty());
    } else {
        let j = (k - 1) as nat;
        lemma_text_of_packed_prefix(bytes, j);
        let chunk = chunk_at(bytes, j as int);
        assert(words.take(k as int).drop_last() =~= words.take(j as int));
        assert(words.take(k as int).last() == pack_bytes(chunk, chunk.len()));
        assert(zero_free(chunk));
        lemma_text_of_packed_word(chunk, 0);
        assert(chunk.subrange(0, chunk.len() as int) =~= chunk);
        let end: int = if k * WORD_BYTES <= bytes.len() {
            (k * WORD_BYTES) as int
        } else {
            bytes.len() as int
        };
        assert(bytes.take(j * WORD_BYTES) + chunk =~= bytes.take(end));
    }
}

/// Unpacking what was packed gives the same bytes, provided none of them
/// is zero.
pub proof fn lemma_title_round_trip(bytes: Seq<u8>)
    requires
        zero_free(bytes),
    ensures
        title_text(pack_title(bytes)) == bytes,
{
    let words = pack_title(bytes);
    lemma_text_of_packed_prefix(bytes, words_for(bytes.len()));
    assert(words.take(words.len() as int) =~= words);
    assert(bytes.take(bytes.len() as int) =~= bytes);
}

/// A text whose UTF-8 bytes are free of zero comes back from its words as
/// it went in: what `u64_vec_to_string` makes of what `string_to_u64_vec`
/// made of it is the text itself.
pub proof fn lemma_text_round_trip(text: Seq<char>)
    requires
        zero_free(encode_utf8(text)),
    ensures
        valid_utf8(title_text(pack_title(encode_utf8(text)))),
        decode_utf8(title_text(pack_title(encode_utf8(text)))) == text,
{
    lemma_title_round_trip(encode_utf8(text));
    encode_utf8_valid_utf8(text);
    encode_utf8_decode_utf8(text);
}

} // verus!
