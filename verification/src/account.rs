//! Payout account identifiers: a 256-bit public key, together with the
//! address text form that chat participants paste into messages.
//!
//! The address of a key is `nano_` followed by 60 characters from a 32-letter
//! alphabet: 52 characters carry four zero padding bits plus the 256 key bits,
//! and 8 characters carry a 40-bit checksum (the 5-byte BLAKE2b digest of the
//! key, byte-reversed). Everything here is defined and verified down to the
//! bit level; only the BLAKE2b digest itself is taken on trust.

use vstd::prelude::*;

verus! {

/// The BLAKE2b digest of `out_len` bytes over `data`: a pure function of its
/// arguments, named here and computed by an outside crate.
pub uninterp spec fn blake2b_of(out_len: int, data: Seq<u8>) -> Seq<u8>;

/// Relies on `blake2b_simd::Params::hash` (with `hash_length(5)`): the digest
/// is a function of the requested length and the input bytes alone, and has
/// exactly the requested length.
#[verifier::external_body]
fn blake2b_checksum(data: &Vec<u8>) -> (r: Vec<u8>)
    ensures
        r@ == blake2b_of(5, data@),
        r@.len() == 5,
{
    blake2b_simd::Params::new().hash_length(5).hash(data.as_slice()).as_bytes().to_vec()
}

/// Bit `k` (most significant first) of a byte.
pub open spec fn bit_of_byte(b: u8, k: int) -> bool {
    (b >> ((7 - k) as u8)) & 1 == 1
}

/// The bits of a byte string, most significant bit of each byte first.
pub open spec fn bits_of_bytes(s: Seq<u8>) -> Seq<bool> {
    Seq::new(s.len() * 8, |i: int| bit_of_byte(s[i / 8], i % 8))
}

pub open spec fn bi(b: bool) -> int {
    if b {
        1
    } else {
        0
    }
}

/// The value of the five bits starting at position `5 * j`.
pub open spec fn digit_at(bits: Seq<bool>, j: int) -> int {
    16 * bi(bits[5 * j]) + 8 * bi(bits[5 * j + 1]) + 4 * bi(bits[5 * j + 2]) + 2 * bi(
        bits[5 * j + 3],
    ) + bi(bits[5 * j + 4])
}

/// Bit `k` (most significant first) of a five-bit digit value.
pub open spec fn digit_bit(d: int, k: int) -> bool {
    if k == 0 {
        d / 16 % 2 == 1
    } else if k == 1 {
        d / 8 % 2 == 1
    } else if k == 2 {
        d / 4 % 2 == 1
    } else if k == 3 {
        d / 2 % 2 == 1
    } else {
        d % 2 == 1
    }
}

/// The 300 bits carried by the 60 digit values of an address: five per digit.
pub open spec fn bits_from_digits(ds: Seq<int>) -> Seq<bool> {
    Seq::new(300, |i: int| digit_bit(ds[i / 5], i % 5))
}

/// The byte assembled from the eight bits starting at position `start`.
pub open spec fn byte_from_bits(bits: Seq<bool>, start: int) -> int {
    128 * bi(bits[start]) + 64 * bi(bits[start + 1]) + 32 * bi(bits[start + 2]) + 16 * bi(
        bits[start + 3],
    ) + 8 * bi(bits[start + 4]) + 4 * bi(bits[start + 5]) + 2 * bi(bits[start + 6]) + bi(
        bits[start + 7],
    )
}

/// The address alphabet: digit value to character.
pub open spec fn b32_char(v: int) -> char {
    if v == 0 {
        '1'
    } else if v == 1 {
        '3'
    } else if v == 2 {
        '4'
    } else if v == 3 {
        '5'
    } else if v == 4 {
        '6'
    } else if v == 5 {
        '7'
    } else if v == 6 {
        '8'
    } else if v == 7 {
        '9'
    } else if v == 8 {
        'a'
    } else if v == 9 {
        'b'
    } else if v == 10 {
        'c'
    } else if v == 11 {
        'd'
    } else if v == 12 {
        'e'
    } else if v == 13 {
        'f'
    } else if v == 14 {
        'g'
    } else if v == 15 {
        'h'
    } else if v == 16 {
        'i'
    } else if v == 17 {
        'j'
    } else if v == 18 {
        'k'
    } else if v == 19 {
        'm'
    } else if v == 20 {
        'n'
    } else if v == 21 {
        'o'
    } else if v == 22 {
        'p'
    } else if v == 23 {
        'q'
    } else if v == 24 {
        'r'
    } else if v == 25 {
        's'
    } else if v == 26 {
        't'
    } else if v == 27 {
        'u'
    } else if v == 28 {
        'w'
    } else if v == 29 {
        'x'
    } else if v == 30 {
        'y'
    } else {
        'z'
    }
}

/// The address alphabet: character to digit value, `-1` for a character that
/// is not in the alphabet.
pub open spec fn b32_val(c: char) -> int {
    if c == '1' {
        0
    } else if c == '3' {
        1
    } else if c == '4' {
        2
    } else if c == '5' {
        3
    } else if c == '6' {
        4
    } else if c == '7' {
        5
    } else if c == '8' {
        6
    } else if c == '9' {
        7
    } else if c == 'a' {
        8
    } else if c == 'b' {
        9
    } else if c == 'c' {
        10
    } else if c == 'd' {
        11
    } else if c == 'e' {
        12
    } else if c == 'f' {
        13
    } else if c == 'g' {
        14
    } else if c == 'h' {
        15
    } else if c == 'i' {
        16
    } else if c == 'j' {
        17
    } else if c == 'k' {
        18
    } else if c == 'm' {
        19
    } else if c == 'n' {
        20
    } else if c == 'o' {
        21
    } else if c == 'p' {
        22
    } else if c == 'q' {
        23
    } else if c == 'r' {
        24
    } else if c == 's' {
        25
    } else if c == 't' {
        26
    } else if c == 'u' {
        27
    } else if c == 'w' {
        28
    } else if c == 'x' {
        29
    } else if c == 'y' {
        30
    } else if c == 'z' {
        31
    } else {
        -1
    }
}

/// The key whose last eight bytes are `v` big-endian and whose other bytes
/// are zero.
pub open spec fn u64_key_bytes(v: u64) -> Seq<u8> {
    Seq::new(32, |t: int| if t < 24 {
        0u8
    } else {
        (v >> (((31 - t) * 8) as u64)) as u8
    })
}

/// The 5-byte checksum of a key as it appears in the address: the BLAKE2b
/// digest, byte-reversed.
pub open spec fn checksum_of(key: Seq<u8>) -> Seq<u8> {
    blake2b_of(5, key).reverse()
}

/// The 300 bits of an address: four zero padding bits, the 256 key bits, and
/// the 40 checksum bits.
pub open spec fn address_bits(key: Seq<u8>, cs_rev: Seq<u8>) -> Seq<bool> {
    seq![false, false, false, false] + bits_of_bytes(key) + bits_of_bytes(cs_rev)
}

pub open spec fn address_prefix() -> Seq<char> {
    seq!['n', 'a', 'n', 'o', '_']
}

/// The address text of a 32-byte key.
pub open spec fn account_encoding(key: Seq<u8>) -> Seq<char> {
    address_prefix() + Seq::new(
        60,
        |j: int| b32_char(digit_at(address_bits(key, checksum_of(key)), j)),
    )
}

/// The key encoded by an address text, when the text is well-formed: correct
/// length and prefix, alphabet characters only, zero padding bits, and a
/// checksum that matches the key bits.
pub open spec fn account_decode(s: Seq<char>) -> Option<Seq<u8>> {
    if s.len() != 65 {
        None
    } else if s.subrange(0, 5) != address_prefix() {
        None
    } else if !(forall|j: int| 0 <= j < 60 ==> #[trigger] b32_val(s[5 + j]) >= 0) {
        None
    } else {
        let bits = bits_from_digits(Seq::new(60, |j: int| b32_val(s[5 + j])));
        if bits[0] || bits[1] || bits[2] || bits[3] {
            None
        } else {
            let key = Seq::new(32, |t: int| byte_from_bits(bits, 4 + 8 * t) as u8);
            let cs_rev = Seq::new(5, |u: int| byte_from_bits(bits, 260 + 8 * u) as u8);
            if cs_rev == checksum_of(key) {
                Some(key)
            } else {
                None
            }
        }
    }
}

/// A payout destination: a 256-bit public key on the ledger.
#[derive(PartialEq, Eq, Debug, Hash)]
pub struct Account {
    bytes: Vec<u8>,
}

impl View for Account {
    type V = Seq<u8>;

    closed spec fn view(&self) -> Seq<u8> {
        self.bytes@
    }
}

impl Clone for Account {
    fn clone(&self) -> (r: Self)
        ensures
            r@ == self@,
    {
        proof {
            use_type_invariant(self);
        }
        let mut bytes: Vec<u8> = Vec::new();
        let mut i: usize = 0;
        while i < 32
            invariant
                i <= 32,
                self@.len() == 32,
                bytes@ == self@.subrange(0, i as int),
            decreases 32 - i,
        {
            bytes.push(self.bytes[i]);
            proof {
                assert(bytes@ =~= self@.subrange(0, i + 1));
            }
            i = i + 1;
        }
        proof {
            assert(bytes@ =~= self@);
        }
        Account { bytes }
    }
}

impl Account {
    #[verifier::type_invariant]
    closed spec fn type_inv(self) -> bool {
        self.bytes@.len() == 32
    }

    pub fn from_bytes(bytes: Vec<u8>) -> (r: Account)
        requires
            bytes@.len() == 32,
        ensures
            r@ == bytes@,
    {
        Account { bytes }
    }

    pub fn as_bytes(&self) -> (r: &Vec<u8>)
        ensures
            r@ == self@,
    {
        &self.bytes
    }

    /// Two accounts are the same exactly when their key bytes are.
    pub fn eq_bytes(&self, other: &Account) -> (r: bool)
        ensures
            r == (self@ == other@),
    {
        bytes_eq(&self.bytes, &other.bytes)
    }

    /// The key whose last eight bytes are `v` in big-endian order and whose
    /// other bytes are zero.
    pub fn from_u64(v: u64) -> (r: Account)
        ensures
            r@ == u64_key_bytes(v),
    {
        let mut bytes: Vec<u8> = Vec::new();
        let mut i: usize = 0;
        while i < 24
            invariant
                i <= 24,
                bytes@.len() == i,
                forall|t: int| 0 <= t < i ==> bytes@[t] == 0u8,
            decreases 24 - i,
        {
            bytes.push(0u8);
            i = i + 1;
        }
        while i < 32
            invariant
                24 <= i <= 32,
                bytes@.len() == i,
                forall|t: int| 0 <= t < 24 ==> bytes@[t] == 0u8,
                forall|t: int| 24 <= t < i ==> bytes@[t] == (v >> (((31 - t) * 8) as u64)) as u8,
            decreases 32 - i,
        {
            let shift: u64 = ((31 - i) * 8) as u64;
            bytes.push((v >> shift) as u8);
            i = i + 1;
        }
        proof {
            assert(bytes@ =~= u64_key_bytes(v));
        }
        Account { bytes }
    }
}

/// Encoding a digit value and reading it back is the identity.
proof fn lemma_b32_roundtrip(v: int)
    requires
        0 <= v < 32,
    ensures
        b32_val(b32_char(v)) == v,
{
}

/// The five bits of a five-bit value read back as themselves.
proof fn lemma_digit_bits_roundtrip(b0: bool, b1: bool, b2: bool, b3: bool, b4: bool)
    ensures
        ({
            let d = 16 * bi(b0) + 8 * bi(b1) + 4 * bi(b2) + 2 * bi(b3) + bi(b4);
            &&& digit_bit(d, 0) == b0
            &&& digit_bit(d, 1) == b1
            &&& digit_bit(d, 2) == b2
            &&& digit_bit(d, 3) == b3
            &&& digit_bit(d, 4) == b4
        }),
{
}

/// A shifted-out bit is zero or one.
proof fn lemma_bit01(b: u8, j: u8)
    ensures
        (b >> j) & 1 == 0 || (b >> j) & 1 == 1,
{
    assert((b >> j) & 1 == 0 || (b >> j) & 1 == 1) by (bit_vector);
}

/// The eight bits of a byte, weighted, give the byte back.
proof fn lemma_byte_bits_roundtrip(b: u8)
    ensures
        128 * bi(bit_of_byte(b, 0)) + 64 * bi(bit_of_byte(b, 1)) + 32 * bi(bit_of_byte(b, 2)) + 16
            * bi(bit_of_byte(b, 3)) + 8 * bi(bit_of_byte(b, 4)) + 4 * bi(bit_of_byte(b, 5)) + 2
            * bi(bit_of_byte(b, 6)) + bi(bit_of_byte(b, 7)) == b,
{
    assert(((b >> 7) & 1) as int * 128 + ((b >> 6) & 1) as int * 64 + ((b >> 5) & 1) as int * 32 + (
    (b >> 4) & 1) as int * 16 + ((b >> 3) & 1) as int * 8 + ((b >> 2) & 1) as int * 4 + ((b >> 1)
        & 1) as int * 2 + ((b >> 0) & 1) as int == b as int) by (bit_vector);
    lemma_bit01(b, 0);
    lemma_bit01(b, 1);
    lemma_bit01(b, 2);
    lemma_bit01(b, 3);
    lemma_bit01(b, 4);
    lemma_bit01(b, 5);
    lemma_bit01(b, 6);
    lemma_bit01(b, 7);
}

/// Reading the sixty digit values of a 300-bit stream back as bits is the
/// identity.
proof fn lemma_stream_roundtrip(bits: Seq<bool>)
    requires
        bits.len() == 300,
    ensures
        bits_from_digits(Seq::new(60, |j: int| digit_at(bits, j))) == bits,
{
    let ds = Seq::new(60, |j: int| digit_at(bits, j));
    assert forall|i: int| 0 <= i < 300 implies bits_from_digits(ds)[i] == bits[i] by {
        let j = i / 5;
        lemma_digit_bits_roundtrip(
            bits[5 * j],
            bits[5 * j + 1],
            bits[5 * j + 2],
            bits[5 * j + 3],
            bits[5 * j + 4],
        );
        assert(i == 5 * j + i % 5);
    }
    assert(bits_from_digits(ds) =~= bits);
}

/// The bytes packed into an address bit stream read back as themselves.
proof fn lemma_address_bytes_roundtrip(key: Seq<u8>, cs_rev: Seq<u8>)
    requires
        key.len() == 32,
        cs_rev.len() == 5,
    ensures
        forall|t: int|
            0 <= t < 32 ==> #[trigger] byte_from_bits(address_bits(key, cs_rev), 4 + 8 * t)
                == key[t],
        forall|u: int|
            0 <= u < 5 ==> #[trigger] byte_from_bits(address_bits(key, cs_rev), 260 + 8 * u)
                == cs_rev[u],
{
    let bits = address_bits(key, cs_rev);
    assert forall|t: int| 0 <= t < 32 implies #[trigger] byte_from_bits(bits, 4 + 8 * t)
        == key[t] by {
        assert forall|k: int| 0 <= k < 8 implies bits[4 + 8 * t + k] == bit_of_byte(
            key[t],
            k,
        ) by {
            assert(bits_of_bytes(key)[8 * t + k] == bit_of_byte(key[(8 * t + k) / 8], (8 * t + k)
                % 8));
            assert((8 * t + k) / 8 == t && (8 * t + k) % 8 == k);
        }
        lemma_byte_bits_roundtrip(key[t]);
    }
    assert forall|u: int| 0 <= u < 5 implies #[trigger] byte_from_bits(bits, 260 + 8 * u)
        == cs_rev[u] by {
        assert forall|k: int| 0 <= k < 8 implies bits[260 + 8 * u + k] == bit_of_byte(
            cs_rev[u],
            k,
        ) by {
            assert(bits_of_bytes(cs_rev)[8 * u + k] == bit_of_byte(
                cs_rev[(8 * u + k) / 8],
                (8 * u + k) % 8,
            ));
            assert((8 * u + k) / 8 == u && (8 * u + k) % 8 == k);
        }
        lemma_byte_bits_roundtrip(cs_rev[u]);
    }
}

/// Decoding inverts encoding: the address text of any 32-byte key parses
/// back to exactly that key. (That the digest has its requested five bytes
/// is what the digest wrapper guarantees; it is a hypothesis here because
/// the digest itself is not restated in this library.)
#[verifier::rlimit(100)]
pub proof fn lemma_decode_encode(key: Seq<u8>)
    requires
        key.len() == 32,
        blake2b_of(5, key).len() == 5,
    ensures
        account_decode(account_encoding(key)) == Some(key),
{
    let s = account_encoding(key);
    let cs_rev = checksum_of(key);
    let bits = address_bits(key, cs_rev);
    let body = Seq::new(60, |j: int| b32_char(digit_at(bits, j)));
    assert(cs_rev.len() == 5);
    assert(bits.len() == 300);
    assert(s.len() == 65);
    assert(s.subrange(0, 5) =~= address_prefix());

    // every character is in the alphabet, carrying its digit value
    assert forall|j: int| 0 <= j < 60 implies #[trigger] b32_val(s[5 + j]) == digit_at(
        bits,
        j,
    ) && b32_val(s[5 + j]) >= 0 by {
        assert(s[5 + j] == body[j]);
        assert(0 <= digit_at(bits, j) < 32);
        lemma_b32_roundtrip(digit_at(bits, j));
    }

    // the decoded bit stream is the encoded one
    let ds = Seq::new(60, |j: int| b32_val(s[5 + j]));
    assert(ds =~= Seq::new(60, |j: int| digit_at(bits, j)));
    lemma_stream_roundtrip(bits);
    assert(bits_from_digits(ds) == bits);

    // the padding bits are zero by construction
    assert(!bits[0] && !bits[1] && !bits[2] && !bits[3]);

    // the key and checksum bytes read back as themselves
    lemma_address_bytes_roundtrip(key, cs_rev);
    let key2 = Seq::new(32, |t: int| byte_from_bits(bits, 4 + 8 * t) as u8);
    assert(key2 =~= key);
    let cs2 = Seq::new(5, |u: int| byte_from_bits(bits, 260 + 8 * u) as u8);
    assert(cs2 =~= cs_rev);
    assert(cs2 == checksum_of(key2));
}

/// The digit values of a byte string, as mathematical integers.
pub open spec fn digits_view(ds: Seq<u8>) -> Seq<int> {
    ds.map_values(|d: u8| d as int)
}

fn b32_val_exec(c: char) -> (r: i8)
    ensures
        r as int == b32_val(c),
{
    if c == '1' {
        0
    } else if c == '3' {
        1
    } else if c == '4' {
        2
    } else if c == '5' {
        3
    } else if c == '6' {
        4
    } else if c == '7' {
        5
    } else if c == '8' {
        6
    } else if c == '9' {
        7
    } else if c == 'a' {
        8
    } else if c == 'b' {
        9
    } else if c == 'c' {
        10
    } else if c == 'd' {
        11
    } else if c == 'e' {
        12
    } else if c == 'f' {
        13
    } else if c == 'g' {
        14
    } else if c == 'h' {
        15
    } else if c == 'i' {
        16
    } else if c == 'j' {
        17
    } else if c == 'k' {
        18
    } else if c == 'm' {
        19
    } else if c == 'n' {
        20
    } else if c == 'o' {
        21
    } else if c == 'p' {
        22
    } else if c == 'q' {
        23
    } else if c == 'r' {
        24
    } else if c == 's' {
        25
    } else if c == 't' {
        26
    } else if c == 'u' {
        27
    } else if c == 'w' {
        28
    } else if c == 'x' {
        29
    } else if c == 'y' {
        30
    } else if c == 'z' {
        31
    } else {
        -1
    }
}

fn b32_char_exec(v: u8) -> (r: char)
    requires
        v < 32,
    ensures
        r == b32_char(v as int),
{
    if v == 0 {
        '1'
    } else if v == 1 {
        '3'
    } else if v == 2 {
        '4'
    } else if v == 3 {
        '5'
    } else if v == 4 {
        '6'
    } else if v == 5 {
        '7'
    } else if v == 6 {
        '8'
    } else if v == 7 {
        '9'
    } else if v == 8 {
        'a'
    } else if v == 9 {
        'b'
    } else if v == 10 {
        'c'
    } else if v == 11 {
        'd'
    } else if v == 12 {
        'e'
    } else if v == 13 {
        'f'
    } else if v == 14 {
        'g'
    } else if v == 15 {
        'h'
    } else if v == 16 {
        'i'
    } else if v == 17 {
        'j'
    } else if v == 18 {
        'k'
    } else if v == 19 {
        'm'
    } else if v == 20 {
        'n'
    } else if v == 21 {
        'o'
    } else if v == 22 {
        'p'
    } else if v == 23 {
        'q'
    } else if v == 24 {
        'r'
    } else if v == 25 {
        's'
    } else if v == 26 {
        't'
    } else if v == 27 {
        'u'
    } else if v == 28 {
        'w'
    } else if v == 29 {
        'x'
    } else if v == 30 {
        'y'
    } else {
        'z'
    }
}

fn bytes_eq(a: &Vec<u8>, b: &Vec<u8>) -> (r: bool)
    ensures
        r == (a@ == b@),
{
    if a.len() != b.len() {
        return false;
    }
    let mut i: usize = 0;
    while i < a.len()
        invariant
            i <= a.len(),
            a@.len() == b@.len(),
            forall|k: int| 0 <= k < i ==> a@[k] == b@[k],
        decreases a.len() - i,
    {
        if a[i] != b[i] {
            return false;
        }
        i = i + 1;
    }
    proof {
        assert(a@ =~= b@);
    }
    true
}

fn reverse_bytes(v: &Vec<u8>) -> (r: Vec<u8>)
    ensures
        r@ == v@.reverse(),
{
    let mut r: Vec<u8> = Vec::new();
    let mut i: usize = v.len();
    while i > 0
        invariant
            i <= v.len(),
            r@.len() == v@.len() - i,
            forall|k: int| 0 <= k < r@.len() ==> r@[k] == v@[v@.len() - 1 - k],
        decreases i,
    {
        i = i - 1;
        r.push(v[i]);
    }
    proof {
        assert(r@ =~= v@.reverse());
    }
    r
}

fn digit_bit_exec(d: u8, k: usize) -> (b: bool)
    requires
        k < 5,
    ensures
        b == digit_bit(d as int, k as int),
{
    if k == 0 {
        (d / 16) % 2 == 1
    } else if k == 1 {
        (d / 8) % 2 == 1
    } else if k == 2 {
        (d / 4) % 2 == 1
    } else if k == 3 {
        (d / 2) % 2 == 1
    } else {
        d % 2 == 1
    }
}

/// Bit `i` of the 300-bit stream carried by 60 digit values.
fn stream_bit(digits: &Vec<u8>, i: usize) -> (b: bool)
    requires
        digits@.len() == 60,
        i < 300,
    ensures
        b == bits_from_digits(digits_view(digits@))[i as int],
{
    let d = digits[i / 5];
    digit_bit_exec(d, i % 5)
}

/// The byte carried by stream bits `start .. start + 8`.
fn byte_from_stream(digits: &Vec<u8>, start: usize) -> (x: u8)
    requires
        digits@.len() == 60,
        start + 8 <= 300,
    ensures
        x as int == byte_from_bits(bits_from_digits(digits_view(digits@)), start as int),
{
    let b0 = stream_bit(digits, start);
    let b1 = stream_bit(digits, start + 1);
    let b2 = stream_bit(digits, start + 2);
    let b3 = stream_bit(digits, start + 3);
    let b4 = stream_bit(digits, start + 4);
    let b5 = stream_bit(digits, start + 5);
    let b6 = stream_bit(digits, start + 6);
    let b7 = stream_bit(digits, start + 7);
    (if b0 {
        128u8
    } else {
        0u8
    }) + (if b1 {
        64u8
    } else {
        0u8
    }) + (if b2 {
        32u8
    } else {
        0u8
    }) + (if b3 {
        16u8
    } else {
        0u8
    }) + (if b4 {
        8u8
    } else {
        0u8
    }) + (if b5 {
        4u8
    } else {
        0u8
    }) + (if b6 {
        2u8
    } else {
        0u8
    }) + (if b7 {
        1u8
    } else {
        0u8
    })
}

/// Bit `i` of the 300 address bits of a key and its reversed checksum.
fn address_bit(key: &Vec<u8>, cs_rev: &Vec<u8>, i: usize) -> (b: bool)
    requires
        key@.len() == 32,
        cs_rev@.len() == 5,
        i < 300,
    ensures
        b == address_bits(key@, cs_rev@)[i as int],
{
    if i < 4 {
        false
    } else if i < 260 {
        let t = (i - 4) / 8;
        let k = (i - 4) % 8;
        ((key[t] >> ((7 - k) as u8)) & 1) == 1
    } else {
        let t = (i - 260) / 8;
        let k = (i - 260) % 8;
        ((cs_rev[t] >> ((7 - k) as u8)) & 1) == 1
    }
}

impl Account {
    /// Parse an address text; `Some` exactly on well-formed addresses, with
    /// the key the address carries.
    pub fn decode_account(s: &str) -> (r: Option<Account>)
        ensures
            match r {
                Some(a) => account_decode(s@) == Some(a@),
                None => account_decode(s@) is None,
            },
    {
        let cv = crate::strings::chars_of(s);
        if cv.len() != 65 {
            return None;
        }
        let prefix_ok = cv[0] == 'n' && cv[1] == 'a' && cv[2] == 'n' && cv[3] == 'o' && cv[4]
            == '_';
        proof {
            if prefix_ok {
                assert(s@.subrange(0, 5) =~= address_prefix());
            } else {
                if s@.subrange(0, 5) == address_prefix() {
                    assert(s@[0] == s@.subrange(0, 5)[0]);
                    assert(s@[1] == s@.subrange(0, 5)[1]);
                    assert(s@[2] == s@.subrange(0, 5)[2]);
                    assert(s@[3] == s@.subrange(0, 5)[3]);
                    assert(s@[4] == s@.subrange(0, 5)[4]);
                    assert(false);
                }
            }
        }
        if !prefix_ok {
            return None;
        }
        let mut digits: Vec<u8> = Vec::new();
        let mut j: usize = 0;
        while j < 60
            invariant
                j <= 60,
                cv@ == s@,
                s@.len() == 65,
                digits@.len() == j,
                forall|k: int|
                    0 <= k < j ==> digits@[k] as int == b32_val(s@[5 + k]) && #[trigger] b32_val(
                        s@[5 + k],
                    ) >= 0,
            decreases 60 - j,
        {
            let v = b32_val_exec(cv[5 + j]);
            if v < 0 {
                proof {
                    assert(b32_val(s@[5 + j]) < 0);
                }
                return None;
            }
            digits.push(v as u8);
            j = j + 1;
        }
        let ghost ds = Seq::new(60, |k: int| b32_val(s@[5 + k]));
        proof {
            assert(digits_view(digits@) =~= ds);
        }
        let ghost bits = bits_from_digits(ds);
        let d0 = digits[0];
        proof {
            assert(d0 < 32 && d0 as int == b32_val(s@[5]));
            assert(bits[0] == digit_bit(d0 as int, 0));
            assert(bits[1] == digit_bit(d0 as int, 1));
            assert(bits[2] == digit_bit(d0 as int, 2));
            assert(bits[3] == digit_bit(d0 as int, 3));
        }
        if d0 >= 2 {
            proof {
                assert(digit_bit(d0 as int, 0) || digit_bit(d0 as int, 1) || digit_bit(
                    d0 as int,
                    2,
                ) || digit_bit(d0 as int, 3));
            }
            return None;
        }
        let mut key: Vec<u8> = Vec::new();
        let mut t: usize = 0;
        while t < 32
            invariant
                t <= 32,
                digits@.len() == 60,
                digits_view(digits@) == ds,
                bits == bits_from_digits(ds),
                key@.len() == t,
                forall|q: int| 0 <= q < t ==> key@[q] as int == byte_from_bits(bits, 4 + 8 * q),
        	decreases 32 - t,
        {
            let x = byte_from_stream(&digits, 4 + 8 * t);
            key.push(x);
            t = t + 1;
        }
        let mut cs: Vec<u8> = Vec::new();
        let mut u: usize = 0;
        while u < 5
            invariant
                u <= 5,
                digits@.len() == 60,
                digits_view(digits@) == ds,
                bits == bits_from_digits(ds),
                cs@.len() == u,
                forall|q: int| 0 <= q < u ==> cs@[q] as int == byte_from_bits(bits, 260 + 8 * q),
            decreases 5 - u,
        {
            let x = byte_from_stream(&digits, 260 + 8 * u);
            cs.push(x);
            u = u + 1;
        }
        let ghost key_spec = Seq::new(32, |q: int| byte_from_bits(bits, 4 + 8 * q) as u8);
        let ghost cs_spec = Seq::new(5, |q: int| byte_from_bits(bits, 260 + 8 * q) as u8);
        proof {
            assert(key@ =~= key_spec);
            assert(cs@ =~= cs_spec);
        }
        let digest = blake2b_checksum(&key);
        let expected = reverse_bytes(&digest);
        proof {
            assert(expected@ == checksum_of(key@));
        }
        if bytes_eq(&cs, &expected) {
            Some(Account::from_bytes(key))
        } else {
            None
        }
    }

    /// The address text of this key.
    pub fn encode_account(&self) -> (r: String)
        ensures
            r@ == account_encoding(self@),
    {
        proof {
            use_type_invariant(self);
        }
        let digest = blake2b_checksum(&self.bytes);
        let cs_rev = reverse_bytes(&digest);
        proof {
            assert(cs_rev@ == checksum_of(self@));
        }
        let mut chars: Vec<char> = Vec::new();
        chars.push('n');
        chars.push('a');
        chars.push('n');
        chars.push('o');
        chars.push('_');
        proof {
            assert(chars@ =~= address_prefix() + Seq::new(0, |q: int| b32_char(digit_at(
                address_bits(self@, checksum_of(self@)),
                q,
            ))));
        }
        let mut j: usize = 0;
        while j < 60
            invariant
                j <= 60,
                self@.len() == 32,
                self.bytes@ == self@,
                cs_rev@.len() == 5,
                cs_rev@ == checksum_of(self@),
                chars@ == address_prefix() + Seq::new(j as nat, |q: int| b32_char(digit_at(
                    address_bits(self@, checksum_of(self@)),
                    q,
                ))),
            decreases 60 - j,
        {
            let b0 = address_bit(&self.bytes, &cs_rev, 5 * j);
            let b1 = address_bit(&self.bytes, &cs_rev, 5 * j + 1);
            let b2 = address_bit(&self.bytes, &cs_rev, 5 * j + 2);
            let b3 = address_bit(&self.bytes, &cs_rev, 5 * j + 3);
            let b4 = address_bit(&self.bytes, &cs_rev, 5 * j + 4);
            let d: u8 = (if b0 {
                16u8
            } else {
                0u8
            }) + (if b1 {
                8u8
            } else {
                0u8
            }) + (if b2 {
                4u8
            } else {
                0u8
            }) + (if b3 {
                2u8
            } else {
                0u8
            }) + (if b4 {
                1u8
            } else {
                0u8
            });
            proof {
                assert(d as int == digit_at(address_bits(self@, checksum_of(self@)), j as int));
            }
            chars.push(b32_char_exec(d));
            proof {
                assert(chars@ =~= address_prefix() + Seq::new((j + 1) as nat, |q: int| b32_char(
                    digit_at(address_bits(self@, checksum_of(self@)), q),
                )));
            }
            j = j + 1;
        }
        proof {
            assert(chars@ =~= account_encoding(self@));
        }
        crate::strings::string_from_chars(&chars)
    }
}

} // verus!
