//! Multicall3 batching: ABI encoding of `aggregate3((address,bool,bytes)[])`
//! calldata and decoding of its `(bool,bytes)[]` result, as bytes and
//! lowercase hex.
//!
//! Every call is submitted with `allowFailure = false`, so a result entry
//! reporting failure is not a state this module can meet from a real
//! `aggregate3` reply.
use vstd::arithmetic::power::pow;
use vstd::prelude::*;

verus! {

/// Multicall3's deployed address, the same on every EVM chain it is on.
pub const MULTICALL3_ADDRESS: &'static str = "0xcA11bde05977b3631167028862bE2a173976CA11";

/// The `aggregate3((address,bool,bytes)[])` selector, as hex.
pub const SEL_AGGREGATE3: &'static str = "82ad56cb";

// ---------------------------------------------------------------------------
// Hex text
// ---------------------------------------------------------------------------
/// The value of a hexadecimal digit (either case), if `c` is one.
pub open spec fn hex_digit(c: char) -> Option<int> {
    let u = c as int;
    if 48 <= u <= 57 {
        Some(u - 48)
    } else if 97 <= u <= 102 {
        Some(u - 87)
    } else if 65 <= u <= 70 {
        Some(u - 55)
    } else {
        None
    }
}

/// What `u8::from_str_radix(.., 16)` gives for the two characters `a b`:
/// an optional `+` sign followed by one digit, or two digits.
pub open spec fn pair_value(a: char, b: char) -> Option<u8> {
    if a == '+' {
        match hex_digit(b) {
            Some(v) => Some(v as u8),
            None => None,
        }
    } else {
        match (hex_digit(a), hex_digit(b)) {
            (Some(h), Some(l)) => Some((16 * h + l) as u8),
            _ => None,
        }
    }
}

/// `s` without a leading `"0x"`.
pub open spec fn strip_0x(s: Seq<char>) -> Seq<char> {
    if s.len() >= 2 && s[0] == '0' && s[1] == 'x' {
        s.subrange(2, s.len() as int)
    } else {
        s
    }
}

/// `t` is an even number of characters, each consecutive pair a valid
/// two-character hex byte.
pub open spec fn hex_pairs_ok(t: Seq<char>) -> bool {
    &&& t.len() % 2 == 0
    &&& forall|i: int| 0 <= i < t.len() / 2 ==> (#[trigger] pair_value(t[2 * i], t[2 * i + 1])) is Some
}

/// `s`, after an optional `"0x"`, is valid hex text.
pub open spec fn valid_hex(s: Seq<char>) -> bool {
    hex_pairs_ok(strip_0x(s))
}

/// The bytes that the pairs of `t` denote.
pub open spec fn decode_pairs(t: Seq<char>) -> Seq<u8> {
    Seq::new((t.len() / 2) as nat, |i: int| pair_value(t[2 * i], t[2 * i + 1])->0)
}

/// The bytes that hex text `s` denotes (after an optional `"0x"`).
pub open spec fn hex_decode(s: Seq<char>) -> Seq<u8> {
    decode_pairs(strip_0x(s))
}

/// The lowercase hex digit for `v < 16`.
pub open spec fn hex_char(v: int) -> char {
    if v < 10 {
        (v + 48) as char
    } else {
        (v + 87) as char
    }
}

/// The lowercase two-digit hex text of every byte of `b`, in order.
pub open spec fn hex_encode(b: Seq<u8>) -> Seq<char>
    decreases b.len(),
{
    if b.len() == 0 {
        Seq::empty()
    } else {
        hex_encode(b.drop_last()) + seq![hex_char(b.last() as int / 16), hex_char(b.last() as int % 16)]
    }
}

/// Hex text has two characters per byte.
pub proof fn lemma_hex_encode_len(b: Seq<u8>)
    ensures
        hex_encode(b).len() == 2 * b.len(),
    decreases b.len(),
{
    if b.len() > 0 {
        lemma_hex_encode_len(b.drop_last());
    }
}

/// The characters of `hex_encode(b)` at `2 i` and `2 i + 1` are the digits
/// of `b[i]`.
pub proof fn lemma_hex_encode_index(b: Seq<u8>, i: int)
    requires
        0 <= i < b.len(),
    ensures
        hex_encode(b).len() == 2 * b.len(),
        hex_encode(b)[2 * i] == hex_char(b[i] as int / 16),
        hex_encode(b)[2 * i + 1] == hex_char(b[i] as int % 16),
    decreases b.len(),
{
    lemma_hex_encode_len(b);
    lemma_hex_encode_len(b.drop_last());
    if i < b.len() - 1 {
        lemma_hex_encode_index(b.drop_last(), i);
    }
}

/// Every byte decodes back from its own two hex digits.
proof fn lemma_pair_of_hex(v: u8)
    ensures
        pair_value(hex_char(v as int / 16), hex_char(v as int % 16)) == Some(v),
{
}

/// Decoding lowercase hex gives back the bytes encoded.
pub proof fn lemma_hex_round_trip(b: Seq<u8>)
    ensures
        valid_hex(hex_encode(b)),
        hex_decode(hex_encode(b)) == b,
{
    let t = hex_encode(b);
    lemma_hex_encode_len(b);
    assert forall|i: int| 0 <= i < b.len() implies t[2 * i] == hex_char(b[i] as int / 16) && t[2 * i
        + 1] == hex_char(b[i] as int % 16) by {
        lemma_hex_encode_index(b, i);
    }
    if t.len() >= 2 {
        assert(t[1] == hex_char(b[0] as int % 16));
        assert(t[1] != 'x');
    }
    assert(strip_0x(t) == t);
    assert forall|i: int| 0 <= i < t.len() / 2 implies (#[trigger] pair_value(
        t[2 * i],
        t[2 * i + 1],
    )) is Some by {
        lemma_pair_of_hex(b[i]);
    }
    assert forall|i: int| 0 <= i < b.len() implies decode_pairs(t)[i] == b[i] by {
        lemma_pair_of_hex(b[i]);
    }
    assert(decode_pairs(t) =~= b);
}

/// The value of the hex digit byte `c`, if it is one.
fn digit_value(c: u8) -> (r: Option<u8>)
    ensures
        match hex_digit(c as char) {
            Some(v) => r == Some(v as u8),
            None => r is None,
        },
{
    if 48 <= c && c <= 57 {
        Some(c - 48)
    } else if 97 <= c && c <= 102 {
        Some(c - 87)
    } else if 65 <= c && c <= 70 {
        Some(c - 55)
    } else {
        None
    }
}

/// Decodes hex text (an optional `"0x"`, then pairs of hex digits) into
/// bytes.
pub fn from_hex_bytes(s: &str) -> (r: Vec<u8>)
    requires
        valid_hex(s@),
    ensures
        r@ == hex_decode(s@),
{
    let n = s.unicode_len();
    let ghost t = strip_0x(s@);
    let start: usize = if n >= 2 && s.get_char(0) == '0' && s.get_char(1) == 'x' {
        2
    } else {
        0
    };
    assert(t =~= s@.subrange(start as int, n as int));
    let mut out: Vec<u8> = Vec::new();
    let mut i: usize = start;
    while i < n
        invariant
            n == s@.len(),
            start <= i <= n,
            t == s@.subrange(start as int, n as int),
            hex_pairs_ok(t),
            (i - start) % 2 == 0,
            out@ == decode_pairs(t).subrange(0, (i - start) / 2),
        decreases n - i,
    {
        let ghost k = (i - start) / 2;
        assert(pair_value(t[2 * k], t[2 * k + 1]) is Some);
        let a = s.get_char(i);
        let b = s.get_char(i + 1);
        assert(a == t[2 * k] && b == t[2 * k + 1]);
        let v: u8 = if a == '+' {
            match digit_value(b as u8) {
                Some(v) => v,
                None => 0,
            }
        } else {
            match (digit_value(a as u8), digit_value(b as u8)) {
                (Some(h), Some(l)) => 16 * h + l,
                _ => 0,
            }
        };
        out.push(v);
        i = i + 2;
        assert(out@ =~= decode_pairs(t).subrange(0, (i - start) / 2));
    }
    assert(out@ =~= decode_pairs(t));
    out
}

/// The value of the hex digit `c`, if it is one.
fn char_digit(c: char) -> (r: Option<u8>)
    ensures
        match hex_digit(c) {
            Some(v) => r == Some(v as u8),
            None => r is None,
        },
{
    let u = c as u32;
    if 48 <= u && u <= 57 {
        Some((u - 48) as u8)
    } else if 97 <= u && u <= 102 {
        Some((u - 87) as u8)
    } else if 65 <= u && u <= 70 {
        Some((u - 55) as u8)
    } else {
        None
    }
}

/// Whether `s`, after an optional `"0x"`, is valid hex text.
pub fn is_valid_hex(s: &str) -> (r: bool)
    ensures
        r == valid_hex(s@),
{
    let n = s.unicode_len();
    let ghost t = strip_0x(s@);
    let start: usize = if n >= 2 && s.get_char(0) == '0' && s.get_char(1) == 'x' {
        2
    } else {
        0
    };
    assert(t =~= s@.subrange(start as int, n as int));
    if (n - start) % 2 != 0 {
        return false;
    }
    let mut i: usize = start;
    while i < n
        invariant
            n == s@.len(),
            start <= i <= n,
            t == s@.subrange(start as int, n as int),
            t == strip_0x(s@),
            t.len() % 2 == 0,
            (i - start) % 2 == 0,
            forall|k: int| 0 <= k < (i - start) / 2 ==> (#[trigger] pair_value(t[2 * k], t[2 * k + 1])) is Some,
        decreases n - i,
    {
        let ghost k = (i - start) / 2;
        let a = s.get_char(i);
        let b = s.get_char(i + 1);
        assert(a == t[2 * k] && b == t[2 * k + 1]);
        let ok = if a == '+' {
            char_digit(b).is_some()
        } else {
            char_digit(a).is_some() && char_digit(b).is_some()
        };
        if !ok {
            assert(k < t.len() / 2);
            assert(!(pair_value(t[2 * k], t[2 * k + 1]) is Some));
            assert(!hex_pairs_ok(t));
            return false;
        }
        i = i + 2;
    }
    true
}

/// Encodes bytes as lowercase hex text, two digits per byte.
pub fn to_hex(bytes: &[u8]) -> (r: String)
    ensures
        r@ == hex_encode(bytes@),
{
    let digits = "0123456789abcdef";
    proof {
        reveal_strlit("0123456789abcdef");
    }
    assert(digits.is_ascii());
    let mut out = String::new();
    let mut i: usize = 0;
    while i < bytes.len()
        invariant
            i <= bytes@.len(),
            digits@ == "0123456789abcdef"@,
            digits@.len() == 16,
            digits.is_ascii(),
            forall|k: int| 0 <= k < 16 ==> #[trigger] digits@[k] == hex_char(k),
            out@ == hex_encode(bytes@.subrange(0, i as int)),
        decreases bytes@.len() - i,
    {
        let v = bytes[i];
        let hi = (v / 16) as usize;
        let lo = (v % 16) as usize;
        out.append(digits.substring_ascii(hi, hi + 1));
        out.append(digits.substring_ascii(lo, lo + 1));
        proof {
            assert(bytes@.subrange(0, i + 1).drop_last() =~= bytes@.subrange(0, i as int));
            assert(digits@.subrange(hi as int, hi + 1) =~= seq![hex_char(hi as int)]);
            assert(digits@.subrange(lo as int, lo + 1) =~= seq![hex_char(lo as int)]);
        }
        i = i + 1;
        assert(out@ =~= hex_encode(bytes@.subrange(0, i as int)));
    }
    assert(bytes@.subrange(0, bytes@.len() as int) =~= bytes@);
    out
}

// ---------------------------------------------------------------------------
// ABI words
// ---------------------------------------------------------------------------
/// `n` zero bytes.
pub open spec fn zeros(n: nat) -> Seq<u8> {
    Seq::new(n, |i: int| 0u8)
}

/// `v` shifted right by `k` bytes.
pub open spec fn shr8(v: nat, k: nat) -> nat
    decreases k,
{
    if k == 0 {
        v
    } else {
        shr8(v, (k - 1) as nat) / 256
    }
}

/// `256^k`.
pub open spec fn p256(k: nat) -> nat
    decreases k,
{
    if k == 0 {
        1
    } else {
        256 * p256((k - 1) as nat)
    }
}

/// The low `n` bytes of `v`, most significant first.
pub open spec fn be_bytes(v: nat, n: nat) -> Seq<u8>
    decreases n,
{
    if n == 0 {
        Seq::empty()
    } else {
        be_bytes(v / 256, (n - 1) as nat).push((v % 256) as u8)
    }
}

/// A 32-byte ABI word holding `v` (which fits in 64 bits).
pub open spec fn word_spec(v: nat) -> Seq<u8> {
    zeros(24) + be_bytes(v, 8)
}

/// The big-endian value of `s`.
pub open spec fn read_be(s: Seq<u8>) -> nat
    decreases s.len(),
{
    if s.len() == 0 {
        0
    } else {
        read_be(s.drop_last()) * 256 + s.last() as nat
    }
}

/// The value of the 32-byte word at `at`, from its low 8 bytes.
pub open spec fn word_at(data: Seq<u8>, at: int) -> nat {
    read_be(data.subrange(at + 24, at + 32))
}

/// `be_bytes` has `n` bytes.
pub proof fn lemma_be_len(v: nat, n: nat)
    ensures
        be_bytes(v, n).len() == n,
    decreases n,
{
    if n > 0 {
        lemma_be_len(v / 256, (n - 1) as nat);
    }
}

proof fn lemma_shr8_step(v: nat, k: nat)
    ensures
        shr8(v / 256, k) == shr8(v, k + 1),
    decreases k,
{
    if k == 0 {
        assert(shr8(v, 1) == shr8(v, 0) / 256);
    } else {
        lemma_shr8_step(v, (k - 1) as nat);
        assert(shr8(v / 256, k) == shr8(v / 256, (k - 1) as nat) / 256);
        assert(shr8(v, k + 1) == shr8(v, k) / 256);
    }
}

/// The next more significant byte goes in front.
proof fn lemma_be_prepend(v: nat, k: nat)
    ensures
        be_bytes(v, k + 1) == seq![(shr8(v, k) % 256) as u8] + be_bytes(v, k),
    decreases k,
{
    if k == 0 {
        assert(be_bytes(v / 256, 0) =~= Seq::<u8>::empty());
        assert(be_bytes(v, 1) == be_bytes(v / 256, 0).push((v % 256) as u8));
        assert(be_bytes(v, 1) =~= seq![(v % 256) as u8]);
        assert(be_bytes(v, 0) =~= Seq::<u8>::empty());
    } else {
        lemma_be_prepend(v / 256, (k - 1) as nat);
        lemma_shr8_step(v, (k - 1) as nat);
        assert(be_bytes(v, k + 1) =~= seq![(shr8(v, k) % 256) as u8] + be_bytes(v, k));
    }
}

/// Reading the low `n` bytes back gives `v` less its part above them.
proof fn lemma_read_be_bytes(v: nat, n: nat)
    ensures
        read_be(be_bytes(v, n)) + shr8(v, n) * p256(n) == v,
    decreases n,
{
    if n == 0 {
        assert(be_bytes(v, 0) =~= Seq::<u8>::empty());
        assert(read_be(be_bytes(v, 0)) == 0);
        assert(shr8(v, 0) == v);
        assert(p256(0) == 1);
        assert(v * 1 == v);
    } else {
        let b = be_bytes(v, n);
        lemma_read_be_bytes(v / 256, (n - 1) as nat);
        lemma_shr8_step(v, (n - 1) as nat);
        assert(b.drop_last() =~= be_bytes(v / 256, (n - 1) as nat));
        let r = read_be(be_bytes(v / 256, (n - 1) as nat));
        let s = shr8(v, n);
        let p = p256((n - 1) as nat);
        assert(r + s * p == v / 256);
        assert(b == be_bytes(v / 256, (n - 1) as nat).push((v % 256) as u8));
        assert(b.last() == (v % 256) as u8);
        assert(read_be(b) == read_be(b.drop_last()) * 256 + b.last() as nat);
        assert(read_be(b) == r * 256 + v % 256);
        assert(p256(n) == 256 * p);
        assert((r + s * p) * 256 == r * 256 + s * (256 * p)) by (nonlinear_arith);
        assert(v == (v / 256) * 256 + v % 256);
        assert(read_be(b) + s * p256(n) == v);
    }
}

/// `256^8 = 2^64`.
proof fn lemma_p256_8()
    ensures
        p256(8) == 0x1_0000_0000_0000_0000,
{
    reveal_with_fuel(p256, 9);
}

/// Below `256^n`, nothing is left above the low `n` bytes.
proof fn lemma_shr8_small(v: nat, n: nat)
    requires
        v < p256(n),
    ensures
        shr8(v, n) == 0,
    decreases n,
{
    if n > 0 {
        let p = p256((n - 1) as nat);
        assert(v / 256 < p) by (nonlinear_arith)
            requires
                v < 256 * p,
        ;
        lemma_shr8_small(v / 256, (n - 1) as nat);
        lemma_shr8_step(v, (n - 1) as nat);
    }
}

/// A word reads back as the value written into it.
pub proof fn lemma_word_round_trip(v: u64)
    ensures
        word_spec(v as nat).len() == 32,
        word_at(word_spec(v as nat), 0) == v,
{
    lemma_be_len(v as nat, 8);
    lemma_p256_8();
    lemma_shr8_small(v as nat, 8);
    lemma_read_be_bytes(v as nat, 8);
    assert(word_spec(v as nat).subrange(24, 32) =~= be_bytes(v as nat, 8));
}

/// Appends every byte of `s` to `out`.
fn push_all(out: &mut Vec<u8>, s: &[u8])
    ensures
        final(out)@ == old(out)@ + s@,
{
    let mut i: usize = 0;
    while i < s.len()
        invariant
            i <= s@.len(),
            out@ == old(out)@ + s@.subrange(0, i as int),
        decreases s@.len() - i,
    {
        out.push(s[i]);
        i = i + 1;
        assert(out@ =~= old(out)@ + s@.subrange(0, i as int));
    }
    assert(s@.subrange(0, s@.len() as int) =~= s@);
}

/// The 32-byte big-endian ABI word holding `v`.
pub fn word_uint256(v: u64) -> (r: [u8; 32])
    ensures
        r@ == word_spec(v as nat),
{
    let mut word = [0u8; 32];
    let mut x: u64 = v;
    let mut k: usize = 0;
    assert(word@ =~= zeros(32) + be_bytes(v as nat, 0));
    while k < 8
        invariant
            k <= 8,
            x == shr8(v as nat, k as nat),
            word@ == zeros((32 - k) as nat) + be_bytes(v as nat, k as nat),
        decreases 8 - k,
    {
        proof {
            lemma_be_prepend(v as nat, k as nat);
            lemma_be_len(v as nat, k as nat);
        }
        word[31 - k] = (x % 256) as u8;
        x = x / 256;
        k = k + 1;
        assert(word@ =~= zeros((32 - k) as nat) + be_bytes(v as nat, k as nat));
    }
    word
}

/// The ABI word of a `bool`: 1 for `true`, 0 for `false`.
pub fn word_bool(b: bool) -> (r: [u8; 32])
    ensures
        r@ == word_spec(if b {
            1nat
        } else {
            0nat
        }),
{
    if b {
        word_uint256(1)
    } else {
        word_uint256(0)
    }
}

/// The ABI word of an address: 12 zero bytes, then its 20 bytes.
pub open spec fn address_word(addr: Seq<char>) -> Seq<u8> {
    zeros(12) + hex_decode(addr)
}

/// `addr` is hex text of exactly 20 bytes.
pub open spec fn address_ok(addr: Seq<char>) -> bool {
    valid_hex(addr) && hex_decode(addr).len() == 20
}

/// The ABI word of the address written in hex as `addr`.
pub fn word_address(addr: &str) -> (r: [u8; 32])
    requires
        address_ok(addr@),
    ensures
        r@ == address_word(addr@),
{
    let raw = from_hex_bytes(addr);
    let mut word = [0u8; 32];
    let mut i: usize = 0;
    while i < 20
        invariant
            i <= 20,
            raw@ == hex_decode(addr@),
            raw@.len() == 20,
            word@ == zeros(12) + raw@.subrange(0, i as int) + zeros((20 - i) as nat),
        decreases 20 - i,
    {
        word[12 + i] = raw[i];
        i = i + 1;
        assert(word@ =~= zeros(12) + raw@.subrange(0, i as int) + zeros((20 - i) as nat));
    }
    assert(word@ =~= zeros(12) + raw@);
    word
}

/// Zero bytes that pad `len` up to a multiple of 32.
pub open spec fn padding(len: nat) -> nat {
    ((32 - len % 32) % 32) as nat
}

/// The ABI encoding of a dynamic `bytes` value.
pub open spec fn bytes_value_spec(data: Seq<u8>) -> Seq<u8> {
    word_spec(data.len()) + data + zeros(padding(data.len()))
}

/// ABI-encodes a dynamic `bytes` value: a length word, the data, and zero
/// bytes up to a multiple of 32.
pub fn encode_bytes_value(data: &[u8]) -> (r: Vec<u8>)
    ensures
        r@ == bytes_value_spec(data@),
{
    let mut out: Vec<u8> = Vec::new();
    let w = word_uint256(data.len() as u64);
    push_all(&mut out, &w);
    push_all(&mut out, data);
    let pad = (32 - (data.len() % 32)) % 32;
    let ghost before = out@;
    let mut j: usize = 0;
    while j < pad
        invariant
            j <= pad,
            out@ == before + zeros(j as nat),
        decreases pad - j,
    {
        out.push(0u8);
        j = j + 1;
        assert(out@ =~= before + zeros(j as nat));
    }
    out
}

/// The value of the 32-byte word starting at byte 0 of `word`, from its
/// last 8 bytes.
pub fn read_uint256(word: &[u8]) -> (r: u64)
    requires
        word@.len() >= 32,
    ensures
        r == word_at(word@, 0),
{
    read_word_at(word, 0)
}

/// The value of the 32-byte word starting at byte `at` of `data`, from
/// its last 8 bytes.
fn read_word_at(data: &[u8], at: usize) -> (r: u64)
    requires
        at + 32 <= data@.len(),
    ensures
        r == word_at(data@, at as int),
{
    let len = data.len();
    assert(at + 32 <= len);
    let mut acc: u64 = 0;
    let mut j: usize = at + 24;
    while j < at + 32
        invariant
            at + 24 <= j <= at + 32,
            at + 32 <= len,
            len == data@.len(),
            acc == read_be(data@.subrange(at + 24, j as int)),
            acc < p256((j - at - 24) as nat),
        decreases at + 32 - j,
    {
        proof {
            lemma_p256_8();
            lemma_p256_mono((j - at - 24 + 1) as nat, 8);
            assert(data@.subrange(at + 24, j + 1).drop_last() =~= data@.subrange(
                at + 24,
                j as int,
            ));
            let p = p256((j - at - 24) as nat);
            assert(acc * 256 + 255 < 256 * p) by (nonlinear_arith)
                requires
                    acc < p,
            ;
        }
        acc = acc * 256 + data[j] as u64;
        j = j + 1;
    }
    acc
}

proof fn lemma_p256_mono(a: nat, b: nat)
    requires
        a <= b,
    ensures
        p256(a) <= p256(b),
    decreases b,
{
    if a < b {
        lemma_p256_mono(a, (b - 1) as nat);
    }
}

// ---------------------------------------------------------------------------
// aggregate3 calldata
// ---------------------------------------------------------------------------
/// One read call to batch: the target contract and its raw calldata.
pub struct Call3 {
    /// Target contract address, `"0x..."`.
    pub target: String,
    /// Raw calldata bytes (selector and encoded arguments).
    pub call_data: Vec<u8>,
}

impl Call3 {
    /// A call to `target` with calldata given as hex text.
    pub fn new(target: &str, call_data_hex: &str) -> (r: Call3)
        requires
            valid_hex(call_data_hex@),
        ensures
            r.target@ == target@,
            r.call_data@ == hex_decode(call_data_hex@),
    {
        Call3 { target: String::from_str(target), call_data: from_hex_bytes(call_data_hex) }
    }
}

/// The head-and-tail body of one `(address, bool, bytes)` tuple, with
/// `allowFailure = false` and the `bytes` three words in.
pub open spec fn body_spec(c: Call3) -> Seq<u8> {
    address_word(c.target@) + word_spec(0) + word_spec(96) + bytes_value_spec(c.call_data@)
}

/// The bodies of the first `k` calls, concatenated.
pub open spec fn bodies(cs: Seq<Call3>, k: nat) -> Seq<u8>
    decreases k,
{
    if k == 0 {
        Seq::empty()
    } else {
        bodies(cs, (k - 1) as nat) + body_spec(cs[k - 1])
    }
}

/// The offset words of the first `k` calls, each relative to the start of
/// the elements region (after `n` offset words).
pub open spec fn offsets(cs: Seq<Call3>, k: nat) -> Seq<u8>
    decreases k,
{
    if k == 0 {
        Seq::empty()
    } else {
        offsets(cs, (k - 1) as nat) + word_spec((32 * cs.len() + bodies(cs, (k - 1) as nat).len()) as nat)
    }
}

/// The array argument: its length word, the offsets, the bodies.
pub open spec fn array_data_spec(cs: Seq<Call3>) -> Seq<u8> {
    word_spec(cs.len()) + offsets(cs, cs.len()) + bodies(cs, cs.len())
}

/// Every call's target is a 20-byte hex address, and every offset fits in
/// 64 bits.
pub open spec fn calls_ok(cs: Seq<Call3>) -> bool {
    &&& forall|i: int| 0 <= i < cs.len() ==> address_ok(#[trigger] cs[i].target@)
    &&& 32 * cs.len() + bodies(cs, cs.len()).len() <= u64::MAX
}

/// The whole calldata: selector, the offset word of the sole argument,
/// the array argument, in hex.
pub open spec fn aggregate3_calldata(cs: Seq<Call3>) -> Seq<char> {
    SEL_AGGREGATE3@ + hex_encode(word_spec(32)) + hex_encode(array_data_spec(cs))
}

proof fn lemma_bodies_mono(cs: Seq<Call3>, j: nat, k: nat)
    requires
        j <= k,
    ensures
        bodies(cs, j).len() <= bodies(cs, k).len(),
    decreases k,
{
    if j < k {
        lemma_bodies_mono(cs, j, (k - 1) as nat);
    }
}

/// ABI-encodes the calldata of `aggregate3(calls)`, selector included,
/// as hex text without a `0x` prefix.
pub fn encode_aggregate3(calls: &[Call3]) -> (r: String)
    requires
        calls_ok(calls@),
    ensures
        r@ == aggregate3_calldata(calls@),
{
    let n = calls.len();
    let ghost cs = calls@;
    let mut tuple_bodies: Vec<Vec<u8>> = Vec::new();
    let mut i: usize = 0;
    while i < n
        invariant
            n == cs.len(),
            cs == calls@,
            calls_ok(cs),
            i <= n,
            tuple_bodies@.len() == i,
            forall|j: int| 0 <= j < i ==> (#[trigger] tuple_bodies@[j])@ == body_spec(cs[j]),
        decreases n - i,
    {
        let c = &calls[i];
        assert(address_ok(cs[i as int].target@));
        let mut body: Vec<u8> = Vec::new();
        push_all(&mut body, &word_address(c.target.as_str()));
        push_all(&mut body, &word_bool(false));
        push_all(&mut body, &word_uint256(96));
        push_all(&mut body, &encode_bytes_value(c.call_data.as_slice()));
        assert(body@ =~= body_spec(cs[i as int]));
        tuple_bodies.push(body);
        i = i + 1;
    }
    let elements_region_head_len: u64 = 32 * n as u64;
    let mut tuple_offsets: Vec<[u8; 32]> = Vec::new();
    let mut running: u64 = elements_region_head_len;
    let mut k: usize = 0;
    while k < n
        invariant
            n == cs.len(),
            calls_ok(cs),
            k <= n,
            tuple_bodies@.len() == n,
            forall|j: int| 0 <= j < n ==> (#[trigger] tuple_bodies@[j])@ == body_spec(cs[j]),
            running == 32 * n + bodies(cs, k as nat).len(),
            tuple_offsets@.len() == k,
            forall|j: int| 0 <= j < k ==> (#[trigger] tuple_offsets@[j])@ == word_spec(
                (32 * n + bodies(cs, j as nat).len()) as nat,
            ),
        decreases n - k,
    {
        tuple_offsets.push(word_uint256(running));
        proof {
            lemma_bodies_mono(cs, (k + 1) as nat, n as nat);
            assert(bodies(cs, (k + 1) as nat) == bodies(cs, k as nat) + body_spec(cs[k as int]));
        }
        running = running + tuple_bodies[k].len() as u64;
        k = k + 1;
    }
    let mut array_data: Vec<u8> = Vec::new();
    push_all(&mut array_data, &word_uint256(n as u64));
    let mut k: usize = 0;
    while k < n
        invariant
            n == cs.len(),
            k <= n,
            tuple_offsets@.len() == n,
            forall|j: int| 0 <= j < n ==> (#[trigger] tuple_offsets@[j])@ == word_spec(
                (32 * n + bodies(cs, j as nat).len()) as nat,
            ),
            array_data@ == word_spec(n as nat) + offsets(cs, k as nat),
        decreases n - k,
    {
        push_all(&mut array_data, &tuple_offsets[k]);
        k = k + 1;
        assert(array_data@ =~= word_spec(n as nat) + offsets(cs, k as nat));
    }
    let mut k: usize = 0;
    while k < n
        invariant
            n == cs.len(),
            k <= n,
            tuple_bodies@.len() == n,
            forall|j: int| 0 <= j < n ==> (#[trigger] tuple_bodies@[j])@ == body_spec(cs[j]),
            array_data@ == word_spec(n as nat) + offsets(cs, n as nat) + bodies(cs, k as nat),
        decreases n - k,
    {
        push_all(&mut array_data, tuple_bodies[k].as_slice());
        k = k + 1;
        assert(array_data@ =~= word_spec(n as nat) + offsets(cs, n as nat) + bodies(cs, k as nat));
    }
    let mut out = String::from_str(SEL_AGGREGATE3);
    let head = to_hex(&word_uint256(32));
    out.append(head.as_str());
    let tail = to_hex(array_data.as_slice());
    out.append(tail.as_str());
    out
}

// ---------------------------------------------------------------------------
// aggregate3 result
// ---------------------------------------------------------------------------
/// Where the array of a result starts.
pub open spec fn array_base(data: Seq<u8>) -> int {
    word_at(data, 0) as int
}

/// Entry `i` of a result array whose elements region starts at `es` is
/// in bounds, reports success, and holds a `bytes` value in bounds.
pub open spec fn entry_ok(data: Seq<u8>, es: int, i: int) -> bool {
    let ow = es + 32 * i;
    &&& ow + 32 <= data.len()
    &&& {
        let ts = es + word_at(data, ow);
        &&& ts + 64 <= data.len()
        &&& data[ts + 31] != 0
        &&& {
            let bs = ts + word_at(data, ts + 32);
            &&& bs + 32 <= data.len()
            &&& bs + 32 + word_at(data, bs) <= data.len()
        }
    }
}

/// The `bytes` of entry `i`.
pub open spec fn entry_payload(data: Seq<u8>, es: int, i: int) -> Seq<u8> {
    let ts = es + word_at(data, es + 32 * i);
    let bs = ts + word_at(data, ts + 32);
    data.subrange(bs + 32, bs + 32 + word_at(data, bs))
}

/// `data` is a well-formed `(bool,bytes)[]` result, every entry reporting
/// success.
pub open spec fn results_ok(data: Seq<u8>) -> bool {
    &&& data.len() >= 32
    &&& array_base(data) + 32 <= data.len()
    &&& forall|i: int|
        0 <= i < word_at(data, array_base(data)) ==> #[trigger] entry_ok(
            data,
            array_base(data) + 32,
            i,
        )
}

/// The entries' `bytes`, in order.
pub open spec fn decoded_results(data: Seq<u8>) -> Seq<Seq<u8>> {
    Seq::new(
        word_at(data, array_base(data)),
        |i: int| entry_payload(data, array_base(data) + 32, i),
    )
}

/// Encodes as `encode_aggregate3` does; `None` unless every target is hex
/// text of a 20-byte address and the encoding's offsets fit in 64 bits.
pub fn try_encode_aggregate3(calls: &[Call3]) -> (r: Option<String>)
    ensures
        r is Some <==> calls_ok(calls@),
        r matches Some(t) ==> t@ == aggregate3_calldata(calls@),
{
    let n = calls.len();
    let ghost cs = calls@;
    if (n as u128) * 32 > u64::MAX as u128 {
        proof {
            lemma_bodies_mono(cs, 0, n as nat);
        }
        return None;
    }
    let mut total: u64 = (n as u64) * 32;
    let mut i: usize = 0;
    while i < n
        invariant
            n == cs.len(),
            cs == calls@,
            i <= n,
            total == 32 * n + bodies(cs, i as nat).len(),
            forall|j: int| 0 <= j < i ==> address_ok(#[trigger] cs[j].target@),
        decreases n - i,
    {
        let c = &calls[i];
        let target = c.target.as_str();
        if !(is_valid_hex(target) && from_hex_bytes(target).len() == 20) {
            assert(!address_ok(cs[i as int].target@));
            return None;
        }
        let bl = encode_bytes_value(c.call_data.as_slice()).len();
        proof {
            lemma_word_len(0);
            lemma_word_len(96);
            assert(bodies(cs, (i + 1) as nat) == bodies(cs, i as nat) + body_spec(cs[i as int]));
            assert(zeros(12).len() == 12);
            assert(body_spec(cs[i as int]).len() == 96 + bl);
        }
        if (total as u128) + 96 + (bl as u128) > u64::MAX as u128 {
            proof {
                lemma_bodies_mono(cs, (i + 1) as nat, n as nat);
            }
            return None;
        }
        total = total + 96 + bl as u64;
        i = i + 1;
    }
    Some(encode_aggregate3(calls))
}

/// Decodes `aggregate3`'s result into each call's return bytes, in order;
/// `None` unless the result is well-formed with every entry reporting
/// success.
pub fn try_decode_aggregate3_result(data: &[u8]) -> (r: Option<Vec<Vec<u8>>>)
    ensures
        r is Some <==> results_ok(data@),
        r matches Some(v) ==> v@.len() == decoded_results(data@).len() && forall|i: int|
            0 <= i < v@.len() ==> (#[trigger] v@[i])@ == decoded_results(data@)[i],
{
    let len = data.len();
    let len64 = len as u64;
    if len < 32 {
        return None;
    }
    let base = read_word_at(data, 0);
    if base > len64 || len64 - base < 32 {
        return None;
    }
    let n = read_word_at(data, base as usize);
    let es: u64 = base + 32;
    let rem: u64 = len64 - es;
    let ghost d = data@;
    let mut results: Vec<Vec<u8>> = Vec::new();
    let mut i: u64 = 0;
    while i < n
        invariant
            d == data@,
            len == d.len(),
            len64 == d.len(),
            d.len() >= 32,
            base == array_base(d),
            base + 32 <= d.len(),
            n == word_at(d, base as int),
            es == base + 32,
            rem == len64 - es,
            i <= n,
            results@.len() == i,
            forall|j: int| 0 <= j < i ==> #[trigger] entry_ok(d, es as int, j),
            forall|j: int| 0 <= j < i ==> (#[trigger] results@[j])@ == entry_payload(d, es as int, j),
        decreases n - i,
    {
        if i >= rem / 32 {
            assert(!entry_ok(d, es as int, i as int));
            return None;
        }
        assert(32 * i + 32 <= rem) by (nonlinear_arith)
            requires
                i < rem / 32,
        ;
        let ow: u64 = es + 32 * i;
        assert(ow + 32 <= len);
        let owu = ow as usize;
        assert(owu == ow);
        let toff = read_word_at(data, owu);
        if rem < 64 || toff > rem - 64 {
            assert(!entry_ok(d, es as int, i as int));
            return None;
        }
        let ts: u64 = es + toff;
        assert(ts + 64 <= len);
        let tsu = ts as usize;
        assert(tsu == ts);
        if data[tsu + 31] == 0 {
            assert(!entry_ok(d, es as int, i as int));
            return None;
        }
        let boff = read_word_at(data, tsu + 32);
        let r2: u64 = len64 - ts;
        if r2 < 32 || boff > r2 - 32 {
            assert(!entry_ok(d, es as int, i as int));
            return None;
        }
        let bs: u64 = ts + boff;
        assert(bs + 32 <= len);
        let bsu = bs as usize;
        assert(bsu == bs);
        let l = read_word_at(data, bsu);
        if l > len64 - bs - 32 {
            assert(!entry_ok(d, es as int, i as int));
            return None;
        }
        let start = bsu + 32;
        let end = start + l as usize;
        let mut payload: Vec<u8> = Vec::new();
        let mut j: usize = start;
        while j < end
            invariant
                start <= j <= end,
                end <= d.len(),
                d == data@,
                payload@ == d.subrange(start as int, j as int),
            decreases end - j,
        {
            payload.push(data[j]);
            j = j + 1;
            assert(payload@ =~= d.subrange(start as int, j as int));
        }
        assert(entry_ok(d, es as int, i as int));
        assert(payload@ == entry_payload(d, es as int, i as int));
        results.push(payload);
        i = i + 1;
    }
    assert(results@.len() == decoded_results(d).len());
    Some(results)
}

/// Decodes `aggregate3`'s result into each call's return bytes, in the
/// order the calls were submitted.
pub fn decode_aggregate3_result(data: &[u8]) -> (r: Vec<Vec<u8>>)
    requires
        results_ok(data@),
    ensures
        r@.len() == decoded_results(data@).len(),
        forall|i: int| 0 <= i < r@.len() ==> (#[trigger] r@[i])@ == decoded_results(data@)[i],
{
    match try_decode_aggregate3_result(data) {
        Some(v) => v,
        None => Vec::new(),
    }
}

/// Hex text of a concatenation is the concatenation of the hex texts.
pub proof fn lemma_hex_encode_concat(a: Seq<u8>, b: Seq<u8>)
    ensures
        hex_encode(a + b) == hex_encode(a) + hex_encode(b),
    decreases b.len(),
{
    if b.len() == 0 {
        assert(a + b =~= a);
        assert(hex_encode(b) =~= Seq::<char>::empty());
        assert(hex_encode(a) + hex_encode(b) =~= hex_encode(a));
    } else {
        lemma_hex_encode_concat(a, b.drop_last());
        assert((a + b).drop_last() =~= a + b.drop_last());
        assert((a + b).last() == b.last());
        assert(hex_encode(a + b) =~= hex_encode(a) + hex_encode(b));
    }
}

/// `word_at` reads a word wherever it is embedded.
proof fn lemma_word_at_embedded(data: Seq<u8>, at: int, w: Seq<u8>)
    requires
        0 <= at,
        at + 32 <= data.len(),
        w.len() == 32,
        data.subrange(at, at + 32) == w,
    ensures
        word_at(data, at) == word_at(w, 0),
{
    assert(data.subrange(at + 24, at + 32) =~= w.subrange(24, 32));
}

/// The calldata, past its selector, decodes to the argument's offset word
/// (32) and then the array, whose length word holds the number of calls.
pub proof fn lemma_calldata_call_count(cs: Seq<Call3>)
    requires
        calls_ok(cs),
    ensures
        aggregate3_calldata(cs).len() >= 8,
        valid_hex(aggregate3_calldata(cs).subrange(8, aggregate3_calldata(cs).len() as int)),
        ({
            let bytes = hex_decode(aggregate3_calldata(cs).subrange(8, aggregate3_calldata(cs).len() as int));
            &&& bytes.len() >= 64
            &&& word_at(bytes, 0) == 32
            &&& word_at(bytes, word_at(bytes, 0) as int) == cs.len()
        }),
{
    reveal_strlit("82ad56cb");
    let full = aggregate3_calldata(cs);
    let arr = array_data_spec(cs);
    let payload = word_spec(32) + arr;
    lemma_hex_encode_concat(word_spec(32), arr);
    assert(full.subrange(8, full.len() as int) =~= hex_encode(payload));
    lemma_hex_round_trip(payload);
    lemma_word_round_trip(32);
    lemma_word_round_trip(cs.len() as u64);
    lemma_be_len(32, 8);
    lemma_be_len(cs.len(), 8);
    assert(payload.subrange(0, 32) =~= word_spec(32));
    assert(payload.subrange(32, 64) =~= word_spec(cs.len()));
    lemma_word_at_embedded(payload, 0, word_spec(32));
    lemma_word_at_embedded(payload, 32, word_spec(cs.len()));
}

// ---------------------------------------------------------------------------
// Round trip of a result
// ---------------------------------------------------------------------------
/// The body of one `(bool success, bytes returnData)` result entry that
/// reports success.
pub open spec fn result_body(payload: Seq<u8>) -> Seq<u8> {
    word_spec(1) + word_spec(64) + bytes_value_spec(payload)
}

/// The bodies of the first `k` result entries, concatenated.
pub open spec fn result_bodies(ps: Seq<Seq<u8>>, k: nat) -> Seq<u8>
    decreases k,
{
    if k == 0 {
        Seq::empty()
    } else {
        result_bodies(ps, (k - 1) as nat) + result_body(ps[k - 1])
    }
}

/// The offset words of the first `k` result entries.
pub open spec fn result_offsets(ps: Seq<Seq<u8>>, k: nat) -> Seq<u8>
    decreases k,
{
    if k == 0 {
        Seq::empty()
    } else {
        result_offsets(ps, (k - 1) as nat) + word_spec(
            (32 * ps.len() + result_bodies(ps, (k - 1) as nat).len()) as nat,
        )
    }
}

/// The ABI encoding of a successful `aggregate3` result holding `ps`.
pub open spec fn results_encoding(ps: Seq<Seq<u8>>) -> Seq<u8> {
    word_spec(32) + word_spec(ps.len()) + result_offsets(ps, ps.len()) + result_bodies(
        ps,
        ps.len(),
    )
}

proof fn lemma_word_len(v: nat)
    ensures
        word_spec(v).len() == 32,
{
    lemma_be_len(v, 8);
}

proof fn lemma_result_body_len(p: Seq<u8>)
    ensures
        result_body(p).len() == 96 + p.len() + padding(p.len()),
        result_body(p).len() >= 96 + p.len(),
{
    lemma_word_len(1);
    lemma_word_len(64);
    lemma_word_len(p.len());
}

proof fn lemma_result_bodies(ps: Seq<Seq<u8>>, k: nat, i: int)
    requires
        0 <= i < k <= ps.len(),
    ensures
        result_bodies(ps, (i + 1) as nat).len() <= result_bodies(ps, k).len(),
        result_bodies(ps, (i + 1) as nat).len() == result_bodies(ps, i as nat).len() + result_body(
            ps[i],
        ).len(),
        result_bodies(ps, k).subrange(
            result_bodies(ps, i as nat).len() as int,
            result_bodies(ps, i as nat).len() + result_body(ps[i]).len() as int,
        ) == result_body(ps[i]),
    decreases k,
{
    if k - 1 == i {
        let prev = result_bodies(ps, i as nat);
        assert(result_bodies(ps, k) == prev + result_body(ps[i]));
        assert(result_bodies(ps, k).subrange(
            prev.len() as int,
            prev.len() + result_body(ps[i]).len() as int,
        ) =~= result_body(ps[i]));
    } else {
        lemma_result_bodies(ps, (k - 1) as nat, i);
        let prev = result_bodies(ps, (k - 1) as nat);
        let lo = result_bodies(ps, i as nat).len() as int;
        let hi = lo + result_body(ps[i]).len() as int;
        assert(result_bodies(ps, k) == prev + result_body(ps[k - 1]));
        assert(result_bodies(ps, k).subrange(lo, hi) =~= prev.subrange(lo, hi));
    }
}

proof fn lemma_result_offsets(ps: Seq<Seq<u8>>, k: nat, i: int)
    requires
        0 <= i < k <= ps.len(),
    ensures
        result_offsets(ps, k).len() == 32 * k,
        result_offsets(ps, k).subrange(32 * i, 32 * i + 32) == word_spec(
            (32 * ps.len() + result_bodies(ps, i as nat).len()) as nat,
        ),
    decreases k,
{
    lemma_result_offsets_len(ps, k);
    let prev = result_offsets(ps, (k - 1) as nat);
    lemma_result_offsets_len(ps, (k - 1) as nat);
    let w = word_spec((32 * ps.len() + result_bodies(ps, (k - 1) as nat).len()) as nat);
    lemma_word_len((32 * ps.len() + result_bodies(ps, (k - 1) as nat).len()) as nat);
    assert(result_offsets(ps, k) == prev + w);
    if k - 1 == i {
        assert(result_offsets(ps, k).subrange(32 * i, 32 * i + 32) =~= w);
    } else {
        lemma_result_offsets(ps, (k - 1) as nat, i);
        assert(result_offsets(ps, k).subrange(32 * i, 32 * i + 32) =~= prev.subrange(
            32 * i,
            32 * i + 32,
        ));
    }
}

proof fn lemma_result_offsets_len(ps: Seq<Seq<u8>>, k: nat)
    ensures
        result_offsets(ps, k).len() == 32 * k,
    decreases k,
{
    if k > 0 {
        lemma_result_offsets_len(ps, (k - 1) as nat);
        lemma_word_len((32 * ps.len() + result_bodies(ps, (k - 1) as nat).len()) as nat);
    }
}

/// A word embedded at `a` reads as it does on its own.
proof fn lemma_word_in(data: Seq<u8>, a: int, w: Seq<u8>, x: int)
    requires
        0 <= a,
        a + w.len() <= data.len(),
        data.subrange(a, a + w.len()) == w,
        0 <= x,
        x + 32 <= w.len(),
    ensures
        word_at(data, a + x) == word_at(w, x),
{
    assert(data.subrange(a + x + 24, a + x + 32) =~= w.subrange(x + 24, x + 32));
}

/// The last byte of the word holding 1 is 1.
proof fn lemma_word_one_last()
    ensures
        word_spec(1)[31] == 1,
{
    lemma_be_len(1, 8);
    assert(be_bytes(1, 8) == be_bytes(0, 7).push(1u8));
    lemma_be_len(0, 7);
}

/// The facts about an encoded result that every entry's proof shares.
proof fn lemma_encoding_layout(ps: Seq<Seq<u8>>)
    requires
        64 + 32 * ps.len() + result_bodies(ps, ps.len()).len() <= u64::MAX,
    ensures
        results_encoding(ps).len() == 64 + 32 * ps.len() + result_bodies(ps, ps.len()).len(),
        results_encoding(ps).subrange(64, 64 + 32 * ps.len() as int) == result_offsets(ps, ps.len()),
        results_encoding(ps).subrange(
            64 + 32 * ps.len() as int,
            results_encoding(ps).len() as int,
        ) == result_bodies(ps, ps.len()),
        array_base(results_encoding(ps)) == 32,
        word_at(results_encoding(ps), 32) == ps.len(),
{
    let n = ps.len();
    let enc = results_encoding(ps);
    let offs = result_offsets(ps, n);
    let bods = result_bodies(ps, n);
    lemma_word_len(32);
    lemma_word_len(n);
    lemma_result_offsets_len(ps, n);
    assert(enc.len() == 64 + 32 * n + bods.len());
    assert(enc.subrange(0, 32) =~= word_spec(32));
    assert(enc.subrange(32, 64) =~= word_spec(n));
    lemma_word_in(enc, 0, word_spec(32), 0);
    lemma_word_in(enc, 32, word_spec(n), 0);
    lemma_word_round_trip(32);
    lemma_word_round_trip(n as u64);
    assert(enc.subrange(64, 64 + 32 * n as int) =~= offs);
    assert(enc.subrange(64 + 32 * n as int, enc.len() as int) =~= bods);
}

/// Entry `i` of an encoded result is well-formed and holds `ps[i]`.
#[verifier::spinoff_prover]
#[verifier::rlimit(40)]
proof fn lemma_result_entry(ps: Seq<Seq<u8>>, i: int)
    requires
        64 + 32 * ps.len() + result_bodies(ps, ps.len()).len() <= u64::MAX,
        0 <= i < ps.len(),
    ensures
        entry_ok(results_encoding(ps), 64, i),
        entry_payload(results_encoding(ps), 64, i) == ps[i],
{
    let n = ps.len();
    let enc = results_encoding(ps);
    let offs = result_offsets(ps, n);
    let bods = result_bodies(ps, n);
    lemma_encoding_layout(ps);
    let bi = result_bodies(ps, i as nat).len() as int;
    let body = result_body(ps[i]);
    let bl = body.len() as int;
    lemma_result_offsets(ps, n, i);
    lemma_result_bodies(ps, n, i);
    lemma_result_body_len(ps[i]);
    let off = (32 * n + bi) as nat;
    // The entry's offset word.
    assert(enc.subrange(64 + 32 * i, 64 + 32 * i + 32) =~= offs.subrange(32 * i, 32 * i + 32));
    lemma_word_len(off);
    lemma_word_in(enc, 64 + 32 * i, word_spec(off), 0);
    lemma_word_round_trip(off as u64);
    assert(word_at(enc, 64 + 32 * i) == off);
    // The entry's body.
    let ts = 64 + off as int;
    assert(enc.subrange(ts, ts + bl) =~= bods.subrange(bi, bi + bl));
    assert(enc.subrange(ts, ts + bl) == body);
    lemma_word_len(1);
    lemma_word_len(64);
    lemma_word_len(ps[i].len());
    lemma_word_one_last();
    assert(body[31] == word_spec(1)[31]);
    assert(enc[ts + 31] == body[31]);
    lemma_word_in(enc, ts, body, 32);
    assert(body.subrange(32, 64) =~= word_spec(64));
    lemma_word_in(body, 32, word_spec(64), 0);
    lemma_word_round_trip(64);
    assert(word_at(enc, ts + 32) == 64);
    let bs = ts + 64;
    lemma_word_in(enc, ts, body, 64);
    assert(body.subrange(64, 96) =~= word_spec(ps[i].len()));
    lemma_word_in(body, 64, word_spec(ps[i].len()), 0);
    lemma_word_round_trip(ps[i].len() as u64);
    assert(word_at(enc, bs) == ps[i].len());
    let pl = ps[i].len() as int;
    assert(enc.subrange(bs + 32, bs + 32 + pl) =~= body.subrange(96, 96 + pl));
    assert(body.subrange(96, 96 + pl) =~= ps[i]);
}

/// A successful `aggregate3` result decodes back to the return bytes it
/// holds, in order: for the encoding `results_encoding(ps)` (the offset
/// word 32, the count, one offset word per entry, then each entry's
/// `success = true` word, its bytes offset 64 and its padded bytes value),
/// `try_decode_aggregate3_result` gives `Some` of exactly `ps`, and
/// `decode_aggregate3_result` gives `ps`.
pub proof fn lemma_results_round_trip(ps: Seq<Seq<u8>>)
    requires
        64 + 32 * ps.len() + result_bodies(ps, ps.len()).len() <= u64::MAX,
    ensures
        results_ok(results_encoding(ps)),
        decoded_results(results_encoding(ps)) == ps,
{
    let enc = results_encoding(ps);
    lemma_encoding_layout(ps);
    assert forall|i: int| 0 <= i < ps.len() implies #[trigger] entry_ok(enc, 64, i) by {
        lemma_result_entry(ps, i);
    }
    assert forall|i: int| 0 <= i < ps.len() implies decoded_results(enc)[i] == ps[i] by {
        lemma_result_entry(ps, i);
    }
    assert(decoded_results(enc) =~= ps);
}

} // verus!
