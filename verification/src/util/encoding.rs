//! Mathematical model of the Bedrock wire encodings: what bytes each value
//! becomes, and what value a run of bytes stands for.
use vstd::prelude::*;
use vstd::utf8::*;

verus! {

/// 128 to the power `k`.
pub open spec fn pow128(k: nat) -> nat
    decreases k,
{
    if k == 0 {
        1
    } else {
        128 * pow128((k - 1) as nat)
    }
}

/// 256 to the power `k`.
pub open spec fn pow256(k: nat) -> nat
    decreases k,
{
    if k == 0 {
        1
    } else {
        256 * pow256((k - 1) as nat)
    }
}

/// Unsigned LEB128 ("VarUInt"): seven bits per byte, least significant group
/// first, the high bit set on every byte except the last.
pub open spec fn var_uint_bytes(v: nat) -> Seq<u8>
    decreases v,
{
    if v < 128 {
        seq![v as u8]
    } else {
        seq![(v % 128 + 128) as u8] + var_uint_bytes(v / 128)
    }
}

/// ZigZag mapping of a signed 32-bit value onto an unsigned one:
/// 0, -1, 1, -2, 2, ... become 0, 1, 2, 3, 4, ...
pub open spec fn zigzag32(v: i32) -> u32 {
    if v >= 0 {
        (2 * v) as u32
    } else {
        (-2 * v - 1) as u32
    }
}

/// ZigZag mapping of a signed 64-bit value onto an unsigned one.
pub open spec fn zigzag64(v: i64) -> u64 {
    if v >= 0 {
        (2 * v) as u64
    } else {
        (-2 * v - 1) as u64
    }
}

/// Signed VarInt of 32 bits: the ZigZag value as a VarUInt.
pub open spec fn var_int32_bytes(v: i32) -> Seq<u8> {
    var_uint_bytes(zigzag32(v) as nat)
}

/// Signed VarInt of 64 bits: the ZigZag value as a VarUInt.
pub open spec fn var_int64_bytes(v: i64) -> Seq<u8> {
    var_uint_bytes(zigzag64(v) as nat)
}

/// The `n` low bytes of `v`, least significant first.
pub open spec fn le_bytes(v: nat, n: nat) -> Seq<u8>
    decreases n,
{
    if n == 0 {
        Seq::empty()
    } else {
        seq![(v % 256) as u8] + le_bytes(v / 256, (n - 1) as nat)
    }
}

/// The `n` low bytes of `v`, most significant first.
pub open spec fn be_bytes(v: nat, n: nat) -> Seq<u8>
    decreases n,
{
    if n == 0 {
        Seq::empty()
    } else {
        be_bytes(v / 256, (n - 1) as nat) + seq![(v % 256) as u8]
    }
}

/// The number that little-endian bytes stand for.
pub open spec fn le_value(s: Seq<u8>) -> nat
    decreases s.len(),
{
    if s.len() == 0 {
        0
    } else {
        s[0] as nat + 256 * le_value(s.drop_first())
    }
}

/// The number that big-endian bytes stand for.
pub open spec fn be_value(s: Seq<u8>) -> nat
    decreases s.len(),
{
    if s.len() == 0 {
        0
    } else {
        be_value(s.drop_last()) * 256 + s.last() as nat
    }
}

/// A boolean is one byte, 1 for true and 0 for false.
pub open spec fn bool_bytes(b: bool) -> Seq<u8> {
    seq![if b { 1u8 } else { 0u8 }]
}

/// A string on the wire: the length of its UTF-8 bytes as a VarUInt, then the bytes.
pub open spec fn var_string_bytes(s: Seq<char>) -> Seq<u8> {
    var_uint_bytes(encode_utf8(s).len()) + encode_utf8(s)
}

/// A VarUInt of at most `max_len` bytes at the front of `s`: its value and the
/// number of bytes it takes, or `None` when `s` ends first or the value runs
/// past `max_len` bytes. Redundant high zero groups are accepted.
pub open spec fn var_uint_prefix(s: Seq<u8>, max_len: nat) -> Option<(nat, nat)>
    decreases max_len,
{
    if max_len == 0 || s.len() == 0 {
        None
    } else if s[0] < 128 {
        Some((s[0] as nat, 1nat))
    } else {
        match var_uint_prefix(s.drop_first(), (max_len - 1) as nat) {
            Some((v, n)) => Some(((s[0] - 128) as nat + 128 * v, n + 1)),
            None => None,
        }
    }
}

/// A 32-bit VarUInt at the front of `s` (at most five bytes, value below 2^32):
/// the value and the number of bytes it takes.
pub open spec fn var_u32_prefix(s: Seq<u8>) -> Option<(u32, nat)> {
    match var_uint_prefix(s, 5) {
        Some((v, n)) => if v <= u32::MAX {
            Some((v as u32, n))
        } else {
            None
        },
        None => None,
    }
}

/// A string at the front of `s`: a 32-bit VarUInt length, then that many bytes
/// of valid UTF-8. Gives the characters and the number of bytes taken.
pub open spec fn var_string_prefix(s: Seq<u8>) -> Option<(Seq<char>, nat)> {
    match var_u32_prefix(s) {
        Some((len, k)) => if k + len <= s.len() && valid_utf8(s.subrange(k as int, k + len)) {
            Some((decode_utf8(s.subrange(k as int, k + len)), (k + len) as nat))
        } else {
            None
        },
        None => None,
    }
}

/// Powers of 128 and 256 grow with their exponent.
pub proof fn lemma_pow_monotone(a: nat, b: nat)
    requires
        a <= b,
    ensures
        pow128(a) <= pow128(b),
        pow256(a) <= pow256(b),
        pow128(a) >= 1,
        pow256(a) >= 1,
    decreases b,
{
    if a < b {
        lemma_pow_monotone(a, (b - 1) as nat);
    } else if a > 0 {
        lemma_pow_monotone((a - 1) as nat, (a - 1) as nat);
    }
}

/// The powers that bound the widths this library reads and writes.
pub proof fn lemma_pow_values()
    ensures
        pow128(5) == 0x8_0000_0000,
        pow128(8) == 0x100_0000_0000_0000,
        pow256(4) == 0x1_0000_0000,
        pow256(7) == 0x100_0000_0000_0000,
        pow256(8) == 0x1_0000_0000_0000_0000,
{
    reveal_with_fuel(pow128, 9);
    reveal_with_fuel(pow256, 9);
}

/// A VarUInt prefix takes between one and `max_len` bytes of the input, and its
/// value is below 128 to the power of the bytes it takes.
pub proof fn lemma_var_uint_prefix_bounds(s: Seq<u8>, max_len: nat)
    ensures
        var_uint_prefix(s, max_len) matches Some((v, n)) ==> 1 <= n <= max_len && n <= s.len()
            && v < pow128(n),
    decreases max_len,
{
    reveal_with_fuel(pow128, 2);
    if max_len > 0 && s.len() > 0 && s[0] >= 128 {
        lemma_var_uint_prefix_bounds(s.drop_first(), (max_len - 1) as nat);
        if let Some((v, n)) = var_uint_prefix(s.drop_first(), (max_len - 1) as nat) {
            assert(pow128(n + 1) == 128 * pow128(n));
        }
    }
}

/// The number of bytes of a VarUInt grows with the value: below 128^k it takes at most k bytes.
pub proof fn lemma_var_uint_len(v: nat, k: nat)
    requires
        1 <= k,
        v < pow128(k),
    ensures
        1 <= var_uint_bytes(v).len() <= k,
    decreases v,
{
    if v >= 128 {
        assert(k >= 2) by {
            if k == 1 {
                reveal_with_fuel(pow128, 2);
            }
        }
        lemma_var_uint_len(v / 128, (k - 1) as nat);
    }
}

/// Every byte of a VarUInt but the last has its high bit set; the last has it clear.
pub proof fn lemma_var_uint_shape(v: nat)
    ensures
        var_uint_bytes(v).len() >= 1,
        var_uint_bytes(v).last() < 128,
        forall|i: int| 0 <= i < var_uint_bytes(v).len() - 1 ==> var_uint_bytes(v)[i] >= 128,
    decreases v,
{
    if v >= 128 {
        lemma_var_uint_shape(v / 128);
    }
}

/// Decoding gives back what encoding wrote: a VarUInt followed by any bytes
/// reads as the value it encodes, taking exactly its own bytes.
pub proof fn lemma_var_uint_roundtrip(v: nat, rest: Seq<u8>, max_len: nat)
    requires
        var_uint_bytes(v).len() <= max_len,
    ensures
        var_uint_prefix(var_uint_bytes(v) + rest, max_len) == Some((v, var_uint_bytes(v).len())),
    decreases v,
{
    let s = var_uint_bytes(v) + rest;
    if v < 128 {
        assert(s[0] == v as u8);
    } else {
        let tail = var_uint_bytes(v / 128);
        lemma_var_uint_roundtrip(v / 128, rest, (max_len - 1) as nat);
        assert(s.drop_first() =~= tail + rest);
        assert(s[0] == (v % 128 + 128) as u8);
    }
}

/// A 32-bit value written as a VarUInt reads back as itself from a 32-bit VarUInt read.
pub proof fn lemma_var_u32_roundtrip(v: u32, rest: Seq<u8>)
    ensures
        var_uint_bytes(v as nat).len() <= 5,
        var_u32_prefix(var_uint_bytes(v as nat) + rest) == Some((v, var_uint_bytes(v as nat).len())),
{
    lemma_pow_values();
    lemma_var_uint_len(v as nat, 5);
    lemma_var_uint_roundtrip(v as nat, rest, 5);
}

/// Little-endian bytes of a value that fits in them read back as the value.
pub proof fn lemma_le_roundtrip(v: nat, n: nat)
    requires
        v < pow256(n),
    ensures
        le_bytes(v, n).len() == n,
        le_value(le_bytes(v, n)) == v,
    decreases n,
{
    if n > 0 {
        lemma_le_roundtrip(v / 256, (n - 1) as nat);
        assert(le_bytes(v, n).drop_first() =~= le_bytes(v / 256, (n - 1) as nat));
    }
}

/// Big-endian bytes of a value that fits in them read back as the value.
pub proof fn lemma_be_roundtrip(v: nat, n: nat)
    requires
        v < pow256(n),
    ensures
        be_bytes(v, n).len() == n,
        be_value(be_bytes(v, n)) == v,
    decreases n,
{
    if n > 0 {
        lemma_be_roundtrip(v / 256, (n - 1) as nat);
        assert(be_bytes(v, n).drop_last() =~= be_bytes(v / 256, (n - 1) as nat));
    }
}

/// The number that `n` little-endian bytes stand for is below 256^n.
pub proof fn lemma_le_value_bound(s: Seq<u8>)
    ensures
        le_value(s) < pow256(s.len()),
    decreases s.len(),
{
    if s.len() > 0 {
        lemma_le_value_bound(s.drop_first());
    }
}

/// The number that `n` big-endian bytes stand for is below 256^n.
pub proof fn lemma_be_value_bound(s: Seq<u8>)
    ensures
        be_value(s) < pow256(s.len()),
    decreases s.len(),
{
    if s.len() > 0 {
        lemma_be_value_bound(s.drop_last());
    }
}

/// The ZigZag image is the plain integer `2v` or `-2v - 1`: no value is truncated.
pub proof fn lemma_zigzag32_value(v: i32)
    ensures
        zigzag32(v) as int == if v >= 0 {
            2 * v
        } else {
            -2 * v - 1
        },
{
}

/// ZigZag sends distinct signed values to distinct unsigned ones, so a signed
/// VarInt determines the value that was written.
pub proof fn lemma_zigzag32_injective(a: i32, b: i32)
    requires
        zigzag32(a) == zigzag32(b),
    ensures
        a == b,
{
    lemma_zigzag32_value(a);
    lemma_zigzag32_value(b);
}

/// Every unsigned 32-bit value is the ZigZag image of a signed one.
pub proof fn lemma_zigzag32_onto(z: u32)
    ensures
        exists|v: i32| zigzag32(v) == z,
{
    if z % 2 == 0 {
        let v = (z / 2) as i32;
        assert(zigzag32(v) == z);
    } else {
        let v = (-((z as int + 1) / 2)) as i32;
        assert(zigzag32(v) == z);
    }
}

/// The 64-bit ZigZag image is the plain integer `2v` or `-2v - 1`.
pub proof fn lemma_zigzag64_value(v: i64)
    ensures
        zigzag64(v) as int == if v >= 0 {
            2 * v
        } else {
            -2 * v - 1
        },
{
}

/// A string written with its length reads back as the same characters, taking
/// exactly the bytes that were written, whatever follows it.
pub proof fn lemma_var_string_roundtrip(s: Seq<char>, rest: Seq<u8>)
    requires
        encode_utf8(s).len() <= u32::MAX,
    ensures
        var_string_prefix(var_string_bytes(s) + rest) == Some((s, var_string_bytes(s).len())),
{
    let bytes = encode_utf8(s);
    let len = bytes.len();
    let input = var_string_bytes(s) + rest;
    lemma_var_u32_roundtrip(len as u32, bytes + rest);
    assert(var_uint_bytes((len as u32) as nat) + (bytes + rest) =~= input);
    let k = var_uint_bytes(len).len();
    assert(input.subrange(k as int, (k + len) as int) =~= bytes);
    encode_utf8_valid_utf8(s);
    encode_utf8_decode_utf8(s);
}

/// Byte `i` of the `n` little-endian bytes of `v`.
proof fn lemma_le_digit(v: nat, n: nat, i: nat)
    requires
        i < n,
    ensures
        le_bytes(v, n)[i as int] as nat == (v / pow256(i)) % 256,
    decreases n,
{
    let tail = le_bytes(v / 256, (n - 1) as nat);
    lemma_le_len(v / 256, (n - 1) as nat);
    assert(le_bytes(v, n) == seq![(v % 256) as u8] + tail);
    if i == 0 {
        assert(pow256(0) == 1);
        assert(le_bytes(v, n)[0] == (v % 256) as u8);
    } else {
        lemma_le_digit(v / 256, (n - 1) as nat, (i - 1) as nat);
        assert(le_bytes(v, n)[i as int] == tail[i - 1]);
        lemma_div_div_256(v, (i - 1) as nat);
        assert((((i - 1) as nat) + 1) as nat == i);
    }
}

/// Byte `i` of the `n` big-endian bytes of `v`.
proof fn lemma_be_digit(v: nat, n: nat, i: nat)
    requires
        i < n,
    ensures
        be_bytes(v, n)[i as int] as nat == (v / pow256((n - 1 - i) as nat)) % 256,
    decreases n,
{
    let front = be_bytes(v / 256, (n - 1) as nat);
    lemma_be_roundtrip_len(v / 256, (n - 1) as nat);
    assert(be_bytes(v, n) == front + seq![(v % 256) as u8]);
    if i == n - 1 {
        assert(pow256(0) == 1);
        assert((n - 1 - i) as nat == 0);
        assert(v / pow256(0) == v);
        assert(be_bytes(v, n)[i as int] == (v % 256) as u8);
    } else {
        lemma_be_digit(v / 256, (n - 1) as nat, i);
        assert(be_bytes(v, n)[i as int] == front[i as int]);
        assert(front[i as int] as nat == ((v / 256) / pow256((n - 2 - i) as nat)) % 256);
        lemma_div_div_256(v, (n - 2 - i) as nat);
        assert((((n - 2 - i) as nat) + 1) as nat == (n - 1 - i) as nat);
        assert((v / 256) / pow256((n - 2 - i) as nat) == v / pow256((n - 1 - i) as nat));
    }
}

/// The `n` big-endian bytes of any number are `n` bytes.
proof fn lemma_be_roundtrip_len(v: nat, n: nat)
    ensures
        be_bytes(v, n).len() == n,
    decreases n,
{
    if n > 0 {
        lemma_be_roundtrip_len(v / 256, (n - 1) as nat);
    }
}

/// The `n` little-endian bytes of any number are `n` bytes.
proof fn lemma_le_len(v: nat, n: nat)
    ensures
        le_bytes(v, n).len() == n,
    decreases n,
{
    if n > 0 {
        lemma_le_len(v / 256, (n - 1) as nat);
    }
}

/// Byte `i` of the little-endian bytes of `v` is the `i`-th base-256 digit of `v`.
pub proof fn lemma_le_bytes_digits(v: nat, n: nat)
    ensures
        le_bytes(v, n).len() == n,
        forall|i: int| 0 <= i < n ==> #[trigger] le_bytes(v, n)[i] as nat == (v / pow256(i as nat))
            % 256,
{
    lemma_le_len(v, n);
    assert forall|i: int| 0 <= i < n implies #[trigger] le_bytes(v, n)[i] as nat == (v / pow256(
        i as nat,
    )) % 256 by {
        lemma_le_digit(v, n, i as nat);
    }
}

/// Byte `i` of the big-endian bytes of `v` is its `(n - 1 - i)`-th base-256 digit.
pub proof fn lemma_be_bytes_digits(v: nat, n: nat)
    ensures
        be_bytes(v, n).len() == n,
        forall|i: int|
            0 <= i < n ==> #[trigger] be_bytes(v, n)[i] as nat == (v / pow256((n - 1 - i) as nat))
                % 256,
{
    lemma_be_roundtrip_len(v, n);
    assert forall|i: int| 0 <= i < n implies #[trigger] be_bytes(v, n)[i] as nat == (v / pow256(
        (n - 1 - i) as nat,
    )) % 256 by {
        lemma_be_digit(v, n, i as nat);
    }
}

/// Dividing by 256 and then by 256^k is dividing by 256^(k+1).
proof fn lemma_div_div_256(v: nat, k: nat)
    ensures
        (v / 256) / pow256(k) == v / pow256(k + 1),
{
    lemma_pow_monotone(0, k);
    assert(pow256(k + 1) == 256 * pow256(k));
    vstd::arithmetic::div_mod::lemma_div_denominator(v as int, 256, pow256(k) as int);
}

} // verus!
