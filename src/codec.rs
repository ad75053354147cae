//! Variable-length integers and the packet framing of the TCP status protocol.
use vstd::prelude::*;
use vstd::string::StringSliceAdditionalSpecFns;

verus! {

/// Why a variable-length integer could not be read.
#[derive(Debug, Clone, Copy, PartialEq, Eq, Structural)]
pub enum VarIntError {
    /// The bytes ended before a byte without the continuation bit.
    Truncated,
    /// Five bytes all carried the continuation bit and a sixth byte followed.
    TooLong,
}

/// Largest number of bytes a 32-bit variable-length integer may occupy.
pub const VAR_INT_MAX_BYTES: usize = 5;

/// The unsigned 32-bit pattern of a signed 32-bit integer (two's complement).
pub open spec fn u32_bits(v: i32) -> u32 {
    if v >= 0 {
        v as u32
    } else {
        (v + 0x1_0000_0000) as u32
    }
}

/// The signed 32-bit integer whose bit pattern is `x` (`0 <= x < 2^32`).
pub open spec fn i32_of_bits(x: int) -> i32 {
    if x < 0x8000_0000 {
        x as i32
    } else {
        (x - 0x1_0000_0000) as i32
    }
}

/// Encoding of `v`: seven bits per byte, least significant group first,
/// the high bit set on every byte but the last.
pub open spec fn var_int_bytes(v: u32) -> Seq<u8>
    decreases v,
{
    if v < 128 {
        seq![v as u8]
    } else {
        seq![(v % 128 + 128) as u8] + var_int_bytes(v / 128)
    }
}

/// `128^k`.
pub open spec fn pow128(k: nat) -> int
    decreases k,
{
    if k == 0 {
        1
    } else {
        128 * pow128((k - 1) as nat)
    }
}

/// The number made of the low seven bits of each byte, least significant first.
pub open spec fn le7(s: Seq<u8>) -> int
    decreases s.len(),
{
    if s.len() == 0 {
        0
    } else {
        (s[0] % 128) as int + 128 * le7(s.drop_first())
    }
}

/// How many bytes the variable-length integer at the start of `s` occupies,
/// having seen `k` bytes that carry the continuation bit.
pub open spec fn var_int_length(s: Seq<u8>, k: nat) -> Result<nat, VarIntError>
    decreases 5 - k,
{
    if k >= 5 {
        if s.len() > 5 {
            Err(VarIntError::TooLong)
        } else {
            Err(VarIntError::Truncated)
        }
    } else if k >= s.len() {
        Err(VarIntError::Truncated)
    } else if s[k as int] < 128 {
        Ok(k + 1)
    } else {
        var_int_length(s, k + 1)
    }
}

/// The value at the start of `s` and the number of bytes it occupies.
pub open spec fn decode_var_int(s: Seq<u8>) -> Result<(i32, nat), VarIntError> {
    match var_int_length(s, 0) {
        Ok(n) => Ok((i32_of_bits(le7(s.take(n as int)) % 0x1_0000_0000), n)),
        Err(e) => Err(e),
    }
}

proof fn lemma_le7_push(t: Seq<u8>, b: u8)
    ensures
        le7(t.push(b)) == le7(t) + (b % 128) * pow128(t.len()),
    decreases t.len(),
{
    if t.len() == 0 {
        assert(t.push(b).drop_first() =~= Seq::<u8>::empty());
        assert(le7(Seq::<u8>::empty()) == 0);
    } else {
        assert(t.push(b).drop_first() =~= t.drop_first().push(b));
        lemma_le7_push(t.drop_first(), b);
        let p = pow128((t.len() - 1) as nat);
        let x = (b % 128) as int;
        assert(128 * (le7(t.drop_first()) + x * p) == 128 * le7(t.drop_first()) + x * (128 * p))
            by (nonlinear_arith);
    }
}

proof fn lemma_le7_bounds(s: Seq<u8>)
    ensures
        0 <= le7(s) < pow128(s.len()),
    decreases s.len(),
{
    if s.len() > 0 {
        lemma_le7_bounds(s.drop_first());
        let r = le7(s.drop_first());
        let p = pow128((s.len() - 1) as nat);
        assert(0 <= (s[0] % 128) as int + 128 * r < 128 * p) by (nonlinear_arith)
            requires
                0 <= r < p,
                0 <= (s[0] % 128) < 128,
        ;
    }
}

proof fn lemma_pow128_small(k: nat)
    requires
        k <= 5,
    ensures
        1 <= pow128(k) <= 0x8_0000_0000,
        k < 5 ==> pow128(k) <= 0x1000_0000,
{
    reveal_with_fuel(pow128, 6);
}

proof fn lemma_scan_skip(s: Seq<u8>, i: nat)
    requires
        i <= 5,
        i <= s.len(),
        forall|j: int| 0 <= j < i ==> s[j] >= 128,
    ensures
        var_int_length(s, 0) == var_int_length(s, i),
    decreases i,
{
    if i > 0 {
        lemma_scan_skip(s, (i - 1) as nat);
    }
}

proof fn lemma_var_int_bytes_shape(v: u32)
    ensures
        1 <= var_int_bytes(v).len() <= 5,
        forall|j: int| 0 <= j < var_int_bytes(v).len() - 1 ==> var_int_bytes(v)[j] >= 128,
        var_int_bytes(v)[var_int_bytes(v).len() - 1] < 128,
        le7(var_int_bytes(v)) == v,
        v < 128 ==> var_int_bytes(v).len() == 1,
        v >= 0x1000_0000 ==> var_int_bytes(v).len() == 5,
        v >= 0x20_0000 ==> var_int_bytes(v).len() >= 4,
        v >= 0x4000 ==> var_int_bytes(v).len() >= 3,
        v >= 128 ==> var_int_bytes(v).len() >= 2,
        v < 0x1000_0000 ==> var_int_bytes(v).len() <= 4,
        v < 0x20_0000 ==> var_int_bytes(v).len() <= 3,
        v < 0x4000 ==> var_int_bytes(v).len() <= 2,
    decreases v,
{
    if v >= 128 {
        let rest = var_int_bytes(v / 128);
        lemma_var_int_bytes_shape(v / 128);
        let s = var_int_bytes(v);
        assert(s =~= seq![(v % 128 + 128) as u8] + rest);
        assert(s.drop_first() =~= rest);
        assert(forall|j: int| 1 <= j < s.len() ==> s[j] == rest[j - 1]);
    } else {
        let s = var_int_bytes(v);
        assert(s.drop_first() =~= Seq::<u8>::empty());
        assert(le7(Seq::<u8>::empty()) == 0);
    }
}

/// Appends the encoding of `value`.
fn write_var_u32(buffer: &mut Vec<u8>, value: u32)
    ensures
        final(buffer)@ == old(buffer)@ + var_int_bytes(value),
{
    let mut rest: u32 = value;
    loop
        invariant_except_break
            buffer@ + var_int_bytes(rest) == old(buffer)@ + var_int_bytes(value),
        ensures
            buffer@ == old(buffer)@ + var_int_bytes(value),
        decreases rest,
    {
        if rest < 128 {
            assert(var_int_bytes(rest) =~= seq![rest as u8]);
            buffer.push(rest as u8);
            break;
        }
        let ghost before = buffer@;
        let ghost r0 = rest;
        let byte: u8 = (rest % 128 + 128) as u8;
        assert(var_int_bytes(r0) =~= seq![byte] + var_int_bytes(r0 / 128));
        buffer.push(byte);
        rest = rest / 128;
        assert(buffer@ + var_int_bytes(rest) =~= before + var_int_bytes(r0));
    }
}

/// Appends the encoding of `value`, taken as its unsigned 32-bit pattern.
pub fn write_var_int(buffer: &mut Vec<u8>, value: i32)
    ensures
        final(buffer)@ == old(buffer)@ + var_int_bytes(u32_bits(value)),
{
    let bits: u32 = if value >= 0 {
        value as u32
    } else {
        (value as i64 + 0x1_0000_0000i64) as u32
    };
    write_var_u32(buffer, bits);
}

/// Appends the byte length of `s` (modulo 2^32) as a variable-length integer,
/// then the bytes of `s`.
pub fn write_string(buffer: &mut Vec<u8>, s: &str)
    ensures
        final(buffer)@ == old(buffer)@ + var_int_bytes((s.spec_bytes().len() % 0x1_0000_0000) as u32)
            + s.spec_bytes(),
{
    let bytes = s.as_bytes();
    let len: u32 = (bytes.len() as u64 % 0x1_0000_0000u64) as u32;
    write_var_u32(buffer, len);
    let ghost mid = buffer@;
    buffer.extend_from_slice(bytes);
    assert(buffer@ =~= mid + s.spec_bytes());
}

/// Reads the variable-length integer that starts at `*pos` in `data`. On success
/// `*pos` moves past it; on failure it stays.
pub fn read_var_int(data: &[u8], pos: &mut usize) -> (r: Result<i32, VarIntError>)
    requires
        *old(pos) <= data@.len(),
    ensures
        match decode_var_int(data@.subrange(*old(pos) as int, data@.len() as int)) {
            Ok((v, n)) => r == Ok::<i32, VarIntError>(v) && *final(pos) == *old(pos) + n,
            Err(e) => r == Err::<i32, VarIntError>(e) && *final(pos) == *old(pos),
        },
        *old(pos) <= *final(pos) <= data@.len(),
        *final(pos) <= *old(pos) + 5,
{
    let start = *pos;
    let ghost s = data@.subrange(start as int, data@.len() as int);
    let mut i: usize = 0;
    let mut acc: u64 = 0;
    let mut mult: u64 = 1;
    proof {
        assert(s.take(0) =~= Seq::<u8>::empty());
        assert(le7(Seq::<u8>::empty()) == 0);
    }
    loop
        invariant
            i <= 5,
            start <= data@.len(),
            s == data@.subrange(start as int, data@.len() as int),
            *pos == start,
            start == *old(pos),
            i <= s.len(),
            forall|j: int| 0 <= j < i ==> s[j] >= 128,
            acc == le7(s.take(i as int)),
            mult == pow128(i as nat),
        decreases 5 - i,
    {
        proof {
            lemma_scan_skip(s, i as nat);
            lemma_le7_bounds(s.take(i as int));
            lemma_pow128_small(i as nat);
        }
        if i == 5 {
            if start < data.len() - 5 {
                return Err(VarIntError::TooLong);
            } else {
                return Err(VarIntError::Truncated);
            }
        }
        if i >= data.len() - start {
            return Err(VarIntError::Truncated);
        }
        let b = data[start + i];
        assert(b == s[i as int]);
        proof {
            lemma_le7_push(s.take(i as int), b);
            assert(s.take(i as int).push(b) =~= s.take(i + 1));
            assert(acc + (b % 128) as int * mult <= 0x8_0000_0000 * 128) by (nonlinear_arith)
                requires
                    acc < mult,
                    mult <= 0x8_0000_0000,
                    b < 256,
            ;
        }
        acc = acc + (b % 128) as u64 * mult;
        if b < 128 {
            *pos = start + i + 1;
            proof {
                lemma_le7_bounds(s.take(i + 1));
                lemma_pow128_small((i + 1) as nat);
            }
            let low: u64 = acc % 0x1_0000_0000;
            if low < 0x8000_0000 {
                return Ok(low as i32);
            } else {
                return Ok((low as i64 - 0x1_0000_0000i64) as i32);
            }
        }
        mult = mult * 128;
        i = i + 1;
    }
}

/// Decoding the encoding of any 32-bit integer gives that integer back and
/// consumes exactly the encoded bytes, whatever follows them.
pub proof fn lemma_var_int_round_trip(v: i32, rest: Seq<u8>)
    ensures
        decode_var_int(var_int_bytes(u32_bits(v)) + rest) == Ok::<(i32, nat), VarIntError>(
            (v, var_int_bytes(u32_bits(v)).len()),
        ),
{
    let e = var_int_bytes(u32_bits(v));
    let s = e + rest;
    lemma_var_int_bytes_shape(u32_bits(v));
    let n = e.len();
    assert forall|j: int| 0 <= j < n - 1 implies s[j] >= 128 by {
        assert(s[j] == e[j]);
    }
    lemma_scan_skip(s, (n - 1) as nat);
    assert(s[n - 1] == e[n - 1]);
    assert(var_int_length(s, (n - 1) as nat) == Ok::<nat, VarIntError>(n));
    assert(s.take(n as int) =~= e);
}

/// Every 32-bit integer encodes to between one and five bytes.
pub proof fn lemma_var_int_at_most_five_bytes(v: u32)
    ensures
        1 <= var_int_bytes(v).len() <= VAR_INT_MAX_BYTES,
{
    lemma_var_int_bytes_shape(v);
}

/// Five bytes that all carry the continuation bit, followed by any sixth byte,
/// are rejected as too long.
pub proof fn lemma_sixth_byte_rejected(s: Seq<u8>)
    requires
        s.len() >= 6,
        forall|j: int| 0 <= j < 5 ==> s[j] >= 128,
    ensures
        decode_var_int(s) == Err::<(i32, nat), VarIntError>(VarIntError::TooLong),
{
    lemma_scan_skip(s, 5);
}

} // verus!
