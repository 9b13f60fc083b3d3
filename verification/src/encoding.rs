//! Big-endian integers and hexadecimal text.
use vstd::prelude::*;

verus! {

/// 2^127.
pub const HALF_RANGE: u128 = 0x8000_0000_0000_0000_0000_0000_0000_0000;

/// 256^n.
pub open spec fn pow256(n: nat) -> nat
    decreases n,
{
    if n == 0 {
        1
    } else {
        256 * pow256((n - 1) as nat)
    }
}

/// The number that `bytes` spell, most significant byte first.
pub open spec fn be_value(bytes: Seq<u8>) -> nat
    decreases bytes.len(),
{
    if bytes.len() == 0 {
        0
    } else {
        256 * be_value(bytes.drop_last()) + bytes.last() as nat
    }
}

/// The last `width` bytes of a number, most significant byte first.
pub open spec fn be_bytes(value: nat, width: nat) -> Seq<u8>
    decreases width,
{
    if width == 0 {
        Seq::empty()
    } else {
        be_bytes(value / 256, (width - 1) as nat).push((value % 256) as u8)
    }
}

/// The unsigned number with the same 128 bits as a signed one.
pub open spec fn to_unsigned(value: int) -> nat {
    if value >= 0 {
        value as nat
    } else {
        (value + 2 * HALF_RANGE) as nat
    }
}

/// The signed number with the same 128 bits as an unsigned one.
pub open spec fn to_signed(value: nat) -> int {
    if value < HALF_RANGE {
        value as int
    } else {
        value - 2 * HALF_RANGE
    }
}

/// `width` bytes are written.
pub proof fn lemma_be_bytes_len(value: nat, width: nat)
    ensures
        be_bytes(value, width).len() == width,
    decreases width,
{
    if width > 0 {
        lemma_be_bytes_len(value / 256, (width - 1) as nat);
    }
}

/// A number of n bytes is below 256^n.
pub proof fn lemma_be_value_bound(bytes: Seq<u8>)
    ensures
        be_value(bytes) < pow256(bytes.len()),
    decreases bytes.len(),
{
    if bytes.len() > 0 {
        lemma_be_value_bound(bytes.drop_last());
    }
}

/// Reading back what was written gives the number, where it fits.
pub proof fn lemma_be_round_trip(value: nat, width: nat)
    requires
        value < pow256(width),
    ensures
        be_value(be_bytes(value, width)) == value,
    decreases width,
{
    if width > 0 {
        lemma_be_round_trip(value / 256, (width - 1) as nat);
        let bytes = be_bytes(value, width);
        assert(bytes.drop_last() =~= be_bytes(value / 256, (width - 1) as nat));
    }
}

/// Writing what was read gives the bytes.
pub proof fn lemma_be_read_write(bytes: Seq<u8>)
    ensures
        be_bytes(be_value(bytes), bytes.len()) == bytes,
    decreases bytes.len(),
{
    if bytes.len() > 0 {
        let rest = bytes.drop_last();
        let value = be_value(bytes);
        lemma_be_read_write(rest);
        assert(value / 256 == be_value(rest));
        assert(value % 256 == bytes.last());
        assert(rest.push(bytes.last()) =~= bytes);
    }
}

/// Powers of 256, written out.
pub proof fn lemma_pow256_values()
    ensures
        pow256(2) == 0x1_0000,
        pow256(8) == 0x1_0000_0000_0000_0000,
        pow256(16) == 2 * HALF_RANGE,
{
    reveal_with_fuel(pow256, 17);
}

/// The signed reading of a number's bits undoes the unsigned one.
pub proof fn lemma_signed_round_trip(value: int)
    requires
        i128::MIN <= value <= i128::MAX,
    ensures
        to_signed(to_unsigned(value)) == value,
        to_unsigned(value) < pow256(16),
{
    lemma_pow256_values();
}

/// Appends the `width` bytes of `value`, most significant first.
fn push_be(out: &mut Vec<u8>, value: u128, width: usize)
    ensures
        final(out)@ == old(out)@ + be_bytes(value as nat, width as nat),
    decreases width,
{
    if width > 0 {
        push_be(out, value / 256, width - 1);
        let byte: u8 = (value % 256) as u8;
        out.push(byte);
    }
    assert(out@ =~= old(out)@ + be_bytes(value as nat, width as nat));
}

/// Appends the eight bytes of `value`, most significant first.
pub fn push_u64(out: &mut Vec<u8>, value: u64)
    ensures
        final(out)@ == old(out)@ + be_bytes(value as nat, 8),
{
    push_be(out, value as u128, 8);
}

/// Appends the sixteen bytes of `value` in two's complement, most significant
/// first.
pub fn push_i128(out: &mut Vec<u8>, value: i128)
    ensures
        final(out)@ == old(out)@ + be_bytes(to_unsigned(value as int), 16),
{
    let bits: u128 = if value >= 0 {
        value as u128
    } else {
        HALF_RANGE + (value + i128::MAX + 1) as u128
    };
    push_be(out, bits, 16);
}

/// The number that `width` bytes of `bytes` spell, from position `from` on.
pub fn read_be(bytes: &Vec<u8>, from: usize, width: usize) -> (r: u128)
    requires
        width <= 16,
        from + width <= bytes@.len(),
    ensures
        r == be_value(bytes@.subrange(from as int, from + width)),
{
    let len: usize = bytes.len();
    let mut value: u128 = 0;
    let mut i: usize = 0;
    proof {
        lemma_pow256_values();
        assert(bytes@.subrange(from as int, from as int) =~= Seq::<u8>::empty());
    }
    while i < width
        invariant
            i <= width <= 16,
            from + width <= len == bytes@.len(),
            pow256(16) == 2 * HALF_RANGE,
            value == be_value(bytes@.subrange(from as int, from + i)),
        decreases width - i,
    {
        proof {
            let read = bytes@.subrange(from as int, from + i);
            let next = bytes@.subrange(from as int, from + i + 1);
            assert(next.drop_last() =~= read);
            lemma_be_value_bound(next);
            lemma_pow256_grows(next.len(), 16);
        }
        value = value * 256 + bytes[from + i] as u128;
        i += 1;
    }
    value
}

proof fn lemma_pow256_grows(m: nat, n: nat)
    requires
        m <= n,
    ensures
        pow256(m) <= pow256(n),
    decreases n,
{
    if m < n {
        lemma_pow256_grows(m, (n - 1) as nat);
    }
}

/// The signed number that sixteen bytes of `bytes` spell in two's complement,
/// from position `from` on.
pub fn read_i128(bytes: &Vec<u8>, from: usize) -> (r: i128)
    requires
        from + 16 <= bytes@.len(),
    ensures
        r == to_signed(be_value(bytes@.subrange(from as int, from + 16))),
{
    let bits: u128 = read_be(bytes, from, 16);
    if bits < HALF_RANGE {
        bits as i128
    } else {
        (bits - HALF_RANGE) as i128 + i128::MIN
    }
}

/// The lowercase hexadecimal digit of a value below sixteen.
pub open spec fn hex_digit(value: int) -> u8 {
    if value < 10 {
        ('0' as int + value) as u8
    } else {
        ('a' as int + value - 10) as u8
    }
}

/// The two lowercase hexadecimal digits of a byte.
pub open spec fn hex_pair(byte: u8) -> Seq<u8> {
    seq![hex_digit(byte as int / 16), hex_digit(byte as int % 16)]
}

/// The lowercase hexadecimal digits of `bytes`.
pub open spec fn hex_digits(bytes: Seq<u8>) -> Seq<u8>
    decreases bytes.len(),
{
    if bytes.len() == 0 {
        Seq::empty()
    } else {
        hex_digits(bytes.drop_last()) + hex_pair(bytes.last())
    }
}

/// `0x` and the lowercase hexadecimal digits of `bytes`.
pub open spec fn hex_text(bytes: Seq<u8>) -> Seq<u8> {
    seq!['0' as u8, 'x' as u8] + hex_digits(bytes)
}

fn hex_digit_of(value: u8) -> (r: u8)
    requires
        value < 16,
    ensures
        r == hex_digit(value as int),
{
    if value < 10 {
        48 + value
    } else {
        97 + (value - 10)
    }
}

/// Writes bytes `from` to `to` of `bytes` as `0x` and lowercase hexadecimal
/// digits.
pub fn bytes_to_hex_string(bytes: &Vec<u8>, from: usize, to: usize) -> (r: Vec<u8>)
    requires
        from <= to <= bytes@.len(),
    ensures
        r@ == hex_text(bytes@.subrange(from as int, to as int)),
{
    let mut out: Vec<u8> = Vec::new();
    out.push(48);
    out.push(120);
    let mut i: usize = from;
    proof {
        assert(bytes@.subrange(from as int, from as int) =~= Seq::<u8>::empty());
        assert(out@ =~= hex_text(bytes@.subrange(from as int, from as int)));
    }
    while i < to
        invariant
            from <= i <= to <= bytes@.len(),
            out@ == hex_text(bytes@.subrange(from as int, i as int)),
        decreases to - i,
    {
        let byte: u8 = bytes[i];
        let ghost written = out@;
        out.push(hex_digit_of(byte / 16));
        out.push(hex_digit_of(byte % 16));
        proof {
            let read = bytes@.subrange(from as int, i as int);
            let next = bytes@.subrange(from as int, i + 1);
            assert(next.drop_last() =~= read);
            assert(out@ =~= written + hex_pair(byte));
            assert(out@ =~= hex_text(next));
        }
        i += 1;
    }
    out
}

/// Two hexadecimal texts are equal only if they write the same bytes.
pub proof fn lemma_hex_injective(a: Seq<u8>, b: Seq<u8>)
    requires
        hex_text(a) == hex_text(b),
    ensures
        a == b,
{
    assert(hex_digits(a) =~= hex_text(a).skip(2));
    assert(hex_digits(b) =~= hex_text(b).skip(2));
    lemma_hex_digits_injective(a, b);
}

proof fn lemma_hex_digits_len(a: Seq<u8>)
    ensures
        hex_digits(a).len() == 2 * a.len(),
    decreases a.len(),
{
    if a.len() > 0 {
        lemma_hex_digits_len(a.drop_last());
    }
}

proof fn lemma_hex_digits_injective(a: Seq<u8>, b: Seq<u8>)
    requires
        hex_digits(a) == hex_digits(b),
    ensures
        a == b,
    decreases a.len(),
{
    lemma_hex_digits_len(a);
    lemma_hex_digits_len(b);
    if a.len() > 0 {
        let n = hex_digits(a).len();
        let (x, y) = (hex_digits(a.drop_last()), hex_digits(b.drop_last()));
        lemma_hex_digits_len(a.drop_last());
        lemma_hex_digits_len(b.drop_last());
        assert(x =~= hex_digits(a).take(n - 2));
        assert(y =~= hex_digits(b).take(n - 2));
        lemma_hex_digits_injective(a.drop_last(), b.drop_last());
        assert(hex_digits(a)[n - 2] == hex_pair(a.last())[0]);
        assert(hex_digits(a)[n - 1] == hex_pair(a.last())[1]);
        assert(hex_digits(b)[n - 2] == hex_pair(b.last())[0]);
        assert(hex_digits(b)[n - 1] == hex_pair(b.last())[1]);
        assert(a.last() == b.last());
        assert(a =~= a.drop_last().push(a.last()));
        assert(b =~= b.drop_last().push(b.last()));
    } else {
        assert(a =~= b);
    }
}

// ── What the bytes stand for ────────────────────────────────────────────────

/// The first byte of a number is its most significant one: it counts as often
/// as the bytes after it can spell numbers.
pub proof fn lemma_be_leading(bytes: Seq<u8>)
    requires
        bytes.len() > 0,
    ensures
        be_value(bytes) == bytes[0] * pow256((bytes.len() - 1) as nat) + be_value(bytes.skip(1)),
    decreases bytes.len(),
{
    let rest = bytes.drop_last();
    if rest.len() == 0 {
        assert(be_value(rest) == 0);
        assert(bytes.skip(1) =~= Seq::empty());
        assert(pow256(0) == 1);
        assert(bytes.last() == bytes[0]);
        assert(bytes[0] * pow256(0) == bytes[0]) by (nonlinear_arith)
            requires
                pow256(0) == 1,
        ;
        assert(be_value(bytes) == bytes[0]);
    } else {
        lemma_be_leading(rest);
        let tail = bytes.skip(1);
        assert(tail.drop_last() =~= rest.skip(1));
        assert(tail.last() == bytes.last());
        assert(rest[0] == bytes[0]);
        let power = pow256((rest.len() - 1) as nat);
        assert(pow256((bytes.len() - 1) as nat) == 256 * power);
        let lead = bytes[0] as int;
        assert(256 * (lead * power) == lead * (256 * power)) by (nonlinear_arith);
        assert(be_value(rest) == lead * power + be_value(rest.skip(1)));
        assert(be_value(bytes) == 256 * be_value(rest) + bytes.last());
        assert(be_value(tail) == 256 * be_value(rest.skip(1)) + bytes.last());
    }
}

/// A single byte spells its own value.
pub proof fn lemma_be_single(byte: u8)
    ensures
        be_value(seq![byte]) == byte,
        be_bytes(byte as nat, 1) == seq![byte],
{
    reveal_with_fuel(be_value, 2);
    reveal_with_fuel(be_bytes, 2);
    assert(seq![byte].drop_last() =~= Seq::empty());
    assert(be_bytes(byte as nat, 1) =~= seq![byte]);
}

/// The signed and the unsigned reading of the same 128 bits agree below 2^127,
/// and differ by 2^128 from there on.
pub proof fn lemma_two_readings(unsigned: nat, signed: int)
    requires
        unsigned < 0x1_0000_0000_0000_0000_0000_0000_0000_0000,
        i128::MIN <= signed <= i128::MAX,
    ensures
        i128::MIN <= to_signed(unsigned) <= i128::MAX,
        to_signed(unsigned) == unsigned || to_signed(unsigned) == unsigned
            - 0x1_0000_0000_0000_0000_0000_0000_0000_0000,
        to_unsigned(signed) == signed || to_unsigned(signed) == signed
            + 0x1_0000_0000_0000_0000_0000_0000_0000_0000,
        0 <= to_unsigned(signed) < 0x1_0000_0000_0000_0000_0000_0000_0000_0000,
{
}

/// The letters of hexadecimal text, by value: `0` to `9`, then `a` to `f`.
pub open spec fn hex_letters() -> Seq<u8> {
    seq![48u8, 49, 50, 51, 52, 53, 54, 55, 56, 57, 97, 98, 99, 100, 101, 102]
}

/// Hexadecimal text is `0x` and, for each byte in turn, the letter of its upper
/// and that of its lower half.
pub proof fn lemma_hex_letters(bytes: Seq<u8>, i: int)
    requires
        0 <= i < bytes.len(),
    ensures
        hex_text(bytes).len() == 2 + 2 * bytes.len(),
        hex_text(bytes)[0] == 48,
        hex_text(bytes)[1] == 120,
        hex_text(bytes)[2 + 2 * i] == hex_letters()[bytes[i] as int / 16],
        hex_text(bytes)[3 + 2 * i] == hex_letters()[bytes[i] as int % 16],
{
    lemma_hex_digits_at(bytes, i);
    assert(hex_text(bytes)[2 + 2 * i] == hex_digits(bytes)[2 * i]);
    assert(hex_text(bytes)[3 + 2 * i] == hex_digits(bytes)[2 * i + 1]);
}

proof fn lemma_hex_digits_at(bytes: Seq<u8>, i: int)
    requires
        0 <= i < bytes.len(),
    ensures
        hex_digits(bytes).len() == 2 * bytes.len(),
        hex_digits(bytes)[2 * i] == hex_letters()[bytes[i] as int / 16],
        hex_digits(bytes)[2 * i + 1] == hex_letters()[bytes[i] as int % 16],
    decreases bytes.len(),
{
    let rest = bytes.drop_last();
    lemma_hex_digits_len(bytes);
    lemma_hex_digits_len(rest);
    if i < rest.len() {
        lemma_hex_digits_at(rest, i);
        assert(rest[i] == bytes[i]);
        assert(hex_digits(bytes)[2 * i] == hex_digits(rest)[2 * i]);
        assert(hex_digits(bytes)[2 * i + 1] == hex_digits(rest)[2 * i + 1]);
    } else {
        assert(bytes.last() == bytes[i]);
        assert(hex_digits(bytes)[2 * i] == hex_pair(bytes[i])[0]);
        assert(hex_digits(bytes)[2 * i + 1] == hex_pair(bytes[i])[1]);
    }
}

} // verus!
