//! Integers on the wire: fixed width, little endian, two's complement.

use vstd::prelude::*;
use vstd::slice::slice_subrange;

verus! {

/// 256 to the power of `n`: how many values fit in `n` bytes.
pub open spec fn pow256(n: nat) -> int
    decreases n,
{
    if n == 0 {
        1
    } else {
        256 * pow256((n - 1) as nat)
    }
}

/// The low `n` bytes of `v`, least significant first.
pub open spec fn le_bytes(v: int, n: nat) -> Seq<u8>
    decreases n,
{
    if n == 0 {
        Seq::empty()
    } else {
        seq![(v % 256) as u8] + le_bytes(v / 256, (n - 1) as nat)
    }
}

/// The natural number whose bytes, least significant first, are `s`.
pub open spec fn le_unsigned(s: Seq<u8>) -> int
    decreases s.len(),
{
    if s.len() == 0 {
        0
    } else {
        s[0] as int + 256 * le_unsigned(s.drop_first())
    }
}

/// The integer whose two's complement bytes, least significant first, are `s`.
pub open spec fn le_signed(s: Seq<u8>) -> int {
    let n = le_unsigned(s);
    if 2 * n < pow256(s.len()) {
        n
    } else {
        n - pow256(s.len())
    }
}

/// The error type of bincode, carried through unopened.
#[verifier::external_type_specification]
#[verifier::external_body]
pub struct ExErrorKind(bincode::ErrorKind);

/// Calls `bincode::deserialize` for a `u16`. It reads the first two bytes, little
/// endian, and leaves alone whatever follows them; it fails exactly when there
/// are fewer.
#[verifier::external_body]
fn decode_u16(data: &[u8]) -> (r: Result<u16, Box<bincode::ErrorKind>>)
    ensures
        match r {
            Ok(v) => data@.len() >= 2 && v == le_unsigned(data@.take(2)),
            Err(_) => data@.len() < 2,
        },
{
    bincode::deserialize(data)
}

/// Calls `bincode::deserialize` for an `i16`. It reads the first two bytes, little
/// endian, and leaves alone whatever follows them; it fails exactly when there
/// are fewer.
#[verifier::external_body]
fn decode_i16(data: &[u8]) -> (r: Result<i16, Box<bincode::ErrorKind>>)
    ensures
        match r {
            Ok(v) => data@.len() >= 2 && v == le_signed(data@.take(2)),
            Err(_) => data@.len() < 2,
        },
{
    bincode::deserialize(data)
}

/// Calls `bincode::deserialize` for a `u32`. It reads the first four bytes, little
/// endian, and leaves alone whatever follows them; it fails exactly when there
/// are fewer.
#[verifier::external_body]
fn decode_u32(data: &[u8]) -> (r: Result<u32, Box<bincode::ErrorKind>>)
    ensures
        match r {
            Ok(v) => data@.len() >= 4 && v == le_unsigned(data@.take(4)),
            Err(_) => data@.len() < 4,
        },
{
    bincode::deserialize(data)
}

/// Calls `bincode::deserialize` for an `i32`. It reads the first four bytes, little
/// endian, and leaves alone whatever follows them; it fails exactly when there
/// are fewer.
#[verifier::external_body]
fn decode_i32(data: &[u8]) -> (r: Result<i32, Box<bincode::ErrorKind>>)
    ensures
        match r {
            Ok(v) => data@.len() >= 4 && v == le_signed(data@.take(4)),
            Err(_) => data@.len() < 4,
        },
{
    bincode::deserialize(data)
}

/// Calls `bincode::deserialize` for a `u64`. It reads the first eight bytes, little
/// endian, and leaves alone whatever follows them; it fails exactly when there
/// are fewer.
#[verifier::external_body]
fn decode_u64(data: &[u8]) -> (r: Result<u64, Box<bincode::ErrorKind>>)
    ensures
        match r {
            Ok(v) => data@.len() >= 8 && v == le_unsigned(data@.take(8)),
            Err(_) => data@.len() < 8,
        },
{
    bincode::deserialize(data)
}

/// Calls `bincode::deserialize` for an `i64`. It reads the first eight bytes, little
/// endian, and leaves alone whatever follows them; it fails exactly when there
/// are fewer.
#[verifier::external_body]
fn decode_i64(data: &[u8]) -> (r: Result<i64, Box<bincode::ErrorKind>>)
    ensures
        match r {
            Ok(v) => data@.len() >= 8 && v == le_signed(data@.take(8)),
            Err(_) => data@.len() < 8,
        },
{
    bincode::deserialize(data)
}

/// Calls `bincode::serialize` for a `u16`. It gives the two bytes of `v`, little
/// endian, and never fails.
#[verifier::external_body]
fn encode_u16(v: u16) -> (r: Result<Vec<u8>, Box<bincode::ErrorKind>>)
    ensures
        r is Ok,
        r->Ok_0@ == le_bytes(v as int, 2),
{
    bincode::serialize(&v)
}

/// Calls `bincode::serialize` for an `i16`. It gives the two bytes of `v`, little
/// endian, and never fails.
#[verifier::external_body]
fn encode_i16(v: i16) -> (r: Result<Vec<u8>, Box<bincode::ErrorKind>>)
    ensures
        r is Ok,
        r->Ok_0@ == le_bytes(v as int, 2),
{
    bincode::serialize(&v)
}

/// Calls `bincode::serialize` for a `u32`. It gives the four bytes of `v`, little
/// endian, and never fails.
#[verifier::external_body]
fn encode_u32(v: u32) -> (r: Result<Vec<u8>, Box<bincode::ErrorKind>>)
    ensures
        r is Ok,
        r->Ok_0@ == le_bytes(v as int, 4),
{
    bincode::serialize(&v)
}

/// Calls `bincode::serialize` for an `i32`. It gives the four bytes of `v`, little
/// endian, and never fails.
#[verifier::external_body]
fn encode_i32(v: i32) -> (r: Result<Vec<u8>, Box<bincode::ErrorKind>>)
    ensures
        r is Ok,
        r->Ok_0@ == le_bytes(v as int, 4),
{
    bincode::serialize(&v)
}

/// Calls `bincode::serialize` for a `u64`. It gives the eight bytes of `v`, little
/// endian, and never fails.
#[verifier::external_body]
fn encode_u64(v: u64) -> (r: Result<Vec<u8>, Box<bincode::ErrorKind>>)
    ensures
        r is Ok,
        r->Ok_0@ == le_bytes(v as int, 8),
{
    bincode::serialize(&v)
}

/// Calls `bincode::serialize` for an `i64`. It gives the eight bytes of `v`, little
/// endian, and never fails.
#[verifier::external_body]
fn encode_i64(v: i64) -> (r: Result<Vec<u8>, Box<bincode::ErrorKind>>)
    ensures
        r is Ok,
        r->Ok_0@ == le_bytes(v as int, 8),
{
    bincode::serialize(&v)
}

/// The `u16` that starts at byte `at` of `s`.
pub open spec fn u16_at(s: Seq<u8>, at: int) -> u16 {
    le_unsigned(s.subrange(at, at + 2)) as u16
}

/// The `i16` that starts at byte `at` of `s`.
pub open spec fn i16_at(s: Seq<u8>, at: int) -> i16 {
    le_signed(s.subrange(at, at + 2)) as i16
}

/// The `u32` that starts at byte `at` of `s`.
pub open spec fn u32_at(s: Seq<u8>, at: int) -> u32 {
    le_unsigned(s.subrange(at, at + 4)) as u32
}

/// The `i32` that starts at byte `at` of `s`.
pub open spec fn i32_at(s: Seq<u8>, at: int) -> i32 {
    le_signed(s.subrange(at, at + 4)) as i32
}

/// The `u64` that starts at byte `at` of `s`.
pub open spec fn u64_at(s: Seq<u8>, at: int) -> u64 {
    le_unsigned(s.subrange(at, at + 8)) as u64
}

/// The `i64` that starts at byte `at` of `s`.
pub open spec fn i64_at(s: Seq<u8>, at: int) -> i64 {
    le_signed(s.subrange(at, at + 8)) as i64
}

/// Reads the `u16` that starts at byte `at` of `data`.
pub fn read_u16(data: &[u8], at: usize) -> (v: u16)
    requires
        at + 2 <= data@.len(),
    ensures
        v == u16_at(data@, at as int),
{
    let rest = slice_subrange(data, at, data.len());
    assert(rest@.take(2) =~= data@.subrange(at as int, at + 2));
    decode_u16(rest).unwrap()
}

/// Reads the `i16` that starts at byte `at` of `data`.
pub fn read_i16(data: &[u8], at: usize) -> (v: i16)
    requires
        at + 2 <= data@.len(),
    ensures
        v == i16_at(data@, at as int),
{
    let rest = slice_subrange(data, at, data.len());
    assert(rest@.take(2) =~= data@.subrange(at as int, at + 2));
    decode_i16(rest).unwrap()
}

/// Reads the `u32` that starts at byte `at` of `data`.
pub fn read_u32(data: &[u8], at: usize) -> (v: u32)
    requires
        at + 4 <= data@.len(),
    ensures
        v == u32_at(data@, at as int),
{
    let rest = slice_subrange(data, at, data.len());
    assert(rest@.take(4) =~= data@.subrange(at as int, at + 4));
    decode_u32(rest).unwrap()
}

/// Reads the `i32` that starts at byte `at` of `data`.
pub fn read_i32(data: &[u8], at: usize) -> (v: i32)
    requires
        at + 4 <= data@.len(),
    ensures
        v == i32_at(data@, at as int),
{
    let rest = slice_subrange(data, at, data.len());
    assert(rest@.take(4) =~= data@.subrange(at as int, at + 4));
    decode_i32(rest).unwrap()
}

/// Reads the `u64` that starts at byte `at` of `data`.
pub fn read_u64(data: &[u8], at: usize) -> (v: u64)
    requires
        at + 8 <= data@.len(),
    ensures
        v == u64_at(data@, at as int),
{
    let rest = slice_subrange(data, at, data.len());
    assert(rest@.take(8) =~= data@.subrange(at as int, at + 8));
    decode_u64(rest).unwrap()
}

/// Reads the `i64` that starts at byte `at` of `data`.
pub fn read_i64(data: &[u8], at: usize) -> (v: i64)
    requires
        at + 8 <= data@.len(),
    ensures
        v == i64_at(data@, at as int),
{
    let rest = slice_subrange(data, at, data.len());
    assert(rest@.take(8) =~= data@.subrange(at as int, at + 8));
    decode_i64(rest).unwrap()
}

/// Appends the two bytes of `v` to `out`.
pub fn push_u16(out: &mut Vec<u8>, v: u16)
    ensures
        final(out)@ == old(out)@ + le_bytes(v as int, 2),
{
    let mut field = encode_u16(v).unwrap();
    out.append(&mut field);
}

/// Appends the two bytes of `v` to `out`.
pub fn push_i16(out: &mut Vec<u8>, v: i16)
    ensures
        final(out)@ == old(out)@ + le_bytes(v as int, 2),
{
    let mut field = encode_i16(v).unwrap();
    out.append(&mut field);
}

/// Appends the four bytes of `v` to `out`.
pub fn push_u32(out: &mut Vec<u8>, v: u32)
    ensures
        final(out)@ == old(out)@ + le_bytes(v as int, 4),
{
    let mut field = encode_u32(v).unwrap();
    out.append(&mut field);
}

/// Appends the four bytes of `v` to `out`.
pub fn push_i32(out: &mut Vec<u8>, v: i32)
    ensures
        final(out)@ == old(out)@ + le_bytes(v as int, 4),
{
    let mut field = encode_i32(v).unwrap();
    out.append(&mut field);
}

/// Appends the eight bytes of `v` to `out`.
pub fn push_u64(out: &mut Vec<u8>, v: u64)
    ensures
        final(out)@ == old(out)@ + le_bytes(v as int, 8),
{
    let mut field = encode_u64(v).unwrap();
    out.append(&mut field);
}

/// Appends the eight bytes of `v` to `out`.
pub fn push_i64(out: &mut Vec<u8>, v: i64)
    ensures
        final(out)@ == old(out)@ + le_bytes(v as int, 8),
{
    let mut field = encode_i64(v).unwrap();
    out.append(&mut field);
}

pub proof fn lemma_pow256_positive(n: nat)
    ensures
        pow256(n) >= 1,
    decreases n,
{
    if n > 0 {
        lemma_pow256_positive((n - 1) as nat);
    }
}

/// The sizes of the three widths in use.
pub proof fn lemma_pow256_widths()
    ensures
        pow256(2) == 0x1_0000,
        pow256(4) == 0x1_0000_0000,
        pow256(8) == 0x1_0000_0000_0000_0000,
{
    reveal_with_fuel(pow256, 9);
}

pub proof fn lemma_le_bytes_len(v: int, n: nat)
    ensures
        le_bytes(v, n).len() == n,
    decreases n,
{
    if n > 0 {
        lemma_le_bytes_len(v / 256, (n - 1) as nat);
    }
}

/// Reading `n` bytes that were written from `v` gives `v` modulo 256 to the `n`.
pub proof fn law_written_integer_reads_back_modulo(v: int, n: nat)
    ensures
        le_unsigned(le_bytes(v, n)) == v % pow256(n),
    decreases n,
{
    if n > 0 {
        let m = (n - 1) as nat;
        let p = pow256(m);
        let q = v / 256;
        lemma_pow256_positive(m);
        law_written_integer_reads_back_modulo(q, m);
        assert(le_bytes(v, n).drop_first() =~= le_bytes(q, m));
        let r = 256 * (q % p) + v % 256;
        assert(v == (q / p) * (256 * p) + r && 0 <= r < 256 * p) by (nonlinear_arith)
            requires
                p >= 1,
                q == v / 256,
                r == 256 * (q % p) + v % 256,
        ;
        vstd::arithmetic::div_mod::lemma_fundamental_div_mod_converse(v, 256 * p, q / p, r);
    }
}

/// An unsigned integer of `n` bytes reads back as it was written.
pub proof fn law_written_unsigned_reads_back(v: int, n: nat)
    requires
        0 <= v < pow256(n),
    ensures
        le_unsigned(le_bytes(v, n)) == v,
{
    law_written_integer_reads_back_modulo(v, n);
    vstd::arithmetic::div_mod::lemma_small_mod(v as nat, pow256(n) as nat);
}

/// A signed integer of `n` bytes reads back as it was written.
pub proof fn law_written_signed_reads_back(v: int, n: nat)
    requires
        -pow256(n) <= 2 * v < pow256(n),
    ensures
        le_signed(le_bytes(v, n)) == v,
{
    let p = pow256(n);
    lemma_pow256_positive(n);
    lemma_le_bytes_len(v, n);
    law_written_integer_reads_back_modulo(v, n);
    if v >= 0 {
        vstd::arithmetic::div_mod::lemma_small_mod(v as nat, p as nat);
    } else {
        vstd::arithmetic::div_mod::lemma_fundamental_div_mod_converse(v, p, -1, v + p);
    }
}

/// `n` bytes hold a number below 256 to the `n`.
pub proof fn lemma_le_unsigned_bound(s: Seq<u8>)
    ensures
        0 <= le_unsigned(s) < pow256(s.len()),
    decreases s.len(),
{
    if s.len() > 0 {
        lemma_le_unsigned_bound(s.drop_first());
    }
}

/// Writing an integer that was read gives the bytes it was read from.
pub proof fn law_read_integer_writes_back(s: Seq<u8>)
    ensures
        le_bytes(le_unsigned(s), s.len()) == s,
        le_bytes(le_signed(s), s.len()) == s,
{
    lemma_read_integer_writes_back_shifted(s, 0);
    lemma_read_integer_writes_back_shifted(s, -1);
}

proof fn lemma_read_integer_writes_back_shifted(s: Seq<u8>, k: int)
    ensures
        le_bytes(le_unsigned(s) + k * pow256(s.len()), s.len()) == s,
    decreases s.len(),
{
    if s.len() > 0 {
        let rest = s.drop_first();
        let n = le_unsigned(rest);
        let p = pow256(rest.len());
        let v = le_unsigned(s) + k * pow256(s.len());
        lemma_read_integer_writes_back_shifted(rest, k);
        assert(k * (256 * p) == 256 * (k * p)) by (nonlinear_arith);
        assert(v == 256 * (n + k * p) + s[0]);
        assert(v / 256 == n + k * p && v % 256 == s[0]);
        assert(le_bytes(v, s.len()) =~= s);
    } else {
        assert(le_bytes(le_unsigned(s) + k * pow256(s.len()), s.len()) =~= s);
    }
}

/// A `u16` reads back as it was written.
pub proof fn law_u16_reads_back(s: Seq<u8>, at: int, v: u16)
    requires
        s.subrange(at, at + 2) == le_bytes(v as int, 2),
    ensures
        u16_at(s, at) == v,
{
    lemma_pow256_widths();
    law_written_unsigned_reads_back(v as int, 2);
}

/// An `i16` reads back as it was written.
pub proof fn law_i16_reads_back(s: Seq<u8>, at: int, v: i16)
    requires
        s.subrange(at, at + 2) == le_bytes(v as int, 2),
    ensures
        i16_at(s, at) == v,
{
    lemma_pow256_widths();
    law_written_signed_reads_back(v as int, 2);
}

/// A `u32` reads back as it was written.
pub proof fn law_u32_reads_back(s: Seq<u8>, at: int, v: u32)
    requires
        s.subrange(at, at + 4) == le_bytes(v as int, 4),
    ensures
        u32_at(s, at) == v,
{
    lemma_pow256_widths();
    law_written_unsigned_reads_back(v as int, 4);
}

/// An `i32` reads back as it was written.
pub proof fn law_i32_reads_back(s: Seq<u8>, at: int, v: i32)
    requires
        s.subrange(at, at + 4) == le_bytes(v as int, 4),
    ensures
        i32_at(s, at) == v,
{
    lemma_pow256_widths();
    law_written_signed_reads_back(v as int, 4);
}

/// A `u64` reads back as it was written.
pub proof fn law_u64_reads_back(s: Seq<u8>, at: int, v: u64)
    requires
        s.subrange(at, at + 8) == le_bytes(v as int, 8),
    ensures
        u64_at(s, at) == v,
{
    lemma_pow256_widths();
    law_written_unsigned_reads_back(v as int, 8);
}

/// An `i64` reads back as it was written.
pub proof fn law_i64_reads_back(s: Seq<u8>, at: int, v: i64)
    requires
        s.subrange(at, at + 8) == le_bytes(v as int, 8),
    ensures
        i64_at(s, at) == v,
{
    lemma_pow256_widths();
    law_written_signed_reads_back(v as int, 8);
}

/// A `u16` that was read writes the bytes it was read from.
pub proof fn law_u16_writes_back(s: Seq<u8>, at: int)
    requires
        0 <= at <= s.len() - 2,
    ensures
        le_bytes(u16_at(s, at) as int, 2) == s.subrange(at, at + 2),
{
    let field = s.subrange(at, at + 2);
    lemma_pow256_widths();
    lemma_le_unsigned_bound(field);
    law_read_integer_writes_back(field);
}

/// An `i16` that was read writes the bytes it was read from.
pub proof fn law_i16_writes_back(s: Seq<u8>, at: int)
    requires
        0 <= at <= s.len() - 2,
    ensures
        le_bytes(i16_at(s, at) as int, 2) == s.subrange(at, at + 2),
{
    let field = s.subrange(at, at + 2);
    lemma_pow256_widths();
    lemma_le_unsigned_bound(field);
    law_read_integer_writes_back(field);
}

/// A `u32` that was read writes the bytes it was read from.
pub proof fn law_u32_writes_back(s: Seq<u8>, at: int)
    requires
        0 <= at <= s.len() - 4,
    ensures
        le_bytes(u32_at(s, at) as int, 4) == s.subrange(at, at + 4),
{
    let field = s.subrange(at, at + 4);
    lemma_pow256_widths();
    lemma_le_unsigned_bound(field);
    law_read_integer_writes_back(field);
}

/// An `i32` that was read writes the bytes it was read from.
pub proof fn law_i32_writes_back(s: Seq<u8>, at: int)
    requires
        0 <= at <= s.len() - 4,
    ensures
        le_bytes(i32_at(s, at) as int, 4) == s.subrange(at, at + 4),
{
    let field = s.subrange(at, at + 4);
    lemma_pow256_widths();
    lemma_le_unsigned_bound(field);
    law_read_integer_writes_back(field);
}

/// A `u64` that was read writes the bytes it was read from.
pub proof fn law_u64_writes_back(s: Seq<u8>, at: int)
    requires
        0 <= at <= s.len() - 8,
    ensures
        le_bytes(u64_at(s, at) as int, 8) == s.subrange(at, at + 8),
{
    let field = s.subrange(at, at + 8);
    lemma_pow256_widths();
    lemma_le_unsigned_bound(field);
    law_read_integer_writes_back(field);
}

/// An `i64` that was read writes the bytes it was read from.
pub proof fn law_i64_writes_back(s: Seq<u8>, at: int)
    requires
        0 <= at <= s.len() - 8,
    ensures
        le_bytes(i64_at(s, at) as int, 8) == s.subrange(at, at + 8),
{
    let field = s.subrange(at, at + 8);
    lemma_pow256_widths();
    lemma_le_unsigned_bound(field);
    law_read_integer_writes_back(field);
}

/// The bytes of an integer, written out: each is the next digit to the base of 256,
/// and a negative integer continues with digits of 255.
pub proof fn law_bytes_are_digits(v: int)
    ensures
        le_bytes(v, 2) == seq![(v % 256) as u8, (v / 256 % 256) as u8],
        le_bytes(v, 4) == seq![
            (v % 256) as u8,
            (v / 256 % 256) as u8,
            (v / 0x1_0000 % 256) as u8,
            (v / 0x100_0000 % 256) as u8,
        ],
        le_bytes(v, 8) == le_bytes(v, 4) + le_bytes(v / 0x1_0000_0000, 4),
{
    reveal_with_fuel(le_bytes, 9);
    assert(v / 256 / 256 == v / 0x1_0000);
    assert(v / 0x1_0000 / 256 == v / 0x100_0000);
    assert(v / 0x100_0000 / 256 == v / 0x1_0000_0000);
    assert(le_bytes(v, 2) =~= seq![(v % 256) as u8, (v / 256 % 256) as u8]);
    assert(le_bytes(v, 4) =~= seq![
        (v % 256) as u8,
        (v / 256 % 256) as u8,
        (v / 0x1_0000 % 256) as u8,
        (v / 0x100_0000 % 256) as u8,
    ]);
    assert(le_bytes(v, 8) =~= le_bytes(v, 4) + le_bytes(v / 0x1_0000_0000, 4));
}

} // verus!
