//! The deterministic byte layout shared by every record.
//!
//! Integers are variable-length and little-endian: a value up to 250 is a
//! single byte; a larger one is a tag byte (251, 252 or 253) followed by the
//! value in 2, 4 or 8 little-endian bytes. A float is the 8 (or 4)
//! little-endian bytes of its bit pattern. A sequence is its length as an
//! integer, followed by its elements.
use vstd::prelude::*;

verus! {

/// Largest value written as a single byte.
pub const SINGLE_BYTE_MAX: u64 = 250;

/// Tag byte in front of a 2-byte value.
pub const TAG_U16: u8 = 251;

/// Tag byte in front of a 4-byte value.
pub const TAG_U32: u8 = 252;

/// Tag byte in front of an 8-byte value.
pub const TAG_U64: u8 = 253;

/// Byte `i` (counting from the least significant) of `v`.
pub open spec fn byte_at(v: u64, i: int) -> u8 {
    ((v >> ((8 * i) as u64)) & 0xff) as u8
}

/// The `n` low-order bytes of `v`, least significant first.
pub open spec fn le_bytes(v: u64, n: nat) -> Seq<u8> {
    Seq::new(n, |i: int| byte_at(v, i))
}

/// The integer whose little-endian bytes are the `n` bytes of `b` from `at`.
pub open spec fn le_read(b: Seq<u8>, at: int, n: nat) -> u64
    decreases n,
{
    if n == 0 {
        0
    } else {
        le_read(b, at, (n - 1) as nat) | ((b[at + n - 1] as u64) << ((8 * (n - 1)) as u64))
    }
}

/// The variable-length encoding of `v`.
pub open spec fn varint(v: u64) -> Seq<u8> {
    if v <= SINGLE_BYTE_MAX {
        seq![v as u8]
    } else if v <= 0xffff {
        seq![TAG_U16] + le_bytes(v, 2)
    } else if v <= 0xffff_ffff {
        seq![TAG_U32] + le_bytes(v, 4)
    } else {
        seq![TAG_U64] + le_bytes(v, 8)
    }
}

/// Reads a variable-length integer at `at`: the value and the position after it.
pub open spec fn read_varint(b: Seq<u8>, at: int) -> Option<(u64, int)> {
    if 0 <= at < b.len() {
        let tag = b[at];
        if tag as u64 <= SINGLE_BYTE_MAX {
            Some((tag as u64, at + 1))
        } else if tag == TAG_U16 && at + 3 <= b.len() {
            Some((le_read(b, at + 1, 2), at + 3))
        } else if tag == TAG_U32 && at + 5 <= b.len() {
            Some((le_read(b, at + 1, 4), at + 5))
        } else if tag == TAG_U64 && at + 9 <= b.len() {
            Some((le_read(b, at + 1, 8), at + 9))
        } else {
            None
        }
    } else {
        None
    }
}

/// Reads 8 raw little-endian bytes at `at` (the bit pattern of a 64-bit float).
pub open spec fn read_fixed8(b: Seq<u8>, at: int) -> Option<(u64, int)> {
    if 0 <= at && at + 8 <= b.len() {
        Some((le_read(b, at, 8), at + 8))
    } else {
        None
    }
}

/// Reads 4 raw little-endian bytes at `at` (the bit pattern of a 32-bit float).
pub open spec fn read_fixed4(b: Seq<u8>, at: int) -> Option<(u32, int)> {
    if 0 <= at && at + 4 <= b.len() {
        Some((le_read(b, at, 4) as u32, at + 4))
    } else {
        None
    }
}

/// `b` holds `s` from position `at`.
pub open spec fn holds_at(b: Seq<u8>, at: int, s: Seq<u8>) -> bool {
    0 <= at && at + s.len() <= b.len() && b.subrange(at, at + s.len()) == s
}

pub proof fn lemma_holds_at_split(b: Seq<u8>, at: int, s1: Seq<u8>, s2: Seq<u8>)
    requires
        holds_at(b, at, s1 + s2),
    ensures
        holds_at(b, at, s1),
        holds_at(b, at + s1.len(), s2),
{
    let whole = b.subrange(at, at + s1.len() + s2.len());
    assert(whole == s1 + s2);
    assert(b.subrange(at, at + s1.len()) =~= whole.subrange(0, s1.len() as int));
    assert(whole.subrange(0, s1.len() as int) =~= s1);
    assert(b.subrange(at + s1.len(), at + s1.len() + s2.len()) =~= whole.subrange(
        s1.len() as int,
        (s1.len() + s2.len()) as int,
    ));
    assert(whole.subrange(s1.len() as int, (s1.len() + s2.len()) as int) =~= s2);
}

/// A sequence holds itself from position 0.
pub proof fn lemma_holds_whole(b: Seq<u8>)
    ensures
        holds_at(b, 0, b),
{
    assert(b.subrange(0, b.len() as int) =~= b);
}

pub proof fn lemma_holds_at_index(b: Seq<u8>, at: int, s: Seq<u8>, k: int)
    requires
        holds_at(b, at, s),
        0 <= k < s.len(),
    ensures
        b[at + k] == s[k],
{
    assert(b.subrange(at, at + s.len())[k] == b[at + k]);
}

proof fn lemma_le_read_2(b: Seq<u8>, at: int, v: u64)
    requires
        holds_at(b, at, le_bytes(v, 2)),
        v <= 0xffff,
    ensures
        le_read(b, at, 2) == v,
{
    lemma_holds_at_index(b, at, le_bytes(v, 2), 0);
    lemma_holds_at_index(b, at, le_bytes(v, 2), 1);
    reveal_with_fuel(le_read, 3);
    assert(v <= 0xffff ==> (0u64 | ((((v >> 0u64) & 0xff) as u8) as u64) << 0u64) | ((((v
        >> 8u64) & 0xff) as u8) as u64) << 8u64 == v) by (bit_vector);
}

proof fn lemma_le_read_4(b: Seq<u8>, at: int, v: u64)
    requires
        holds_at(b, at, le_bytes(v, 4)),
        v <= 0xffff_ffff,
    ensures
        le_read(b, at, 4) == v,
{
    lemma_holds_at_index(b, at, le_bytes(v, 4), 0);
    lemma_holds_at_index(b, at, le_bytes(v, 4), 1);
    lemma_holds_at_index(b, at, le_bytes(v, 4), 2);
    lemma_holds_at_index(b, at, le_bytes(v, 4), 3);
    reveal_with_fuel(le_read, 5);
    assert(v <= 0xffff_ffff ==> (((0u64 | ((((v >> 0u64) & 0xff) as u8) as u64) << 0u64) | ((((v
        >> 8u64) & 0xff) as u8) as u64) << 8u64) | ((((v >> 16u64) & 0xff) as u8) as u64)
        << 16u64) | ((((v >> 24u64) & 0xff) as u8) as u64) << 24u64 == v) by (bit_vector);
}

proof fn lemma_le_read_8(b: Seq<u8>, at: int, v: u64)
    requires
        holds_at(b, at, le_bytes(v, 8)),
    ensures
        le_read(b, at, 8) == v,
{
    lemma_holds_at_index(b, at, le_bytes(v, 8), 0);
    lemma_holds_at_index(b, at, le_bytes(v, 8), 1);
    lemma_holds_at_index(b, at, le_bytes(v, 8), 2);
    lemma_holds_at_index(b, at, le_bytes(v, 8), 3);
    lemma_holds_at_index(b, at, le_bytes(v, 8), 4);
    lemma_holds_at_index(b, at, le_bytes(v, 8), 5);
    lemma_holds_at_index(b, at, le_bytes(v, 8), 6);
    lemma_holds_at_index(b, at, le_bytes(v, 8), 7);
    reveal_with_fuel(le_read, 9);
    assert((((((((0u64 | ((((v >> 0u64) & 0xff) as u8) as u64) << 0u64) | ((((v >> 8u64) & 0xff)
        as u8) as u64) << 8u64) | ((((v >> 16u64) & 0xff) as u8) as u64) << 16u64) | ((((v
        >> 24u64) & 0xff) as u8) as u64) << 24u64) | ((((v >> 32u64) & 0xff) as u8) as u64)
        << 32u64) | ((((v >> 40u64) & 0xff) as u8) as u64) << 40u64) | ((((v >> 48u64) & 0xff)
        as u8) as u64) << 48u64) | ((((v >> 56u64) & 0xff) as u8) as u64) << 56u64 == v)
        by (bit_vector);
}

/// Reading back the encoding of `v` gives `v` and the position after it.
pub proof fn lemma_varint_round_trip(b: Seq<u8>, at: int, v: u64)
    requires
        holds_at(b, at, varint(v)),
    ensures
        read_varint(b, at) == Some((v, at + varint(v).len())),
{
    lemma_holds_at_index(b, at, varint(v), 0);
    if v <= SINGLE_BYTE_MAX {
    } else if v <= 0xffff {
        lemma_holds_at_split(b, at, seq![TAG_U16], le_bytes(v, 2));
        lemma_le_read_2(b, at + 1, v);
    } else if v <= 0xffff_ffff {
        lemma_holds_at_split(b, at, seq![TAG_U32], le_bytes(v, 4));
        lemma_le_read_4(b, at + 1, v);
    } else {
        lemma_holds_at_split(b, at, seq![TAG_U64], le_bytes(v, 8));
        lemma_le_read_8(b, at + 1, v);
    }
}

/// Reading back 8 raw bytes gives the value written.
pub proof fn lemma_fixed8_round_trip(b: Seq<u8>, at: int, v: u64)
    requires
        holds_at(b, at, le_bytes(v, 8)),
    ensures
        read_fixed8(b, at) == Some((v, at + 8)),
{
    lemma_le_read_8(b, at, v);
}

/// Reading back 4 raw bytes gives the value written.
pub proof fn lemma_fixed4_round_trip(b: Seq<u8>, at: int, v: u32)
    requires
        holds_at(b, at, le_bytes(v as u64, 4)),
    ensures
        read_fixed4(b, at) == Some((v, at + 4)),
{
    lemma_le_read_4(b, at, v as u64);
}

/// Appends the `n` low-order bytes of `v`, least significant first.
pub fn push_le(out: &mut Vec<u8>, v: u64, n: u64)
    requires
        n <= 8,
    ensures
        final(out)@ == old(out)@ + le_bytes(v, n as nat),
{
    let mut i: u64 = 0;
    while i < n
        invariant
            i <= n <= 8,
            out@ == old(out)@ + le_bytes(v, i as nat),
        decreases n - i,
    {
        out.push(((v >> (8 * i)) & 0xff) as u8);
        i = i + 1;
        assert(out@ =~= old(out)@ + le_bytes(v, i as nat));
    }
}

/// Appends the variable-length encoding of `v`.
pub fn push_varint(out: &mut Vec<u8>, v: u64)
    ensures
        final(out)@ == old(out)@ + varint(v),
{
    let ghost start = out@;
    if v <= SINGLE_BYTE_MAX {
        out.push(v as u8);
    } else if v <= 0xffff {
        out.push(TAG_U16);
        push_le(out, v, 2);
    } else if v <= 0xffff_ffff {
        out.push(TAG_U32);
        push_le(out, v, 4);
    } else {
        out.push(TAG_U64);
        push_le(out, v, 8);
    }
    assert(out@ =~= start + varint(v));
}

/// The `n` bytes of `b` from `at`, read as a little-endian integer.
fn read_le(b: &[u8], at: usize, n: usize) -> (r: u64)
    requires
        n <= 8,
        at + n <= b@.len(),
    ensures
        r == le_read(b@, at as int, n as nat),
{
    let len = b.len();
    let mut acc: u64 = 0;
    let mut k: usize = 0;
    while k < n
        invariant
            k <= n <= 8,
            len == b@.len(),
            at + n <= b@.len(),
            acc == le_read(b@, at as int, k as nat),
        decreases n - k,
    {
        acc = acc | ((b[at + k] as u64) << (8 * k as u64));
        k = k + 1;
    }
    acc
}

/// Reads a variable-length integer at `at`.
pub fn read_varint_at(b: &[u8], at: usize) -> (r: Option<(u64, usize)>)
    ensures
        match r {
            Some((v, next)) => read_varint(b@, at as int) == Some((v, next as int)),
            None => read_varint(b@, at as int) is None,
        },
{
    if at >= b.len() {
        return None;
    }
    let tag = b[at];
    if tag as u64 <= SINGLE_BYTE_MAX {
        Some((tag as u64, at + 1))
    } else if tag == TAG_U16 && b.len() - at >= 3 {
        Some((read_le(b, at + 1, 2), at + 3))
    } else if tag == TAG_U32 && b.len() - at >= 5 {
        Some((read_le(b, at + 1, 4), at + 5))
    } else if tag == TAG_U64 && b.len() - at >= 9 {
        Some((read_le(b, at + 1, 8), at + 9))
    } else {
        None
    }
}

/// Reads 8 raw little-endian bytes at `at`.
pub fn read_fixed8_at(b: &[u8], at: usize) -> (r: Option<(u64, usize)>)
    ensures
        match r {
            Some((v, next)) => read_fixed8(b@, at as int) == Some((v, next as int)),
            None => read_fixed8(b@, at as int) is None,
        },
{
    if at > b.len() || b.len() - at < 8 {
        return None;
    }
    Some((read_le(b, at, 8), at + 8))
}

/// Reads 4 raw little-endian bytes at `at`.
pub fn read_fixed4_at(b: &[u8], at: usize) -> (r: Option<(u32, usize)>)
    ensures
        match r {
            Some((v, next)) => read_fixed4(b@, at as int) == Some((v, next as int)),
            None => read_fixed4(b@, at as int) is None,
        },
{
    if at > b.len() || b.len() - at < 4 {
        return None;
    }
    Some((read_le(b, at, 4) as u32, at + 4))
}

/// The encoding of each value of `s` in turn, with no length in front.
pub open spec fn u16s_layout(s: Seq<u16>) -> Seq<u8>
    decreases s.len(),
{
    if s.len() == 0 {
        seq![]
    } else {
        u16s_layout(s.drop_last()) + varint(s.last() as u64)
    }
}

/// Reads `n` integers of at most 16 bits each from `at`.
pub open spec fn read_u16s(b: Seq<u8>, at: int, n: nat) -> Option<(Seq<u16>, int)>
    decreases n,
{
    if n == 0 {
        Some((seq![], at))
    } else {
        match read_u16s(b, at, (n - 1) as nat) {
            Some((s, p)) => match read_varint(b, p) {
                Some((v, q)) => if v <= 0xffff {
                    Some((s.push(v as u16), q))
                } else {
                    None
                },
                None => None,
            },
            None => None,
        }
    }
}

/// A byte sequence: its length, then its bytes.
pub open spec fn bytes_layout(s: Seq<u8>) -> Seq<u8> {
    varint(s.len() as u64) + s
}

/// Reads a length-prefixed byte sequence at `at`.
pub open spec fn read_bytes(b: Seq<u8>, at: int) -> Option<(Seq<u8>, int)> {
    match read_varint(b, at) {
        Some((n, p)) => if p + n <= b.len() {
            Some((b.subrange(p, p + n), p + n))
        } else {
            None
        },
        None => None,
    }
}

proof fn lemma_read_u16s_stays_none(b: Seq<u8>, at: int, i: nat, n: nat)
    requires
        read_u16s(b, at, i) is None,
        i <= n,
    ensures
        read_u16s(b, at, n) is None,
    decreases n - i,
{
    if i < n {
        lemma_read_u16s_stays_none(b, at, i + 1, n);
    }
}

/// Reading back the encoding of `s` gives `s` and the position after it.
pub proof fn lemma_u16s_round_trip(b: Seq<u8>, at: int, s: Seq<u16>)
    requires
        holds_at(b, at, u16s_layout(s)),
    ensures
        read_u16s(b, at, s.len()) == Some((s, at + u16s_layout(s).len())),
    decreases s.len(),
{
    if s.len() > 0 {
        let init = s.drop_last();
        lemma_holds_at_split(b, at, u16s_layout(init), varint(s.last() as u64));
        lemma_u16s_round_trip(b, at, init);
        lemma_varint_round_trip(b, at + u16s_layout(init).len(), s.last() as u64);
        assert(init.push(s.last()) =~= s);
    }
}

/// Reading back a length-prefixed byte sequence gives it and the position after it.
pub proof fn lemma_bytes_round_trip(b: Seq<u8>, at: int, s: Seq<u8>)
    requires
        holds_at(b, at, bytes_layout(s)),
        s.len() <= u64::MAX,
    ensures
        read_bytes(b, at) == Some((s, at + bytes_layout(s).len())),
{
    lemma_holds_at_split(b, at, varint(s.len() as u64), s);
    lemma_varint_round_trip(b, at, s.len() as u64);
}

/// Appends the encoding of each value of `s`.
pub fn push_u16s(out: &mut Vec<u8>, s: &Vec<u16>)
    ensures
        final(out)@ == old(out)@ + u16s_layout(s@),
{
    let mut i: usize = 0;
    while i < s.len()
        invariant
            i <= s@.len(),
            out@ == old(out)@ + u16s_layout(s@.subrange(0, i as int)),
        decreases s@.len() - i,
    {
        let ghost before = out@;
        push_varint(out, s[i] as u64);
        assert(s@.subrange(0, i + 1).drop_last() =~= s@.subrange(0, i as int));
        i = i + 1;
        assert(out@ =~= old(out)@ + u16s_layout(s@.subrange(0, i as int)));
    }
    assert(s@.subrange(0, s@.len() as int) =~= s@);
}

/// Appends the bytes of `s`.
pub fn push_bytes(out: &mut Vec<u8>, s: &[u8])
    ensures
        final(out)@ == old(out)@ + s@,
{
    let mut i: usize = 0;
    while i < s.len()
        invariant
            i <= s@.len(),
            out@ == old(out)@ + s@.subrange(0, i as int),
        decreases s@.len() - i,
    {
        out.push(s[i]);
        i = i + 1;
        assert(out@ =~= old(out)@ + s@.subrange(0, i as int));
    }
    assert(s@.subrange(0, s@.len() as int) =~= s@);
}

/// Appends `s` with its length in front.
pub fn push_bytes_field(out: &mut Vec<u8>, s: &[u8])
    ensures
        final(out)@ == old(out)@ + bytes_layout(s@),
{
    let ghost start = out@;
    push_varint(out, s.len() as u64);
    push_bytes(out, s);
    assert(out@ =~= start + bytes_layout(s@));
}

/// Reads `n` integers of at most 16 bits each from `at`.
pub fn read_u16s_at(b: &[u8], at: usize, n: u64) -> (r: Option<(Vec<u16>, usize)>)
    ensures
        match r {
            Some((s, next)) => read_u16s(b@, at as int, n as nat) == Some((s@, next as int)),
            None => read_u16s(b@, at as int, n as nat) is None,
        },
{
    let mut acc: Vec<u16> = Vec::new();
    let mut pos: usize = at;
    let mut i: u64 = 0;
    while i < n
        invariant
            i <= n,
            read_u16s(b@, at as int, i as nat) == Some((acc@, pos as int)),
        decreases n - i,
    {
        match read_varint_at(b, pos) {
            Some((v, next)) => {
                if v > 0xffff {
                    proof {
                        lemma_read_u16s_stays_none(b@, at as int, (i + 1) as nat, n as nat);
                    }
                    return None;
                }
                acc.push(v as u16);
                pos = next;
            },
            None => {
                proof {
                    lemma_read_u16s_stays_none(b@, at as int, (i + 1) as nat, n as nat);
                }
                return None;
            },
        }
        i = i + 1;
    }
    Some((acc, pos))
}

/// Reads a length-prefixed byte sequence at `at`.
pub fn read_bytes_at(b: &[u8], at: usize) -> (r: Option<(Vec<u8>, usize)>)
    ensures
        match r {
            Some((s, next)) => read_bytes(b@, at as int) == Some((s@, next as int)),
            None => read_bytes(b@, at as int) is None,
        },
{
    let (n, start) = match read_varint_at(b, at) {
        Some(x) => x,
        None => return None,
    };
    if start > b.len() || ((b.len() - start) as u64) < n {
        return None;
    }
    let end = start + n as usize;
    let mut out: Vec<u8> = Vec::new();
    let mut i: usize = start;
    while i < end
        invariant
            start <= i <= end <= b@.len(),
            out@ == b@.subrange(start as int, i as int),
        decreases end - i,
    {
        out.push(b[i]);
        i = i + 1;
        assert(out@ =~= b@.subrange(start as int, i as int));
    }
    Some((out, end))
}

/// The exact product of two 64-bit integers.
pub fn wide_mul(a: u64, b: u64) -> (r: u128)
    ensures
        r == a * b,
{
    proof {
        assert((a as int) * (b as int) <= (u64::MAX as int) * (u64::MAX as int)) by (nonlinear_arith)
            requires
                a <= u64::MAX,
                b <= u64::MAX,
        ;
    }
    (a as u128) * (b as u128)
}

} // verus!
