//! Little-endian integers and length-prefixed byte strings, as every record
//! and instruction payload lays them out.

use vstd::arithmetic::div_mod::lemma_fundamental_div_mod_converse;
use vstd::prelude::*;
use vstd::slice::axiom_spec_len;

verus! {

/// The four bytes of `x`, least significant first.
pub open spec fn u32_le(x: u32) -> Seq<u8> {
    seq![
        (x % 256) as u8,
        ((x / 256) % 256) as u8,
        ((x / 65536) % 256) as u8,
        (x / 16777216) as u8,
    ]
}

/// The number whose little-endian bytes are the first four of `b`.
pub open spec fn u32_from_le(b: Seq<u8>) -> int {
    b[0] + 256 * b[1] + 65536 * b[2] + 16777216 * b[3]
}

/// The eight bytes of `x`, least significant first.
pub open spec fn u64_le(x: u64) -> Seq<u8> {
    u32_le((x % 4294967296) as u32) + u32_le((x / 4294967296) as u32)
}

/// The number whose little-endian bytes are the first eight of `b`.
pub open spec fn u64_from_le(b: Seq<u8>) -> int {
    u32_from_le(b.subrange(0, 4)) + 4294967296 * u32_from_le(b.subrange(4, 8))
}

/// The two's complement of `x` in 64 bits.
pub open spec fn i64_bits(x: i64) -> u64 {
    if x >= 0 {
        x as u64
    } else {
        (x + 18446744073709551616) as u64
    }
}

/// The signed number that `bits` is the two's complement of.
pub open spec fn i64_of_bits(bits: int) -> int {
    if bits < 9223372036854775808 {
        bits
    } else {
        bits - 18446744073709551616
    }
}

/// The eight bytes of `x` in two's complement, least significant first.
pub open spec fn i64_le(x: i64) -> Seq<u8> {
    u64_le(i64_bits(x))
}

/// The signed number whose little-endian bytes are the first eight of `b`.
pub open spec fn i64_from_le(b: Seq<u8>) -> int {
    i64_of_bits(u64_from_le(b))
}

/// A byte string behind its length as a little-endian `u32`.
pub open spec fn prefixed(data: Seq<u8>) -> Seq<u8> {
    u32_le(data.len() as u32) + data
}

/// The length prefix takes four bytes.
pub proof fn lemma_prefixed_len(data: Seq<u8>)
    ensures
        prefixed(data).len() == 4 + data.len(),
{
}

/// Byte strings written one behind the other.
pub open spec fn concatenated(parts: Seq<Seq<u8>>) -> Seq<u8>
    decreases parts.len(),
{
    if parts.len() == 0 {
        Seq::empty()
    } else {
        concatenated(parts.drop_last()) + parts.last()
    }
}

/// Whether every part is 32 bytes long.
pub open spec fn all_keys(parts: Seq<Seq<u8>>) -> bool {
    forall|i: int| 0 <= i < parts.len() ==> (#[trigger] parts[i]).len() == 32
}

/// The `count` keys that stand one behind the other from `start` on.
pub open spec fn keys_at(b: Seq<u8>, start: int, count: nat) -> Seq<Seq<u8>> {
    Seq::new(count, |i: int| b.subrange(start + 32 * i, start + 32 * i + 32))
}

/// Writing a part before the others puts its bytes before theirs.
pub proof fn lemma_concatenated_prepend(first: Seq<u8>, rest: Seq<Seq<u8>>)
    ensures
        concatenated(seq![first] + rest) == first + concatenated(rest),
    decreases rest.len(),
{
    let all = seq![first] + rest;
    if rest.len() == 0 {
        assert(all.drop_last() =~= Seq::<Seq<u8>>::empty());
        assert(concatenated(all.drop_last()) =~= Seq::<u8>::empty());
        assert(concatenated(all) =~= first + concatenated(rest));
    } else {
        lemma_concatenated_prepend(first, rest.drop_last());
        assert(all.drop_last() =~= seq![first] + rest.drop_last());
        assert(all.last() == rest.last());
        assert(concatenated(all) =~= first + concatenated(rest));
    }
}

/// Keys written one behind the other take 32 bytes each, and each is found
/// again at its place.
pub proof fn lemma_concatenated_keys(keys: Seq<Seq<u8>>)
    requires
        all_keys(keys),
    ensures
        concatenated(keys).len() == 32 * keys.len(),
        keys_at(concatenated(keys), 0, keys.len()) == keys,
    decreases keys.len(),
{
    if keys.len() > 0 {
        let front = keys.drop_last();
        lemma_concatenated_keys(front);
        let whole = concatenated(keys);
        assert(whole == concatenated(front) + keys.last());
        assert forall|i: int| 0 <= i < keys.len() implies #[trigger] keys_at(
            whole,
            0,
            keys.len(),
        )[i] == keys[i] by {
            if i < front.len() {
                assert(keys_at(concatenated(front), 0, front.len())[i] == front[i]);
                assert(whole.subrange(32 * i, 32 * i + 32) =~= concatenated(front).subrange(
                    32 * i,
                    32 * i + 32,
                ));
            } else {
                assert(whole.subrange(32 * i, 32 * i + 32) =~= keys.last());
            }
        }
        assert(keys_at(whole, 0, keys.len()) =~= keys);
    } else {
        assert(keys_at(concatenated(keys), 0, keys.len()) =~= keys);
    }
}

/// The keys that stand one behind the other in a buffer, written one
/// behind the other, are that stretch of the buffer.
pub proof fn lemma_keys_at_concatenated(b: Seq<u8>, start: int, count: nat)
    requires
        0 <= start,
        start + 32 * count <= b.len(),
    ensures
        all_keys(keys_at(b, start, count)),
        concatenated(keys_at(b, start, count)) == b.subrange(start, start + 32 * count),
    decreases count,
{
    let keys = keys_at(b, start, count);
    if count > 0 {
        let fewer = (count - 1) as nat;
        lemma_keys_at_concatenated(b, start, fewer);
        assert(keys.drop_last() =~= keys_at(b, start, fewer));
        assert(keys.last() == b.subrange(start + 32 * fewer, start + 32 * fewer + 32));
        assert(concatenated(keys) =~= b.subrange(start, start + 32 * count));
    } else {
        assert(concatenated(keys) =~= b.subrange(start, start + 32 * count));
    }
}

/// Reading back the bytes of a `u32` gives the number.
pub proof fn lemma_u32_le_roundtrip(x: u32)
    ensures
        u32_le(x).len() == 4,
        u32_from_le(u32_le(x)) == x,
{
}

/// Four bytes are the encoding of the number they read as.
pub proof fn lemma_u32_from_le_roundtrip(b: Seq<u8>)
    requires
        b.len() == 4,
    ensures
        0 <= u32_from_le(b) <= u32::MAX,
        u32_le(u32_from_le(b) as u32) =~= b,
{
    let x = u32_from_le(b);
    let r1 = b[1] + 256 * b[2] + 65536 * b[3];
    let r2 = b[2] + 256 * b[3];
    let r3 = b[3] as int;
    lemma_fundamental_div_mod_converse(x, 256, r1, b[0] as int);
    lemma_fundamental_div_mod_converse(r1, 256, r2, b[1] as int);
    lemma_fundamental_div_mod_converse(r2, 256, r3, b[2] as int);
    lemma_fundamental_div_mod_converse(x, 65536, r2, b[0] + 256 * b[1]);
    lemma_fundamental_div_mod_converse(x, 16777216, r3, b[0] + 256 * b[1] + 65536 * b[2]);
}

/// Reading back the bytes of a `u64` gives the number.
pub proof fn lemma_u64_le_roundtrip(x: u64)
    ensures
        u64_le(x).len() == 8,
        u64_from_le(u64_le(x)) == x,
{
    let lo = (x % 4294967296) as u32;
    let hi = (x / 4294967296) as u32;
    lemma_u32_le_roundtrip(lo);
    lemma_u32_le_roundtrip(hi);
    assert(u64_le(x).subrange(0, 4) =~= u32_le(lo));
    assert(u64_le(x).subrange(4, 8) =~= u32_le(hi));
    assert(x == lo + 4294967296 * hi);
}

/// Eight bytes are the encoding of the number they read as.
pub proof fn lemma_u64_from_le_roundtrip(b: Seq<u8>)
    requires
        b.len() == 8,
    ensures
        0 <= u64_from_le(b) <= u64::MAX,
        u64_le(u64_from_le(b) as u64) =~= b,
{
    let lo = b.subrange(0, 4);
    let hi = b.subrange(4, 8);
    lemma_u32_from_le_roundtrip(lo);
    lemma_u32_from_le_roundtrip(hi);
    let x = u64_from_le(b);
    lemma_fundamental_div_mod_converse(x, 4294967296, u32_from_le(hi), u32_from_le(lo));
    assert(u32_le((x % 4294967296) as u32) =~= lo);
    assert(u32_le((x / 4294967296) as u32) =~= hi);
    assert(b =~= lo + hi);
}

/// Reading back the bytes of an `i64` gives the number.
pub proof fn lemma_i64_le_roundtrip(x: i64)
    ensures
        i64_le(x).len() == 8,
        i64_from_le(i64_le(x)) == x,
{
    lemma_u64_le_roundtrip(i64_bits(x));
}

/// Eight bytes are the encoding of the signed number they read as.
pub proof fn lemma_i64_from_le_roundtrip(b: Seq<u8>)
    requires
        b.len() == 8,
    ensures
        i64::MIN <= i64_from_le(b) <= i64::MAX,
        i64_le(i64_from_le(b) as i64) =~= b,
{
    lemma_u64_from_le_roundtrip(b);
}

/// The byte string that stands behind its length at `at`, and the place
/// behind it; `None` where the buffer ends before the string does.
#[verifier::opaque]
pub open spec fn take_prefixed(b: Seq<u8>, at: int) -> Option<(Seq<u8>, int)> {
    if at + 4 > b.len() {
        None
    } else {
        let n = u32_from_le(b.subrange(at, at + 4));
        if at + 4 + n > b.len() {
            None
        } else {
            Some((b.subrange(at + 4, at + 4 + n), at + 4 + n))
        }
    }
}

/// A byte string that was written behind its length is taken back whole.
pub proof fn lemma_take_prefixed_written(pre: Seq<u8>, data: Seq<u8>, post: Seq<u8>)
    requires
        data.len() <= u32::MAX,
    ensures
        take_prefixed(pre + prefixed(data) + post, pre.len() as int) == Some(
            (data, (pre.len() + 4 + data.len()) as int),
        ),
{
    reveal(take_prefixed);
    let b = pre + prefixed(data) + post;
    let at = pre.len() as int;
    let n = data.len() as u32;
    lemma_u32_le_roundtrip(n);
    assert(b.subrange(at, at + 4) =~= u32_le(n));
    assert(b.subrange(at + 4, at + 4 + n) =~= data);
}

/// What was taken from a buffer stands there behind its length.
pub proof fn lemma_take_prefixed_sound(b: Seq<u8>, at: int)
    requires
        0 <= at,
        take_prefixed(b, at) is Some,
    ensures
        take_prefixed(b, at).unwrap().0.len() <= u32::MAX,
        take_prefixed(b, at).unwrap().1 == at + 4 + take_prefixed(b, at).unwrap().0.len(),
        take_prefixed(b, at).unwrap().1 <= b.len(),
        b.subrange(at, take_prefixed(b, at).unwrap().1) == prefixed(take_prefixed(b, at).unwrap().0),
{
    reveal(take_prefixed);
    let n = u32_from_le(b.subrange(at, at + 4));
    lemma_u32_from_le_roundtrip(b.subrange(at, at + 4));
    assert(b.subrange(at, at + 4 + n) =~= prefixed(b.subrange(at + 4, at + 4 + n)));
}

/// Five byte strings written one behind the other can be read as a front,
/// one string and a rest, wherever the one string stands.
pub proof fn lemma_regroup(h: Seq<u8>, a: Seq<u8>, b: Seq<u8>, c: Seq<u8>, d: Seq<u8>)
    ensures
        h + a + b + c + d == h + a + (b + c + d),
        h + a + b + c + d == (h + a) + b + (c + d),
        h + a + b + c + d == (h + a + b) + c + d,
        h + a + b + c + d == (h + a + b + c) + d + Seq::<u8>::empty(),
        (h + a + b + c + d).len() == h.len() + a.len() + b.len() + c.len() + d.len(),
        (h + a + b + c + d).subrange(0, h.len() as int) == h,
{
    let all = h + a + b + c + d;
    assert(all =~= h + a + (b + c + d));
    assert(all =~= (h + a) + b + (c + d));
    assert(all =~= (h + a + b) + c + d);
    assert(all =~= (h + a + b + c) + d + Seq::<u8>::empty());
    assert(all.subrange(0, h.len() as int) =~= h);
}

/// Reads a little-endian `u32` at `at`.
pub fn read_u32_le(bytes: &[u8], at: usize) -> (x: u32)
    requires
        at + 4 <= bytes@.len(),
    ensures
        x == u32_from_le(bytes@.subrange(at as int, at + 4)),
{
    let b0: u32 = bytes[at] as u32;
    let b1: u32 = bytes[at + 1] as u32;
    let b2: u32 = bytes[at + 2] as u32;
    let b3: u32 = bytes[at + 3] as u32;
    b0 + 256 * b1 + 65536 * b2 + 16777216 * b3
}

/// Reads a little-endian `u64` at `at`.
pub fn read_u64_le(bytes: &[u8], at: usize) -> (x: u64)
    requires
        at + 8 <= bytes@.len(),
    ensures
        x == u64_from_le(bytes@.subrange(at as int, at + 8)),
{
    proof {
        axiom_spec_len(bytes);
    }
    let lo: u32 = read_u32_le(bytes, at);
    let hi: u32 = read_u32_le(bytes, at + 4);
    proof {
        let b = bytes@.subrange(at as int, at + 8);
        assert(b.subrange(0, 4) =~= bytes@.subrange(at as int, at + 4));
        assert(b.subrange(4, 8) =~= bytes@.subrange(at + 4, at + 8));
    }
    (lo as u64) + 4294967296 * (hi as u64)
}

/// Reads a little-endian `i64` in two's complement at `at`.
pub fn read_i64_le(bytes: &[u8], at: usize) -> (x: i64)
    requires
        at + 8 <= bytes@.len(),
    ensures
        x == i64_from_le(bytes@.subrange(at as int, at + 8)),
{
    let bits: u64 = read_u64_le(bytes, at);
    if bits < 9223372036854775808 {
        bits as i64
    } else {
        let low: u64 = bits - 9223372036854775808;
        (low as i64) + i64::MIN
    }
}

/// Appends the little-endian bytes of `x` to `out`.
pub fn push_u32_le(out: &mut Vec<u8>, x: u32)
    ensures
        final(out)@ == old(out)@ + u32_le(x),
{
    out.push((x % 256) as u8);
    out.push(((x / 256) % 256) as u8);
    out.push(((x / 65536) % 256) as u8);
    out.push((x / 16777216) as u8);
    assert(out@ =~= old(out)@ + u32_le(x));
}

/// Appends the little-endian bytes of `x` to `out`.
pub fn push_u64_le(out: &mut Vec<u8>, x: u64)
    ensures
        final(out)@ == old(out)@ + u64_le(x),
{
    push_u32_le(out, (x % 4294967296) as u32);
    push_u32_le(out, (x / 4294967296) as u32);
    assert(out@ =~= old(out)@ + u64_le(x));
}

/// Appends the two's complement of `x`, least significant byte first, to `out`.
pub fn push_i64_le(out: &mut Vec<u8>, x: i64)
    ensures
        final(out)@ == old(out)@ + i64_le(x),
{
    let bits: u64 = if x >= 0 {
        x as u64
    } else {
        ((x - i64::MIN) as u64) + 9223372036854775808
    };
    push_u64_le(out, bits);
}

/// Appends every byte of `bytes` to `out`.
pub fn push_bytes(out: &mut Vec<u8>, bytes: &[u8])
    ensures
        final(out)@ == old(out)@ + bytes@,
{
    let mut i: usize = 0;
    while i < bytes.len()
        invariant
            i <= bytes@.len(),
            out@ == old(out)@ + bytes@.subrange(0, i as int),
        decreases bytes@.len() - i,
    {
        out.push(bytes[i]);
        i += 1;
        assert(out@ =~= old(out)@ + bytes@.subrange(0, i as int));
    }
    assert(bytes@.subrange(0, i as int) =~= bytes@);
}

/// Appends `bytes` behind their length as a little-endian `u32`.
pub fn push_prefixed(out: &mut Vec<u8>, bytes: &[u8])
    requires
        bytes@.len() <= u32::MAX,
    ensures
        final(out)@ == old(out)@ + prefixed(bytes@),
{
    push_u32_le(out, bytes.len() as u32);
    push_bytes(out, bytes);
    assert(out@ =~= old(out)@ + prefixed(bytes@));
}

/// Copies `bytes[from..to]` into a new vector.
pub fn copy_range(bytes: &[u8], from: usize, to: usize) -> (out: Vec<u8>)
    requires
        from <= to <= bytes@.len(),
    ensures
        out@ == bytes@.subrange(from as int, to as int),
{
    let mut out: Vec<u8> = Vec::new();
    let mut i: usize = from;
    while i < to
        invariant
            from <= i <= to <= bytes@.len(),
            out@ == bytes@.subrange(from as int, i as int),
        decreases to - i,
    {
        out.push(bytes[i]);
        i += 1;
        assert(out@ =~= bytes@.subrange(from as int, i as int));
    }
    out
}

/// Copies the byte string that stands behind its length at `at`, and says
/// where the next field starts.
pub fn read_prefixed(bytes: &[u8], at: usize) -> (r: Option<(Vec<u8>, usize)>)
    requires
        at <= bytes@.len(),
    ensures
        match r {
            Some((data, next)) => take_prefixed(bytes@, at as int) == Some((data@, next as int)),
            None => take_prefixed(bytes@, at as int) is None,
        },
{
    proof {
        reveal(take_prefixed);
        axiom_spec_len(bytes);
    }
    let room: usize = bytes.len() - at;
    if room < 4 {
        return None;
    }
    let announced: u32 = read_u32_le(bytes, at);
    if (announced as u64) > ((room - 4) as u64) {
        return None;
    }
    let n: usize = announced as usize;
    Some((copy_range(bytes, at + 4, at + 4 + n), at + 4 + n))
}

/// Copies the 32 bytes at `at` into an array.
pub fn read_key(bytes: &[u8], at: usize) -> (key: [u8; 32])
    requires
        at + 32 <= bytes@.len(),
    ensures
        key@ == bytes@.subrange(at as int, at + 32),
{
    proof {
        axiom_spec_len(bytes);
    }
    let mut key: [u8; 32] = [0u8; 32];
    let mut i: usize = 0;
    while i < 32
        invariant
            i <= 32,
            at + 32 <= bytes@.len() <= usize::MAX,
            forall|j: int| 0 <= j < i ==> key@[j] == bytes@[at + j],
        decreases 32 - i,
    {
        key[i] = bytes[at + i];
        i += 1;
    }
    assert(key@ =~= bytes@.subrange(at as int, at + 32));
    key
}

/// Whether two keys hold the same bytes.
pub fn same_key(a: &[u8; 32], b: &[u8; 32]) -> (same: bool)
    ensures
        same == (a@ == b@),
{
    let mut i: usize = 0;
    while i < 32
        invariant
            i <= 32,
            forall|j: int| 0 <= j < i ==> a@[j] == b@[j],
        decreases 32 - i,
    {
        if a[i] != b[i] {
            return false;
        }
        i += 1;
    }
    assert(a@ =~= b@);
    true
}

} // verus!
