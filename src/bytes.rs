//! Length-prefixed byte framing: the primitive layer of the wire format.
use vstd::prelude::*;

verus! {

/// The eight big-endian bytes of `n`.
pub open spec fn u64_be(n: u64) -> Seq<u8> {
    seq![
        (n >> 56u64) as u8,
        (n >> 48u64) as u8,
        (n >> 40u64) as u8,
        (n >> 32u64) as u8,
        (n >> 24u64) as u8,
        (n >> 16u64) as u8,
        (n >> 8u64) as u8,
        n as u8,
    ]
}

/// The integer whose big-endian encoding starts `b` at `pos`.
pub open spec fn u64_at(b: Seq<u8>, pos: int) -> u64 {
    ((b[pos] as u64) << 56u64) | ((b[pos + 1] as u64) << 48u64) | ((b[pos + 2] as u64) << 40u64)
        | ((b[pos + 3] as u64) << 32u64) | ((b[pos + 4] as u64) << 24u64) | ((b[pos + 5] as u64)
        << 16u64) | ((b[pos + 6] as u64) << 8u64) | (b[pos + 7] as u64)
}

/// A field: its length as eight big-endian bytes, then its bytes.
pub open spec fn enc_field(f: Seq<u8>) -> Seq<u8> {
    u64_be(f.len() as u64) + f
}

/// Reading a field from the front of `b`: the field and the number of bytes it took.
pub open spec fn parse_field(b: Seq<u8>) -> Option<(Seq<u8>, nat)> {
    if b.len() < 8 {
        None
    } else {
        let n = u64_at(b, 0);
        if b.len() - 8 < n {
            None
        } else {
            Some((b.subrange(8, 8 + n), (8 + n) as nat))
        }
    }
}

/// Reading an integer from the front of `b`.
pub open spec fn parse_u64(b: Seq<u8>) -> Option<u64> {
    if b.len() < 8 {
        None
    } else {
        Some(u64_at(b, 0))
    }
}

proof fn lemma_u64_bits(n: u64)
    ensures
        ((((n >> 56u64) as u8) as u64) << 56u64) | ((((n >> 48u64) as u8) as u64) << 48u64) | ((((n
            >> 40u64) as u8) as u64) << 40u64) | ((((n >> 32u64) as u8) as u64) << 32u64) | ((((n
            >> 24u64) as u8) as u64) << 24u64) | ((((n >> 16u64) as u8) as u64) << 16u64) | ((((n
            >> 8u64) as u8) as u64) << 8u64) | ((n as u8) as u64) == n,
{
    assert(((((n >> 56u64) as u8) as u64) << 56u64) | ((((n >> 48u64) as u8) as u64) << 48u64)
        | ((((n >> 40u64) as u8) as u64) << 40u64) | ((((n >> 32u64) as u8) as u64) << 32u64) | ((((n
        >> 24u64) as u8) as u64) << 24u64) | ((((n >> 16u64) as u8) as u64) << 16u64) | ((((n
        >> 8u64) as u8) as u64) << 8u64) | ((n as u8) as u64) == n) by (bit_vector);
}

/// Eight big-endian bytes read back give the integer they were written from.
pub proof fn lemma_u64_round_trip(n: u64, rest: Seq<u8>)
    ensures
        parse_u64(u64_be(n) + rest) == Some(n),
        u64_be(n).len() == 8,
{
    lemma_u64_bits(n);
    let b = u64_be(n) + rest;
    assert(b[0] == (n >> 56u64) as u8);
    assert(b[7] == n as u8);
    assert(u64_at(b, 0) == n);
}

/// A field read from the front of its framing comes back whole, whatever follows it.
pub proof fn lemma_field_round_trip(f: Seq<u8>, rest: Seq<u8>)
    requires
        f.len() <= u64::MAX,
    ensures
        parse_field(enc_field(f) + rest) == Some((f, enc_field(f).len())),
        enc_field(f).len() == 8 + f.len(),
{
    lemma_u64_round_trip(f.len() as u64, f + rest);
    let b = enc_field(f) + rest;
    assert(b =~= u64_be(f.len() as u64) + (f + rest));
    assert(b.subrange(8, 8 + f.len() as int) =~= f);
}

/// Writes `n` as eight big-endian bytes at the end of `out`.
pub fn push_u64(out: &mut Vec<u8>, n: u64)
    ensures
        final(out)@ == old(out)@ + u64_be(n),
{
    out.push((n >> 56u64) as u8);
    out.push((n >> 48u64) as u8);
    out.push((n >> 40u64) as u8);
    out.push((n >> 32u64) as u8);
    out.push((n >> 24u64) as u8);
    out.push((n >> 16u64) as u8);
    out.push((n >> 8u64) as u8);
    out.push(n as u8);
    assert(out@ =~= old(out)@ + u64_be(n));
}

/// Writes `f` as a field at the end of `out`.
pub fn push_field(out: &mut Vec<u8>, f: &Vec<u8>)
    ensures
        final(out)@ == old(out)@ + enc_field(f@),
{
    push_u64(out, f.len() as u64);
    let mut i: usize = 0;
    let ghost start = out@;
    while i < f.len()
        invariant
            i <= f.len(),
            out@ == start + f@.subrange(0, i as int),
        decreases f.len() - i,
    {
        out.push(f[i]);
        i = i + 1;
        assert(out@ =~= start + f@.subrange(0, i as int));
    }
    assert(f@.subrange(0, f.len() as int) =~= f@);
    assert(out@ =~= old(out)@ + enc_field(f@));
}

/// Reads the integer at `pos` of `b`.
pub fn read_u64(b: &Vec<u8>, pos: usize) -> (r: Option<u64>)
    requires
        pos <= b.len(),
    ensures
        r == parse_u64(b@.skip(pos as int)),
{
    if b.len() < 8 || pos > b.len() - 8 {
        assert(b@.skip(pos as int).len() < 8);
        return None;
    }
    let n: u64 = ((b[pos] as u64) << 56u64) | ((b[pos + 1] as u64) << 48u64) | ((b[pos + 2] as u64)
        << 40u64) | ((b[pos + 3] as u64) << 32u64) | ((b[pos + 4] as u64) << 24u64) | ((b[pos
        + 5] as u64) << 16u64) | ((b[pos + 6] as u64) << 8u64) | (b[pos + 7] as u64);
    let ghost s = b@.skip(pos as int);
    assert(s[0] == b@[pos as int]);
    assert(s[1] == b@[pos + 1]);
    assert(s[2] == b@[pos + 2]);
    assert(s[3] == b@[pos + 3]);
    assert(s[4] == b@[pos + 4]);
    assert(s[5] == b@[pos + 5]);
    assert(s[6] == b@[pos + 6]);
    assert(s[7] == b@[pos + 7]);
    Some(n)
}

/// Reads the field at `pos` of `b`: its bytes and the position just after it.
pub fn read_field(b: &Vec<u8>, pos: usize) -> (r: Option<(Vec<u8>, usize)>)
    requires
        pos <= b.len(),
    ensures
        match r {
            Some((f, next)) => parse_field(b@.skip(pos as int)) == Some(
                (f@, (next - pos) as nat),
            ) && pos <= next <= b.len(),
            None => parse_field(b@.skip(pos as int)) is None,
        },
{
    let n = match read_u64(b, pos) {
        Some(n) => n,
        None => return None,
    };
    let start = pos + 8;
    if ((b.len() - start) as u64) < n {
        return None;
    }
    let end = start + n as usize;
    let mut f: Vec<u8> = Vec::new();
    let mut i: usize = start;
    while i < end
        invariant
            start <= i <= end,
            end <= b.len(),
            f@ == b@.subrange(start as int, i as int),
        decreases end - i,
    {
        f.push(b[i]);
        i = i + 1;
        assert(f@ =~= b@.subrange(start as int, i as int));
    }
    assert(b@.skip(pos as int).subrange(8, 8 + n) =~= b@.subrange(start as int, end as int));
    Some((f, end))
}

/// Whether two byte strings are equal.
pub fn bytes_eq(a: &Vec<u8>, b: &Vec<u8>) -> (r: bool)
    ensures
        r == (a@ == b@),
{
    if a.len() != b.len() {
        return false;
    }
    let mut i: usize = 0;
    while i < a.len()
        invariant
            a.len() == b.len(),
            i <= a.len(),
            a@.subrange(0, i as int) == b@.subrange(0, i as int),
        decreases a.len() - i,
    {
        if a[i] != b[i] {
            assert(a@.subrange(0, i + 1)[i as int] != b@.subrange(0, i + 1)[i as int]);
            return false;
        }
        assert(a@.subrange(0, i + 1) =~= a@.subrange(0, i as int).push(a@[i as int]));
        assert(b@.subrange(0, i + 1) =~= b@.subrange(0, i as int).push(b@[i as int]));
        i = i + 1;
    }
    assert(a@ =~= a@.subrange(0, a.len() as int));
    assert(b@ =~= b@.subrange(0, b.len() as int));
    true
}

} // verus!
