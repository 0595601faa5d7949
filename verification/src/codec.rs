//! A byte format for the values the contracts keep in storage: fixed-width
//! big-endian integers, and records made of a field count followed by
//! length-prefixed fields.
use vstd::prelude::*;

verus! {

/// The eight big-endian bytes of `v`.
pub open spec fn u64_bytes(v: u64) -> Seq<u8> {
    seq![
        (v >> 56u64) as u8,
        (v >> 48u64) as u8,
        (v >> 40u64) as u8,
        (v >> 32u64) as u8,
        (v >> 24u64) as u8,
        (v >> 16u64) as u8,
        (v >> 8u64) as u8,
        v as u8,
    ]
}

/// The integer whose big-endian bytes are the first eight of `b`.
pub open spec fn u64_of(b: Seq<u8>) -> u64 {
    ((b[0] as u64) << 56u64) | ((b[1] as u64) << 48u64) | ((b[2] as u64) << 40u64) | ((
    b[3] as u64) << 32u64) | ((b[4] as u64) << 24u64) | ((b[5] as u64) << 16u64) | ((
    b[6] as u64) << 8u64) | (b[7] as u64)
}

/// The four big-endian bytes of `v`.
pub open spec fn u32_bytes(v: u32) -> Seq<u8> {
    seq![(v >> 24u32) as u8, (v >> 16u32) as u8, (v >> 8u32) as u8, v as u8]
}

/// The integer whose big-endian bytes are the first four of `b`.
pub open spec fn u32_of(b: Seq<u8>) -> u32 {
    ((b[0] as u32) << 24u32) | ((b[1] as u32) << 16u32) | ((b[2] as u32) << 8u32) | (b[3] as u32)
}

/// The sixteen bytes of `v`: its two's-complement form, high half first.
pub open spec fn i128_bytes(v: i128) -> Seq<u8> {
    u64_bytes(((v as u128) >> 64u128) as u64) + u64_bytes(v as u64)
}

/// The signed integer whose two's-complement halves are the first and the
/// last eight of the sixteen bytes `b`.
pub open spec fn i128_of(b: Seq<u8>) -> i128 {
    ((((u64_of(b.take(8)) as u128) << 64u128) | (u64_of(b.skip(8)) as u128)) as i128)
}

/// A boolean as one byte, 1 for true and 0 for false.
pub open spec fn bool_bytes(v: bool) -> Seq<u8> {
    if v {
        seq![1u8]
    } else {
        seq![0u8]
    }
}

pub open spec fn dec_u64(f: Seq<u8>) -> Option<u64> {
    if f.len() == 8 {
        Some(u64_of(f))
    } else {
        None
    }
}

pub open spec fn dec_u32(f: Seq<u8>) -> Option<u32> {
    if f.len() == 4 {
        Some(u32_of(f))
    } else {
        None
    }
}

pub open spec fn dec_i128(f: Seq<u8>) -> Option<i128> {
    if f.len() == 16 {
        Some(i128_of(f))
    } else {
        None
    }
}

pub open spec fn dec_bool(f: Seq<u8>) -> Option<bool> {
    if f.len() == 1 && f[0] == 0 {
        Some(false)
    } else if f.len() == 1 && f[0] == 1 {
        Some(true)
    } else {
        None
    }
}

pub open spec fn dec_u8(f: Seq<u8>) -> Option<u8> {
    if f.len() == 1 {
        Some(f[0])
    } else {
        None
    }
}

pub proof fn lemma_u64_roundtrip(v: u64)
    ensures
        u64_bytes(v).len() == 8,
        u64_of(u64_bytes(v)) == v,
        dec_u64(u64_bytes(v)) == Some(v),
{
    assert((((v >> 56u64) as u8 as u64) << 56u64) | (((v >> 48u64) as u8 as u64) << 48u64) | (((v
        >> 40u64) as u8 as u64) << 40u64) | (((v >> 32u64) as u8 as u64) << 32u64) | (((v
        >> 24u64) as u8 as u64) << 24u64) | (((v >> 16u64) as u8 as u64) << 16u64) | (((v
        >> 8u64) as u8 as u64) << 8u64) | (v as u8 as u64) == v) by (bit_vector);
}

pub proof fn lemma_u32_roundtrip(v: u32)
    ensures
        u32_bytes(v).len() == 4,
        u32_of(u32_bytes(v)) == v,
        dec_u32(u32_bytes(v)) == Some(v),
{
    assert((((v >> 24u32) as u8 as u32) << 24u32) | (((v >> 16u32) as u8 as u32) << 16u32) | (((v
        >> 8u32) as u8 as u32) << 8u32) | (v as u8 as u32) == v) by (bit_vector);
}

pub proof fn lemma_i128_roundtrip(v: i128)
    ensures
        i128_bytes(v).len() == 16,
        dec_i128(i128_bytes(v)) == Some(v),
{
    let hi = ((v as u128) >> 64u128) as u64;
    let lo = v as u64;
    lemma_u64_roundtrip(hi);
    lemma_u64_roundtrip(lo);
    let b = i128_bytes(v);
    assert(b.take(8) =~= u64_bytes(hi));
    assert(b.skip(8) =~= u64_bytes(lo));
    assert((((hi as u128) << 64u128) | (lo as u128)) as i128 == v) by (bit_vector)
        requires
            hi == ((v as u128) >> 64u128) as u64,
            lo == v as u64,
    ;
}

pub proof fn lemma_bool_roundtrip(v: bool)
    ensures
        dec_bool(bool_bytes(v)) == Some(v),
{
}

pub proof fn lemma_u8_roundtrip(v: u8)
    ensures
        dec_u8(seq![v]) == Some(v),
{
}

/// A copy of `b`.
pub fn copy_bytes(b: &[u8]) -> (res: Vec<u8>)
    ensures
        res@ == b@,
{
    let mut out: Vec<u8> = Vec::new();
    push_bytes(&mut out, b);
    assert(out@ =~= b@);
    out
}

/// Appends the big-endian bytes of `v` to `out`.
pub fn push_u64(out: &mut Vec<u8>, v: u64)
    ensures
        final(out)@ == old(out)@ + u64_bytes(v),
{
    out.push((v >> 56u64) as u8);
    out.push((v >> 48u64) as u8);
    out.push((v >> 40u64) as u8);
    out.push((v >> 32u64) as u8);
    out.push((v >> 24u64) as u8);
    out.push((v >> 16u64) as u8);
    out.push((v >> 8u64) as u8);
    out.push(v as u8);
    assert(out@ =~= old(out)@ + u64_bytes(v));
}

/// Appends the big-endian bytes of `v` to `out`.
pub fn push_u32(out: &mut Vec<u8>, v: u32)
    ensures
        final(out)@ == old(out)@ + u32_bytes(v),
{
    out.push((v >> 24u32) as u8);
    out.push((v >> 16u32) as u8);
    out.push((v >> 8u32) as u8);
    out.push(v as u8);
    assert(out@ =~= old(out)@ + u32_bytes(v));
}

/// Appends every byte of `b` to `out`.
pub fn push_bytes(out: &mut Vec<u8>, b: &[u8])
    ensures
        final(out)@ == old(out)@ + b@,
{
    let n = b.len();
    for i in 0..n
        invariant
            n == b@.len(),
            out@ == old(out)@ + b@.take(i as int),
    {
        out.push(b[i]);
        assert(b@.take(i + 1) =~= b@.take(i as int).push(b@[i as int]));
    }
    assert(b@.take(n as int) =~= b@);
}

pub fn u64_field(v: u64) -> (res: Vec<u8>)
    ensures
        res@ == u64_bytes(v),
{
    let mut out: Vec<u8> = Vec::new();
    push_u64(&mut out, v);
    assert(out@ =~= u64_bytes(v));
    out
}

pub fn u32_field(v: u32) -> (res: Vec<u8>)
    ensures
        res@ == u32_bytes(v),
{
    let mut out: Vec<u8> = Vec::new();
    push_u32(&mut out, v);
    assert(out@ =~= u32_bytes(v));
    out
}

pub fn i128_field(v: i128) -> (res: Vec<u8>)
    ensures
        res@ == i128_bytes(v),
{
    let u: u128 = v as u128;
    let mut out: Vec<u8> = Vec::new();
    push_u64(&mut out, (u >> 64u128) as u64);
    push_u64(&mut out, v as u64);
    assert(out@ =~= i128_bytes(v));
    out
}

pub fn bool_field(v: bool) -> (res: Vec<u8>)
    ensures
        res@ == bool_bytes(v),
{
    let mut out: Vec<u8> = Vec::new();
    if v {
        out.push(1u8);
    } else {
        out.push(0u8);
    }
    assert(out@ =~= bool_bytes(v));
    out
}

pub fn u8_field(v: u8) -> (res: Vec<u8>)
    ensures
        res@ == seq![v],
{
    let mut out: Vec<u8> = Vec::new();
    out.push(v);
    assert(out@ =~= seq![v]);
    out
}

/// Reads the eight big-endian bytes at `pos`.
pub fn read_u64(b: &[u8], pos: usize) -> (res: u64)
    requires
        pos + 8 <= b@.len(),
    ensures
        res == u64_of(b@.subrange(pos as int, pos + 8)),
{
    ((b[pos] as u64) << 56u64) | ((b[pos + 1] as u64) << 48u64) | ((b[pos + 2] as u64) << 40u64)
        | ((b[pos + 3] as u64) << 32u64) | ((b[pos + 4] as u64) << 24u64) | ((b[pos + 5] as u64)
        << 16u64) | ((b[pos + 6] as u64) << 8u64) | (b[pos + 7] as u64)
}

/// Reads the four big-endian bytes at `pos`.
pub fn read_u32(b: &[u8], pos: usize) -> (res: u32)
    requires
        pos + 4 <= b@.len(),
    ensures
        res == u32_of(b@.subrange(pos as int, pos + 4)),
{
    ((b[pos] as u32) << 24u32) | ((b[pos + 1] as u32) << 16u32) | ((b[pos + 2] as u32) << 8u32)
        | (b[pos + 3] as u32)
}

pub fn decode_u64(f: &[u8]) -> (res: Option<u64>)
    ensures
        res == dec_u64(f@),
{
    if f.len() == 8 {
        let v = read_u64(f, 0);
        assert(f@.subrange(0, 8) =~= f@);
        Some(v)
    } else {
        None
    }
}

pub fn decode_u32(f: &[u8]) -> (res: Option<u32>)
    ensures
        res == dec_u32(f@),
{
    if f.len() == 4 {
        let v = read_u32(f, 0);
        assert(f@.subrange(0, 4) =~= f@);
        Some(v)
    } else {
        None
    }
}

pub fn decode_i128(f: &[u8]) -> (res: Option<i128>)
    ensures
        res == dec_i128(f@),
{
    if f.len() == 16 {
        let hi = read_u64(f, 0);
        let lo = read_u64(f, 8);
        assert(f@.subrange(0, 8) =~= f@.take(8));
        assert(f@.subrange(8, 16) =~= f@.skip(8));
        Some((((hi as u128) << 64u128) | (lo as u128)) as i128)
    } else {
        None
    }
}

pub fn decode_bool(f: &[u8]) -> (res: Option<bool>)
    ensures
        res == dec_bool(f@),
{
    if f.len() == 1 && f[0] == 0 {
        Some(false)
    } else if f.len() == 1 && f[0] == 1 {
        Some(true)
    } else {
        None
    }
}

pub fn decode_u8(f: &[u8]) -> (res: Option<u8>)
    ensures
        res == dec_u8(f@),
{
    if f.len() == 1 {
        Some(f[0])
    } else {
        None
    }
}


/// The byte strings held by a vector of byte vectors.
pub open spec fn views(v: Seq<Vec<u8>>) -> Seq<Seq<u8>> {
    Seq::new(v.len(), |i: int| v[i]@)
}

pub proof fn lemma_views_push(s: Seq<Vec<u8>>, x: Vec<u8>)
    ensures
        views(s.push(x)) == views(s).push(x@),
{
    assert(views(s.push(x)) =~= views(s).push(x@));
}

/// Each field preceded by its length as eight big-endian bytes.
pub open spec fn chunks(fs: Seq<Seq<u8>>) -> Seq<u8>
    decreases fs.len(),
{
    if fs.len() == 0 {
        Seq::empty()
    } else {
        u64_bytes(fs[0].len() as u64) + fs[0] + chunks(fs.drop_first())
    }
}

/// A record: the number of fields as eight big-endian bytes, then the fields,
/// each preceded by its length.
#[verifier::opaque]
pub open spec fn record(fs: Seq<Seq<u8>>) -> Seq<u8> {
    u64_bytes(fs.len() as u64) + chunks(fs)
}

/// Whether the number of fields and every field's length fit in 64 bits.
pub open spec fn fits(fs: Seq<Seq<u8>>) -> bool {
    &&& fs.len() <= u64::MAX
    &&& forall|i: int| 0 <= i < fs.len() ==> #[trigger] fs[i].len() <= u64::MAX
}

/// Splits `b` into exactly `n` length-prefixed fields that use up all of it.
pub open spec fn parse_chunks(b: Seq<u8>, n: nat) -> Option<Seq<Seq<u8>>>
    decreases n,
{
    if n == 0 {
        if b.len() == 0 {
            Some(Seq::empty())
        } else {
            None
        }
    } else if b.len() < 8 {
        None
    } else {
        let l = u64_of(b.take(8)) as int;
        if b.len() - 8 < l {
            None
        } else {
            match parse_chunks(b.skip(8 + l), (n - 1) as nat) {
                Some(rest) => Some(seq![b.subrange(8, 8 + l)] + rest),
                None => None,
            }
        }
    }
}

/// The fields of the record `b`, or `None` when `b` is not a record.
#[verifier::opaque]
pub open spec fn parse_record(b: Seq<u8>) -> Option<Seq<Seq<u8>>> {
    if b.len() < 8 {
        None
    } else {
        parse_chunks(b.skip(8), u64_of(b.take(8)) as nat)
    }
}

#[verifier::spinoff_prover]
proof fn lemma_parse_chunks_roundtrip(fs: Seq<Seq<u8>>)
    requires
        fits(fs),
    ensures
        parse_chunks(chunks(fs), fs.len()) == Some(fs),
    decreases fs.len(),
{
    if fs.len() > 0 {
        let f = fs[0];
        let rest = fs.drop_first();
        assert(fits(rest)) by {
            assert forall|i: int| 0 <= i < rest.len() implies #[trigger] rest[i].len() <= u64::MAX by {
                assert(rest[i] == fs[i + 1]);
            }
        }
        lemma_parse_chunks_roundtrip(rest);
        lemma_u64_roundtrip(f.len() as u64);
        let b = chunks(fs);
        assert(b == u64_bytes(f.len() as u64) + f + chunks(rest));
        assert(b.take(8) =~= u64_bytes(f.len() as u64));
        assert(b.skip(8 + f.len() as int) =~= chunks(rest));
        assert(b.subrange(8, 8 + f.len() as int) =~= f);
        assert(seq![f] + rest =~= fs);
    }
}

/// Reading a record back gives the fields it was made of.
pub proof fn lemma_record_roundtrip(fs: Seq<Seq<u8>>)
    requires
        fits(fs),
    ensures
        parse_record(record(fs)) == Some(fs),
{
    reveal(record);
    reveal(parse_record);
    lemma_u64_roundtrip(fs.len() as u64);
    lemma_parse_chunks_roundtrip(fs);
    let b = record(fs);
    assert(b.take(8) =~= u64_bytes(fs.len() as u64));
    assert(b.skip(8) =~= chunks(fs));
}

proof fn lemma_chunks_push(fs: Seq<Seq<u8>>, f: Seq<u8>)
    ensures
        chunks(fs.push(f)) == chunks(fs) + u64_bytes(f.len() as u64) + f,
    decreases fs.len(),
{
    if fs.len() == 0 {
        let one = fs.push(f);
        assert(one.drop_first() =~= Seq::<Seq<u8>>::empty());
        assert(one[0] == f);
        assert(chunks(one.drop_first()) =~= Seq::<u8>::empty());
        assert(chunks(fs) =~= Seq::<u8>::empty());
        assert(chunks(fs.push(f)) =~= chunks(fs) + u64_bytes(f.len() as u64) + f);
    } else {
        assert(fs.push(f).drop_first() =~= fs.drop_first().push(f));
        lemma_chunks_push(fs.drop_first(), f);
        assert(chunks(fs.push(f)) =~= chunks(fs) + u64_bytes(f.len() as u64) + f);
    }
}

/// The record made of `fields`.
pub fn write_record(fields: &Vec<Vec<u8>>) -> (res: Vec<u8>)
    ensures
        res@ == record(views(fields@)),
        fits(views(fields@)),
{
    reveal(record);
    let n = fields.len();
    let mut out: Vec<u8> = Vec::new();
    push_u64(&mut out, n as u64);
    let ghost fs = views(fields@);
    for i in 0..n
        invariant
            n == fields@.len(),
            fs == views(fields@),
            out@ == u64_bytes(n as u64) + chunks(fs.take(i as int)),
            forall|j: int| 0 <= j < i ==> #[trigger] fs[j].len() <= u64::MAX,
    {
        let f = &fields[i];
        assert(fs[i as int] == f@);
        assert(f@.len() == f.len());
        push_u64(&mut out, f.len() as u64);
        push_bytes(&mut out, f.as_slice());
        proof {
            assert(fs.take(i + 1) =~= fs.take(i as int).push(fs[i as int]));
            assert(fs[i as int] == f@);
            lemma_chunks_push(fs.take(i as int), f@);
        }
        assert(out@ =~= u64_bytes(n as u64) + chunks(fs.take(i + 1)));
    }
    assert(fs.take(n as int) =~= fs);
    assert(out@ =~= record(fs));
    assert(fs.len() == fields.len());
    out
}

/// The fields of the record `b`, or `None` when `b` is not a record.
pub fn read_record(b: &[u8]) -> (res: Option<Vec<Vec<u8>>>)
    ensures
        match res {
            Some(fs) => parse_record(b@) == Some(views(fs@)),
            None => parse_record(b@) is None,
        },
{
    reveal(parse_record);
    let len = b.len();
    if len < 8 {
        return None;
    }
    let n = read_u64(b, 0);
    assert(b@.subrange(0, 8) =~= b@.take(8));
    let mut pos: usize = 8;
    let mut i: u64 = 0;
    let mut out: Vec<Vec<u8>> = Vec::new();
    while i < n
        invariant
            len == b@.len(),
            8 <= pos <= len,
            i <= n,
            n == u64_of(b@.take(8)),
            parse_record(b@) == match parse_chunks(b@.skip(pos as int), (n - i) as nat) {
                Some(rest) => Some(views(out@) + rest),
                None => None::<Seq<Seq<u8>>>,
            },
        decreases n - i,
    {
        let ghost s = b@.skip(pos as int);
        if len - pos < 8 {
            return None;
        }
        let l = read_u64(b, pos);
        assert(b@.subrange(pos as int, pos + 8) =~= s.take(8));
        if ((len - pos - 8) as u64) < l {
            return None;
        }
        let start = pos + 8;
        let end = start + l as usize;
        let mut f: Vec<u8> = Vec::new();
        push_bytes(&mut f, &b[start..end]);
        proof {
            assert(f@ =~= s.subrange(8, 8 + l));
            assert(s.skip(8 + l) =~= b@.skip(end as int));
        }
        let ghost prev = views(out@);
        out.push(f);
        proof {
            assert(views(out@) =~= prev.push(f@));
            assert forall|rest: Seq<Seq<u8>>| prev + (seq![f@] + rest) =~= views(out@) + rest by {}
        }
        pos = end;
        i = i + 1;
    }
    if pos == len {
        assert(b@.skip(pos as int) =~= Seq::<u8>::empty());
        assert(views(out@) + Seq::<Seq<u8>>::empty() =~= views(out@));
        Some(out)
    } else {
        None
    }
}

} // verus!
