use vstd::prelude::*;
use crate::error::VoteError;
use crate::ledger::{Flavour, FlavourAccount};

verus! {

// ---------------------------------------------------------------------------
// Byte-level model: little-endian fixed-width integers.
// ---------------------------------------------------------------------------

/// The four little-endian bytes of a 32-bit integer.
#[verifier::opaque]
pub open spec fn le4(x: u32) -> Seq<u8> {
    seq![
        (x % 256) as u8,
        ((x / 256) % 256) as u8,
        ((x / 65536) % 256) as u8,
        ((x / 16777216) % 256) as u8,
    ]
}

/// The 32-bit integer that four little-endian bytes carry.
#[verifier::opaque]
pub open spec fn u32_le(b: Seq<u8>) -> u32
    recommends
        b.len() == 4,
{
    (b[0] + b[1] * 256 + b[2] * 65536 + b[3] * 16777216) as u32
}

/// The eight little-endian bytes of a 64-bit integer.
#[verifier::opaque]
pub open spec fn le8(x: u64) -> Seq<u8> {
    seq![
        (x % 256) as u8,
        ((x / 256) % 256) as u8,
        ((x / 65536) % 256) as u8,
        ((x / 16777216) % 256) as u8,
        ((x / 4294967296) % 256) as u8,
        ((x / 1099511627776) % 256) as u8,
        ((x / 281474976710656) % 256) as u8,
        ((x / 72057594037927936) % 256) as u8,
    ]
}

/// The 64-bit integer that eight little-endian bytes carry.
#[verifier::opaque]
pub open spec fn u64_le(b: Seq<u8>) -> u64
    recommends
        b.len() == 8,
{
    (b[0] + b[1] * 256 + b[2] * 65536 + b[3] * 16777216 + b[4] * 4294967296
        + b[5] * 1099511627776 + b[6] * 281474976710656 + b[7] * 72057594037927936) as u64
}

/// The four bytes of a 32-bit integer are four bytes.
pub broadcast proof fn lemma_le4_len(x: u32)
    ensures
        (#[trigger] le4(x)).len() == 4,
{
    reveal(le4);
}

/// The eight bytes of a 64-bit integer are eight bytes.
pub broadcast proof fn lemma_le8_len(x: u64)
    ensures
        (#[trigger] le8(x)).len() == 8,
{
    reveal(le8);
}

pub proof fn lemma_u32_le_of_le4(x: u32)
    ensures
        u32_le(le4(x)) == x,
{
    reveal(le4);
    reveal(u32_le);
    assert(x % 256 + ((x / 256) % 256) * 256 + ((x / 65536) % 256) * 65536 + ((x / 16777216)
        % 256) * 16777216 == x) by (bit_vector);
}

pub proof fn lemma_u64_le_of_le8(x: u64)
    ensures
        u64_le(le8(x)) == x,
{
    reveal(le8);
    reveal(u64_le);
    assert(x % 256 + ((x / 256) % 256) * 256 + ((x / 65536) % 256) * 65536 + ((x / 16777216)
        % 256) * 16777216 + ((x / 4294967296) % 256) * 4294967296 + ((x / 1099511627776) % 256)
        * 1099511627776 + ((x / 281474976710656) % 256) * 281474976710656 + ((x
        / 72057594037927936) % 256) * 72057594037927936 == x) by (bit_vector);
}

// ---------------------------------------------------------------------------
// The wire schema: a 32-bit length prefix, then 16 bytes per option
// (tally first, then id), all little-endian. Trailing buffer bytes are not
// part of the encoding: a host buffer may be larger than its content.
// ---------------------------------------------------------------------------

/// The 16 bytes of one option.
pub open spec fn enc_flavour(f: Flavour) -> Seq<u8> {
    le8(f.vote_count) + le8(f.id)
}

/// The options of a ledger, in order, 16 bytes each.
pub open spec fn enc_flavours(s: Seq<Flavour>) -> Seq<u8>
    decreases s.len(),
{
    if s.len() == 0 {
        Seq::empty()
    } else {
        enc_flavour(s[0]) + enc_flavours(s.drop_first())
    }
}

/// The canonical bytes of a ledger: length prefix, then the options.
pub open spec fn enc_ledger(s: Seq<Flavour>) -> Seq<u8>
    recommends
        s.len() <= u32::MAX,
{
    le4(s.len() as u32) + enc_flavours(s)
}

/// The option that the first 16 bytes carry.
pub open spec fn dec_flavour(b: Seq<u8>) -> Flavour
    recommends
        b.len() >= 16,
{
    Flavour { vote_count: u64_le(b.subrange(0, 8)), id: u64_le(b.subrange(8, 16)) }
}

/// The first `n` options that a byte sequence carries.
pub open spec fn dec_flavours(b: Seq<u8>, n: nat) -> Seq<Flavour>
    recommends
        b.len() >= 16 * n,
    decreases n,
{
    if n == 0 {
        Seq::empty()
    } else {
        seq![dec_flavour(b)] + dec_flavours(b.skip(16), (n - 1) as nat)
    }
}

/// The ledger a buffer carries: `None` when the buffer is shorter than its
/// length prefix demands (truncated data, or no prefix at all).
pub open spec fn dec_ledger(b: Seq<u8>) -> Option<Seq<Flavour>> {
    if b.len() < 4 {
        None
    } else {
        let n = u32_le(b.subrange(0, 4));
        if b.len() >= 4 + 16 * (n as int) {
            Some(dec_flavours(b.skip(4), n as nat))
        } else {
            None
        }
    }
}

/// The canonical bytes of a voter's check record.
pub open spec fn enc_check(voted_for: u32) -> Seq<u8> {
    le4(voted_for)
}

/// The vote a check-record buffer carries: `None` when it has no room for one.
pub open spec fn dec_check(b: Seq<u8>) -> Option<u32> {
    if b.len() < 4 {
        None
    } else {
        Some(u32_le(b.subrange(0, 4)))
    }
}

// ---------------------------------------------------------------------------
// Facts about the schema.
// ---------------------------------------------------------------------------

/// One option encodes to 16 bytes.
pub proof fn lemma_enc_flavour_len(f: Flavour)
    ensures
        enc_flavour(f).len() == 16,
{
    lemma_le8_len(f.vote_count);
    lemma_le8_len(f.id);
}

pub proof fn lemma_dec_flavours_len(b: Seq<u8>, n: nat)
    ensures
        dec_flavours(b, n).len() == n,
    decreases n,
{
    if n > 0 {
        lemma_dec_flavours_len(b.skip(16), (n - 1) as nat);
    }
}

pub proof fn lemma_enc_flavours_len(s: Seq<Flavour>)
    ensures
        enc_flavours(s).len() == 16 * s.len(),
    decreases s.len(),
{
    if s.len() > 0 {
        lemma_enc_flavour_len(s[0]);
        lemma_enc_flavours_len(s.drop_first());
    }
}

/// Appending an option appends its 16 bytes.
#[verifier::rlimit(50)]
pub proof fn lemma_enc_flavours_push(s: Seq<Flavour>, f: Flavour)
    ensures
        enc_flavours(s.push(f)) == enc_flavours(s) + enc_flavour(f),
    decreases s.len(),
{
    let t = s.push(f);
    lemma_enc_flavour_len(f);
    if s.len() == 0 {
        assert(t[0] == f);
        assert(t.drop_first() =~= Seq::<Flavour>::empty());
        assert(enc_flavours(t.drop_first()) == Seq::<u8>::empty());
        assert(enc_flavours(s) == Seq::<u8>::empty());
        assert(enc_flavours(t) == enc_flavour(f) + Seq::<u8>::empty());
        assert(enc_flavour(f) + Seq::<u8>::empty() =~= Seq::<u8>::empty() + enc_flavour(f));
    } else {
        assert(t[0] == s[0]);
        assert(t.drop_first() =~= s.drop_first().push(f));
        lemma_enc_flavours_push(s.drop_first(), f);
        assert(enc_flavours(t) == enc_flavour(s[0]) + (enc_flavours(s.drop_first()) + enc_flavour(
            f,
        )));
        assert(enc_flavour(s[0]) + (enc_flavours(s.drop_first()) + enc_flavour(f)) =~= (enc_flavour(
            s[0],
        ) + enc_flavours(s.drop_first())) + enc_flavour(f));
    }
}

pub proof fn lemma_dec_flavour_of_enc(f: Flavour, tail: Seq<u8>)
    ensures
        dec_flavour(enc_flavour(f) + tail) == f,
{
    lemma_le8_len(f.vote_count);
    lemma_le8_len(f.id);
    let b = enc_flavour(f) + tail;
    assert(b.subrange(0, 8) =~= le8(f.vote_count));
    assert(b.subrange(8, 16) =~= le8(f.id));
    lemma_u64_le_of_le8(f.vote_count);
    lemma_u64_le_of_le8(f.id);
}

/// Decoding what was encoded gives the options back, whatever follows them.
pub proof fn lemma_dec_flavours_of_enc(s: Seq<Flavour>, tail: Seq<u8>)
    ensures
        dec_flavours(enc_flavours(s) + tail, s.len()) == s,
    decreases s.len(),
{
    if s.len() > 0 {
        let b = enc_flavours(s) + tail;
        lemma_enc_flavour_len(s[0]);
        lemma_dec_flavour_of_enc(s[0], enc_flavours(s.drop_first()) + tail);
        assert(b =~= enc_flavour(s[0]) + (enc_flavours(s.drop_first()) + tail));
        assert(dec_flavour(b) == s[0]);
        assert(b.skip(16) =~= enc_flavours(s.drop_first()) + tail);
        lemma_dec_flavours_of_enc(s.drop_first(), tail);
        assert(dec_flavours(b, s.len()) =~= s);
    }
}

/// Round trip: decoding the canonical encoding of any ledger gives it back,
/// even with trailing buffer bytes after the encoding.
pub proof fn lemma_round_trip_with_tail(s: Seq<Flavour>, tail: Seq<u8>)
    requires
        s.len() <= u32::MAX,
    ensures
        dec_ledger(enc_ledger(s) + tail) == Some(s),
{
    let b = enc_ledger(s) + tail;
    lemma_le4_len(s.len() as u32);
    lemma_enc_flavours_len(s);
    assert(b.subrange(0, 4) =~= le4(s.len() as u32));
    lemma_u32_le_of_le4(s.len() as u32);
    assert(u32_le(b.subrange(0, 4)) == s.len() as u32);
    assert(b.skip(4) =~= enc_flavours(s) + tail);
    lemma_dec_flavours_of_enc(s, tail);
}

/// Round trip: decoding the canonical encoding of any ledger gives it back.
pub proof fn lemma_round_trip(s: Seq<Flavour>)
    requires
        s.len() <= u32::MAX,
    ensures
        dec_ledger(enc_ledger(s)) == Some(s),
{
    lemma_round_trip_with_tail(s, Seq::empty());
    assert(enc_ledger(s) + Seq::<u8>::empty() =~= enc_ledger(s));
}

/// A step of decoding: the first `n + 1` options are the first `n` and then
/// the one at byte offset `16 * n`.
pub proof fn lemma_dec_flavours_snoc(b: Seq<u8>, n: nat)
    requires
        b.len() >= 16 * (n + 1),
    ensures
        dec_flavours(b, n + 1) == dec_flavours(b, n).push(dec_flavour(b.skip(16 * n as int))),
    decreases n,
{
    if n == 0 {
        assert(b.skip(0) =~= b);
        assert(dec_flavours(b.skip(16), 0) == Seq::<Flavour>::empty());
        assert(dec_flavours(b, 0) == Seq::<Flavour>::empty());
        assert(dec_flavours(b, 1) == seq![dec_flavour(b)] + Seq::<Flavour>::empty());
        assert(dec_flavours(b, 1) =~= dec_flavours(b, 0).push(dec_flavour(b)));
    } else {
        lemma_dec_flavours_snoc(b.skip(16), (n - 1) as nat);
        assert(b.skip(16).skip(16 * (n - 1) as int) =~= b.skip(16 * n as int));
        assert(dec_flavours(b, n + 1) =~= dec_flavours(b, n).push(
            dec_flavour(b.skip(16 * n as int)),
        ));
    }
}

// ---------------------------------------------------------------------------
// Executable codec.
// ---------------------------------------------------------------------------

fn read_u32_le(b: &Vec<u8>, off: usize) -> (r: u32)
    requires
        off + 4 <= b@.len(),
    ensures
        r == u32_le(b@.subrange(off as int, off as int + 4)),
{
    let blen = b.len();
    assert(off + 4 <= blen);
    let r = (b[off] as u32) + (b[off + 1] as u32) * 256 + (b[off + 2] as u32) * 65536 + (b[off + 3]
        as u32) * 16777216;
    proof {
        reveal(u32_le);
        let s = b@.subrange(off as int, off as int + 4);
        assert(s[0] == b@[off as int] && s[1] == b@[off as int + 1] && s[2] == b@[off as int + 2]
            && s[3] == b@[off as int + 3]);
    }
    r
}

fn read_u64_le(b: &Vec<u8>, off: usize) -> (r: u64)
    requires
        off + 8 <= b@.len(),
    ensures
        r == u64_le(b@.subrange(off as int, off as int + 8)),
{
    let blen = b.len();
    assert(off + 8 <= blen);
    let r = (b[off] as u64) + (b[off + 1] as u64) * 256 + (b[off + 2] as u64) * 65536 + (b[off + 3]
        as u64) * 16777216 + (b[off + 4] as u64) * 4294967296 + (b[off + 5] as u64) * 1099511627776
        + (b[off + 6] as u64) * 281474976710656 + (b[off + 7] as u64) * 72057594037927936;
    proof {
        reveal(u64_le);
        let s = b@.subrange(off as int, off as int + 8);
        assert(s[0] == b@[off as int] && s[1] == b@[off as int + 1] && s[2] == b@[off as int + 2]
            && s[3] == b@[off as int + 3] && s[4] == b@[off as int + 4] && s[5] == b@[off as int
            + 5] && s[6] == b@[off as int + 6] && s[7] == b@[off as int + 7]);
    }
    r
}

fn push_u32_le(out: &mut Vec<u8>, x: u32)
    ensures
        final(out)@ == old(out)@ + le4(x),
{
    out.push((x % 256) as u8);
    out.push(((x / 256) % 256) as u8);
    out.push(((x / 65536) % 256) as u8);
    out.push(((x / 16777216) % 256) as u8);
    proof {
        reveal(le4);
        assert(out@ =~= old(out)@ + le4(x));
    }
}

fn push_u64_le(out: &mut Vec<u8>, x: u64)
    ensures
        final(out)@ == old(out)@ + le8(x),
{
    out.push((x % 256) as u8);
    out.push(((x / 256) % 256) as u8);
    out.push(((x / 65536) % 256) as u8);
    out.push(((x / 16777216) % 256) as u8);
    out.push(((x / 4294967296) % 256) as u8);
    out.push(((x / 1099511627776) % 256) as u8);
    out.push(((x / 281474976710656) % 256) as u8);
    out.push(((x / 72057594037927936) % 256) as u8);
    proof {
        reveal(le8);
        assert(out@ =~= old(out)@ + le8(x));
    }
}

/// Produce the canonical bytes of a ledger.
pub fn encode_ledger(a: &FlavourAccount) -> (r: Vec<u8>)
    requires
        a@.len() <= u32::MAX,
    ensures
        r@ == enc_ledger(a@),
{
    let n = a.flavours.len();
    let mut out: Vec<u8> = Vec::new();
    push_u32_le(&mut out, n as u32);
    let mut i: usize = 0;
    while i < n
        invariant
            i <= n,
            n == a@.len(),
            n <= u32::MAX,
            out@ == le4(n as u32) + enc_flavours(a@.take(i as int)),
        decreases n - i,
    {
        let f = a.flavours[i];
        push_u64_le(&mut out, f.vote_count);
        push_u64_le(&mut out, f.id);
        proof {
            lemma_enc_flavours_push(a@.take(i as int), a@[i as int]);
            assert(a@.take(i as int).push(a@[i as int]) =~= a@.take(i as int + 1));
            assert(out@ =~= le4(n as u32) + enc_flavours(a@.take(i as int + 1)));
        }
        i += 1;
    }
    proof {
        assert(a@.take(n as int) =~= a@);
        assert(out@ =~= le4(n as u32) + enc_flavours(a@));
    }
    out
}

/// Read the ledger a buffer carries; reject a buffer whose bytes do not
/// match the schema.
pub fn decode_ledger(b: &Vec<u8>) -> (r: Result<FlavourAccount, VoteError>)
    ensures
        r is Ok ==> dec_ledger(b@) == Some(r->Ok_0@) && r->Ok_0@.len() <= u32::MAX,
        r is Err ==> dec_ledger(b@) is None && r->Err_0 == VoteError::MalformedLedger,
{
    if b.len() < 4 {
        return Err(VoteError::MalformedLedger);
    }
    let n = read_u32_le(b, 0);
    if (b.len() as u64) < 4 + 16 * (n as u64) {
        return Err(VoteError::MalformedLedger);
    }
    let mut flavours: Vec<Flavour> = Vec::new();
    let mut i: usize = 0;
    while i < n as usize
        invariant
            i <= n as usize,
            usize::MAX >= b@.len() >= 4 + 16 * (n as int),
            n == u32_le(b@.subrange(0, 4)),
            flavours@ == dec_flavours(b@.skip(4), i as nat),
            flavours@.len() == i,
        decreases n as usize - i,
    {
        let off: usize = 4 + 16 * i;
        let vote_count = read_u64_le(b, off);
        let id = read_u64_le(b, off + 8);
        flavours.push(Flavour { vote_count, id });
        proof {
            let c = b@.skip(4);
            lemma_dec_flavours_snoc(c, i as nat);
            let chunk = c.skip(16 * i as int);
            assert(chunk.subrange(0, 8) =~= b@.subrange(off as int, off as int + 8));
            assert(chunk.subrange(8, 16) =~= b@.subrange(off as int + 8, off as int + 16));
            assert(flavours@ =~= dec_flavours(c, (i + 1) as nat));
        }
        i += 1;
    }
    proof {
        assert(dec_ledger(b@) == Some(flavours@));
    }
    Ok(FlavourAccount { flavours })
}

/// Produce the canonical bytes of a check record.
pub fn encode_check(voted_for: u32) -> (r: Vec<u8>)
    ensures
        r@ == enc_check(voted_for),
{
    let mut out: Vec<u8> = Vec::new();
    push_u32_le(&mut out, voted_for);
    proof {
        assert(out@ =~= enc_check(voted_for));
    }
    out
}

/// Read the vote a check-record buffer carries; reject one with no room.
pub fn decode_check(b: &Vec<u8>) -> (r: Result<u32, VoteError>)
    ensures
        r is Ok ==> dec_check(b@) == Some(r->Ok_0),
        r is Err ==> dec_check(b@) is None && r->Err_0 == VoteError::MalformedLedger,
{
    if b.len() < 4 {
        return Err(VoteError::MalformedLedger);
    }
    Ok(read_u32_le(b, 0))
}

/// Copy `prefix` over the front of `data`, keeping the tail.
pub fn overwrite_prefix(data: &Vec<u8>, prefix: &Vec<u8>) -> (r: Vec<u8>)
    requires
        prefix@.len() <= data@.len(),
    ensures
        r@ == prefix@ + data@.skip(prefix@.len() as int),
        r@.len() == data@.len(),
{
    let mut out: Vec<u8> = Vec::new();
    let mut i: usize = 0;
    while i < prefix.len()
        invariant
            i <= prefix@.len() <= data@.len(),
            out@ == prefix@.take(i as int),
        decreases prefix@.len() - i,
    {
        out.push(prefix[i]);
        i += 1;
    }
    proof {
        assert(prefix@.take(prefix@.len() as int) =~= prefix@);
    }
    let mut j: usize = prefix.len();
    while j < data.len()
        invariant
            prefix@.len() <= j <= data@.len(),
            out@ == prefix@ + data@.subrange(prefix@.len() as int, j as int),
        decreases data@.len() - j,
    {
        out.push(data[j]);
        proof {
            assert(out@ =~= prefix@ + data@.subrange(prefix@.len() as int, j as int + 1));
        }
        j += 1;
    }
    proof {
        assert(out@ =~= prefix@ + data@.skip(prefix@.len() as int));
    }
    out
}

} // verus!
