//! The mathematical model of the byte layouts: little-endian lengths, the
//! footer of the chained scheme, and what it means for a buffer to hold a
//! tied segment or to untie into a remainder and a plaintext.

use vstd::prelude::*;

use crate::desc::{FOOTER_CIPHER_BYTES, FOOTER_PLAIN_BYTES, MACBYTES, NONCEBYTES};
use crate::sodium::sealed;

verus! {

/// The fixed nonce of the per-chunk scheme: `NONCEBYTES` bytes of 255.
pub open spec fn static_nonce_seq() -> Seq<u8> {
    Seq::new(NONCEBYTES as nat, |i: int| 255u8)
}

/// The eight bytes of `x`, least significant first.
pub open spec fn le64(x: u64) -> Seq<u8> {
    seq![
        (x & 0xff) as u8,
        ((x >> 8) & 0xff) as u8,
        ((x >> 16) & 0xff) as u8,
        ((x >> 24) & 0xff) as u8,
        ((x >> 32) & 0xff) as u8,
        ((x >> 40) & 0xff) as u8,
        ((x >> 48) & 0xff) as u8,
        ((x >> 56) & 0xff) as u8,
    ]
}

/// The value of eight bytes read least significant first.
pub open spec fn le64_val(s: Seq<u8>) -> u64
    recommends
        s.len() == 8,
{
    (s[0] as u64) | ((s[1] as u64) << 8) | ((s[2] as u64) << 16) | ((s[3] as u64) << 24)
        | ((s[4] as u64) << 32) | ((s[5] as u64) << 40) | ((s[6] as u64) << 48)
        | ((s[7] as u64) << 56)
}

/// Reading back the little-endian encoding of `x` gives `x`.
pub proof fn lemma_le64_round_trip(x: u64)
    ensures
        le64_val(le64(x)) == x,
{
    assert((((x & 0xff) as u8) as u64) | (((((x >> 8) & 0xff) as u8) as u64) << 8)
        | (((((x >> 16) & 0xff) as u8) as u64) << 16) | (((((x >> 24) & 0xff) as u8) as u64) << 24)
        | (((((x >> 32) & 0xff) as u8) as u64) << 32) | (((((x >> 40) & 0xff) as u8) as u64) << 40)
        | (((((x >> 48) & 0xff) as u8) as u64) << 48) | (((((x >> 56) & 0xff) as u8) as u64) << 56)
        == x) by (bit_vector);
}

/// Encoding the value of eight bytes gives back those bytes.
pub proof fn lemma_le64_inverse(s: Seq<u8>)
    requires
        s.len() == 8,
    ensures
        le64(le64_val(s)) == s,
{
    let b0 = s[0];
    let b1 = s[1];
    let b2 = s[2];
    let b3 = s[3];
    let b4 = s[4];
    let b5 = s[5];
    let b6 = s[6];
    let b7 = s[7];
    let x = (b0 as u64) | ((b1 as u64) << 8) | ((b2 as u64) << 16) | ((b3 as u64) << 24)
        | ((b4 as u64) << 32) | ((b5 as u64) << 40) | ((b6 as u64) << 48) | ((b7 as u64) << 56);
    assert((x & 0xff) as u8 == b0 && ((x >> 8) & 0xff) as u8 == b1 && ((x >> 16) & 0xff) as u8
        == b2 && ((x >> 24) & 0xff) as u8 == b3 && ((x >> 32) & 0xff) as u8 == b4 && ((x >> 40)
        & 0xff) as u8 == b5 && ((x >> 48) & 0xff) as u8 == b6 && ((x >> 56) & 0xff) as u8 == b7)
        by (bit_vector)
        requires
            x == (b0 as u64) | ((b1 as u64) << 8) | ((b2 as u64) << 16) | ((b3 as u64) << 24)
                | ((b4 as u64) << 32) | ((b5 as u64) << 40) | ((b6 as u64) << 48)
                | ((b7 as u64) << 56),
    ;
    assert(le64(le64_val(s)) =~= s);
}

/// The footer of a segment before sealing: the body's nonce, then the
/// body's length in little-endian.
pub open spec fn footer_plain_of(nonce: Seq<u8>, body_len: u64) -> Seq<u8> {
    nonce + le64(body_len)
}

/// The nonce that seals a footer: the last `NONCEBYTES` bytes of everything
/// that stands before the footer.
pub open spec fn knot_nonce(prefix: Seq<u8>) -> Seq<u8>
    recommends
        prefix.len() >= NONCEBYTES,
{
    prefix.subrange(prefix.len() - NONCEBYTES as int, prefix.len() as int)
}

/// `s` is the complete sealed form of one segment: the body sealed under
/// `n`, followed by the footer sealed under the knot nonce taken from the
/// body's own tail.
pub open spec fn is_tied(key: Seq<u8>, n: Seq<u8>, p: Seq<u8>, s: Seq<u8>) -> bool {
    let body = sealed(key, n, p);
    let foot = sealed(key, knot_nonce(body), footer_plain_of(n, body.len() as u64));
    &&& n.len() == NONCEBYTES
    &&& body.len() == p.len() + MACBYTES
    &&& body.len() > NONCEBYTES
    &&& body.len() <= u64::MAX
    &&& foot.len() == FOOTER_CIPHER_BYTES
    &&& s == body + foot
}

/// Buffer `b` unties into the remainder `rest` and the plaintext `p`, the
/// body having been sealed under nonce `n`: the tail of `b` is a sealed
/// footer naming `n` and the body length, its knot nonce taken from the
/// last bytes before it.
pub open spec fn unties_to_with(
    key: Seq<u8>,
    b: Seq<u8>,
    rest: Seq<u8>,
    n: Seq<u8>,
    p: Seq<u8>,
) -> bool {
    let body = sealed(key, n, p);
    let foot = sealed(key, knot_nonce(rest + body), footer_plain_of(n, body.len() as u64));
    &&& n.len() == NONCEBYTES
    &&& body.len() == p.len() + MACBYTES
    &&& body.len() <= u64::MAX
    &&& foot.len() == FOOTER_CIPHER_BYTES
    &&& rest.len() + body.len() >= NONCEBYTES
    &&& b == rest + body + foot
}

/// Buffer `b` unties into the remainder `rest` and the plaintext `p` under
/// some body nonce.
pub open spec fn unties_to(key: Seq<u8>, b: Seq<u8>, rest: Seq<u8>, p: Seq<u8>) -> bool {
    exists|n: Seq<u8>| unties_to_with(key, b, rest, n, p)
}

/// The tail of `b` is a sealed footer (opened with the knot nonce taken
/// from the bytes before it) whose plaintext `fp` names a body longer than
/// everything before the footer.
pub open spec fn footer_names_overlong_body(key: Seq<u8>, b: Seq<u8>, fp: Seq<u8>) -> bool {
    &&& b.subrange(b.len() - FOOTER_CIPHER_BYTES as int, b.len() as int) == sealed(
        key,
        knot_nonce(b.subrange(0, b.len() - FOOTER_CIPHER_BYTES as int)),
        fp,
    )
    &&& fp.len() == FOOTER_PLAIN_BYTES
    &&& le64_val(fp.subrange(NONCEBYTES as int, fp.len() as int)) > b.len()
        - FOOTER_CIPHER_BYTES as int
}

/// Untying `b` runs out of bytes: either `b` cannot hold a sealed footer
/// and a knot nonce at all, or its footer opens and names a body longer
/// than everything before the footer.
pub open spec fn untie_underrun(key: Seq<u8>, b: Seq<u8>) -> bool {
    ||| b.len() < FOOTER_CIPHER_BYTES + NONCEBYTES
    ||| exists|fp: Seq<u8>| footer_names_overlong_body(key, b, fp)
}

/// Chained round trip: a segment tied from plaintext `p` under `key`, and
/// appended after any already-written bytes `rest`, unties from the tail to
/// exactly `rest` and `p`.
pub proof fn lemma_tie_then_untie(key: Seq<u8>, n: Seq<u8>, p: Seq<u8>, s: Seq<u8>, rest: Seq<u8>)
    requires
        is_tied(key, n, p, s),
    ensures
        unties_to_with(key, rest + s, rest, n, p),
        unties_to(key, rest + s, rest, p),
{
    let body = sealed(key, n, p);
    let foot = sealed(key, knot_nonce(body), footer_plain_of(n, body.len() as u64));
    assert(knot_nonce(rest + body) =~= knot_nonce(body));
    assert(rest + s =~= rest + body + foot);
    assert(unties_to_with(key, rest + s, rest, n, p));
}

/// All the segments of a chain, concatenated left to right.
pub open spec fn concat_all(segs: Seq<Seq<u8>>) -> Seq<u8>
    decreases segs.len(),
{
    if segs.len() == 0 {
        Seq::<u8>::empty()
    } else {
        concat_all(segs.drop_last()) + segs.last()
    }
}

/// `segs` are the tied forms of the plaintexts `ps`, segment by segment,
/// under one shared key.
pub open spec fn tied_chain(key: Seq<u8>, ns: Seq<Seq<u8>>, ps: Seq<Seq<u8>>, segs: Seq<Seq<u8>>) -> bool {
    &&& ns.len() == ps.len()
    &&& segs.len() == ps.len()
    &&& forall|i: int| 0 <= i < ps.len() ==> is_tied(key, ns[i], ps[i], segs[i])
}

/// Chained round trip over a whole buffer: when plaintexts are tied in
/// order into one buffer under a shared key, untying recovers the last
/// plaintext exactly, and leaves exactly the chain of the ones before it.
/// Applied repeatedly, the whole sequence comes back in reverse order.
pub proof fn lemma_chain_unties_in_reverse(
    key: Seq<u8>,
    ns: Seq<Seq<u8>>,
    ps: Seq<Seq<u8>>,
    segs: Seq<Seq<u8>>,
)
    requires
        tied_chain(key, ns, ps, segs),
        ps.len() > 0,
    ensures
        tied_chain(key, ns.drop_last(), ps.drop_last(), segs.drop_last()),
        unties_to(key, concat_all(segs), concat_all(segs.drop_last()), ps.last()),
{
    let i = ps.len() - 1;
    assert(is_tied(key, ns[i], ps[i], segs[i]));
    lemma_tie_then_untie(key, ns[i], ps[i], segs[i], concat_all(segs.drop_last()));
}

/// Padding non-interference: bytes appended after a sealed buffer leave
/// every original byte in place, so a view of the original length still
/// unties exactly as before.
pub proof fn lemma_pad_non_interference(b: Seq<u8>, pad: Seq<u8>)
    ensures
        (b + pad).subrange(0, b.len() as int) == b,
{
    assert((b + pad).subrange(0, b.len() as int) =~= b);
}

} // verus!
