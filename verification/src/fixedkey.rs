//! The chained stream scheme: an arbitrary sequence of plaintext segments
//! is sealed under one long-lived shared key and packed back-to-back into
//! one buffer. Each segment carries an authenticated footer naming its own
//! nonce and length, sealed under a nonce taken from the tail of the
//! segment's own body (the "knot"), so the chain is untied from the tail
//! backward without any external index.

use vstd::prelude::*;

use crate::buffer::{CipherText, CipherTextRef, PlainText};
use crate::desc::{
    FIXED_KEY_OVERHEAD, FOOTER_CIPHER_BYTES, FOOTER_PLAIN_BYTES, MACBYTES, NONCEBYTES,
};
use crate::error::CryptoError;
use crate::model::{
    footer_names_overlong_body, footer_plain_of, is_tied, knot_nonce, le64, le64_val,
    lemma_le64_inverse, lemma_le64_round_trip, unties_to, unties_to_with, untie_underrun,
};
use crate::sodium::{gen_nonce, sealed, Nonce, SecretKey};

verus! {

/// Appends the little-endian bytes of `x`.
fn push_le64(v: &mut Vec<u8>, x: u64)
    ensures
        final(v)@ == old(v)@ + le64(x),
{
    v.push((x & 0xff) as u8);
    v.push(((x >> 8) & 0xff) as u8);
    v.push(((x >> 16) & 0xff) as u8);
    v.push(((x >> 24) & 0xff) as u8);
    v.push(((x >> 32) & 0xff) as u8);
    v.push(((x >> 40) & 0xff) as u8);
    v.push(((x >> 48) & 0xff) as u8);
    v.push(((x >> 56) & 0xff) as u8);
    proof {
        assert(v@ =~= old(v)@ + le64(x));
    }
}

/// Reads eight little-endian bytes back into their value.
fn read_le64(s: &[u8]) -> (r: u64)
    requires
        s@.len() == 8,
    ensures
        r == le64_val(s@),
        le64(r) == s@,
{
    let r = (s[0] as u64) | ((s[1] as u64) << 8u64) | ((s[2] as u64) << 16u64) | ((s[3] as u64)
        << 24u64) | ((s[4] as u64) << 32u64) | ((s[5] as u64) << 40u64) | ((s[6] as u64) << 48u64)
        | ((s[7] as u64) << 56u64);
    proof {
        lemma_le64_inverse(s@);
    }
    r
}

/// The chained scheme: one long-lived shared key for a whole stream of
/// segments.
pub struct FixedKey {
    key: SecretKey,
}

impl View for FixedKey {
    type V = Seq<u8>;

    closed spec fn view(&self) -> Seq<u8> {
        self.key@
    }
}

impl FixedKey {
    /// Wraps the shared key.
    pub fn new(key: SecretKey) -> (r: FixedKey)
        ensures
            r@ == key@,
    {
        FixedKey { key }
    }

    /// Ties one knot: seals `pt` under a fresh random nonce into the body,
    /// then seals a footer naming that nonce and the body's length under
    /// the knot nonce taken from the body's own tail, and returns
    /// body ++ footer. The plaintext must be long enough for the body to
    /// cover a whole knot nonce.
    pub fn tie_knot(&self, pt: PlainText) -> (ct: CipherText)
        requires
            pt@.len() + MACBYTES > NONCEBYTES,
        ensures
            ct@.len() == pt@.len() + FIXED_KEY_OVERHEAD,
            exists|n: Seq<u8>| is_tied(self@, n, pt@, ct@),
    {
        let nonce = gen_nonce();
        proof {
            use_type_invariant(&nonce);
        }
        let mut ct = pt.to_ciphertext(&nonce, &self.key);
        let ct_len = ct.len();
        let ghost body = ct@;

        // Footer plaintext: the body's nonce, then the body's length.
        let mut foot_bytes = nonce.to_vec();
        push_le64(&mut foot_bytes, ct_len as u64);
        let foot_pt = PlainText::new(foot_bytes);

        // The knot: the footer's nonce is the tail of the body itself.
        let tail = ct.as_ref().as_bytes();
        let knot = Nonce::from_slice(&tail[ct_len - NONCEBYTES..ct_len]).unwrap();
        proof {
            assert(knot@ =~= knot_nonce(body));
        }

        let mut foot_ct = foot_pt.to_ciphertext(&knot, &self.key);
        ct.append(&mut foot_ct);
        proof {
            assert(foot_pt@ == footer_plain_of(nonce@, body.len() as u64));
            assert(is_tied(self@, nonce@, pt@, ct@));
        }
        ct
    }

    /// Seals one segment with the shared key.
    pub fn seal(&self, pt: PlainText) -> (ct: CipherText)
        requires
            pt@.len() + MACBYTES > NONCEBYTES,
        ensures
            ct@.len() == pt@.len() + FIXED_KEY_OVERHEAD,
            exists|n: Seq<u8>| is_tied(self@, n, pt@, ct@),
    {
        self.tie_knot(pt)
    }

    /// Unties one knot from the tail of `ct`: opens the sealed footer with
    /// the knot nonce, reads the body's nonce and length from it, splits
    /// off the body and opens it. Returns the remaining view (ready for the
    /// next untie) and the recovered plaintext. Succeeds on exactly the
    /// buffers whose tail is a tied segment, returning the segment's
    /// plaintext and everything before it; reports an underrun exactly when
    /// the bytes run out, and an authentication failure otherwise.
    fn untie_knot<'a>(&self, ct: CipherTextRef<'a>) -> (r: Result<
        (CipherTextRef<'a>, PlainText),
        CryptoError,
    >)
        ensures
            r matches Ok(v) ==> unties_to(self@, ct@, v.0@, v.1@),
            forall|rest: Seq<u8>, p: Seq<u8>| unties_to(self@, ct@, rest, p) ==> (r matches Ok(v)
                && v.0@ == rest && v.1@ == p),
            (r matches Err(e) && e == CryptoError::Underrun) <==> untie_underrun(self@, ct@),
    {
        let ghost key = self@;
        let ghost b = ct@;
        let total = ct.len();

        // The buffer must hold a sealed footer and, before it, at least a
        // whole knot nonce.
        if total < FOOTER_CIPHER_BYTES + NONCEBYTES {
            proof {
                assert forall|rest: Seq<u8>, p: Seq<u8>| !unties_to(key, b, rest, p) by {
                    if unties_to(key, b, rest, p) {
                        let n = choose|n: Seq<u8>| unties_to_with(key, b, rest, n, p);
                        assert(b.len() >= FOOTER_CIPHER_BYTES + NONCEBYTES);
                    }
                }
            }
            return Err(CryptoError::Underrun);
        }
        let (rest, foot_ct) = ct.split_from_right(FOOTER_CIPHER_BYTES);
        let rest_len = rest.len();
        let ghost rest1 = rest@;
        let ghost foot = foot_ct@;

        // Recompute the knot nonce exactly as tying chose it.
        let rest_bytes = rest.as_bytes();
        let knot = Nonce::from_slice(&rest_bytes[rest_len - NONCEBYTES..rest_len]).unwrap();
        proof {
            assert(knot@ =~= knot_nonce(rest1));
        }

        let foot_pt = match foot_ct.to_plaintext(&knot, &self.key) {
            Ok(p) => p,
            Err(_) => {
                proof {
                    assert forall|rest_s: Seq<u8>, p: Seq<u8>| !unties_to(key, b, rest_s, p) by {
                        if unties_to(key, b, rest_s, p) {
                            let n = choose|n: Seq<u8>| unties_to_with(key, b, rest_s, n, p);
                            let body = sealed(key, n, p);
                            let fpf = footer_plain_of(n, body.len() as u64);
                            assert(rest1 =~= rest_s + body);
                            assert(foot =~= sealed(key, knot_nonce(rest_s + body), fpf));
                            assert(foot == sealed(key, knot@, fpf));
                        }
                    }
                    assert(!untie_underrun(key, b)) by {
                        if untie_underrun(key, b) {
                            let fp = choose|fp: Seq<u8>| footer_names_overlong_body(key, b, fp);
                            assert(b.subrange(0, b.len() - FOOTER_CIPHER_BYTES as int) == rest1);
                            assert(foot == sealed(key, knot@, fp));
                        }
                    }
                }
                return Err(CryptoError::Authentication);
            },
        };
        let ghost fpv = foot_pt@;

        // The footer names the body's nonce and length.
        let fp_bytes = foot_pt.as_bytes();
        let body_nonce = Nonce::from_slice(&fp_bytes[0..NONCEBYTES]).unwrap();
        let body_len64 = read_le64(&fp_bytes[NONCEBYTES..FOOTER_PLAIN_BYTES]);
        proof {
            assert(fpv =~= footer_plain_of(body_nonce@, body_len64));
        }

        if body_len64 > rest_len as u64 {
            proof {
                assert(b.subrange(0, b.len() - FOOTER_CIPHER_BYTES as int) == rest1);
                assert(footer_names_overlong_body(key, b, fpv));
                assert forall|rest_s: Seq<u8>, p: Seq<u8>| !unties_to(key, b, rest_s, p) by {
                    if unties_to(key, b, rest_s, p) {
                        let n = choose|n: Seq<u8>| unties_to_with(key, b, rest_s, n, p);
                        let body = sealed(key, n, p);
                        let fpf = footer_plain_of(n, body.len() as u64);
                        assert(rest1 =~= rest_s + body);
                        assert(foot =~= sealed(key, knot_nonce(rest_s + body), fpf));
                        assert(foot == sealed(key, knot@, fpf));
                        assert(fpf == fpv);
                        assert(fpf.subrange(NONCEBYTES as int, FOOTER_PLAIN_BYTES as int) =~= le64(
                            body.len() as u64,
                        ));
                        lemma_le64_round_trip(body.len() as u64);
                        assert(body_len64 == body.len() as u64);
                        assert(body.len() <= rest1.len());
                    }
                }
            }
            return Err(CryptoError::Underrun);
        }
        let body_len = body_len64 as usize;
        let (rest2, body_ct) = rest.split_from_right(body_len);

        let pt = match body_ct.to_plaintext(&body_nonce, &self.key) {
            Ok(p) => p,
            Err(_) => {
                proof {
                    assert(!untie_underrun(key, b)) by {
                        if untie_underrun(key, b) {
                            let fp = choose|fp: Seq<u8>| footer_names_overlong_body(key, b, fp);
                            assert(b.subrange(0, b.len() - FOOTER_CIPHER_BYTES as int) == rest1);
                            assert(foot == sealed(key, knot@, fp));
                            assert(fp == fpv);
                        }
                    }
                    assert forall|rest_s: Seq<u8>, p: Seq<u8>| !unties_to(key, b, rest_s, p) by {
                        if unties_to(key, b, rest_s, p) {
                            let n = choose|n: Seq<u8>| unties_to_with(key, b, rest_s, n, p);
                            let body = sealed(key, n, p);
                            let fpf = footer_plain_of(n, body.len() as u64);
                            assert(rest1 =~= rest_s + body);
                            assert(foot =~= sealed(key, knot_nonce(rest_s + body), fpf));
                            assert(foot == sealed(key, knot@, fpf));
                            assert(fpf == fpv);
                            assert(n =~= fpv.subrange(0, NONCEBYTES as int));
                            assert(n == body_nonce@);
                            assert(fpf.subrange(NONCEBYTES as int, FOOTER_PLAIN_BYTES as int)
                                =~= le64(body.len() as u64));
                            lemma_le64_round_trip(body.len() as u64);
                            assert(body_len64 == body.len() as u64);
                            assert(body.len() == body_len);
                            assert(body =~= rest1.subrange(
                                rest1.len() - body_len as int,
                                rest1.len() as int,
                            ));
                            assert(body_ct@ == sealed(key, body_nonce@, p));
                        }
                    }
                }
                return Err(CryptoError::Authentication);
            },
        };
        proof {
            let bodyv = body_ct@;
            assert(b =~= rest2@ + bodyv + foot);
            assert(rest2@ + bodyv =~= rest1);
            assert(knot_nonce(rest2@ + bodyv) == knot_nonce(rest1));
            assert(bodyv.len() == body_len);
            assert(fpv == footer_plain_of(body_nonce@, bodyv.len() as u64));
            assert(foot == sealed(
                key,
                knot_nonce(rest2@ + bodyv),
                footer_plain_of(body_nonce@, bodyv.len() as u64),
            ));
            assert(unties_to_with(key, b, rest2@, body_nonce@, pt@));
            assert(unties_to(key, b, rest2@, pt@));
            assert(!untie_underrun(key, b)) by {
                if untie_underrun(key, b) {
                    let fp = choose|fp: Seq<u8>| footer_names_overlong_body(key, b, fp);
                    assert(b.subrange(0, b.len() - FOOTER_CIPHER_BYTES as int) == rest1);
                    assert(foot == sealed(key, knot@, fp));
                    assert(fp == fpv);
                }
            }
            assert forall|rest_s: Seq<u8>, p: Seq<u8>| unties_to(key, b, rest_s, p) implies (
            rest_s == rest2@ && p == pt@) by {
                let n = choose|n: Seq<u8>| unties_to_with(key, b, rest_s, n, p);
                let body = sealed(key, n, p);
                let fpf = footer_plain_of(n, body.len() as u64);
                assert(rest1 =~= rest_s + body);
                assert(foot =~= sealed(key, knot_nonce(rest_s + body), fpf));
                assert(foot == sealed(key, knot@, fpf));
                assert(fpf == fpv);
                assert(n =~= fpv.subrange(0, NONCEBYTES as int));
                assert(n == body_nonce@);
                assert(fpf.subrange(NONCEBYTES as int, FOOTER_PLAIN_BYTES as int) =~= le64(
                    body.len() as u64,
                ));
                lemma_le64_round_trip(body.len() as u64);
                assert(body_len64 == body.len() as u64);
                assert(body.len() == body_len);
                assert(body =~= rest1.subrange(rest1.len() - body_len as int, rest1.len() as int));
                assert(body == bodyv);
                assert(bodyv == sealed(key, body_nonce@, p));
                assert(p == pt@);
                assert(rest_s =~= rest1.subrange(0, rest1.len() - body_len as int));
            }
        }
        Ok((rest2, pt))
    }

    /// Unseals one segment from the tail of `ct` with the shared key; see
    /// `untie_knot`. The returned view feeds the next call, so a whole
    /// chain is recovered last segment first.
    pub fn unseal<'a, 'b>(&'a self, ct: CipherTextRef<'b>) -> (r: Result<
        (CipherTextRef<'b>, PlainText),
        CryptoError,
    >)
        ensures
            r matches Ok(v) ==> unties_to(self@, ct@, v.0@, v.1@),
            forall|rest: Seq<u8>, p: Seq<u8>| unties_to(self@, ct@, rest, p) ==> (r matches Ok(v)
                && v.0@ == rest && v.1@ == p),
            (r matches Err(e) && e == CryptoError::Underrun) <==> untie_underrun(self@, ct@),
    {
        self.untie_knot(ct)
    }
}

} // verus!
