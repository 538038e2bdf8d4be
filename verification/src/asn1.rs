//! DER encoding of an elliptic-curve signature: the two integers R and S,
//! each written as a signed big-endian integer in canonical form, wrapped in
//! a two-element sequence. The module holds the mathematical description of
//! the format, a verified encoder, a verified parser, and the proof that the
//! two invert each other.

use vstd::prelude::*;

use crate::error::ToolErrorKind;

verus! {

/// The magnitude of a big-endian unsigned integer in canonical form:
/// the byte sequence with its leading zero bytes removed.
pub open spec fn min_magnitude(b: Seq<u8>) -> Seq<u8>
    decreases b.len(),
{
    if b.len() == 0 {
        b
    } else if b[0] == 0 {
        min_magnitude(b.subrange(1, b.len() as int))
    } else {
        b
    }
}

/// The content bytes of a DER INTEGER holding the unsigned big-endian value
/// `b`: the canonical magnitude, with a single zero byte standing for zero,
/// and a leading zero byte inserted when the high bit of the first magnitude
/// byte is set, so that the value is not misread as negative.
pub open spec fn int_content(b: Seq<u8>) -> Seq<u8> {
    let m = min_magnitude(b);
    if m.len() == 0 {
        seq![0u8]
    } else if m[0] >= 128 {
        seq![0u8] + m
    } else {
        m
    }
}

/// The minimal big-endian byte representation of `n`; empty for zero.
pub open spec fn be_bytes(n: nat) -> Seq<u8>
    decreases n,
{
    if n == 0 {
        Seq::empty()
    } else {
        be_bytes(n / 256).push((n % 256) as u8)
    }
}

/// The value of a big-endian byte sequence.
pub open spec fn from_be(b: Seq<u8>) -> nat
    decreases b.len(),
{
    if b.len() == 0 {
        0
    } else {
        (from_be(b.drop_last()) * 256 + b.last()) as nat
    }
}

/// 256 raised to the power `k`: the number of values `k` bytes can hold.
pub open spec fn exp256(k: nat) -> nat
    decreases k,
{
    if k == 0 {
        1
    } else {
        256 * exp256((k - 1) as nat)
    }
}

/// The DER encoding of a length: one byte for lengths below 128, otherwise a
/// count byte followed by the length in minimal big-endian form.
pub open spec fn der_length(n: nat) -> Seq<u8> {
    if n < 128 {
        seq![n as u8]
    } else {
        seq![(128 + be_bytes(n).len()) as u8] + be_bytes(n)
    }
}

/// The DER encoding of an INTEGER holding the unsigned big-endian value
/// `mag`: tag, length of the content, content.
pub open spec fn der_integer(mag: Seq<u8>) -> Seq<u8> {
    seq![2u8] + der_length(int_content(mag).len()) + int_content(mag)
}

/// The DER encoding of an elliptic-curve signature with raw halves `r` and
/// `s`: a SEQUENCE of the two INTEGERs.
pub open spec fn der_ecc_signature(r: Seq<u8>, s: Seq<u8>) -> Seq<u8> {
    let body = der_integer(r) + der_integer(s);
    seq![48u8] + der_length(body.len()) + body
}

/// `m` left-padded with zero bytes to length `n`.
pub open spec fn zero_extend(m: Seq<u8>, n: nat) -> Seq<u8>
    recommends
        m.len() <= n,
{
    Seq::new((n - m.len()) as nat, |i: int| 0u8) + m
}

/// A value below what `k` bytes can hold needs at most `k` bytes.
proof fn lemma_be_bytes_len(n: nat, k: nat)
    requires
        n < exp256(k),
    ensures
        be_bytes(n).len() <= k,
    decreases k,
{
    if n > 0 {
        assert(k > 0);
        assert(n / 256 < exp256((k - 1) as nat)) by (nonlinear_arith)
            requires
                n < 256 * exp256((k - 1) as nat),
        ;
        lemma_be_bytes_len(n / 256, (k - 1) as nat);
    }
}

/// Any length a machine word can hold fits in eight big-endian bytes.
proof fn lemma_be_bytes_len_usize(n: nat)
    requires
        n <= usize::MAX,
    ensures
        be_bytes(n).len() <= 8,
        n < exp256(8),
{
    assert(exp256(8) == 0x1_0000_0000_0000_0000) by {
        reveal_with_fuel(exp256, 9);
    }
    assert(usize::MAX <= u64::MAX);
    lemma_be_bytes_len(n, 8);
}

/// Reading back the minimal big-endian form of `n` yields `n`.
proof fn lemma_from_be_be_bytes(n: nat)
    ensures
        from_be(be_bytes(n)) == n,
    decreases n,
{
    if n > 0 {
        lemma_from_be_be_bytes(n / 256);
        assert(be_bytes(n).drop_last() =~= be_bytes(n / 256));
        assert(be_bytes(n).last() == (n % 256) as u8);
    }
}

/// Appends the minimal big-endian form of `n` to `out`.
fn push_be_bytes(out: &mut Vec<u8>, n: usize)
    ensures
        final(out)@ == old(out)@ + be_bytes(n as nat),
    decreases n,
{
    if n == 0 {
        assert(out@ =~= old(out)@ + be_bytes(0));
    } else {
        push_be_bytes(out, n / 256);
        out.push((n % 256) as u8);
        assert(out@ =~= old(out)@ + be_bytes(n as nat));
    }
}

/// Appends the DER encoding of the length `n` to `out`.
fn push_der_length(out: &mut Vec<u8>, n: usize)
    ensures
        final(out)@ == old(out)@ + der_length(n as nat),
{
    if n < 128 {
        out.push(n as u8);
        assert(out@ =~= old(out)@ + der_length(n as nat));
    } else {
        let mut be: Vec<u8> = Vec::new();
        push_be_bytes(&mut be, n);
        proof {
            lemma_be_bytes_len_usize(n as nat);
        }
        out.push((128 + be.len()) as u8);
        out.append(&mut be);
        assert(out@ =~= old(out)@ + der_length(n as nat));
    }
}

/// Appends every byte of `src` to `out`.
fn push_bytes(out: &mut Vec<u8>, src: &[u8])
    ensures
        final(out)@ == old(out)@ + src@,
{
    let mut i: usize = 0;
    while i < src.len()
        invariant
            i <= src@.len(),
            out@ == old(out)@ + src@.subrange(0, i as int),
        decreases src@.len() - i,
    {
        let b = src[i];
        out.push(b);
        assert(src@.subrange(0, i + 1 as int) =~= src@.subrange(0, i as int).push(b));
        i = i + 1;
    }
    assert(src@.subrange(0, src@.len() as int) =~= src@);
}

/// Appends the DER INTEGER holding the unsigned big-endian value `mag`.
fn push_der_integer(out: &mut Vec<u8>, mag: &[u8])
    requires
        mag@.len() < usize::MAX,
    ensures
        final(out)@ == old(out)@ + der_integer(mag@),
{
    let mut i: usize = 0;
    assert(mag@.subrange(0, mag@.len() as int) =~= mag@);
    while i < mag.len() && mag[i] == 0
        invariant
            i <= mag@.len(),
            min_magnitude(mag@) == min_magnitude(mag@.subrange(i as int, mag@.len() as int)),
        decreases mag@.len() - i,
    {
        proof {
            let t = mag@.subrange(i as int, mag@.len() as int);
            assert(t.subrange(1, t.len() as int) =~= mag@.subrange(
                i + 1 as int,
                mag@.len() as int,
            ));
        }
        i = i + 1;
    }
    proof {
        let t = mag@.subrange(i as int, mag@.len() as int);
        if i < mag@.len() {
            assert(min_magnitude(t) == t);
        } else {
            assert(t =~= Seq::<u8>::empty());
        }
    }
    let m = vstd::slice::slice_subrange(mag, i, mag.len());
    assert(m@ == min_magnitude(mag@));
    out.push(2u8);
    if m.len() == 0 {
        push_der_length(out, 1);
        out.push(0u8);
    } else if m[0] >= 128 {
        push_der_length(out, m.len() + 1);
        out.push(0u8);
        push_bytes(out, m);
    } else {
        push_der_length(out, m.len());
        push_bytes(out, m);
    }
    assert(out@ =~= old(out)@ + der_integer(mag@));
}

/// Re-encodes an even-length raw elliptic-curve signature, the fixed-width
/// concatenation of R and S, as the DER SEQUENCE of the two integers. An
/// odd length cannot be split into two equal halves and is surfaced as an
/// internal encoding error.
pub fn encode_ecc_signature(raw: &[u8]) -> (r: Result<Vec<u8>, ToolErrorKind>)
    ensures
        raw@.len() % 2 == 0 ==> {
            &&& r is Ok
            &&& r.unwrap()@ == der_ecc_signature(
                raw@.subrange(0, raw@.len() as int / 2),
                raw@.subrange(raw@.len() as int / 2, raw@.len() as int),
            )
        },
        raw@.len() % 2 != 0 ==> r == Err::<Vec<u8>, ToolErrorKind>(
            ToolErrorKind::InternalEncodingError,
        ),
{
    if raw.len() % 2 != 0 {
        return Err(ToolErrorKind::InternalEncodingError);
    }
    let half = raw.len() / 2;
    let rh = vstd::slice::slice_subrange(raw, 0, half);
    let sh = vstd::slice::slice_subrange(raw, half, raw.len());
    let mut body: Vec<u8> = Vec::new();
    push_der_integer(&mut body, rh);
    push_der_integer(&mut body, sh);
    let mut out: Vec<u8> = Vec::new();
    out.push(48u8);
    push_der_length(&mut out, body.len());
    out.append(&mut body);
    proof {
        assert(out@ =~= der_ecc_signature(rh@, sh@));
    }
    Ok(out)
}

/// Parses a DER length at the head of `b`: the length value and the bytes
/// after it. Rejects a length-of-length of zero or of more than eight bytes;
/// no value that fits in memory needs more.
pub open spec fn parse_length(b: Seq<u8>) -> Option<(nat, Seq<u8>)> {
    if b.len() == 0 {
        None
    } else if b[0] < 128 {
        Some((b[0] as nat, b.subrange(1, b.len() as int)))
    } else {
        let k = b[0] - 128;
        if k == 0 || k > 8 || b.len() < 1 + k {
            None
        } else {
            Some((from_be(b.subrange(1, 1 + k)), b.subrange(1 + k, b.len() as int)))
        }
    }
}

/// Parses a DER INTEGER at the head of `b`: the unsigned magnitude (the
/// content with a leading zero sign byte removed) and the bytes after it.
pub open spec fn parse_integer(b: Seq<u8>) -> Option<(Seq<u8>, Seq<u8>)> {
    if b.len() == 0 || b[0] != 2 {
        None
    } else {
        match parse_length(b.subrange(1, b.len() as int)) {
            None => None,
            Some((len, rest)) => {
                if len == 0 || rest.len() < len {
                    None
                } else {
                    let content = rest.subrange(0, len as int);
                    let mag = if content[0] == 0 {
                        content.subrange(1, len as int)
                    } else {
                        content
                    };
                    Some((mag, rest.subrange(len as int, rest.len() as int)))
                }
            },
        }
    }
}

/// Parses a whole DER elliptic-curve signature: a SEQUENCE holding exactly
/// two INTEGERs and nothing else. Returns the two unsigned magnitudes.
pub open spec fn parse_ecc_signature(b: Seq<u8>) -> Option<(Seq<u8>, Seq<u8>)> {
    if b.len() == 0 || b[0] != 48 {
        None
    } else {
        match parse_length(b.subrange(1, b.len() as int)) {
            None => None,
            Some((len, rest)) => {
                if rest.len() != len {
                    None
                } else {
                    match parse_integer(rest) {
                        None => None,
                        Some((r, rest2)) => match parse_integer(rest2) {
                            None => None,
                            Some((s, rest3)) => {
                                if rest3.len() == 0 {
                                    Some((r, s))
                                } else {
                                    None
                                }
                            },
                        },
                    }
                }
            },
        }
    }
}

/// Exponentiation by a larger count never shrinks.
proof fn lemma_exp256_mono(i: nat, j: nat)
    requires
        i <= j,
    ensures
        exp256(i) <= exp256(j),
    decreases j,
{
    if i < j {
        lemma_exp256_mono(i, (j - 1) as nat);
    }
}

/// The canonical magnitude of `b` is what remains after its leading zero
/// bytes; its first byte is not zero, and padding it back out with zero
/// bytes restores `b` exactly.
pub proof fn lemma_min_magnitude(b: Seq<u8>)
    ensures
        min_magnitude(b).len() <= b.len(),
        min_magnitude(b).len() > 0 ==> min_magnitude(b)[0] != 0,
        zero_extend(min_magnitude(b), b.len()) == b,
    decreases b.len(),
{
    if b.len() == 0 {
        assert(zero_extend(min_magnitude(b), b.len()) =~= b);
    } else if b[0] == 0 {
        let t = b.subrange(1, b.len() as int);
        lemma_min_magnitude(t);
        let m = min_magnitude(b);
        assert forall|i: int| 0 <= i < b.len() implies zero_extend(m, b.len())[i] == b[i] by {
            if i >= 1 {
                assert(t[i - 1] == zero_extend(m, t.len())[i - 1]);
            }
        }
        assert(zero_extend(min_magnitude(b), b.len()) =~= b);
    } else {
        assert(zero_extend(min_magnitude(b), b.len()) =~= b);
    }
}

/// A DER length followed by anything parses back to that length.
proof fn lemma_parse_der_length(n: nat, rest: Seq<u8>)
    requires
        n < exp256(8),
    ensures
        parse_length(der_length(n) + rest) == Some((n, rest)),
{
    let b = der_length(n) + rest;
    if n < 128 {
        assert(b[0] == n as u8);
        assert(b.subrange(1, b.len() as int) =~= rest);
    } else {
        lemma_be_bytes_len(n, 8);
        let be = be_bytes(n);
        let k = be.len() as int;
        assert(1 <= k <= 8);
        assert(b[0] == (128 + k) as u8);
        assert(b[0] - 128 == k);
        assert(b.len() == 1 + k + rest.len());
        assert(b.subrange(1, 1 + k) =~= be);
        lemma_from_be_be_bytes(n);
        assert(b.subrange(1 + k, b.len() as int) =~= rest);
    }
}

/// The content of a DER INTEGER has at least one byte and at most one byte
/// more than the magnitude it encodes, and the whole INTEGER adds at most
/// ten bytes of framing.
proof fn lemma_der_integer_len(mag: Seq<u8>)
    requires
        mag.len() + 1 < exp256(8),
    ensures
        1 <= int_content(mag).len() <= mag.len() + 1,
        der_integer(mag).len() <= mag.len() + 11,
{
    lemma_min_magnitude(mag);
    let c = int_content(mag);
    if c.len() >= 128 {
        lemma_be_bytes_len(c.len(), 8);
    }
}

/// A DER INTEGER followed by anything parses back to the canonical magnitude
/// of what was encoded, with the trailing bytes untouched.
proof fn lemma_parse_der_integer(mag: Seq<u8>, rest: Seq<u8>)
    requires
        mag.len() + 1 < exp256(8),
    ensures
        parse_integer(der_integer(mag) + rest) == Some((min_magnitude(mag), rest)),
{
    lemma_min_magnitude(mag);
    lemma_der_integer_len(mag);
    let c = int_content(mag);
    let b = der_integer(mag) + rest;
    let cr = c + rest;
    assert(b[0] == 2);
    assert(b.subrange(1, b.len() as int) =~= der_length(c.len()) + cr);
    lemma_parse_der_length(c.len(), cr);
    assert(cr.subrange(0, c.len() as int) =~= c);
    let m = min_magnitude(mag);
    if m.len() == 0 {
        assert(c[0] == 0);
        assert(c.subrange(1, c.len() as int) =~= m);
    } else if m[0] >= 128 {
        assert(c[0] == 0);
        assert(c.subrange(1, c.len() as int) =~= m);
    } else {
        assert(c[0] == m[0]);
    }
    assert(cr.subrange(c.len() as int, cr.len() as int) =~= rest);
}

/// A DER elliptic-curve signature parses back to the canonical magnitudes of
/// the two halves it was built from.
proof fn lemma_parse_der_ecc(r: Seq<u8>, s: Seq<u8>)
    requires
        r.len() + s.len() + 24 < exp256(8),
    ensures
        parse_ecc_signature(der_ecc_signature(r, s)) == Some(
            (min_magnitude(r), min_magnitude(s)),
        ),
{
    lemma_der_integer_len(r);
    lemma_der_integer_len(s);
    let body = der_integer(r) + der_integer(s);
    let b = der_ecc_signature(r, s);
    assert(b[0] == 48);
    assert(b.subrange(1, b.len() as int) =~= der_length(body.len()) + body);
    lemma_parse_der_length(body.len(), body);
    lemma_parse_der_integer(r, der_integer(s));
    lemma_parse_der_integer(s, Seq::<u8>::empty());
    assert(der_integer(s) + Seq::<u8>::empty() =~= der_integer(s));
}

/// Reads a DER length starting at `pos` in `b`: the length value and the
/// position after it. A length-of-length of at most eight bytes always fits
/// in the returned machine word.
fn take_length(b: &[u8], pos: usize) -> (r: Option<(u64, usize)>)
    requires
        pos <= b@.len(),
    ensures
        ({
            let t = b@.subrange(pos as int, b@.len() as int);
            match r {
                Some(np) => {
                    &&& pos < np.1 <= b@.len()
                    &&& parse_length(t) == Some(
                        (np.0 as nat, b@.subrange(np.1 as int, b@.len() as int)),
                    )
                },
                None => parse_length(t) is None,
            }
        }),
{
    let ghost t = b@.subrange(pos as int, b@.len() as int);
    if pos == b.len() {
        return None;
    }
    let b0 = b[pos];
    assert(t[0] == b0);
    if b0 < 128 {
        let p2 = pos + 1;
        assert(b@.subrange(p2 as int, b@.len() as int) =~= t.subrange(1, t.len() as int));
        return Some((b0 as u64, p2));
    }
    let k = (b0 - 128) as usize;
    if k == 0 || k > 8 || b.len() - pos - 1 < k {
        return None;
    }
    let mut acc: u64 = 0;
    let mut i: usize = 0;
    while i < k
        invariant
            i <= k,
            k <= 8,
            pos as int + 1 + k <= b@.len(),
            b@.len() <= usize::MAX,
            acc as nat == from_be(b@.subrange(pos as int + 1, pos as int + 1 + i)),
            (acc as nat) < exp256(i as nat),
        decreases k - i,
    {
        proof {
            reveal_with_fuel(exp256, 9);
            lemma_exp256_mono(i as nat, 7);
            let u = b@.subrange(pos as int + 1, pos as int + 1 + (i + 1));
            assert(u.drop_last() =~= b@.subrange(pos as int + 1, pos as int + 1 + i));
            assert(u.last() == b@[pos as int + 1 + i]);
        }
        acc = acc * 256 + (b[pos + 1 + i] as u64);
        i = i + 1;
    }
    let p2 = pos + 1 + k;
    proof {
        assert(t.subrange(1, 1 + k as int) =~= b@.subrange(pos as int + 1, pos as int + 1 + k));
        assert(t.subrange(1 + k as int, t.len() as int) =~= b@.subrange(
            p2 as int,
            b@.len() as int,
        ));
    }
    Some((acc, p2))
}

/// Reads a DER INTEGER starting at `pos` in `b`: the unsigned magnitude and
/// the position after it.
fn take_integer(b: &[u8], pos: usize) -> (r: Option<(Vec<u8>, usize)>)
    requires
        pos <= b@.len(),
    ensures
        ({
            let t = b@.subrange(pos as int, b@.len() as int);
            match r {
                Some(vp) => {
                    &&& pos < vp.1 <= b@.len()
                    &&& parse_integer(t) == Some(
                        (vp.0@, b@.subrange(vp.1 as int, b@.len() as int)),
                    )
                },
                None => parse_integer(t) is None,
            }
        }),
{
    let ghost t = b@.subrange(pos as int, b@.len() as int);
    if pos == b.len() {
        return None;
    }
    if b[pos] != 2 {
        assert(t[0] != 2);
        return None;
    }
    proof {
        assert(t.subrange(1, t.len() as int) =~= b@.subrange(pos as int + 1, b@.len() as int));
    }
    match take_length(b, pos + 1) {
        None => None,
        Some((n, p2)) => {
            let ghost rest = b@.subrange(p2 as int, b@.len() as int);
            if n == 0 {
                return None;
            }
            let rem = b.len() - p2;
            if n > rem as u64 {
                assert(rest.len() < n);
                return None;
            }
            let len = n as usize;
            let first = b[p2];
            let start = if first == 0 {
                p2 + 1
            } else {
                p2
            };
            let mag = vstd::slice::slice_to_vec(
                vstd::slice::slice_subrange(b, start, p2 + len),
            );
            let p3 = p2 + len;
            proof {
                let content = rest.subrange(0, len as int);
                assert(content =~= b@.subrange(p2 as int, p2 as int + len));
                assert(content[0] == b@[p2 as int]);
                if first == 0 {
                    assert(content.subrange(1, len as int) =~= b@.subrange(
                        p2 as int + 1,
                        p2 as int + len,
                    ));
                }
                assert(rest.subrange(len as int, rest.len() as int) =~= b@.subrange(
                    p3 as int,
                    b@.len() as int,
                ));
            }
            Some((mag, p3))
        },
    }
}

/// Parses a DER elliptic-curve signature: a SEQUENCE holding exactly two
/// INTEGERs and nothing else. Returns the unsigned magnitudes of R and S,
/// or nothing where the input is not such an encoding.
pub fn decode_ecc_signature(der: &[u8]) -> (r: Option<(Vec<u8>, Vec<u8>)>)
    ensures
        match r {
            Some(p) => parse_ecc_signature(der@) == Some((p.0@, p.1@)),
            None => parse_ecc_signature(der@) is None,
        },
{
    if der.len() == 0 {
        return None;
    }
    if der[0] != 48 {
        return None;
    }
    proof {
        assert(der@.subrange(0, der@.len() as int) =~= der@);
    }
    match take_length(der, 1) {
        None => None,
        Some((n, p2)) => {
            let ghost rest = der@.subrange(p2 as int, der@.len() as int);
            let rem = der.len() - p2;
            if n != rem as u64 {
                return None;
            }
            match take_integer(der, p2) {
                None => None,
                Some((rv, p3)) => match take_integer(der, p3) {
                    None => None,
                    Some((sv, p4)) => {
                        if p4 == der.len() {
                            Some((rv, sv))
                        } else {
                            None
                        }
                    },
                },
            }
        },
    }
}

/// Law: the re-encoding round-trip. Splitting an even-length raw signature
/// at its midpoint, encoding the two halves as the DER two-integer sequence,
/// and parsing that encoding back yields the two canonical magnitudes; and
/// padding each back out to the half width and concatenating them reproduces
/// the raw signature exactly.
pub proof fn lemma_reencode_round_trip(raw: Seq<u8>)
    requires
        raw.len() % 2 == 0,
        raw.len() <= usize::MAX - 32,
    ensures
        ({
            let half = raw.len() as int / 2;
            let r = raw.subrange(0, half);
            let s = raw.subrange(half, raw.len() as int);
            &&& parse_ecc_signature(der_ecc_signature(r, s)) == Some(
                (min_magnitude(r), min_magnitude(s)),
            )
            &&& min_magnitude(r).len() <= half
            &&& min_magnitude(s).len() <= half
            &&& zero_extend(min_magnitude(r), half as nat) + zero_extend(
                min_magnitude(s),
                half as nat,
            ) == raw
        }),
{
    let half = raw.len() as int / 2;
    let r = raw.subrange(0, half);
    let s = raw.subrange(half, raw.len() as int);
    lemma_be_bytes_len_usize((usize::MAX - 8) as nat);
    lemma_parse_der_ecc(r, s);
    lemma_min_magnitude(r);
    lemma_min_magnitude(s);
    assert(zero_extend(min_magnitude(r), half as nat) + zero_extend(
        min_magnitude(s),
        half as nat,
    ) =~= raw);
}

} // verus!
