//! Message codec: turns a delimited byte frame into a host message.
//!
//! A message is laid out as a tag byte selecting the variant, followed for
//! `ShowPerf` by the five snapshot fields in declared order — four 32-bit
//! little-endian values and one boolean byte — with no padding.  That
//! payload is made zero-free by consistent-overhead byte stuffing: the
//! payload is cut at each zero byte, and every piece is preceded by one
//! code byte holding its length plus one.  A single 0x00 terminator then
//! closes the frame on the wire.

use crate::framer::{find_term, lemma_find_term_bounds, TERMINATOR};
use crate::message::{FromHost, PerfBits};
use vstd::prelude::*;

verus! {

/// Why a frame failed to decode.
#[derive(Clone, Copy, Debug, PartialEq, Eq, Structural)]
pub enum DecodeError {
    /// The frame is empty or does not end with the terminator byte.
    MissingTerminator,
    /// The byte stuffing is broken: a code byte is zero, overruns the
    /// frame, or a stuffed block holds a zero byte.
    Malformed,
    /// The unstuffed payload is not a known message layout.
    BadMessage,
}

/// Holds when `s` contains no zero byte.
pub open spec fn zero_free(s: Seq<u8>) -> bool {
    forall|i: int| 0 <= i < s.len() ==> s[i] != 0
}

/// Byte-stuffing encode: the payload is cut at each zero byte and each
/// piece is preceded by its length plus one.  Defined for payloads short
/// enough that every piece fits one code byte.
pub open spec fn cobs_encode(data: Seq<u8>) -> Seq<u8>
    decreases data.len(),
    via cobs_encode_decreases
{
    let k = find_term(data);
    if k == data.len() {
        seq![(data.len() + 1) as u8] + data
    } else {
        seq![(k + 1) as u8] + data.take(k) + cobs_encode(data.skip(k + 1))
    }
}

#[via_fn]
proof fn cobs_encode_decreases(data: Seq<u8>) {
    lemma_find_term_bounds(data);
}

/// Byte-stuffing decode: each code byte announces a block of that length
/// minus one; a code below 255 that is not at the end stands for one zero
/// byte of payload.  `None` when the stuffing is broken.
pub open spec fn cobs_decode(s: Seq<u8>) -> Option<Seq<u8>>
    decreases s.len(),
{
    if s.len() == 0 {
        Some(Seq::empty())
    } else {
        let code = s[0] as int;
        if code == 0 {
            None
        } else if s.len() < code {
            None
        } else {
            let block = s.subrange(1, code);
            if !zero_free(block) {
                None
            } else {
                match cobs_decode(s.skip(code)) {
                    None => None,
                    Some(rest) => Some(
                        if code < 255 && s.len() > code {
                            block + seq![0u8] + rest
                        } else {
                            block + rest
                        },
                    ),
                }
            }
        }
    }
}

/// The four little-endian bytes of a 32-bit value.
pub open spec fn u32_le_bytes(x: u32) -> Seq<u8> {
    seq![
        (x % 256) as u8,
        ((x / 256) % 256) as u8,
        ((x / 0x10000) % 256) as u8,
        ((x / 0x1000000) % 256) as u8,
    ]
}

/// The 32-bit value read little-endian from `p` at offset `i`.
pub open spec fn u32_from_le(p: Seq<u8>, i: int) -> u32 {
    (p[i] + p[i + 1] * 0x100 + p[i + 2] * 0x10000 + p[i + 3] * 0x1000000) as u32
}

/// The unstuffed payload of a message: a tag byte selecting the variant,
/// then for `ShowPerf` the five snapshot fields in declared order.
pub open spec fn message_payload(m: FromHost) -> Seq<u8> {
    match m {
        FromHost::ClearScreen => seq![0u8],
        FromHost::ShowPerf(b) => seq![1u8] + u32_le_bytes(b.all_cores_load) + u32_le_bytes(
            b.all_cores_avg,
        ) + u32_le_bytes(b.peak_core_load) + u32_le_bytes(b.memory_load) + seq![
            if b.daytime {
                1u8
            } else {
                0u8
            },
        ],
    }
}

/// The message a payload stands for, `None` when it fits no layout.
pub open spec fn parse_message(p: Seq<u8>) -> Option<FromHost> {
    if p.len() == 0 {
        None
    } else if p[0] == 0 {
        if p.len() == 1 {
            Some(FromHost::ClearScreen)
        } else {
            None
        }
    } else if p[0] == 1 {
        if p.len() == 18 && (p[17] == 0 || p[17] == 1) {
            Some(
                FromHost::ShowPerf(
                    PerfBits {
                        all_cores_load: u32_from_le(p, 1),
                        all_cores_avg: u32_from_le(p, 5),
                        peak_core_load: u32_from_le(p, 9),
                        memory_load: u32_from_le(p, 13),
                        daytime: p[17] == 1,
                    },
                ),
            )
        } else {
            None
        }
    } else {
        None
    }
}

/// Scans `data` for the first zero byte at or after `from`.
fn find_zero_from(data: &Vec<u8>, from: usize) -> (k: usize)
    requires
        from <= data@.len(),
    ensures
        from <= k <= data@.len(),
        forall|j: int| from <= j < k ==> data@[j] != 0,
        k < data@.len() ==> data@[k as int] == 0,
{
    let mut k: usize = from;
    while k < data.len() && data[k] != 0
        invariant
            from <= k <= data@.len(),
            forall|j: int| from <= j < k ==> data@[j] != 0,
        decreases data@.len() - k,
    {
        k = k + 1;
    }
    k
}

/// Appends `data[from..to]` to `out`.
fn append_range(out: &mut Vec<u8>, data: &Vec<u8>, from: usize, to: usize)
    requires
        from <= to <= data@.len(),
    ensures
        final(out)@ == old(out)@ + data@.subrange(from as int, to as int),
{
    let mut j: usize = from;
    while j < to
        invariant
            from <= j <= to <= data@.len(),
            out@ == old(out)@ + data@.subrange(from as int, j as int),
        decreases to - j,
    {
        out.push(data[j]);
        j = j + 1;
    }
}

/// Byte-stuffing encode of a short payload (see `cobs_encode`).
pub fn cobs_encode_vec(data: &Vec<u8>) -> (r: Vec<u8>)
    requires
        data@.len() <= 253,
    ensures
        r@ == cobs_encode(data@),
{
    let mut out: Vec<u8> = Vec::new();
    let mut start: usize = 0;
    proof {
        assert(data@.skip(0) =~= data@);
        assert(Seq::<u8>::empty() + cobs_encode(data@) =~= cobs_encode(data@));
    }
    loop
        invariant_except_break
            start <= data@.len() <= 253,
            cobs_encode(data@) == out@ + cobs_encode(data@.skip(start as int)),
        ensures
            out@ == cobs_encode(data@),
        decreases data@.len() - start,
    {
        let k = find_zero_from(data, start);
        proof {
            let tail = data@.skip(start as int);
            assert(forall|j: int| 0 <= j < k - start ==> tail[j] == data@[j + start]);
            crate::framer::lemma_find_term_at(tail, k - start);
        }
        if k == data.len() {
            out.push((data.len() - start + 1) as u8);
            append_range(&mut out, data, start, data.len());
            proof {
                let tail = data@.skip(start as int);
                assert(cobs_encode(tail) == seq![(tail.len() + 1) as u8] + tail);
                assert(data@.subrange(start as int, data@.len() as int) =~= tail);
            }
            break;
        } else {
            out.push((k - start + 1) as u8);
            append_range(&mut out, data, start, k);
            proof {
                let tail = data@.skip(start as int);
                let kk = (k - start) as int;
                assert(cobs_encode(tail) == seq![(kk + 1) as u8] + tail.take(kk) + cobs_encode(
                    tail.skip(kk + 1),
                ));
                assert(tail.take(kk) =~= data@.subrange(start as int, k as int));
                assert(tail.skip(kk + 1) =~= data@.skip(k + 1));
                assert(out@ + cobs_encode(data@.skip(k + 1)) =~= (out@ + cobs_encode(
                    data@.skip(k + 1),
                )));
            }
            assert(cobs_encode(data@) == out@ + cobs_encode(data@.skip(k + 1)));
            start = k + 1;
        }
    }
    out
}

/// Byte-stuffing decode of `frame[..end]` (see `cobs_decode`).
pub fn cobs_decode_vec(frame: &Vec<u8>, end: usize) -> (r: Option<Vec<u8>>)
    requires
        end <= frame@.len(),
    ensures
        match r {
            Some(p) => cobs_decode(frame@.take(end as int)) == Some(p@),
            None => cobs_decode(frame@.take(end as int)) is None,
        },
{
    let ghost body = frame@.take(end as int);
    let mut out: Vec<u8> = Vec::new();
    let mut i: usize = 0;
    proof {
        assert(body.skip(0) =~= body);
        if cobs_decode(body) is Some {
            assert(Seq::<u8>::empty() + cobs_decode(body)->0 =~= cobs_decode(body)->0);
        }
    }
    while i < end
        invariant
            i <= end <= frame@.len(),
            body == frame@.take(end as int),
            cobs_decode(body) == (match cobs_decode(body.skip(i as int)) {
                None => None::<Seq<u8>>,
                Some(rest) => Some(out@ + rest),
            }),
        decreases end - i,
    {
        let ghost tail = body.skip(i as int);
        let code = frame[i];
        assert(tail[0] == code);
        if code == 0 {
            return None;
        }
        if (end - i) < code as usize {
            assert(tail.len() < code as int);
            return None;
        }
        let block_end = i + code as usize;
        let ghost out_before = out@;
        let mut j: usize = i + 1;
        while j < block_end
            invariant
                i + 1 <= j <= block_end <= end <= frame@.len(),
                block_end == i + code as usize,
                code > 0,
                body == frame@.take(end as int),
                tail == body.skip(i as int),
                tail[0] == code,
                cobs_decode(body) == (match cobs_decode(tail) {
                    None => None::<Seq<u8>>,
                    Some(rest) => Some(out_before + rest),
                }),
                out@ == out_before + body.subrange(i + 1, j as int),
                forall|t: int| i + 1 <= t < j ==> body[t] != 0,
            decreases block_end - j,
        {
            let b = frame[j];
            if b == 0 {
                proof {
                    let block = tail.subrange(1, code as int);
                    assert(block[j - i - 1] == body[j as int]);
                    assert(!zero_free(block));
                }
                return None;
            }
            out.push(b);
            proof {
                assert(out@ =~= out_before + body.subrange(i + 1, j + 1));
            }
            j = j + 1;
        }
        i = block_end;
        if (code as usize) < 255 && i < end {
            out.push(0);
        }
        proof {
            let block = tail.subrange(1, code as int);
            assert(block =~= body.subrange(i - code as int + 1, i as int));
            assert(zero_free(block));
            assert(tail.skip(code as int) =~= body.skip(i as int));
            if code < 255 && i < end {
                assert(tail.len() > code as int);
                assert(out@ =~= out_before + block + seq![0u8]);
                assert forall|rest: Seq<u8>| true implies (out_before + (block + seq![0u8]
                    + rest)) =~= (out@ + rest) by {}
            } else {
                assert(out@ =~= out_before + block);
            }
        }
    }
    proof {
        assert(body.skip(i as int) =~= Seq::<u8>::empty());
    }
    Some(out)
}

/// What decoding a complete frame yields: the frame must close with the
/// terminator, unstuff cleanly, and carry a known message layout.
pub open spec fn decode_frame_spec(s: Seq<u8>) -> Result<FromHost, DecodeError> {
    if s.len() == 0 || s[s.len() - 1] != TERMINATOR {
        Err(DecodeError::MissingTerminator)
    } else {
        match cobs_decode(s.take(s.len() - 1)) {
            None => Err(DecodeError::Malformed),
            Some(p) => match parse_message(p) {
                None => Err(DecodeError::BadMessage),
                Some(m) => Ok(m),
            },
        }
    }
}

/// Appends the four little-endian bytes of `x`.
fn push_u32_le(out: &mut Vec<u8>, x: u32)
    ensures
        final(out)@ == old(out)@ + u32_le_bytes(x),
{
    out.push((x % 256) as u8);
    out.push(((x / 256) % 256) as u8);
    out.push(((x / 0x10000) % 256) as u8);
    out.push(((x / 0x1000000) % 256) as u8);
    assert(out@ =~= old(out)@ + u32_le_bytes(x));
}

/// Reads the 32-bit value laid out little-endian at `p[i..i + 4]`.
fn read_u32_le(p: &Vec<u8>, i: usize) -> (x: u32)
    requires
        i + 4 <= p@.len(),
        p@.len() <= usize::MAX,
    ensures
        x == u32_from_le(p@, i as int),
{
    p[i] as u32 + p[i + 1] as u32 * 0x100 + p[i + 2] as u32 * 0x10000 + p[i + 3] as u32
        * 0x1000000
}

/// Encodes a host message as one complete frame: the stuffed payload
/// followed by the terminator byte.
pub fn encode_message(msg: &FromHost) -> (r: Vec<u8>)
    ensures
        r@ == cobs_encode(message_payload(*msg)) + seq![TERMINATOR],
{
    let mut payload: Vec<u8> = Vec::new();
    match msg {
        FromHost::ClearScreen => {
            payload.push(0);
        }
        FromHost::ShowPerf(b) => {
            payload.push(1);
            push_u32_le(&mut payload, b.all_cores_load);
            push_u32_le(&mut payload, b.all_cores_avg);
            push_u32_le(&mut payload, b.peak_core_load);
            push_u32_le(&mut payload, b.memory_load);
            payload.push(if b.daytime { 1 } else { 0 });
        }
    }
    assert(payload@ =~= message_payload(*msg));
    let mut out = cobs_encode_vec(&payload);
    out.push(TERMINATOR);
    out
}

/// Parses an unstuffed payload as a host message.
fn parse_payload(p: &Vec<u8>) -> (r: Option<FromHost>)
    ensures
        r == parse_message(p@),
{
    if p.len() == 0 {
        return None;
    }
    let tag = p[0];
    if tag == 0 {
        if p.len() == 1 {
            Some(FromHost::ClearScreen)
        } else {
            None
        }
    } else if tag == 1 {
        if p.len() == 18 && (p[17] == 0 || p[17] == 1) {
            Some(
                FromHost::ShowPerf(
                    PerfBits {
                        all_cores_load: read_u32_le(p, 1),
                        all_cores_avg: read_u32_le(p, 5),
                        peak_core_load: read_u32_le(p, 9),
                        memory_load: read_u32_le(p, 13),
                        daytime: p[17] == 1,
                    },
                ),
            )
        } else {
            None
        }
    } else {
        None
    }
}

/// The stuffed form of a short payload holds no zero byte and is never
/// empty, so a single trailing terminator delimits it unambiguously.
pub proof fn lemma_cobs_encode_zero_free(data: Seq<u8>)
    requires
        data.len() <= 253,
    ensures
        zero_free(cobs_encode(data)),
        cobs_encode(data).len() >= 1,
    decreases data.len(),
{
    lemma_find_term_bounds(data);
    let k = find_term(data);
    let e = cobs_encode(data);
    if k == data.len() {
        assert forall|i: int| 0 <= i < e.len() implies e[i] != 0 by {
            if i > 0 {
                assert(e[i] == data[i - 1]);
            }
        }
    } else {
        lemma_cobs_encode_zero_free(data.skip(k + 1));
        let rest = cobs_encode(data.skip(k + 1));
        assert forall|i: int| 0 <= i < e.len() implies e[i] != 0 by {
            if 0 < i <= k {
                assert(e[i] == data.take(k)[i - 1]);
            } else if i > k {
                assert(e[i] == rest[i - k - 1]);
            }
        }
    }
}

/// Unstuffing inverts stuffing: decoding the stuffed form of any short
/// payload gives the payload back.
pub proof fn lemma_cobs_round_trip(data: Seq<u8>)
    requires
        data.len() <= 253,
    ensures
        cobs_decode(cobs_encode(data)) == Some(data),
    decreases data.len(),
{
    lemma_find_term_bounds(data);
    let k = find_term(data);
    let e = cobs_encode(data);
    if k == data.len() {
        let code = (data.len() + 1) as int;
        assert(e[0] == code);
        assert(e.len() == code);
        assert(e.subrange(1, code) =~= data);
        assert(zero_free(data));
        assert(e.skip(code) =~= Seq::<u8>::empty());
        assert(cobs_decode(e.skip(code)) == Some(Seq::<u8>::empty()));
        assert(data + Seq::<u8>::empty() =~= data);
    } else {
        lemma_cobs_round_trip(data.skip(k + 1));
        lemma_cobs_encode_zero_free(data.skip(k + 1));
        let rest = cobs_encode(data.skip(k + 1));
        let code = k + 1;
        assert(e == seq![(code) as u8] + data.take(k) + rest);
        assert(e[0] == code);
        assert(e.len() == 1 + k + rest.len());
        assert(e.subrange(1, code) =~= data.take(k));
        assert(zero_free(data.take(k)));
        assert(e.skip(code) =~= rest);
        assert(cobs_decode(e.skip(code)) == Some(data.skip(k + 1)));
        assert(code < 255 && e.len() > code);
        assert(data.take(k) + seq![0u8] + data.skip(k + 1) =~= data);
    }
}

/// A payload never spans more bytes than the longest message layout.
pub proof fn lemma_message_payload_len(m: FromHost)
    ensures
        1 <= message_payload(m).len() <= 18,
{
}

/// Codec round trip: a message encoded as one frame decodes back to
/// itself.
pub proof fn lemma_message_round_trip(m: FromHost)
    ensures
        decode_frame_spec(cobs_encode(message_payload(m)) + seq![TERMINATOR]) == Ok::<
            FromHost,
            DecodeError,
        >(m),
{
    let p = message_payload(m);
    lemma_message_payload_len(m);
    lemma_cobs_encode_zero_free(p);
    lemma_cobs_round_trip(p);
    let e = cobs_encode(p);
    let frame = e + seq![TERMINATOR];
    assert(frame[frame.len() - 1] == TERMINATOR);
    assert(frame.take(frame.len() - 1) =~= e);
    lemma_parse_payload_round_trip(m);
}

/// Layout round trip: parsing the payload of a message gives the message
/// back.
pub proof fn lemma_parse_payload_round_trip(m: FromHost)
    ensures
        parse_message(message_payload(m)) == Some(m),
{
    let p = message_payload(m);
    match m {
        FromHost::ClearScreen => {}
        FromHost::ShowPerf(b) => {
            assert(p[0] == 1);
            assert(p.len() == 18);
            assert(p.subrange(1, 5) =~= u32_le_bytes(b.all_cores_load));
            assert(p.subrange(5, 9) =~= u32_le_bytes(b.all_cores_avg));
            assert(p.subrange(9, 13) =~= u32_le_bytes(b.peak_core_load));
            assert(p.subrange(13, 17) =~= u32_le_bytes(b.memory_load));
            lemma_u32_le_round_trip(p, 1, b.all_cores_load);
            lemma_u32_le_round_trip(p, 5, b.all_cores_avg);
            lemma_u32_le_round_trip(p, 9, b.peak_core_load);
            lemma_u32_le_round_trip(p, 13, b.memory_load);
            assert(p[17] == (if b.daytime { 1u8 } else { 0u8 }));
        }
    }
}

/// Reading four little-endian bytes back gives the value they were written
/// from.
proof fn lemma_u32_le_round_trip(p: Seq<u8>, i: int, x: u32)
    requires
        0 <= i,
        i + 4 <= p.len(),
        p.subrange(i, i + 4) == u32_le_bytes(x),
    ensures
        u32_from_le(p, i) == x,
{
    assert(p[i] == (x % 256) as u8);
    assert(p[i + 1] == ((x / 256) % 256) as u8);
    assert(p[i + 2] == ((x / 0x10000) % 256) as u8);
    assert(p[i + 3] == ((x / 0x1000000) % 256) as u8);
    assert(x == (x % 256) + ((x / 256) % 256) * 0x100 + ((x / 0x10000) % 256) * 0x10000 + ((x
        / 0x1000000) % 256) * 0x1000000) by (nonlinear_arith);
}

/// An encoded message survives framing intact: its only zero byte is the
/// final terminator, so on the wire it is exactly one frame, with nothing
/// left over.
pub proof fn lemma_encoded_frame_is_single_frame(m: FromHost)
    ensures
        ({
            let frame = cobs_encode(message_payload(m)) + seq![TERMINATOR];
            &&& crate::framer::frames_of(frame) == seq![frame]
            &&& crate::framer::residue(frame) == Seq::<u8>::empty()
        }),
{
    let p = message_payload(m);
    lemma_message_payload_len(m);
    lemma_cobs_encode_zero_free(p);
    let e = cobs_encode(p);
    let frame = e + seq![TERMINATOR];
    let k = e.len() as int;
    assert(forall|j: int| 0 <= j < k ==> frame[j] == e[j]);
    assert(frame[k] == TERMINATOR);
    crate::framer::lemma_find_term_at(frame, k);
    assert(frame.take(k + 1) =~= frame);
    assert(frame.skip(k + 1) =~= Seq::<u8>::empty());
    assert(crate::framer::frames_of(Seq::<u8>::empty()) == Seq::<Seq<u8>>::empty());
    assert(crate::framer::residue(Seq::<u8>::empty()) == Seq::<u8>::empty());
    assert(crate::framer::frames_of(frame) =~= seq![frame]);
    assert(crate::framer::residue(frame) == crate::framer::residue(frame.skip(k + 1)));
}

/// Decodes one complete frame, terminator included, into a host message.
pub fn decode_frame(frame: &Vec<u8>) -> (r: Result<FromHost, DecodeError>)
    ensures
        r == decode_frame_spec(frame@),
{
    let n = frame.len();
    if n == 0 || frame[n - 1] != TERMINATOR {
        return Err(DecodeError::MissingTerminator);
    }
    match cobs_decode_vec(frame, n - 1) {
        None => Err(DecodeError::Malformed),
        Some(payload) => match parse_payload(&payload) {
            None => Err(DecodeError::BadMessage),
            Some(m) => Ok(m),
        },
    }
}

} // verus!
