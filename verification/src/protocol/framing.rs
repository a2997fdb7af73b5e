//! Length-prefix framing for the Host Protocol.
//!
//! Each frame is a 4-byte big-endian length prefix followed by that many
//! bytes of body. The length counts the body only. A reader rejects an
//! advertised length above [`MAX_FRAME_SIZE`] before reading the body.

use vstd::prelude::*;

verus! {

/// The largest frame body a reader accepts (16 MiB).
pub const MAX_FRAME_SIZE: usize = 16777216;

/// Why a frame could not be written or read.
#[derive(Debug, Clone, Copy, PartialEq, Eq, Structural)]
pub enum FrameError {
    /// The body is longer than a 32-bit length can describe.
    BodyTooLong,
    /// The advertised length exceeds [`MAX_FRAME_SIZE`].
    TooLarge,
    /// The bytes end before the frame does.
    Incomplete,
}

impl FrameError {
    /// The human-readable reason, as the transport reports it.
    pub fn reason(&self) -> (r: &'static str)
        ensures
            r@ == frame_error_reason(*self),
    {
        match self {
            FrameError::BodyTooLong => "frame body exceeds u32 length",
            FrameError::TooLarge => "frame body exceeds maximum allowed size",
            FrameError::Incomplete => "early eof",
        }
    }
}

/// The reason text of each frame error.
pub open spec fn frame_error_reason(e: FrameError) -> Seq<char> {
    match e {
        FrameError::BodyTooLong => "frame body exceeds u32 length"@,
        FrameError::TooLarge => "frame body exceeds maximum allowed size"@,
        FrameError::Incomplete => "early eof"@,
    }
}

/// The 4-byte big-endian encoding of `n` (for `0 <= n < 2^32`).
pub open spec fn be32(n: int) -> Seq<u8> {
    seq![
        (n / 16777216 % 256) as u8,
        (n / 65536 % 256) as u8,
        (n / 256 % 256) as u8,
        (n % 256) as u8,
    ]
}

/// The number a 4-byte big-endian prefix stands for.
pub open spec fn be32_value(b: Seq<u8>) -> int {
    b[0] * 16777216 + b[1] * 65536 + b[2] * 256 + b[3]
}

/// One frame: the body's length, big-endian, then the body.
pub open spec fn frame_of(body: Seq<u8>) -> Seq<u8> {
    be32(body.len() as int) + body
}

/// Frames for each body, one after another.
pub open spec fn frames_of(bodies: Seq<Seq<u8>>) -> Seq<u8>
    decreases bodies.len(),
{
    if bodies.len() == 0 {
        seq![]
    } else {
        frame_of(bodies[0]) + frames_of(bodies.drop_first())
    }
}

/// Reading a byte stream as a sequence of frames, front to back.
pub open spec fn decode_frames_spec(bytes: Seq<u8>) -> Result<Seq<Seq<u8>>, FrameError>
    decreases bytes.len(),
{
    if bytes.len() == 0 {
        Ok(seq![])
    } else if bytes.len() < 4 {
        Err(FrameError::Incomplete)
    } else {
        let n = be32_value(bytes.take(4));
        if n > MAX_FRAME_SIZE {
            Err(FrameError::TooLarge)
        } else if bytes.len() < 4 + n {
            Err(FrameError::Incomplete)
        } else {
            match decode_frames_spec(bytes.skip(4 + n)) {
                Ok(rest) => Ok(seq![bytes.subrange(4, 4 + n)] + rest),
                Err(e) => Err(e),
            }
        }
    }
}

/// Reading the first frame of a byte stream: its body and the number of
/// bytes it took.
pub open spec fn decode_frame_spec(bytes: Seq<u8>) -> Result<(Seq<u8>, int), FrameError> {
    if bytes.len() < 4 {
        Err(FrameError::Incomplete)
    } else {
        let n = be32_value(bytes.take(4));
        if n > MAX_FRAME_SIZE {
            Err(FrameError::TooLarge)
        } else if bytes.len() < 4 + n {
            Err(FrameError::Incomplete)
        } else {
            Ok((bytes.subrange(4, 4 + n), 4 + n))
        }
    }
}

proof fn lemma_be32_round_trip(n: int)
    requires
        0 <= n < 0x1_0000_0000,
    ensures
        be32(n).len() == 4,
        be32_value(be32(n)) == n,
{
    assert(be32_value(be32(n)) == n) by (nonlinear_arith)
        requires
            0 <= n < 0x1_0000_0000,
    {
        assert((n / 16777216 % 256) == n / 16777216);
    }
}

/// Encodes a length as four big-endian bytes.
pub fn be32_bytes(n: u32) -> (r: [u8; 4])
    ensures
        r@ == be32(n as int),
{
    let b0 = (n / 16777216) as u8;
    let b1 = (n / 65536 % 256) as u8;
    let b2 = (n / 256 % 256) as u8;
    let b3 = (n % 256) as u8;
    let r = [b0, b1, b2, b3];
    assert(r@ =~= be32(n as int));
    r
}

/// Reads a four-byte big-endian length and checks it against the cap.
/// Errs with `TooLarge` exactly when the advertised length exceeds
/// [`MAX_FRAME_SIZE`]; the body is not read in that case.
pub fn decode_length(prefix: &[u8; 4]) -> (r: Result<usize, FrameError>)
    ensures
        be32_value(prefix@) > MAX_FRAME_SIZE ==> r == Err::<usize, FrameError>(FrameError::TooLarge),
        be32_value(prefix@) <= MAX_FRAME_SIZE ==> r == Ok::<usize, FrameError>(be32_value(prefix@) as usize),
{
    let n: u32 = (prefix[0] as u32) * 16777216 + (prefix[1] as u32) * 65536 + (prefix[2] as u32) * 256
        + (prefix[3] as u32);
    if n as usize > MAX_FRAME_SIZE {
        Err(FrameError::TooLarge)
    } else {
        Ok(n as usize)
    }
}

/// Builds one frame: the body's length as a 4-byte big-endian prefix, then
/// the body. Errs with `BodyTooLong` exactly when the body is longer than a
/// 32-bit length can describe.
pub fn encode_frame(body: &[u8]) -> (r: Result<Vec<u8>, FrameError>)
    ensures
        body.len() > u32::MAX ==> r == Err::<Vec<u8>, FrameError>(FrameError::BodyTooLong),
        body.len() <= u32::MAX ==> (r matches Ok(v) && v@ == frame_of(body@)),
{
    if body.len() > 4294967295 {
        return Err(FrameError::BodyTooLong);
    }
    let mut out: Vec<u8> = Vec::new();
    append_frame(&mut out, body);
    Ok(out)
}

fn append_frame(out: &mut Vec<u8>, body: &[u8])
    requires
        body.len() <= u32::MAX,
    ensures
        final(out)@ == old(out)@ + frame_of(body@),
{
    let prefix = be32_bytes(body.len() as u32);
    out.push(prefix[0]);
    out.push(prefix[1]);
    out.push(prefix[2]);
    out.push(prefix[3]);
    let ghost mid = out@;
    let mut i: usize = 0;
    while i < body.len()
        invariant
            i <= body.len(),
            out@ == mid + body@.take(i as int),
        decreases body.len() - i,
    {
        out.push(body[i]);
        i = i + 1;
        assert(out@ =~= mid + body@.take(i as int));
    }
    assert(body@.take(body.len() as int) =~= body@);
    assert(out@ =~= old(out)@ + frame_of(body@));
}

proof fn lemma_frames_of_push(bodies: Seq<Seq<u8>>, b: Seq<u8>)
    ensures
        frames_of(bodies.push(b)) == frames_of(bodies) + frame_of(b),
    decreases bodies.len(),
{
    if bodies.len() == 0 {
        let s = bodies.push(b);
        assert(s[0] == b);
        assert(s.drop_first() =~= Seq::<Seq<u8>>::empty());
        assert(frames_of(s.drop_first()) == Seq::<u8>::empty());
        assert(frame_of(b) + Seq::<u8>::empty() =~= frame_of(b));
        assert(bodies =~= Seq::<Seq<u8>>::empty());
    } else {
        lemma_frames_of_push(bodies.drop_first(), b);
        assert(bodies.push(b).drop_first() =~= bodies.drop_first().push(b));
        assert(frames_of(bodies.push(b)) =~= frames_of(bodies) + frame_of(b));
    }
}

/// Builds the frames of each body in turn. Errs with `BodyTooLong` exactly
/// when some body is longer than a 32-bit length can describe.
pub fn encode_frames(bodies: &Vec<Vec<u8>>) -> (r: Result<Vec<u8>, FrameError>)
    ensures
        (exists|i: int| 0 <= i < bodies.len() && bodies@[i]@.len() > u32::MAX)
            ==> r == Err::<Vec<u8>, FrameError>(FrameError::BodyTooLong),
        (forall|i: int| 0 <= i < bodies.len() ==> bodies@[i]@.len() <= u32::MAX)
            ==> (r matches Ok(v) && v@ == frames_of(bodies@.map_values(|b: Vec<u8>| b@))),
{
    let ghost views = bodies@.map_values(|b: Vec<u8>| b@);
    let mut i: usize = 0;
    while i < bodies.len()
        invariant
            i <= bodies.len(),
            forall|j: int| 0 <= j < i ==> bodies@[j]@.len() <= u32::MAX,
        decreases bodies.len() - i,
    {
        if bodies[i].len() > 4294967295 {
            return Err(FrameError::BodyTooLong);
        }
        i = i + 1;
    }
    let mut out: Vec<u8> = Vec::new();
    let mut k: usize = 0;
    while k < bodies.len()
        invariant
            k <= bodies.len(),
            views == bodies@.map_values(|b: Vec<u8>| b@),
            forall|j: int| 0 <= j < bodies.len() ==> bodies@[j]@.len() <= u32::MAX,
            out@ == frames_of(views.take(k as int)),
        decreases bodies.len() - k,
    {
        append_frame(&mut out, bodies[k].as_slice());
        proof {
            lemma_frames_of_push(views.take(k as int), views[k as int]);
            assert(views.take(k as int).push(views[k as int]) =~= views.take(k + 1));
        }
        k = k + 1;
    }
    assert(views.take(bodies.len() as int) =~= views);
    Ok(out)
}

/// Reads the first frame of `bytes`: its body and the number of bytes the
/// frame took. Errs with `Incomplete` when the bytes end inside the prefix
/// or the body, and with `TooLarge` when the advertised length exceeds
/// [`MAX_FRAME_SIZE`].
pub fn decode_frame(bytes: &[u8]) -> (r: Result<(Vec<u8>, usize), FrameError>)
    ensures
        match (r, decode_frame_spec(bytes@)) {
            (Ok((body, used)), Ok((sbody, sused))) => body@ == sbody && used == sused,
            (Err(e), Err(se)) => e == se,
            _ => false,
        },
{
    if bytes.len() < 4 {
        return Err(FrameError::Incomplete);
    }
    let prefix: [u8; 4] = [bytes[0], bytes[1], bytes[2], bytes[3]];
    assert(prefix@ =~= bytes@.take(4));
    let n = match decode_length(&prefix) {
        Ok(n) => n,
        Err(e) => return Err(e),
    };
    if bytes.len() - 4 < n {
        return Err(FrameError::Incomplete);
    }
    let mut body: Vec<u8> = Vec::new();
    let mut i: usize = 0;
    while i < n
        invariant
            i <= n,
            4 + n <= bytes.len(),
            body@ == bytes@.subrange(4, 4 + i as int),
        decreases n - i,
    {
        body.push(bytes[4 + i]);
        i = i + 1;
        assert(body@ =~= bytes@.subrange(4, 4 + i as int));
    }
    Ok((body, 4 + n))
}

/// Reads a whole byte stream as a sequence of frames, front to back. Errs
/// as soon as a frame is too large or the bytes end inside a frame; an
/// empty stream is no frames.
pub fn decode_frames(bytes: &[u8]) -> (r: Result<Vec<Vec<u8>>, FrameError>)
    ensures
        match (r, decode_frames_spec(bytes@)) {
            (Ok(v), Ok(s)) => v@.map_values(|b: Vec<u8>| b@) == s,
            (Err(e), Err(se)) => e == se,
            _ => false,
        },
{
    let mut out: Vec<Vec<u8>> = Vec::new();
    let mut pos: usize = 0;
    proof {
        assert(bytes@.skip(0) =~= bytes@);
        assert(out@.map_values(|b: Vec<u8>| b@) =~= Seq::<Seq<u8>>::empty());
        match decode_frames_spec(bytes@) {
            Ok(r) => assert(Seq::<Seq<u8>>::empty() + r =~= r),
            Err(_) => {},
        }
    }
    while pos < bytes.len()
        invariant
            pos <= bytes.len(),
            match decode_frames_spec(bytes@.skip(pos as int)) {
                Ok(rest) => decode_frames_spec(bytes@) == Ok::<Seq<Seq<u8>>, FrameError>(
                    out@.map_values(|b: Vec<u8>| b@) + rest,
                ),
                Err(e) => decode_frames_spec(bytes@) == Err::<Seq<Seq<u8>>, FrameError>(e),
            },
        decreases bytes.len() - pos,
    {
        let ghost rest = bytes@.skip(pos as int);
        let (body, used) = match decode_frame(&bytes[pos..bytes.len()]) {
            Ok(x) => x,
            Err(e) => {
                assert(bytes@.subrange(pos as int, bytes.len() as int) =~= rest);
                proof {
                    assert(rest.take(4) =~= bytes@.subrange(pos as int, bytes.len() as int).take(4));
                }
                return Err(e);
            },
        };
        proof {
            assert(bytes@.subrange(pos as int, bytes.len() as int) =~= rest);
            assert(rest.skip(used as int) =~= bytes@.skip(pos + used));
        }
        let ghost before = out@.map_values(|b: Vec<u8>| b@);
        out.push(body);
        proof {
            assert(out@.map_values(|b: Vec<u8>| b@) =~= before.push(body@));
            match decode_frames_spec(bytes@.skip(pos + used)) {
                Ok(r2) => {
                    assert(before + (seq![body@] + r2) =~= before.push(body@) + r2);
                },
                Err(_) => {},
            }
        }
        pos = pos + used;
    }
    proof {
        assert(bytes@.skip(pos as int) =~= Seq::<u8>::empty());
        assert(out@.map_values(|b: Vec<u8>| b@) + Seq::<Seq<u8>>::empty() =~= out@.map_values(|b: Vec<u8>| b@));
    }
    Ok(out)
}

/// Framing round-trips: reading back the frames written for bodies that
/// each fit the cap gives exactly those bodies, in order.
pub proof fn lemma_frames_round_trip(bodies: Seq<Seq<u8>>)
    requires
        forall|i: int| 0 <= i < bodies.len() ==> bodies[i].len() <= MAX_FRAME_SIZE,
    ensures
        decode_frames_spec(frames_of(bodies)) == Ok::<Seq<Seq<u8>>, FrameError>(bodies),
    decreases bodies.len(),
{
    if bodies.len() == 0 {
        assert(bodies =~= Seq::<Seq<u8>>::empty());
    } else {
        let b = bodies[0];
        let rest = bodies.drop_first();
        lemma_frames_round_trip(rest);
        lemma_be32_round_trip(b.len() as int);
        let bytes = frames_of(bodies);
        assert(bytes == frame_of(b) + frames_of(rest));
        assert(bytes.take(4) =~= be32(b.len() as int));
        assert(bytes.subrange(4, 4 + b.len() as int) =~= b);
        assert(bytes.skip(4 + b.len() as int) =~= frames_of(rest));
        assert(seq![b] + rest =~= bodies);
    }
}

/// A single frame round-trips: reading the first frame of a written frame
/// (whatever follows it) gives the body back and consumes exactly the frame.
pub proof fn lemma_frame_round_trip(body: Seq<u8>, tail: Seq<u8>)
    requires
        body.len() <= MAX_FRAME_SIZE,
    ensures
        decode_frame_spec(frame_of(body) + tail) == Ok::<(Seq<u8>, int), FrameError>(
            (body, 4 + body.len() as int),
        ),
{
    lemma_be32_round_trip(body.len() as int);
    let bytes = frame_of(body) + tail;
    assert(bytes.take(4) =~= be32(body.len() as int));
    assert(bytes.subrange(4, 4 + body.len() as int) =~= body);
}

} // verus!
