//! The length-prefixed envelope around each encoded datagram: four bytes of
//! unsigned little-endian length, then that many payload bytes.
use vstd::prelude::*;
use crate::protocol::{ChatProtocolError, Datagram};

verus! {

/// The largest payload that a four-byte length can announce.
pub const MAX_PAYLOAD: u64 = 0xffff_ffff;

/// The unsigned little-endian number held in four bytes.
pub open spec fn le_value(b: Seq<u8>) -> nat
    recommends
        b.len() == 4,
{
    b[0] as nat + 256 * b[1] as nat + 65536 * b[2] as nat + 16777216 * b[3] as nat
}

/// The four little-endian bytes of a length that fits in 32 bits.
pub open spec fn le_bytes(n: nat) -> Seq<u8> {
    seq![
        (n % 256) as u8,
        ((n / 256) % 256) as u8,
        ((n / 65536) % 256) as u8,
        ((n / 16777216) % 256) as u8,
    ]
}

/// The bytes on the wire for one payload.
pub open spec fn framed(payload: Seq<u8>) -> Seq<u8> {
    le_bytes(payload.len()) + payload
}

/// The first complete frame at the front of `buf`, as its payload and what
/// follows it; `None` while the header or the payload is still incomplete.
pub open spec fn split_frame(buf: Seq<u8>) -> Option<(Seq<u8>, Seq<u8>)> {
    if buf.len() >= 4 && buf.len() - 4 >= le_value(buf.take(4)) {
        let end = 4 + le_value(buf.take(4));
        Some((buf.subrange(4, end as int), buf.skip(end as int)))
    } else {
        None
    }
}

proof fn lemma_le_value_of_bytes(n: nat)
    requires
        n <= MAX_PAYLOAD,
    ensures
        le_bytes(n).len() == 4,
        le_value(le_bytes(n)) == n,
{
    let b = le_bytes(n);
    assert(b[0] as nat == n % 256);
    assert(b[1] as nat == (n / 256) % 256);
    assert(b[2] as nat == (n / 65536) % 256);
    assert(b[3] as nat == (n / 16777216) % 256);
    assert(n / 16777216 < 256);
}

/// Decoding the framing of an encoded payload gives the payload back, and
/// leaves whatever followed it on the stream untouched; this holds for the
/// empty payload and for every payload up to the largest a header can announce.
pub proof fn lemma_frame_round_trip(payload: Seq<u8>, rest: Seq<u8>)
    requires
        payload.len() <= MAX_PAYLOAD,
    ensures
        split_frame(framed(payload) + rest) == Some((payload, rest)),
{
    let buf = framed(payload) + rest;
    lemma_le_value_of_bytes(payload.len());
    assert(buf.take(4) =~= le_bytes(payload.len()));
    let end = 4 + payload.len();
    assert(buf.subrange(4, end as int) =~= payload);
    assert(buf.skip(end as int) =~= rest);
}

/// Reads the length announced by a four-byte header.
pub fn frame_length(header: &[u8]) -> (r: u32)
    requires
        header@.len() == 4,
    ensures
        r as nat == le_value(header@),
{
    header[0] as u32 + 256 * header[1] as u32 + 65536 * header[2] as u32 + 16777216
        * header[3] as u32
}

/// Wraps a payload in its length prefix. Fails with `IOError`, framing
/// nothing, when the payload is too long for the four-byte header to announce.
pub fn encode_frame(payload: &[u8]) -> (r: Result<Vec<u8>, ChatProtocolError>)
    ensures
        payload@.len() <= MAX_PAYLOAD ==> (r matches Ok(v) && v@ == framed(payload@)),
        payload@.len() > MAX_PAYLOAD ==> r == Err::<Vec<u8>, _>(
            ChatProtocolError::IOError,
        ),
{
    if payload.len() as u64 > MAX_PAYLOAD {
        return Err(ChatProtocolError::IOError);
    }
    let n = payload.len() as u32;
    let mut out: Vec<u8> = Vec::new();
    out.push((n % 256) as u8);
    out.push(((n / 256) % 256) as u8);
    out.push(((n / 65536) % 256) as u8);
    out.push(((n / 16777216) % 256) as u8);
    assert(out@ =~= le_bytes(payload@.len()));
    let mut i: usize = 0;
    while i < payload.len()
        invariant
            i <= payload@.len(),
            out@ =~= le_bytes(payload@.len()) + payload@.take(i as int),
        decreases payload@.len() - i,
    {
        out.push(payload[i]);
        i = i + 1;
        assert(out@ =~= le_bytes(payload@.len()) + payload@.take(i as int));
    }
    assert(payload@.take(i as int) =~= payload@);
    Ok(out)
}

/// Copies `src[from..to]` into a new vector.
fn copy_range(src: &Vec<u8>, from: usize, to: usize) -> (r: Vec<u8>)
    requires
        from <= to <= src@.len(),
    ensures
        r@ == src@.subrange(from as int, to as int),
{
    let mut out: Vec<u8> = Vec::new();
    let mut i: usize = from;
    while i < to
        invariant
            from <= i <= to,
            to <= src@.len(),
            out@ =~= src@.subrange(from as int, i as int),
        decreases to - i,
    {
        out.push(src[i]);
        i = i + 1;
        assert(out@ =~= src@.subrange(from as int, i as int));
    }
    out
}

/// Bytes received on one connection that have not yet formed a whole frame.
pub struct FrameDecoder {
    buf: Vec<u8>,
}

impl View for FrameDecoder {
    type V = Seq<u8>;

    closed spec fn view(&self) -> Seq<u8> {
        self.buf@
    }
}

impl FrameDecoder {
    /// A decoder with nothing received yet.
    pub fn new() -> (r: FrameDecoder)
        ensures
            r@ == Seq::<u8>::empty(),
    {
        FrameDecoder { buf: Vec::new() }
    }

    /// The number of bytes held.
    pub fn buffered(&self) -> (r: usize)
        ensures
            r == self@.len(),
    {
        self.buf.len()
    }

    /// Appends bytes that arrived from the connection.
    pub fn push(&mut self, data: &[u8])
        ensures
            final(self)@ == old(self)@ + data@,
    {
        let mut i: usize = 0;
        while i < data.len()
            invariant
                i <= data@.len(),
                self@ =~= old(self)@ + data@.take(i as int),
            decreases data@.len() - i,
        {
            self.buf.push(data[i]);
            i = i + 1;
            assert(self@ =~= old(self)@ + data@.take(i as int));
        }
        assert(data@.take(i as int) =~= data@);
    }

    /// Takes the payload of the first frame once all of it has arrived. The
    /// bytes after it stay for the next call, so a payload that then fails to
    /// decode leaves the stream in step.
    pub fn next_frame(&mut self) -> (r: Option<Vec<u8>>)
        ensures
            match split_frame(old(self)@) {
                Some((payload, rest)) => (r matches Some(p) && p@ == payload) && final(self)@
                    == rest,
                None => r is None && final(self)@ == old(self)@,
            },
    {
        let len = self.buf.len();
        if len < 4 {
            return None;
        }
        let n = frame_length(self.buf.as_slice().split_at(4).0);
        assert(self.buf@.take(4) =~= self.buf@.subrange(0, 4));
        if ((len - 4) as u64) < n as u64 {
            return None;
        }
        let end = 4 + n as usize;
        let payload = copy_range(&self.buf, 4, end);
        let rest = copy_range(&self.buf, end, len);
        assert(rest@ =~= self.buf@.skip(end as int));
        self.buf = rest;
        Some(payload)
    }
    /// One step of reading from the connection: `Some(chunk)` for bytes that
    /// arrived, `None` once the connection is closed or has failed. Gives the
    /// next whole payload when there is one, asks for more bytes while a frame
    /// is incomplete, and fails with `IOError` when the connection ends before
    /// the header or the payload has fully arrived.
    pub fn receive(&mut self, chunk: Option<&[u8]>) -> (r: Result<
        Option<Vec<u8>>,
        ChatProtocolError,
    >)
        ensures
            ({
                let buf = match chunk {
                    Some(c) => old(self)@ + c@,
                    None => old(self)@,
                };
                match split_frame(buf) {
                    Some((payload, rest)) => (r matches Ok(Some(p)) && p@ == payload)
                        && final(self)@ == rest,
                    None => final(self)@ == buf && if chunk is None {
                        r == Err::<Option<Vec<u8>>, _>(ChatProtocolError::IOError)
                    } else {
                        r matches Ok(None)
                    },
                }
            }),
    {
        match chunk {
            Some(c) => {
                self.push(c);
                Ok(self.next_frame())
            },
            None => match self.next_frame() {
                Some(p) => Ok(Some(p)),
                None => Err(ChatProtocolError::IOError),
            },
        }
    }
}

/// The outcome of reading a datagram whose whole frame arrived, from the
/// decoding of its payload: a payload that does not decode is malformed.
pub fn payload_outcome(decoded: Option<Datagram>) -> (r: Result<Datagram, ChatProtocolError>)
    ensures
        match decoded {
            Some(d) => r matches Ok(x) && x@ == d@,
            None => r matches Err(ChatProtocolError::MalformedMessage),
        },
{
    match decoded {
        Some(d) => Ok(d),
        None => Err(ChatProtocolError::MalformedMessage),
    }
}

} // verus!
