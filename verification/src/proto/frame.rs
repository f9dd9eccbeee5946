//! Frames: a message on the wire is an eight-byte little-endian length
//! followed by the message. Reading, writing and the encoding of the
//! messages themselves are left to whoever owns the stream.
use crate::proto::abi::{CommandRequest, CommandResponse};
use crate::proto::execute::{answers, dispatch, ExecuterAction};
use vstd::prelude::*;

verus! {

/// The most that is asked of the stream in one read.
pub const MAX_FRAME: usize = 1024;

/// The length of the header that carries a message's length.
pub const USIZE_TO_U8_LENGTH: usize = 8;

/// Byte `i` of the little-endian form of `value`.
pub open spec fn le_byte(value: u64, i: u64) -> u8 {
    ((value >> (8 * i) as u64) & 0xff) as u8
}

/// The header that announces a message of `len` bytes.
pub open spec fn header_of(len: usize) -> Seq<u8> {
    Seq::new(8, |i: int| le_byte(len as u64, i as u64))
}

/// The number that the eight bytes of a header stand for.
pub open spec fn header_value(header: Seq<u8>) -> u64 {
    (header[0] as u64) | ((header[1] as u64) << 8) | ((header[2] as u64) << 16) | ((
    header[3] as u64) << 24) | ((header[4] as u64) << 32) | ((header[5] as u64) << 40) | ((
    header[6] as u64) << 48) | ((header[7] as u64) << 56)
}

/// The length that a header announces; what does not fit the machine's
/// word counts as the largest length there is.
pub open spec fn header_len(header: Seq<u8>) -> usize {
    if header_value(header) <= usize::MAX {
        header_value(header) as usize
    } else {
        usize::MAX
    }
}

/// A message as it goes over the wire: its header, then the message.
pub open spec fn framed(body: Seq<u8>) -> Seq<u8> {
    header_of(body.len() as usize) + body
}

proof fn lemma_le_bytes(v: u64)
    by (bit_vector)
    ensures
        (((v >> 0) & 0xff) as u8 as u64) | ((((v >> 8) & 0xff) as u8 as u64) << 8) | ((((v >> 16)
            & 0xff) as u8 as u64) << 16) | ((((v >> 24) & 0xff) as u8 as u64) << 24) | ((((v >> 32)
            & 0xff) as u8 as u64) << 32) | ((((v >> 40) & 0xff) as u8 as u64) << 40) | ((((v >> 48)
            & 0xff) as u8 as u64) << 48) | ((((v >> 56) & 0xff) as u8 as u64) << 56) == v,
        (v >> 0) & 0xff <= 255,
        (v >> 8) & 0xff <= 255,
        (v >> 16) & 0xff <= 255,
        (v >> 24) & 0xff <= 255,
        (v >> 32) & 0xff <= 255,
        (v >> 40) & 0xff <= 255,
        (v >> 48) & 0xff <= 255,
        (v >> 56) & 0xff <= 255,
{
}

/// A header announces the length it was made for.
pub proof fn lemma_header_round_trip(len: usize)
    ensures
        header_of(len).len() == 8,
        header_value(header_of(len)) == len,
        header_len(header_of(len)) == len,
{
    let v = len as u64;
    let h = header_of(len);
    lemma_le_bytes(v);
    assert(h[0] == ((v >> 0) & 0xff) as u8);
    assert(h[1] == ((v >> 8) & 0xff) as u8);
    assert(h[2] == ((v >> 16) & 0xff) as u8);
    assert(h[3] == ((v >> 24) & 0xff) as u8);
    assert(h[4] == ((v >> 32) & 0xff) as u8);
    assert(h[5] == ((v >> 40) & 0xff) as u8);
    assert(h[6] == ((v >> 48) & 0xff) as u8);
    assert(h[7] == ((v >> 56) & 0xff) as u8);
}

/// The header for a message of `len` bytes.
pub fn msg_len_vec(len: usize) -> (res: [u8; 8])
    ensures
        res@ == header_of(len),
{
    let v = len as u64;
    proof {
        lemma_le_bytes(v);
    }
    let res = [
        ((v >> 0) & 0xff) as u8,
        ((v >> 8) & 0xff) as u8,
        ((v >> 16) & 0xff) as u8,
        ((v >> 24) & 0xff) as u8,
        ((v >> 32) & 0xff) as u8,
        ((v >> 40) & 0xff) as u8,
        ((v >> 48) & 0xff) as u8,
        ((v >> 56) & 0xff) as u8,
    ];
    proof {
        let h = header_of(len);
        assert(res@.len() == 8);
        assert(res@[0] == h[0]);
        assert(res@[1] == h[1]);
        assert(res@[2] == h[2]);
        assert(res@[3] == h[3]);
        assert(res@[4] == h[4]);
        assert(res@[5] == h[5]);
        assert(res@[6] == h[6]);
        assert(res@[7] == h[7]);
        assert(res@ =~= h);
    }
    res
}

/// The length that a header announces.
pub fn get_msg_len(message: [u8; 8]) -> (len: usize)
    ensures
        len == header_len(message@),
{
    let value: u64 = (message[0] as u64) | ((message[1] as u64) << 8) | ((message[2] as u64)
        << 16) | ((message[3] as u64) << 24) | ((message[4] as u64) << 32) | ((message[5] as u64)
        << 40) | ((message[6] as u64) << 48) | ((message[7] as u64) << 56);
    if value > usize::MAX as u64 {
        usize::MAX
    } else {
        value as usize
    }
}

/// A message with its header in front.
pub fn frame_message(body: &Vec<u8>) -> (r: Vec<u8>)
    ensures
        r@ == framed(body@),
{
    let header = msg_len_vec(body.len());
    let mut out: Vec<u8> = Vec::new();
    let mut i: usize = 0;
    while i < 8
        invariant
            i <= 8,
            header@ == header_of(body@.len() as usize),
            out@ == header@.take(i as int),
        decreases 8 - i,
    {
        out.push(header[i]);
        proof {
            assert(header@.take(i + 1) =~= header@.take(i as int).push(header@[i as int]));
        }
        i += 1;
    }
    proof {
        assert(header@.take(8) =~= header@);
    }
    let mut j: usize = 0;
    while j < body.len()
        invariant
            j <= body.len(),
            out@ == header_of(body@.len() as usize) + body@.take(j as int),
        decreases body.len() - j,
    {
        out.push(body[j]);
        proof {
            assert(body@.take(j + 1) =~= body@.take(j as int).push(body@[j as int]));
            assert(out@ =~= header_of(body@.len() as usize) + body@.take(j + 1));
        }
        j += 1;
    }
    proof {
        assert(body@.take(body@.len() as int) =~= body@);
    }
    out
}

/// Whether a frame is complete: the bytes that its header announced are
/// there.
pub open spec fn frame_complete(msg_len: usize, total: nat) -> bool {
    total >= msg_len
}

/// How many of the first bytes of a chunk of `chunk` bytes belong to a
/// frame of which `have` bytes are there: as many as are still owed, as
/// far as the chunk has them.
pub open spec fn frame_take(msg_len: usize, have: nat, chunk: nat) -> nat {
    if have >= msg_len {
        0
    } else if chunk <= msg_len - have {
        chunk
    } else {
        (msg_len - have) as nat
    }
}

/// Collects one frame from what successive reads bring.
pub struct FrameReader {
    msg_len: usize,
    buf: Vec<u8>,
    rest: Vec<u8>,
}

impl FrameReader {
    /// The length that the header announced.
    pub closed spec fn msg_len(&self) -> usize {
        self.msg_len
    }

    /// What has been collected of the frame.
    pub closed spec fn body(&self) -> Seq<u8> {
        self.buf@
    }

    /// What the reads have brought beyond the frame: the beginning of
    /// what follows it.
    pub closed spec fn rest(&self) -> Seq<u8> {
        self.rest@
    }

    /// Whether the frame is complete.
    pub open spec fn done(&self) -> bool {
        frame_complete(self.msg_len(), self.body().len())
    }

    /// No more is collected than was announced, and nothing is held
    /// beyond a frame that is not complete.
    pub open spec fn wf(&self) -> bool {
        &&& self.body().len() <= self.msg_len()
        &&& self.body().len() < self.msg_len() ==> self.rest().len() == 0
    }

    /// A reader for the message that `header` announces.
    pub fn new(header: [u8; 8]) -> (r: FrameReader)
        ensures
            r.msg_len() == header_len(header@),
            r.body() == Seq::<u8>::empty(),
            r.rest() == Seq::<u8>::empty(),
            r.wf(),
    {
        FrameReader { msg_len: get_msg_len(header), buf: Vec::new(), rest: Vec::new() }
    }

    /// Takes what one read has brought and says whether the frame is
    /// complete. The frame takes the bytes that are still owed to it;
    /// what the read has brought beyond them is kept apart.
    pub fn feed(&mut self, chunk: &Vec<u8>) -> (complete: bool)
        ensures
            final(self).msg_len() == old(self).msg_len(),
            final(self).body() == old(self).body() + chunk@.take(
                frame_take(old(self).msg_len(), old(self).body().len(), chunk@.len()) as int,
            ),
            final(self).rest() == old(self).rest() + chunk@.skip(
                frame_take(old(self).msg_len(), old(self).body().len(), chunk@.len()) as int,
            ),
            complete == final(self).done(),
            old(self).wf() ==> final(self).wf(),
    {
        let ghost before = self.buf@;
        let ghost rest_before = self.rest@;
        let owed: usize = if self.buf.len() >= self.msg_len {
            0
        } else {
            self.msg_len - self.buf.len()
        };
        let take: usize = if chunk.len() <= owed {
            chunk.len()
        } else {
            owed
        };
        assert(take == frame_take(self.msg_len, before.len(), chunk@.len()));
        let mut i: usize = 0;
        while i < take
            invariant
                i <= take <= chunk.len(),
                self.buf@ == before + chunk@.take(i as int),
                self.rest@ == rest_before,
                self.msg_len == old(self).msg_len,
            decreases take - i,
        {
            self.buf.push(chunk[i]);
            proof {
                assert(chunk@.take(i + 1) =~= chunk@.take(i as int).push(chunk@[i as int]));
                assert(self.buf@ =~= before + chunk@.take(i + 1));
            }
            i += 1;
        }
        proof {
            assert(chunk@.skip(take as int).take(0) =~= Seq::<u8>::empty());
            assert(rest_before + Seq::<u8>::empty() =~= rest_before);
        }
        let mut j: usize = take;
        while j < chunk.len()
            invariant
                take <= j <= chunk.len(),
                self.buf@ == before + chunk@.take(take as int),
                self.rest@ == rest_before + chunk@.skip(take as int).take(j - take),
                self.msg_len == old(self).msg_len,
            decreases chunk.len() - j,
        {
            self.rest.push(chunk[j]);
            proof {
                let tail = chunk@.skip(take as int);
                assert(tail.take(j - take + 1) =~= tail.take(j - take).push(chunk@[j as int]));
                assert(self.rest@ =~= rest_before + tail.take(j - take + 1));
            }
            j += 1;
        }
        proof {
            let tail = chunk@.skip(take as int);
            assert(tail.take(tail.len() as int) =~= tail);
        }
        self.buf.len() >= self.msg_len
    }

    pub fn is_done(&self) -> (r: bool)
        ensures
            r == self.done(),
    {
        self.buf.len() >= self.msg_len
    }

    pub fn announced(&self) -> (r: usize)
        ensures
            r == self.msg_len(),
    {
        self.msg_len
    }

    /// How many bytes are still owed to the frame.
    pub fn wanted(&self) -> (r: usize)
        ensures
            r == if self.body().len() >= self.msg_len() {
                0
            } else {
                self.msg_len() - self.body().len()
            },
    {
        if self.buf.len() >= self.msg_len {
            0
        } else {
            self.msg_len - self.buf.len()
        }
    }

    /// What has been collected of the frame.
    pub fn into_body(self) -> (r: Vec<u8>)
        ensures
            r@ == self.body(),
    {
        self.buf
    }

    /// What has been collected of the frame, and what the reads have
    /// brought beyond it.
    pub fn into_parts(self) -> (r: (Vec<u8>, Vec<u8>))
        ensures
            r.0@ == self.body(),
            r.1@ == self.rest(),
    {
        (self.buf, self.rest)
    }
}

/// The manager's side of one exchange.
pub struct ProstServerStream<T> {
    manager: T,
}

/// The client's side of one exchange.
pub struct ProstClientStream {
    reader: Option<FrameReader>,
}

impl<T: ExecuterAction> ProstServerStream<T> {
    /// The manager that answers.
    pub closed spec fn manager(&self) -> T {
        self.manager
    }

    pub fn new(manager: T) -> (r: Self)
        ensures
            r.manager() == manager,
    {
        ProstServerStream { manager }
    }

    /// Answers the request that was received, if one was: a request that
    /// could not be read or understood gets no answer.
    pub fn process(self, received: Option<CommandRequest>) -> (r: Option<CommandResponse>)
        ensures
            received is None <==> r is None,
            received is Some ==> answers(received->0, r->0),
    {
        let mut manager = self.manager;
        match received {
            Some(cmd) => {
                let res = dispatch(cmd, &mut manager);
                Some(res)
            },
            None => None,
        }
    }
}

impl ProstClientStream {
    /// Whether the header of a response is awaited.
    pub closed spec fn awaiting(&self) -> bool {
        self.reader is None
    }

    /// The length that the header of the response announced.
    pub closed spec fn announced(&self) -> usize
        recommends
            !self.awaiting(),
    {
        self.reader->0.msg_len()
    }

    /// What has been collected of the response.
    pub closed spec fn collected(&self) -> Seq<u8>
        recommends
            !self.awaiting(),
    {
        self.reader->0.body()
    }

    /// Whether the response is complete: its header has arrived, and
    /// the bytes that it announced.
    pub open spec fn complete(&self) -> bool {
        !self.awaiting() && frame_complete(self.announced(), self.collected().len())
    }

    pub fn new() -> (r: Self)
        ensures
            r.awaiting(),
    {
        ProstClientStream { reader: None }
    }

    /// The bytes to send for the encoded command `cmd`. Whatever was
    /// collected of an earlier response is dropped.
    pub fn execute(&mut self, cmd: &Vec<u8>) -> (wire: Vec<u8>)
        ensures
            wire@ == framed(cmd@),
            final(self).awaiting(),
    {
        self.reader = None;
        frame_message(cmd)
    }

    /// The header of the response has arrived.
    pub fn response_header(&mut self, header: [u8; 8])
        ensures
            !final(self).awaiting(),
            final(self).announced() == header_len(header@),
            final(self).collected() == Seq::<u8>::empty(),
    {
        self.reader = Some(FrameReader::new(header));
    }

    /// How many bytes are still owed to the response; none before its
    /// header has arrived.
    pub fn wanted(&self) -> (r: usize)
        ensures
            r == if self.awaiting() || self.collected().len() >= self.announced() {
                0
            } else {
                self.announced() - self.collected().len()
            },
    {
        match &self.reader {
            None => 0,
            Some(reader) => reader.wanted(),
        }
    }

    /// A read has brought `chunk`, of which the response takes the
    /// bytes that are still owed to it. Returns the encoded response
    /// once it is complete. Before the header has arrived nothing is
    /// taken.
    pub fn response_chunk(&mut self, chunk: &Vec<u8>) -> (r: Option<Vec<u8>>)
        ensures
            old(self).awaiting() ==> r is None && final(self).awaiting(),
            !old(self).awaiting() ==> !final(self).awaiting() && final(self).announced() == old(self).announced() && final(self).collected() == old(self).collected() + chunk@.take(
                frame_take(old(self).announced(), old(self).collected().len(), chunk@.len()) as int,
            ),
            r is Some <==> final(self).complete(),
            r is Some ==> r->0@ == final(self).collected(),
    {
        let reader = self.reader.take();
        match reader {
            None => None,
            Some(mut reader) => {
                let complete = reader.feed(chunk);
                let body = if complete {
                    let mut copy: Vec<u8> = Vec::new();
                    let mut i: usize = 0;
                    while i < reader.buf.len()
                        invariant
                            i <= reader.buf.len(),
                            copy@ == reader.buf@.take(i as int),
                        decreases reader.buf.len() - i,
                    {
                        copy.push(reader.buf[i]);
                        proof {
                            assert(reader.buf@.take(i + 1) =~= reader.buf@.take(i as int).push(
                                reader.buf@[i as int],
                            ));
                        }
                        i += 1;
                    }
                    proof {
                        assert(reader.buf@.take(reader.buf@.len() as int) =~= reader.buf@);
                    }
                    Some(copy)
                } else {
                    None
                };
                self.reader = Some(reader);
                body
            },
        }
    }
}

} // verus!
