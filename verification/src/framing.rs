//! Cutting a stream of bytes into messages. A message travels as a frame: four
//! bytes that give the length of what follows, most significant byte first,
//! then that many bytes of JSON text. Bytes may arrive in pieces of any size;
//! a frame is handed out once all of it is there.

use vstd::prelude::*;

verus! {

/// The number of bytes that announce a frame's length.
pub const HEADER_LEN: usize = 4;

/// The longest message that may travel in one frame, in bytes.
pub const MAX_PAYLOAD: usize = 1048576;

/// Why a stream can carry no further message.
#[derive(Clone, Copy, Debug, PartialEq, Eq, Structural)]
pub enum FrameError {
    /// A frame announces, or a message has, more than `MAX_PAYLOAD` bytes.
    TooLarge,
    /// A frame or message is no JSON text.
    Malformed,
}

/// What a look at the buffered bytes finds at their start.
#[derive(Clone, Copy, Debug, PartialEq, Eq, Structural)]
pub enum Scan {
    /// Less than one whole frame.
    Incomplete,
    /// A header that announces more than `MAX_PAYLOAD` bytes.
    TooLarge,
    /// One whole frame, whose message has `payload_len` bytes.
    Complete { payload_len: usize },
}

/// What one attempt to read a message gives.
#[derive(Clone, Debug, PartialEq, Eq)]
pub enum ReadOutcome {
    /// No whole message has arrived yet.
    Pending,
    /// The bytes of the next message.
    Message(Vec<u8>),
    /// The peer has closed the connection and no whole message is left.
    Closed,
    /// The stream is broken for good.
    Error(FrameError),
}

/// A read's result as a mathematical value.
pub enum ReadOutcomeView {
    Pending,
    Message(Seq<u8>),
    Closed,
    Error(FrameError),
}

impl View for ReadOutcome {
    type V = ReadOutcomeView;

    open spec fn view(&self) -> ReadOutcomeView {
        match *self {
            ReadOutcome::Pending => ReadOutcomeView::Pending,
            ReadOutcome::Message(bytes) => ReadOutcomeView::Message(bytes@),
            ReadOutcome::Closed => ReadOutcomeView::Closed,
            ReadOutcome::Error(why) => ReadOutcomeView::Error(why),
        }
    }
}

/// Whether `bytes` are one JSON text, as the JSON parser in use judges it.
pub uninterp spec fn is_json_text(bytes: Seq<u8>) -> bool;

/// Asks `serde_json::from_slice`, with `serde_json::Value` as the target,
/// whether the bytes parse. That parser's verdict on given bytes is what
/// `is_json_text` names; nothing more is claimed of it.
#[verifier::external_body]
fn parses_as_json(payload: &[u8]) -> (ok: bool)
    ensures
        ok == is_json_text(payload@),
{
    serde_json::from_slice::<serde_json::Value>(payload).is_ok()
}

/// The four bytes that announce a message of `len` bytes.
pub open spec fn spec_header(len: int) -> Seq<u8> {
    seq![
        ((len / 16777216) % 256) as u8,
        ((len / 65536) % 256) as u8,
        ((len / 256) % 256) as u8,
        (len % 256) as u8,
    ]
}

/// The length that the first four bytes of `bytes` announce.
pub open spec fn spec_announced(bytes: Seq<u8>) -> int {
    bytes[0] as int * 16777216 + bytes[1] as int * 65536 + bytes[2] as int * 256 + bytes[3] as int
}

/// The frame in which `payload` travels.
pub open spec fn spec_frame(payload: Seq<u8>) -> Seq<u8> {
    spec_header(payload.len() as int) + payload
}

/// What stands at the start of `buffer`.
pub open spec fn spec_scan(buffer: Seq<u8>) -> Scan {
    if buffer.len() < HEADER_LEN {
        Scan::Incomplete
    } else if spec_announced(buffer) > MAX_PAYLOAD {
        Scan::TooLarge
    } else if buffer.len() < HEADER_LEN + spec_announced(buffer) {
        Scan::Incomplete
    } else {
        Scan::Complete { payload_len: spec_announced(buffer) as usize }
    }
}

/// A receiving stream as a mathematical value.
pub struct StreamModel {
    /// The bytes that have arrived and were not handed out yet.
    pub buffer: Seq<u8>,
    /// Whether the peer has closed the connection.
    pub closed: bool,
    /// Why the stream is broken, if it is.
    pub failed: Option<FrameError>,
}

impl StreamModel {
    /// A stream on which nothing has arrived.
    pub open spec fn fresh() -> StreamModel {
        StreamModel { buffer: Seq::empty(), closed: false, failed: None }
    }

    /// The stream after `bytes` have arrived. A closed or broken stream takes
    /// no more bytes.
    pub open spec fn feed(self, bytes: Seq<u8>) -> StreamModel {
        if self.closed || self.failed is Some {
            self
        } else {
            StreamModel { buffer: self.buffer + bytes, ..self }
        }
    }

    /// The stream after the peer has closed the connection.
    pub open spec fn close(self) -> StreamModel {
        StreamModel { closed: true, ..self }
    }

    /// What the message at the start of the buffer is handed out as, once its
    /// `payload_len` bytes are there.
    pub open spec fn settle(self, payload_len: int, well_formed: bool) -> (
        StreamModel,
        ReadOutcomeView,
    ) {
        if well_formed {
            (
                StreamModel {
                    buffer: self.buffer.skip(HEADER_LEN + payload_len),
                    ..self
                },
                ReadOutcomeView::Message(
                    self.buffer.subrange(HEADER_LEN as int, HEADER_LEN + payload_len),
                ),
            )
        } else {
            (
                StreamModel { failed: Some(FrameError::Malformed), ..self },
                ReadOutcomeView::Error(FrameError::Malformed),
            )
        }
    }

    /// One attempt to read a message: the stream afterwards, and the result.
    pub open spec fn read(self) -> (StreamModel, ReadOutcomeView) {
        match self.failed {
            Some(why) => (self, ReadOutcomeView::Error(why)),
            None => match spec_scan(self.buffer) {
                Scan::TooLarge => (
                    StreamModel { failed: Some(FrameError::TooLarge), ..self },
                    ReadOutcomeView::Error(FrameError::TooLarge),
                ),
                Scan::Incomplete => if self.closed {
                    (self, ReadOutcomeView::Closed)
                } else {
                    (self, ReadOutcomeView::Pending)
                },
                Scan::Complete { payload_len } => self.settle(
                    payload_len as int,
                    is_json_text(
                        self.buffer.subrange(HEADER_LEN as int, HEADER_LEN + payload_len),
                    ),
                ),
            },
        }
    }
}

/// What stands at the start of `buffer`: a whole frame, less, or a header
/// that announces too much.
pub fn scan(buffer: &Vec<u8>) -> (found: Scan)
    ensures
        found == spec_scan(buffer@),
{
    if buffer.len() < HEADER_LEN {
        return Scan::Incomplete;
    }
    let announced: u64 = (buffer[0] as u64) * 16777216 + (buffer[1] as u64) * 65536 + (
    buffer[2] as u64) * 256 + (buffer[3] as u64);
    if announced > MAX_PAYLOAD as u64 {
        return Scan::TooLarge;
    }
    let payload_len: usize = announced as usize;
    if buffer.len() - HEADER_LEN < payload_len {
        Scan::Incomplete
    } else {
        Scan::Complete { payload_len }
    }
}

/// What sending `payload` comes to, once it is known whether it is JSON text.
pub open spec fn spec_seal(payload: Seq<u8>, well_formed: bool) -> Result<Seq<u8>, FrameError> {
    if payload.len() > MAX_PAYLOAD {
        Err(FrameError::TooLarge)
    } else if !well_formed {
        Err(FrameError::Malformed)
    } else {
        Ok(spec_frame(payload))
    }
}

/// The frame in which `payload` travels, given whether it is JSON text. A
/// message of more than `MAX_PAYLOAD` bytes is refused, and so is one that is
/// no JSON text.
pub fn seal(payload: &[u8], well_formed: bool) -> (frame: Result<Vec<u8>, FrameError>)
    ensures
        frame is Ok <==> spec_seal(payload@, well_formed) is Ok,
        frame matches Ok(bytes) ==> spec_seal(payload@, well_formed) == Ok::<
            Seq<u8>,
            FrameError,
        >(bytes@),
        frame matches Err(why) ==> spec_seal(payload@, well_formed) == Err::<Seq<u8>, FrameError>(
            why,
        ),
{
    if payload.len() > MAX_PAYLOAD {
        return Err(FrameError::TooLarge);
    }
    if !well_formed {
        return Err(FrameError::Malformed);
    }
    let len: usize = payload.len();
    let mut frame: Vec<u8> = Vec::new();
    frame.push(((len / 16777216) % 256) as u8);
    frame.push(((len / 65536) % 256) as u8);
    frame.push(((len / 256) % 256) as u8);
    frame.push((len % 256) as u8);
    assert(frame@ =~= spec_header(len as int));
    let mut i: usize = 0;
    while i < len
        invariant
            i <= len,
            len == payload@.len(),
            frame@ == spec_header(len as int) + payload@.take(i as int),
        decreases len - i,
    {
        frame.push(payload[i]);
        proof {
            assert(spec_header(len as int) + payload@.take(i + 1) =~= (spec_header(len as int)
                + payload@.take(i as int)).push(payload@[i as int]));
        }
        i += 1;
    }
    proof {
        assert(payload@.take(i as int) =~= payload@);
    }
    Ok(frame)
}

/// The frame in which `payload` travels: its length in four bytes, then the
/// payload itself. A message of more than `MAX_PAYLOAD` bytes is refused, and
/// so is one that is no JSON text: the receiver would break the stream on it.
pub fn frame(payload: &[u8]) -> (frame: Result<Vec<u8>, FrameError>)
    ensures
        frame is Ok <==> payload@.len() <= MAX_PAYLOAD && is_json_text(payload@),
        frame matches Ok(bytes) ==> bytes@ == spec_frame(payload@),
        frame matches Err(why) ==> why == (if payload@.len() > MAX_PAYLOAD {
            FrameError::TooLarge
        } else {
            FrameError::Malformed
        }),
{
    if payload.len() > MAX_PAYLOAD {
        return Err(FrameError::TooLarge);
    }
    let well_formed = parses_as_json(payload);
    seal(payload, well_formed)
}

/// A header announces the length it was made for.
pub proof fn lemma_header_announces(len: int)
    requires
        0 <= len <= MAX_PAYLOAD,
    ensures
        spec_header(len).len() == HEADER_LEN,
        spec_announced(spec_header(len)) == len,
{
}

/// What is handed out for a message `payload` whose frame has arrived whole.
pub open spec fn spec_delivered(payload: Seq<u8>) -> ReadOutcomeView {
    if is_json_text(payload) {
        ReadOutcomeView::Message(payload)
    } else {
        ReadOutcomeView::Error(FrameError::Malformed)
    }
}

/// A frame that has arrived whole on a fresh stream is read as its message,
/// and nothing is left behind.
pub proof fn lemma_frame_is_read(payload: Seq<u8>)
    requires
        payload.len() <= MAX_PAYLOAD,
    ensures
        StreamModel::fresh().feed(spec_frame(payload)).read().1 == spec_delivered(payload),
        is_json_text(payload) ==> StreamModel::fresh().feed(spec_frame(payload)).read().0
            == StreamModel::fresh(),
{
    let frame = spec_frame(payload);
    let len = payload.len() as int;
    lemma_header_announces(len);
    let fed = StreamModel::fresh().feed(frame);
    assert(fed.buffer =~= frame);
    assert(spec_announced(frame) == len) by {
        assert(frame[0] == spec_header(len)[0]);
        assert(frame[1] == spec_header(len)[1]);
        assert(frame[2] == spec_header(len)[2]);
        assert(frame[3] == spec_header(len)[3]);
    }
    assert(spec_scan(frame) == (Scan::Complete { payload_len: len as usize }));
    assert(frame.subrange(HEADER_LEN as int, HEADER_LEN + len) =~= payload);
    assert(frame.skip(HEADER_LEN + len) =~= Seq::<u8>::empty());
}

/// A frame in pieces: cut a frame anywhere, let the first piece arrive on a
/// fresh stream, read, let the rest arrive, and read again. When the cut
/// leaves something for the second piece, the first read finds nothing and
/// changes nothing, and the second read gives what reading the whole frame
/// gives. When the first piece is the whole frame, the first read gives that.
/// Either way the message is handed out once: a further read finds nothing.
pub proof fn lemma_partial_delivery(payload: Seq<u8>, cut: int)
    requires
        payload.len() <= MAX_PAYLOAD,
        0 <= cut <= spec_frame(payload).len(),
    ensures
        ({
            let frame = spec_frame(payload);
            let first = StreamModel::fresh().feed(frame.take(cut));
            let (after_first, first_read) = first.read();
            let (after_second, second_read) = after_first.feed(frame.skip(cut)).read();
            let whole = StreamModel::fresh().feed(frame).read();
            &&& whole.1 == spec_delivered(payload)
            &&& cut < frame.len() ==> first_read == ReadOutcomeView::Pending && after_first
                == first && second_read == whole.1 && after_second == whole.0
            &&& cut == frame.len() ==> first_read == whole.1 && after_first == whole.0
            &&& is_json_text(payload) ==> after_second == StreamModel::fresh()
                && after_second.read().1 == ReadOutcomeView::Pending
            &&& is_json_text(payload) && cut == frame.len() ==> second_read
                == ReadOutcomeView::Pending
        }),
{
    let frame = spec_frame(payload);
    let len = payload.len() as int;
    lemma_header_announces(len);
    lemma_frame_is_read(payload);
    let first = StreamModel::fresh().feed(frame.take(cut));
    assert(first.buffer =~= frame.take(cut));
    assert(StreamModel::fresh().feed(frame).buffer =~= frame);
    assert(spec_scan(Seq::<u8>::empty()) == Scan::Incomplete);
    if cut < frame.len() {
        lemma_prefix_is_incomplete(payload, cut);
        assert(first.read() == (first, ReadOutcomeView::Pending));
        assert(first.feed(frame.skip(cut)).buffer =~= frame);
        assert(first.feed(frame.skip(cut)) == StreamModel::fresh().feed(frame));
    } else {
        assert(frame.take(cut) =~= frame);
        assert(frame.skip(cut) =~= Seq::<u8>::empty());
        assert(first == StreamModel::fresh().feed(frame));
        if is_json_text(payload) {
            let after_first = first.read().0;
            assert(after_first == StreamModel::fresh());
            assert(after_first.feed(frame.skip(cut)).buffer =~= Seq::<u8>::empty());
            assert(after_first.feed(frame.skip(cut)) == StreamModel::fresh());
        }
    }
}

/// Less than a whole frame is never taken for a frame.
pub proof fn lemma_prefix_is_incomplete(payload: Seq<u8>, cut: int)
    requires
        payload.len() <= MAX_PAYLOAD,
        0 <= cut < spec_frame(payload).len(),
    ensures
        spec_scan(spec_frame(payload).take(cut)) == Scan::Incomplete,
{
    let frame = spec_frame(payload);
    let len = payload.len() as int;
    lemma_header_announces(len);
    if cut >= HEADER_LEN {
        assert(spec_announced(frame.take(cut)) == len) by {
            assert(frame.take(cut)[0] == spec_header(len)[0]);
            assert(frame.take(cut)[1] == spec_header(len)[1]);
            assert(frame.take(cut)[2] == spec_header(len)[2]);
            assert(frame.take(cut)[3] == spec_header(len)[3]);
        }
    }
}

/// The bytes of a list of pieces, one piece after the other.
pub open spec fn joined(pieces: Seq<Seq<u8>>) -> Seq<u8>
    decreases pieces.len(),
{
    if pieces.len() == 0 {
        Seq::empty()
    } else {
        joined(pieces.drop_last()) + pieces.last()
    }
}

/// The stream after the pieces of a list have arrived one by one, with one
/// read after each; and what these reads have given, but for the reads that
/// found nothing yet.
pub open spec fn after_pieces(stream: StreamModel, pieces: Seq<Seq<u8>>) -> (
    StreamModel,
    Seq<ReadOutcomeView>,
)
    decreases pieces.len(),
{
    if pieces.len() == 0 {
        (stream, Seq::empty())
    } else {
        let (before, found) = after_pieces(stream, pieces.drop_last());
        let (after, outcome) = before.feed(pieces.last()).read();
        (
            after,
            if outcome == ReadOutcomeView::Pending {
                found
            } else {
                found.push(outcome)
            },
        )
    }
}

/// Pieces that make up the start of a frame, as far as they go: nothing is
/// handed out before the frame is whole, and the message once it is.
proof fn lemma_pieces_so_far(payload: Seq<u8>, pieces: Seq<Seq<u8>>)
    requires
        payload.len() <= MAX_PAYLOAD,
        is_json_text(payload),
        joined(pieces).len() <= spec_frame(payload).len(),
        joined(pieces) == spec_frame(payload).take(joined(pieces).len() as int),
    ensures
        ({
            let (stream, found) = after_pieces(StreamModel::fresh(), pieces);
            if joined(pieces).len() < spec_frame(payload).len() {
                stream == (StreamModel { buffer: joined(pieces), ..StreamModel::fresh() })
                    && found == Seq::<ReadOutcomeView>::empty()
            } else {
                stream == StreamModel::fresh() && found == seq![ReadOutcomeView::Message(payload)]
            }
        }),
    decreases pieces.len(),
{
    let frame = spec_frame(payload);
    if pieces.len() > 0 {
        let earlier = pieces.drop_last();
        let piece = pieces.last();
        let so_far = joined(earlier).len() as int;
        let now = joined(pieces).len() as int;
        assert(now == so_far + piece.len());
        assert(joined(earlier) =~= frame.take(so_far)) by {
            assert(joined(earlier) =~= joined(pieces).take(so_far));
        }
        lemma_pieces_so_far(payload, earlier);
        let (before, found) = after_pieces(StreamModel::fresh(), earlier);
        if so_far < frame.len() {
            assert(before.feed(piece).buffer =~= frame.take(now));
            if now < frame.len() {
                lemma_prefix_is_incomplete(payload, now);
            } else {
                assert(frame.take(now) =~= frame);
                lemma_frame_is_read(payload);
                assert(StreamModel::fresh().feed(frame).buffer =~= frame);
                assert(before.feed(piece) == StreamModel::fresh().feed(frame));
                assert(Seq::<ReadOutcomeView>::empty().push(ReadOutcomeView::Message(payload))
                    =~= seq![ReadOutcomeView::Message(payload)]);
            }
        } else {
            assert(piece.len() == 0);
            assert(before.feed(piece).buffer =~= Seq::<u8>::empty());
            assert(before.feed(piece) == StreamModel::fresh());
        }
    } else {
        assert(joined(pieces) =~= Seq::<u8>::empty());
    }
}

/// A frame in any number of pieces. However the frame of a message is cut
/// into pieces, when the pieces arrive one by one on a fresh stream, with a
/// read after each, the reads hand out the message, once, and nothing else;
/// and nothing is left in the stream.
pub proof fn lemma_delivery_in_pieces(payload: Seq<u8>, pieces: Seq<Seq<u8>>)
    requires
        payload.len() <= MAX_PAYLOAD,
        is_json_text(payload),
        joined(pieces) == spec_frame(payload),
    ensures
        after_pieces(StreamModel::fresh(), pieces) == (
            StreamModel::fresh(),
            seq![ReadOutcomeView::Message(payload)],
        ),
{
    assert(spec_frame(payload).take(spec_frame(payload).len() as int) =~= spec_frame(payload));
    lemma_pieces_so_far(payload, pieces);
}

/// The receiving end of a connection: it collects the bytes as they arrive
/// and hands out one message at a time.
pub struct JsonTcpStream {
    buffer: Vec<u8>,
    closed: bool,
    failed: Option<FrameError>,
}

impl View for JsonTcpStream {
    type V = StreamModel;

    closed spec fn view(&self) -> StreamModel {
        StreamModel { buffer: self.buffer@, closed: self.closed, failed: self.failed }
    }
}

impl JsonTcpStream {
    /// A stream on which nothing has arrived.
    pub fn new() -> (stream: JsonTcpStream)
        ensures
            stream@ == StreamModel::fresh(),
    {
        JsonTcpStream { buffer: Vec::new(), closed: false, failed: None }
    }

    /// Takes in bytes that have arrived, however few. A closed or broken
    /// stream takes no more.
    pub fn feed(&mut self, bytes: &[u8])
        ensures
            final(self)@ == old(self)@.feed(bytes@),
    {
        if self.closed || self.failed.is_some() {
            return ;
        }
        let ghost before = self.buffer@;
        let mut i: usize = 0;
        while i < bytes.len()
            invariant
                i <= bytes.len(),
                self.closed == old(self).closed,
                self.failed == old(self).failed,
                self.buffer@ == before + bytes@.take(i as int),
            decreases bytes.len() - i,
        {
            self.buffer.push(bytes[i]);
            proof {
                assert(bytes@.take(i + 1) =~= bytes@.take(i as int).push(bytes@[i as int]));
                assert(before + bytes@.take(i + 1) =~= (before + bytes@.take(i as int)).push(
                    bytes@[i as int],
                ));
            }
            i += 1;
        }
        proof {
            assert(bytes@.take(i as int) =~= bytes@);
        }
    }

    /// Notes that the peer has closed the connection.
    pub fn close(&mut self)
        ensures
            final(self)@ == old(self)@.close(),
    {
        self.closed = true;
    }

    /// Hands out the message at the start of the buffer, whose `payload_len`
    /// bytes are there: as a message where it is JSON text, else as the error
    /// that breaks the stream.
    pub fn settle(&mut self, payload_len: usize, well_formed: bool) -> (outcome: ReadOutcome)
        requires
            old(self)@.failed is None,
            spec_scan(old(self)@.buffer) == (Scan::Complete { payload_len }),
        ensures
            (final(self)@, outcome@) == old(self)@.settle(payload_len as int, well_formed),
    {
        if !well_formed {
            self.failed = Some(FrameError::Malformed);
            return ReadOutcome::Error(FrameError::Malformed);
        }
        let ghost before = self.buffer@;
        let rest = self.buffer.split_off(HEADER_LEN + payload_len);
        let payload = self.buffer.split_off(HEADER_LEN);
        self.buffer = rest;
        proof {
            assert(payload@ =~= before.subrange(HEADER_LEN as int, HEADER_LEN + payload_len));
            assert(self.buffer@ =~= before.skip(HEADER_LEN + payload_len));
        }
        ReadOutcome::Message(payload)
    }

    /// One attempt to read a message. It never waits: with less than a whole
    /// frame buffered the answer is `Pending`, or `Closed` once the peer has
    /// gone. A whole frame is taken out of the buffer and handed out as a
    /// message if it is JSON text. A frame that is not, or one that announces
    /// too many bytes, breaks the stream: this and every later read answer
    /// with that error.
    pub fn read(&mut self) -> (outcome: ReadOutcome)
        ensures
            (final(self)@, outcome@) == old(self)@.read(),
    {
        if let Some(why) = self.failed {
            return ReadOutcome::Error(why);
        }
        match scan(&self.buffer) {
            Scan::TooLarge => {
                self.failed = Some(FrameError::TooLarge);
                ReadOutcome::Error(FrameError::TooLarge)
            },
            Scan::Incomplete => {
                if self.closed {
                    ReadOutcome::Closed
                } else {
                    ReadOutcome::Pending
                }
            },
            Scan::Complete { payload_len } => {
                let well_formed = self.holds_json(payload_len);
                self.settle(payload_len, well_formed)
            },
        }
    }

    /// Whether the message at the start of the buffer is JSON text.
    fn holds_json(&self, payload_len: usize) -> (well_formed: bool)
        requires
            spec_scan(self@.buffer) == (Scan::Complete { payload_len }),
        ensures
            well_formed == is_json_text(
                self@.buffer.subrange(HEADER_LEN as int, HEADER_LEN + payload_len),
            ),
    {
        let mut payload: Vec<u8> = Vec::new();
        let mut i: usize = 0;
        while i < payload_len
            invariant
                i <= payload_len,
                payload_len <= MAX_PAYLOAD,
                HEADER_LEN + payload_len <= self.buffer@.len(),
                payload@ == self.buffer@.subrange(HEADER_LEN as int, HEADER_LEN + i),
            decreases payload_len - i,
        {
            payload.push(self.buffer[HEADER_LEN + i]);
            proof {
                assert(self.buffer@.subrange(HEADER_LEN as int, HEADER_LEN + i + 1)
                    =~= self.buffer@.subrange(HEADER_LEN as int, HEADER_LEN + i).push(
                    self.buffer@[HEADER_LEN + i],
                ));
            }
            i += 1;
        }
        parses_as_json(payload.as_slice())
    }
}

} // verus!
