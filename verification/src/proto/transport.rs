//! Framing of messages on a byte pipe.
//!
//! A message is sent as the length of its encoding, four bytes with the most
//! significant one first, and then the encoding itself.
use crate::BytesFormat;
use std::marker::PhantomData;
use vstd::prelude::*;

verus! {

/// A frame: `data` announced by `len`.
#[derive(Debug, PartialEq, Eq)]
pub struct Header<T> {
    pub len: u32,
    pub data: T,
}

/// Why a message could not be sent or received.
#[derive(Debug)]
pub enum Error<Format: BytesFormat> {
    Ser(Format::SerError),
    De(Format::DeError),
    IO(std::io::Error),
}

impl<Format: BytesFormat> From<std::io::Error> for Error<Format> {
    fn from(e: std::io::Error) -> (r: Self) {
        Error::IO(e)
    }
}

impl<Format: BytesFormat> vstd::std_specs::convert::FromSpecImpl<std::io::Error> for Error<Format> {
    open spec fn obeys_from_spec() -> bool {
        true
    }

    open spec fn from_spec(e: std::io::Error) -> Self {
        Error::IO(e)
    }
}

/// The number that four bytes stand for, the most significant one first.
pub open spec fn len_of_bytes(bytes: Seq<u8>) -> int {
    bytes[0] * 0x100_0000 + bytes[1] * 0x1_0000 + bytes[2] * 0x100 + bytes[3]
}

/// The four bytes that announce a payload of `len` bytes.
pub fn encode_len(len: u32) -> (r: [u8; 4])
    ensures
        len_of_bytes(r@) == len,
{
    let b0: u8 = (len / 0x100_0000) as u8;
    let b1: u8 = (len / 0x1_0000 % 0x100) as u8;
    let b2: u8 = (len / 0x100 % 0x100) as u8;
    let b3: u8 = (len % 0x100) as u8;
    [b0, b1, b2, b3]
}

/// The length that four bytes announce.
pub fn decode_len(bytes: [u8; 4]) -> (r: u32)
    ensures
        r == len_of_bytes(bytes@),
{
    bytes[0] as u32 * 0x100_0000 + bytes[1] as u32 * 0x1_0000 + bytes[2] as u32 * 0x100
        + bytes[3] as u32
}

impl Header<Vec<u8>> {
    /// The frame of an encoded message. The announced length is the payload's
    /// length reduced to 32 bits.
    pub fn frame(data: Vec<u8>) -> (r: Self)
        ensures
            r.len == data@.len() % 0x1_0000_0000,
            r.data == data,
    {
        let n: u64 = data.len() as u64;
        assert(#[verifier::truncate] (n as u32) == n % 0x1_0000_0000) by (bit_vector);
        Header { len: #[verifier::truncate] (n as u32), data }
    }

    /// The bytes that a frame is on the pipe, once all of it is written.
    pub open spec fn is_wire(self, wire: Seq<u8>) -> bool {
        &&& wire.len() == 4 + self.data@.len()
        &&& len_of_bytes(wire.take(4)) == self.len
        &&& wire.skip(4) == self.data@
    }
}

/// A pipe that carries messages of one format.
pub struct TransportSocket<Pipe, Format: BytesFormat> {
    pub pipe: Pipe,
    pub _f: PhantomData<Format>,
}

/// What is to be done next to send a message.
pub enum SendStep<Format: BytesFormat> {
    /// Write all of the encoding of the frame's length.
    WriteHeader(Header<Vec<u8>>),
    /// Offer the payload to the pipe in one write.
    WritePayload(Vec<u8>),
    Done(Result<(), Error<Format>>),
}

/// What is to be done next to receive a message.
pub enum RecvStep<Format: BytesFormat> {
    /// Read exactly four bytes.
    ReadHeader,
    /// Read exactly as many bytes as the buffer is long.
    Fill(Vec<u8>),
    /// Decode the bytes as a message.
    Decode(Vec<u8>),
    Failed(Error<Format>),
}

impl<Pipe, Format: BytesFormat> TransportSocket<Pipe, Format> {
    pub fn new(pipe: Pipe) -> (r: Self)
        ensures
            r.pipe == pipe,
    {
        TransportSocket { pipe, _f: PhantomData }
    }

    /// Begins to send: `serialized` is the encoding of the message. Nothing is
    /// written where the encoding failed.
    pub fn send(serialized: Result<Vec<u8>, Format::SerError>) -> (step: SendStep<Format>)
        ensures
            match serialized {
                Ok(bytes) => step matches SendStep::WriteHeader(frame) && frame.len == bytes@.len()
                    % 0x1_0000_0000 && frame.data == bytes,
                Err(e) => step == SendStep::<Format>::Done(Err(Error::Ser(e))),
            },
    {
        match serialized {
            Ok(bytes) => SendStep::WriteHeader(Header::frame(bytes)),
            Err(e) => SendStep::Done(Err(Error::Ser(e))),
        }
    }

    /// Goes on after the header of `frame` was written.
    pub fn header_sent(
        frame: Header<Vec<u8>>,
        written: Result<(), std::io::Error>,
    ) -> (step: SendStep<Format>)
        ensures
            match written {
                Ok(_) => step == SendStep::<Format>::WritePayload(frame.data),
                Err(e) => step == SendStep::<Format>::Done(Err(Error::IO(e))),
            },
    {
        match written {
            Ok(_) => SendStep::WritePayload(frame.data),
            Err(e) => SendStep::Done(Err(Error::from(e))),
        }
    }

    /// Ends after the write of the payload. However many bytes the pipe took,
    /// a write that did not fail counts as sent.
    pub fn payload_sent(written: Result<usize, std::io::Error>) -> (step: SendStep<Format>)
        ensures
            match written {
                Ok(_) => step == SendStep::<Format>::Done(Ok(())),
                Err(e) => step == SendStep::<Format>::Done(Err(Error::IO(e))),
            },
    {
        match written {
            Ok(_) => SendStep::Done(Ok(())),
            Err(e) => SendStep::Done(Err(Error::from(e))),
        }
    }

    /// Begins to receive.
    pub fn recv() -> (step: RecvStep<Format>)
        ensures
            step == RecvStep::<Format>::ReadHeader,
    {
        RecvStep::ReadHeader
    }

    /// Goes on after the header was read. The buffer has room for the announced
    /// length and is empty.
    pub fn header_received(header: Result<[u8; 4], std::io::Error>) -> (step: RecvStep<Format>)
        requires
            header matches Ok(bytes) ==> len_of_bytes(bytes@) <= isize::MAX,
        ensures
            match header {
                Ok(bytes) => step matches RecvStep::Fill(buffer) && buffer@.len() == 0,
                Err(e) => step == RecvStep::<Format>::Failed(Error::IO(e)),
            },
    {
        match header {
            Ok(bytes) => {
                let read_size = decode_len(bytes);
                RecvStep::Fill(Vec::with_capacity(read_size as usize))
            },
            Err(e) => RecvStep::Failed(Error::from(e)),
        }
    }

    /// Goes on after `buffer` was filled.
    pub fn payload_received(
        buffer: Vec<u8>,
        filled: Result<(), std::io::Error>,
    ) -> (step: RecvStep<Format>)
        ensures
            match filled {
                Ok(_) => step == RecvStep::<Format>::Decode(buffer),
                Err(e) => step == RecvStep::<Format>::Failed(Error::IO(e)),
            },
    {
        match filled {
            Ok(_) => RecvStep::Decode(buffer),
            Err(e) => RecvStep::Failed(Error::from(e)),
        }
    }

    /// Ends with what the decoder made of the buffer.
    pub fn decoded<E>(deserialized: Result<E, Format::DeError>) -> (r: Result<E, Error<Format>>)
        ensures
            match deserialized {
                Ok(msg) => r == Ok::<E, Error<Format>>(msg),
                Err(e) => r == Err::<E, Error<Format>>(Error::De(e)),
            },
    {
        match deserialized {
            Ok(msg) => Ok(msg),
            Err(e) => Err(Error::De(e)),
        }
    }
}

/// The four bytes of a length are determined by it, and the length by the
/// bytes: either direction undoes the other.
pub proof fn law_len_encoding_is_one_to_one(a: Seq<u8>, b: Seq<u8>)
    requires
        a.len() == 4,
        b.len() == 4,
    ensures
        0 <= len_of_bytes(a) <= u32::MAX,
        len_of_bytes(a) == len_of_bytes(b) <==> a == b,
{
    if len_of_bytes(a) == len_of_bytes(b) {
        assert(a[0] == b[0]);
        assert(a[1] == b[1]);
        assert(a[2] == b[2]);
        assert(a[3] == b[3]);
        assert(a =~= b);
    }
}

/// The bytes of a frame determine the payload, and two frames of the same
/// payload are the same bytes.
pub proof fn law_wire_determines_payload(
    frame1: Header<Vec<u8>>,
    wire1: Seq<u8>,
    frame2: Header<Vec<u8>>,
    wire2: Seq<u8>,
)
    requires
        frame1.is_wire(wire1),
        frame2.is_wire(wire2),
        frame1.len == frame1.data@.len() % 0x1_0000_0000,
        frame2.len == frame2.data@.len() % 0x1_0000_0000,
    ensures
        wire1 == wire2 <==> frame1.data@ == frame2.data@,
{
    if frame1.data@ == frame2.data@ {
        law_len_encoding_is_one_to_one(wire1.take(4), wire2.take(4));
        assert(wire1 =~= wire1.take(4) + wire1.skip(4));
        assert(wire2 =~= wire2.take(4) + wire2.skip(4));
    }
}

/// What a receiver makes of the bytes that wait in the pipe, once the header is
/// read and `buffer` is filled up to its length: the bytes that it hands to the
/// decoder, and those that still wait.
pub open spec fn received_of(pipe: Seq<u8>, buffer: Vec<u8>) -> (Seq<u8>, Seq<u8>) {
    let end = 4 + buffer@.len();
    (pipe.subrange(4, end as int), pipe.skip(end as int))
}

/// With the empty buffer of a receiver, a message whose encoding is empty is
/// received as it was sent, and nothing of it stays in the pipe.
pub proof fn law_empty_payload_round_trip(
    frame: Header<Vec<u8>>,
    wire: Seq<u8>,
    buffer: Vec<u8>,
)
    requires
        frame.len == frame.data@.len() % 0x1_0000_0000,
        frame.is_wire(wire),
        buffer@.len() == 0,
        frame.data@.len() == 0,
    ensures
        received_of(wire, buffer) == (frame.data@, Seq::<u8>::empty()),
{
    assert(frame.data@ =~= Seq::<u8>::empty());
    assert(wire.skip(4) =~= Seq::<u8>::empty());
}

/// Any other payload is left in the pipe whole, where the next header is
/// looked for, while the decoder is handed no bytes.
pub proof fn law_payload_stays_in_pipe(
    frame: Header<Vec<u8>>,
    wire: Seq<u8>,
    buffer: Vec<u8>,
)
    requires
        frame.len == frame.data@.len() % 0x1_0000_0000,
        frame.is_wire(wire),
        buffer@.len() == 0,
        frame.data@.len() > 0,
    ensures
        received_of(wire, buffer) == (Seq::<u8>::empty(), frame.data@),
        received_of(wire, buffer).0 != frame.data@,
{
}

/// Every length comes back from its four bytes, and every four bytes come back
/// from the length that they announce. The most significant byte is the first.
pub proof fn law_length_comes_back(
    len: u32,
    bytes: [u8; 4],
    decoded: u32,
    other: [u8; 4],
    announced: u32,
    encoded: [u8; 4],
)
    requires
        call_ensures(encode_len, (len,), bytes),
        call_ensures(decode_len, (bytes,), decoded),
        call_ensures(decode_len, (other,), announced),
        call_ensures(encode_len, (announced,), encoded),
    ensures
        decoded == len,
        encoded@ == other@,
        len == ((bytes@[0] * 256 + bytes@[1]) * 256 + bytes@[2]) * 256 + bytes@[3],
{
    law_len_encoding_is_one_to_one(encoded@, other@);
}

/// A frame carries its payload as it is and announces its length, which is exact
/// unless it does not fit into four bytes.
pub proof fn law_frame_announces_its_payload(data: Vec<u8>, frame: Header<Vec<u8>>)
    requires
        call_ensures(Header::frame, (data,), frame),
    ensures
        frame.data@ == data@,
        data@.len() <= u32::MAX ==> frame.len == data@.len(),
        (data@.len() - frame.len) % 0x1_0000_0000 == 0,
{
}

/// What goes out for a message, where nothing fails: the four bytes of the
/// encoding's length, as far as it fits, and then the whole encoding. However
/// many bytes of it the pipe took, that is the end.
pub proof fn law_message_goes_out_behind_its_length<Pipe, Format: BytesFormat>(
    encoding: Vec<u8>,
    first: SendStep<Format>,
    header: [u8; 4],
    second: SendStep<Format>,
    taken: usize,
    third: SendStep<Format>,
    announced: u32,
)
    requires
        call_ensures(TransportSocket::<Pipe, Format>::send, (Ok(encoding),), first),
        first is WriteHeader ==> call_ensures(encode_len, (first->WriteHeader_0.len,), header),
        first is WriteHeader ==> call_ensures(
            TransportSocket::<Pipe, Format>::header_sent,
            (first->WriteHeader_0, Ok(())),
            second,
        ),
        call_ensures(TransportSocket::<Pipe, Format>::payload_sent, (Ok(taken),), third),
        call_ensures(decode_len, (header,), announced),
    ensures
        first is WriteHeader,
        encoding@.len() <= u32::MAX ==> announced == encoding@.len(),
        (encoding@.len() - announced) % 0x1_0000_0000 == 0,
        second == SendStep::<Format>::WritePayload(encoding),
        third == SendStep::<Format>::Done(Ok(())),
{
}

/// Whatever fails on the way out ends the sending with just that error.
pub proof fn law_send_ends_with_what_failed<Pipe, Format: BytesFormat>(
    unencodable: Format::SerError,
    frame: Header<Vec<u8>>,
    e: std::io::Error,
    on_encoding: SendStep<Format>,
    on_header: SendStep<Format>,
    on_payload: SendStep<Format>,
)
    requires
        call_ensures(TransportSocket::<Pipe, Format>::send, (Err(unencodable),), on_encoding),
        call_ensures(TransportSocket::<Pipe, Format>::header_sent, (frame, Err(e)), on_header),
        call_ensures(TransportSocket::<Pipe, Format>::payload_sent, (Err(e),), on_payload),
    ensures
        on_encoding == SendStep::<Format>::Done(Err(Error::Ser(unencodable))),
        on_header == SendStep::<Format>::Done(Err(Error::IO(e))),
        on_payload == SendStep::<Format>::Done(Err(Error::IO(e))),
{
}

/// What is received, where nothing fails: the header is read first, the buffer
/// that is filled next is empty, just that buffer is decoded, and what the
/// decoder makes of it is the message.
pub proof fn law_received_is_what_was_decoded<Pipe, Format: BytesFormat, E>(
    first: RecvStep<Format>,
    header: [u8; 4],
    second: RecvStep<Format>,
    filled: Vec<u8>,
    third: RecvStep<Format>,
    msg: E,
    received: Result<E, Error<Format>>,
)
    requires
        call_ensures(TransportSocket::<Pipe, Format>::recv, (), first),
        call_ensures(TransportSocket::<Pipe, Format>::header_received, (Ok(header),), second),
        call_ensures(
            TransportSocket::<Pipe, Format>::payload_received,
            (filled, Ok(())),
            third,
        ),
        call_ensures(TransportSocket::<Pipe, Format>::decoded::<E>, (Ok(msg),), received),
    ensures
        first == RecvStep::<Format>::ReadHeader,
        second matches RecvStep::Fill(buffer) && buffer@.len() == 0,
        third == RecvStep::<Format>::Decode(filled),
        received == Ok::<E, Error<Format>>(msg),
{
}

/// Whatever fails on the way in ends the receiving with just that error.
pub proof fn law_receive_ends_with_what_failed<Pipe, Format: BytesFormat, E>(
    e: std::io::Error,
    filled: Vec<u8>,
    undecodable: Format::DeError,
    on_header: RecvStep<Format>,
    on_payload: RecvStep<Format>,
    received: Result<E, Error<Format>>,
)
    requires
        call_ensures(TransportSocket::<Pipe, Format>::header_received, (Err(e),), on_header),
        call_ensures(
            TransportSocket::<Pipe, Format>::payload_received,
            (filled, Err(e)),
            on_payload,
        ),
        call_ensures(
            TransportSocket::<Pipe, Format>::decoded::<E>,
            (Err(undecodable),),
            received,
        ),
    ensures
        on_header == RecvStep::<Format>::Failed(Error::IO(e)),
        on_payload == RecvStep::<Format>::Failed(Error::IO(e)),
        received == Err::<E, Error<Format>>(Error::De(undecodable)),
{
}

/// A socket is one on the pipe that it was made with.
pub proof fn law_socket_keeps_its_pipe<Pipe, Format: BytesFormat>(
    pipe: Pipe,
    socket: TransportSocket<Pipe, Format>,
)
    requires
        call_ensures(TransportSocket::<Pipe, Format>::new, (pipe,), socket),
    ensures
        socket.pipe == pipe,
{
}

} // verus!
