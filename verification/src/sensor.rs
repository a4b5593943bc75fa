//! Sensor-role wire protocol: count queries and their answers.
//!
//! Every frame is fixed-length per variant and starts with a discriminant
//! byte from which the receiver learns the frame's total length; numeric
//! payloads are little-endian and fixed-width. [`Request`] and [`Response`]
//! are the current protocol; [`Message`] is the earlier single-enum revision
//! of it, kept for devices still speaking it.

use vstd::bytes::*;
use vstd::prelude::*;
use vstd::slice::{slice_subrange, slice_to_vec};

use crate::error::DecodeError;

verus! {

/// Content bytes an identity may hold.
pub const IDENTITY_MAX_LEN: usize = 19;

/// Total length of an identity frame: discriminant, length byte, padded
/// content.
pub const IDENTITY_FRAME_LEN: usize = 21;

/// Total length of a count frame: discriminant plus a little-endian `u32`.
pub const COUNT_FRAME_LEN: usize = 5;

/// Total length of the earlier revision's count reply: discriminant plus a
/// little-endian `u64`.
pub const MESSAGE_RESPONSE_FRAME_LEN: usize = 9;

/// A request to the sensor role: query-and-reset the event count, or ask
/// the device for its identity.
#[derive(Clone, Copy, Debug, PartialEq, Eq, Structural)]
pub enum Request {
    GetCount,
    WhoAreYou,
}

impl Request {
    /// The frame this request is sent as.
    pub open spec fn spec_encode(self) -> Seq<u8> {
        match self {
            Request::GetCount => seq![0u8],
            Request::WhoAreYou => seq![1u8],
        }
    }

    /// What decoding a byte slice as a request yields: the variant named by
    /// the leading byte, or the error the slice earns. Bytes past the frame
    /// are ignored; the discriminant alone fixes the frame's length.
    pub open spec fn spec_decode(s: Seq<u8>) -> Result<Request, DecodeError> {
        if s.len() == 0 {
            Err(DecodeError::Truncated { needed: 1, got: 0 })
        } else if s[0] == 0 {
            Ok(Request::GetCount)
        } else if s[0] == 1 {
            Ok(Request::WhoAreYou)
        } else {
            Err(DecodeError::UnknownDiscriminant { byte: s[0] })
        }
    }

    /// Encode this request as its one-byte frame.
    pub fn encode(&self) -> (r: Vec<u8>)
        ensures
            r@ == self.spec_encode(),
    {
        let mut out: Vec<u8> = Vec::new();
        match self {
            Request::GetCount => out.push(0u8),
            Request::WhoAreYou => out.push(1u8),
        }
        proof {
            assert(out@ =~= self.spec_encode());
        }
        out
    }

    /// Decode a byte slice as a request.
    pub fn decode(bytes: &[u8]) -> (r: Result<Request, DecodeError>)
        ensures
            r == Self::spec_decode(bytes@),
    {
        if bytes.len() == 0 {
            return Err(DecodeError::Truncated { needed: 1, got: 0 });
        }
        let disc = bytes[0];
        if disc == 0 {
            Ok(Request::GetCount)
        } else if disc == 1 {
            Ok(Request::WhoAreYou)
        } else {
            Err(DecodeError::UnknownDiscriminant { byte: disc })
        }
    }
}

/// Round trip: decoding an encoded request gives the request back.
pub proof fn lemma_request_round_trip(r: Request)
    ensures
        Request::spec_decode(r.spec_encode()) == Ok::<Request, DecodeError>(r),
{
}

/// Every valid one-byte request frame re-encodes to itself.
pub proof fn lemma_request_frame_round_trip(s: Seq<u8>, r: Request)
    requires
        s.len() == 1,
        Request::spec_decode(s) == Ok::<Request, DecodeError>(r),
    ensures
        r.spec_encode() == s,
{
    assert(r.spec_encode() =~= s);
}

/// The sensor role's answer: the captured event count, or the device
/// identity as at most [`IDENTITY_MAX_LEN`] bytes.
#[derive(Clone, Debug, PartialEq, Eq)]
pub enum Response {
    Count(u32),
    IAm(Vec<u8>),
}

/// A response with the identity as a byte sequence: the mathematical model
/// the contracts speak of.
pub enum ResponseModel {
    Count(u32),
    IAm(Seq<u8>),
}

impl View for Response {
    type V = ResponseModel;

    open spec fn view(&self) -> ResponseModel {
        match self {
            Response::Count(n) => ResponseModel::Count(*n),
            Response::IAm(id) => ResponseModel::IAm(id@),
        }
    }
}

impl ResponseModel {
    /// An identity fits its fixed capacity.
    pub open spec fn wf(self) -> bool {
        match self {
            ResponseModel::Count(_) => true,
            ResponseModel::IAm(id) => id.len() <= IDENTITY_MAX_LEN,
        }
    }

    /// The frame a response is sent as: 5 bytes for a count, 21 bytes for
    /// an identity (discriminant, content length, content, zero padding).
    pub open spec fn spec_encode(self) -> Seq<u8> {
        match self {
            ResponseModel::Count(n) => seq![0u8] + spec_u32_to_le_bytes(n),
            ResponseModel::IAm(id) => seq![1u8, id.len() as u8] + id + Seq::new(
                (IDENTITY_MAX_LEN - id.len()) as nat,
                |i: int| 0u8,
            ),
        }
    }

    /// What decoding a byte slice as a response yields, if anything. Bytes
    /// past the frame are ignored; a padding byte that is not zero makes
    /// the frame invalid.
    pub open spec fn spec_decode(s: Seq<u8>) -> Option<ResponseModel> {
        if s.len() == 0 {
            None
        } else if s[0] == 0 {
            if s.len() >= COUNT_FRAME_LEN {
                Some(ResponseModel::Count(spec_u32_from_le_bytes(s.subrange(1, 5))))
            } else {
                None
            }
        } else if s[0] == 1 {
            if s.len() >= IDENTITY_FRAME_LEN && s[1] <= IDENTITY_MAX_LEN && (forall|i: int|
                2 + s[1] <= i < IDENTITY_FRAME_LEN ==> s[i] == 0) {
                Some(ResponseModel::IAm(s.subrange(2, 2 + s[1] as int)))
            } else {
                None
            }
        } else {
            None
        }
    }

    /// The error a slice that decodes to nothing earns.
    pub open spec fn spec_decode_err(s: Seq<u8>) -> DecodeError {
        if s.len() == 0 {
            DecodeError::Truncated { needed: 1, got: 0 }
        } else if s[0] == 0 {
            DecodeError::Truncated { needed: COUNT_FRAME_LEN, got: s.len() as usize }
        } else if s[0] == 1 {
            if s.len() < IDENTITY_FRAME_LEN {
                DecodeError::Truncated { needed: IDENTITY_FRAME_LEN, got: s.len() as usize }
            } else {
                DecodeError::InvalidPayload
            }
        } else {
            DecodeError::UnknownDiscriminant { byte: s[0] }
        }
    }
}

impl Response {
    /// Encode this response as its fixed-length frame.
    pub fn encode(&self) -> (r: Vec<u8>)
        requires
            self@.wf(),
        ensures
            r@ == self@.spec_encode(),
    {
        match self {
            Response::Count(n) => {
                let mut out: Vec<u8> = Vec::new();
                out.push(0u8);
                let mut le = u32_to_le_bytes(*n);
                out.append(&mut le);
                proof {
                    assert(out@ =~= self@.spec_encode());
                }
                out
            },
            Response::IAm(id) => {
                let mut out: Vec<u8> = Vec::new();
                out.push(1u8);
                out.push(id.len() as u8);
                let mut i: usize = 0;
                while i < id.len()
                    invariant
                        i <= id@.len(),
                        id@.len() <= IDENTITY_MAX_LEN,
                        out@ == seq![1u8, id@.len() as u8] + id@.take(i as int),
                    decreases id@.len() - i,
                {
                    out.push(id[i]);
                    i += 1;
                    proof {
                        assert(out@ =~= seq![1u8, id@.len() as u8] + id@.take(i as int));
                    }
                }
                proof {
                    assert(id@.take(id@.len() as int) =~= id@);
                }
                let mut j: usize = 0;
                while j < IDENTITY_MAX_LEN - id.len()
                    invariant
                        j <= IDENTITY_MAX_LEN - id@.len(),
                        id@.len() <= IDENTITY_MAX_LEN,
                        out@ == seq![1u8, id@.len() as u8] + id@ + Seq::new(
                            j as nat,
                            |k: int| 0u8,
                        ),
                    decreases IDENTITY_MAX_LEN - id@.len() - j,
                {
                    out.push(0u8);
                    j += 1;
                    proof {
                        assert(out@ =~= seq![1u8, id@.len() as u8] + id@ + Seq::new(
                            j as nat,
                            |k: int| 0u8,
                        ));
                    }
                }
                proof {
                    assert(out@ =~= self@.spec_encode());
                }
                out
            },
        }
    }

    /// Decode a byte slice as a response.
    pub fn decode(bytes: &[u8]) -> (r: Result<Response, DecodeError>)
        ensures
            r matches Ok(resp) ==> ResponseModel::spec_decode(bytes@) == Some(resp@),
            r matches Err(e) ==> ResponseModel::spec_decode(bytes@) is None && e
                == ResponseModel::spec_decode_err(bytes@),
    {
        if bytes.len() == 0 {
            return Err(DecodeError::Truncated { needed: 1, got: 0 });
        }
        let disc = bytes[0];
        if disc == 0 {
            if bytes.len() < COUNT_FRAME_LEN {
                return Err(DecodeError::Truncated { needed: COUNT_FRAME_LEN, got: bytes.len() });
            }
            let n = u32_from_le_bytes(slice_subrange(bytes, 1, 5));
            Ok(Response::Count(n))
        } else if disc == 1 {
            if bytes.len() < IDENTITY_FRAME_LEN {
                return Err(
                    DecodeError::Truncated { needed: IDENTITY_FRAME_LEN, got: bytes.len() },
                );
            }
            let len = bytes[1] as usize;
            if len > IDENTITY_MAX_LEN {
                return Err(DecodeError::InvalidPayload);
            }
            let mut j: usize = 2 + len;
            while j < IDENTITY_FRAME_LEN
                invariant
                    2 + len <= j <= IDENTITY_FRAME_LEN,
                    bytes@.len() >= IDENTITY_FRAME_LEN,
                    bytes@[0] == 1,
                    len == bytes@[1],
                    len <= IDENTITY_MAX_LEN,
                    forall|k: int| 2 + len <= k < j ==> bytes@[k] == 0,
                decreases IDENTITY_FRAME_LEN - j,
            {
                if bytes[j] != 0 {
                    proof {
                        assert(!(forall|k: int|
                            2 + bytes@[1] <= k < IDENTITY_FRAME_LEN ==> bytes@[k] == 0)) by {
                            assert(2 + bytes@[1] <= j < IDENTITY_FRAME_LEN && bytes@[j as int]
                                != 0);
                        }
                    }
                    return Err(DecodeError::InvalidPayload);
                }
                j += 1;
            }
            let content = slice_to_vec(slice_subrange(bytes, 2, 2 + len));
            Ok(Response::IAm(content))
        } else {
            Err(DecodeError::UnknownDiscriminant { byte: disc })
        }
    }
}

/// Round trip: decoding an encoded response gives the response back.
pub proof fn lemma_response_round_trip(m: ResponseModel)
    requires
        m.wf(),
    ensures
        ResponseModel::spec_decode(m.spec_encode()) == Some(m),
{
    let s = m.spec_encode();
    match m {
        ResponseModel::Count(n) => {
            lemma_auto_spec_u32_to_from_le_bytes();
            assert(s.subrange(1, 5) =~= spec_u32_to_le_bytes(n));
        },
        ResponseModel::IAm(id) => {
            assert(s.len() == IDENTITY_FRAME_LEN);
            assert(s[1] == id.len() as u8);
            assert(forall|i: int| 2 + s[1] <= i < IDENTITY_FRAME_LEN ==> s[i] == 0);
            assert(s.subrange(2, 2 + s[1] as int) =~= id);
        },
    }
}

/// Every valid response frame re-encodes to itself.
pub proof fn lemma_response_frame_round_trip(s: Seq<u8>, m: ResponseModel)
    requires
        ResponseModel::spec_decode(s) == Some(m),
        s.len() == m.spec_encode().len(),
    ensures
        m.spec_encode() == s,
{
    if s[0] == 0 {
        lemma_auto_spec_u32_to_from_le_bytes();
        assert(s.subrange(1, 5).len() == 4);
        assert(m.spec_encode() =~= s);
    } else {
        assert(m.spec_encode() =~= s);
    }
}

/// The earlier protocol revision: one enum for the count query and its
/// 64-bit reply.
#[derive(Clone, Copy, Debug, PartialEq, Eq, Structural)]
pub enum Message {
    Request,
    Response(u64),
}

impl Message {
    /// The frame this message is sent as.
    pub open spec fn spec_encode(self) -> Seq<u8> {
        match self {
            Message::Request => seq![0u8],
            Message::Response(n) => seq![1u8] + spec_u64_to_le_bytes(n),
        }
    }

    /// What decoding a byte slice as a message yields. Bytes past the frame
    /// are ignored.
    pub open spec fn spec_decode(s: Seq<u8>) -> Result<Message, DecodeError> {
        if s.len() == 0 {
            Err(DecodeError::Truncated { needed: 1, got: 0 })
        } else if s[0] == 0 {
            Ok(Message::Request)
        } else if s[0] == 1 {
            if s.len() >= MESSAGE_RESPONSE_FRAME_LEN {
                Ok(Message::Response(spec_u64_from_le_bytes(s.subrange(1, 9))))
            } else {
                Err(
                    DecodeError::Truncated {
                        needed: MESSAGE_RESPONSE_FRAME_LEN,
                        got: s.len() as usize,
                    },
                )
            }
        } else {
            Err(DecodeError::UnknownDiscriminant { byte: s[0] })
        }
    }

    /// Encode this message as its fixed-length frame.
    pub fn encode(&self) -> (r: Vec<u8>)
        ensures
            r@ == self.spec_encode(),
    {
        match self {
            Message::Request => {
                let mut out: Vec<u8> = Vec::new();
                out.push(0u8);
                proof {
                    assert(out@ =~= self.spec_encode());
                }
                out
            },
            Message::Response(n) => {
                let mut out: Vec<u8> = Vec::new();
                out.push(1u8);
                let mut le = u64_to_le_bytes(*n);
                out.append(&mut le);
                proof {
                    assert(out@ =~= self.spec_encode());
                }
                out
            },
        }
    }

    /// Decode a byte slice as a message.
    pub fn decode(bytes: &[u8]) -> (r: Result<Message, DecodeError>)
        ensures
            r == Self::spec_decode(bytes@),
    {
        if bytes.len() == 0 {
            return Err(DecodeError::Truncated { needed: 1, got: 0 });
        }
        let disc = bytes[0];
        if disc == 0 {
            Ok(Message::Request)
        } else if disc == 1 {
            if bytes.len() < MESSAGE_RESPONSE_FRAME_LEN {
                return Err(
                    DecodeError::Truncated { needed: MESSAGE_RESPONSE_FRAME_LEN, got: bytes.len() },
                );
            }
            let n = u64_from_le_bytes(slice_subrange(bytes, 1, 9));
            Ok(Message::Response(n))
        } else {
            Err(DecodeError::UnknownDiscriminant { byte: disc })
        }
    }
}

/// Round trip: decoding an encoded message gives the message back.
pub proof fn lemma_message_round_trip(m: Message)
    ensures
        Message::spec_decode(m.spec_encode()) == Ok::<Message, DecodeError>(m),
{
    match m {
        Message::Request => {
        },
        Message::Response(n) => {
            lemma_auto_spec_u64_to_from_le_bytes();
            assert(m.spec_encode().subrange(1, 9) =~= spec_u64_to_le_bytes(n));
        },
    }
}

/// Every valid message frame re-encodes to itself.
pub proof fn lemma_message_frame_round_trip(s: Seq<u8>, m: Message)
    requires
        Message::spec_decode(s) == Ok::<Message, DecodeError>(m),
        s.len() == m.spec_encode().len(),
    ensures
        m.spec_encode() == s,
{
    if s[0] == 1 {
        lemma_auto_spec_u64_to_from_le_bytes();
        assert(s.subrange(1, 9).len() == 8);
    }
    assert(m.spec_encode() =~= s);
}

} // verus!
