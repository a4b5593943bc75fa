//! Actuator-role wire protocol: edge-generation commands and their status
//! reports.
//!
//! Frames are fixed-length per variant, discriminant first, numeric payloads
//! little-endian and fixed-width, exactly as in the sensor role. [`Request`]
//! and [`Response`] are the current protocol; [`Message`] is the earlier
//! revision with 64-bit fields.

use vstd::bytes::*;
use vstd::prelude::*;
use vstd::slice::slice_subrange;

use crate::error::DecodeError;

verus! {

/// Total length of a generation command frame: discriminant, edge count as
/// a little-endian `u32`, period in picoseconds as a little-endian `u64`.
pub const GENERATE_FRAME_LEN: usize = 13;

/// Total length of the earlier revision's command frame, whose two fields
/// are both little-endian `u64`.
pub const MESSAGE_REQUEST_FRAME_LEN: usize = 17;

/// A request to the actuator role: drive a number of output edges at a
/// period, or ask the device for its identity.
#[derive(Clone, Copy, Debug, PartialEq, Eq, Structural)]
pub enum Request {
    Generate { rising_edges: u32, period_picos: u64 },
    WhoAreYou,
}

impl Request {
    /// The frame this request is sent as.
    pub open spec fn spec_encode(self) -> Seq<u8> {
        match self {
            Request::Generate { rising_edges, period_picos } => seq![2u8] + spec_u32_to_le_bytes(
                rising_edges,
            ) + spec_u64_to_le_bytes(period_picos),
            Request::WhoAreYou => seq![1u8],
        }
    }

    /// What decoding a byte slice as an actuator request yields. Bytes past
    /// the frame are ignored.
    pub open spec fn spec_decode(s: Seq<u8>) -> Result<Request, DecodeError> {
        if s.len() == 0 {
            Err(DecodeError::Truncated { needed: 1, got: 0 })
        } else if s[0] == 2 {
            if s.len() >= GENERATE_FRAME_LEN {
                Ok(
                    Request::Generate {
                        rising_edges: spec_u32_from_le_bytes(s.subrange(1, 5)),
                        period_picos: spec_u64_from_le_bytes(s.subrange(5, 13)),
                    },
                )
            } else {
                Err(DecodeError::Truncated { needed: GENERATE_FRAME_LEN, got: s.len() as usize })
            }
        } else if s[0] == 1 {
            Ok(Request::WhoAreYou)
        } else {
            Err(DecodeError::UnknownDiscriminant { byte: s[0] })
        }
    }

    /// Encode this request as its fixed-length frame.
    pub fn encode(&self) -> (r: Vec<u8>)
        ensures
            r@ == self.spec_encode(),
    {
        match self {
            Request::Generate { rising_edges, period_picos } => {
                let mut out: Vec<u8> = Vec::new();
                out.push(2u8);
                let mut edges = u32_to_le_bytes(*rising_edges);
                out.append(&mut edges);
                let mut period = u64_to_le_bytes(*period_picos);
                out.append(&mut period);
                proof {
                    assert(out@ =~= self.spec_encode());
                }
                out
            },
            Request::WhoAreYou => {
                let mut out: Vec<u8> = Vec::new();
                out.push(1u8);
                proof {
                    assert(out@ =~= self.spec_encode());
                }
                out
            },
        }
    }

    /// Decode a byte slice as an actuator request.
    pub fn decode(bytes: &[u8]) -> (r: Result<Request, DecodeError>)
        ensures
            r == Self::spec_decode(bytes@),
    {
        if bytes.len() == 0 {
            return Err(DecodeError::Truncated { needed: 1, got: 0 });
        }
        let disc = bytes[0];
        if disc == 2 {
            if bytes.len() < GENERATE_FRAME_LEN {
                return Err(DecodeError::Truncated { needed: GENERATE_FRAME_LEN, got: bytes.len() });
            }
            let rising_edges = u32_from_le_bytes(slice_subrange(bytes, 1, 5));
            let period_picos = u64_from_le_bytes(slice_subrange(bytes, 5, 13));
            Ok(Request::Generate { rising_edges, period_picos })
        } else if disc == 1 {
            Ok(Request::WhoAreYou)
        } else {
            Err(DecodeError::UnknownDiscriminant { byte: disc })
        }
    }
}

/// Round trip: decoding an encoded actuator request gives it back.
pub proof fn lemma_request_round_trip(r: Request)
    ensures
        Request::spec_decode(r.spec_encode()) == Ok::<Request, DecodeError>(r),
{
    match r {
        Request::Generate { rising_edges, period_picos } => {
            lemma_auto_spec_u32_to_from_le_bytes();
            lemma_auto_spec_u64_to_from_le_bytes();
            let s = r.spec_encode();
            assert(s.subrange(1, 5) =~= spec_u32_to_le_bytes(rising_edges));
            assert(s.subrange(5, 13) =~= spec_u64_to_le_bytes(period_picos));
        },
        Request::WhoAreYou => {
        },
    }
}

/// Every valid actuator request frame re-encodes to itself.
pub proof fn lemma_request_frame_round_trip(s: Seq<u8>, r: Request)
    requires
        Request::spec_decode(s) == Ok::<Request, DecodeError>(r),
        s.len() == r.spec_encode().len(),
    ensures
        r.spec_encode() == s,
{
    if s[0] == 2 {
        lemma_auto_spec_u32_to_from_le_bytes();
        lemma_auto_spec_u64_to_from_le_bytes();
        assert(s.subrange(1, 5).len() == 4);
        assert(s.subrange(5, 13).len() == 8);
    }
    assert(r.spec_encode() =~= s);
}

/// A status report from the actuator: the command was accepted, refused or
/// aborted, or the requested edges have all been driven.
#[derive(Clone, Copy, Debug, PartialEq, Eq, Structural)]
pub enum Response {
    StartedGenerating,
    FailedGenerating,
    FinishedGenerating,
}

impl Response {
    /// The one-byte frame this report is sent as.
    pub open spec fn spec_encode(self) -> Seq<u8> {
        match self {
            Response::StartedGenerating => seq![0u8],
            Response::FailedGenerating => seq![1u8],
            Response::FinishedGenerating => seq![2u8],
        }
    }

    /// What decoding a byte slice as a status report yields. Bytes past the
    /// frame are ignored.
    pub open spec fn spec_decode(s: Seq<u8>) -> Result<Response, DecodeError> {
        if s.len() == 0 {
            Err(DecodeError::Truncated { needed: 1, got: 0 })
        } else if s[0] == 0 {
            Ok(Response::StartedGenerating)
        } else if s[0] == 1 {
            Ok(Response::FailedGenerating)
        } else if s[0] == 2 {
            Ok(Response::FinishedGenerating)
        } else {
            Err(DecodeError::UnknownDiscriminant { byte: s[0] })
        }
    }

    /// Encode this report as its one-byte frame.
    pub fn encode(&self) -> (r: Vec<u8>)
        ensures
            r@ == self.spec_encode(),
    {
        let mut out: Vec<u8> = Vec::new();
        match self {
            Response::StartedGenerating => out.push(0u8),
            Response::FailedGenerating => out.push(1u8),
            Response::FinishedGenerating => out.push(2u8),
        }
        proof {
            assert(out@ =~= self.spec_encode());
        }
        out
    }

    /// Decode a byte slice as a status report.
    pub fn decode(bytes: &[u8]) -> (r: Result<Response, DecodeError>)
        ensures
            r == Self::spec_decode(bytes@),
    {
        if bytes.len() == 0 {
            return Err(DecodeError::Truncated { needed: 1, got: 0 });
        }
        let disc = bytes[0];
        if disc == 0 {
            Ok(Response::StartedGenerating)
        } else if disc == 1 {
            Ok(Response::FailedGenerating)
        } else if disc == 2 {
            Ok(Response::FinishedGenerating)
        } else {
            Err(DecodeError::UnknownDiscriminant { byte: disc })
        }
    }
}

/// Round trip: decoding an encoded status report gives it back.
pub proof fn lemma_response_round_trip(r: Response)
    ensures
        Response::spec_decode(r.spec_encode()) == Ok::<Response, DecodeError>(r),
{
}

/// Every valid status report frame re-encodes to itself.
pub proof fn lemma_response_frame_round_trip(s: Seq<u8>, r: Response)
    requires
        s.len() == 1,
        Response::spec_decode(s) == Ok::<Response, DecodeError>(r),
    ensures
        r.spec_encode() == s,
{
    assert(r.spec_encode() =~= s);
}

/// The earlier protocol revision's only message: a generation command with
/// both fields 64 bits wide.
#[derive(Clone, Copy, Debug, PartialEq, Eq, Structural)]
pub enum Message {
    Request { rising_edges: u64, period_picos: u64 },
}

impl Message {
    /// The frame this message is sent as.
    pub open spec fn spec_encode(self) -> Seq<u8> {
        match self {
            Message::Request { rising_edges, period_picos } => seq![0u8] + spec_u64_to_le_bytes(
                rising_edges,
            ) + spec_u64_to_le_bytes(period_picos),
        }
    }

    /// What decoding a byte slice as the earlier revision's command yields.
    /// Bytes past the frame are ignored.
    pub open spec fn spec_decode(s: Seq<u8>) -> Result<Message, DecodeError> {
        if s.len() == 0 {
            Err(DecodeError::Truncated { needed: 1, got: 0 })
        } else if s[0] == 0 {
            if s.len() >= MESSAGE_REQUEST_FRAME_LEN {
                Ok(
                    Message::Request {
                        rising_edges: spec_u64_from_le_bytes(s.subrange(1, 9)),
                        period_picos: spec_u64_from_le_bytes(s.subrange(9, 17)),
                    },
                )
            } else {
                Err(
                    DecodeError::Truncated {
                        needed: MESSAGE_REQUEST_FRAME_LEN,
                        got: s.len() as usize,
                    },
                )
            }
        } else {
            Err(DecodeError::UnknownDiscriminant { byte: s[0] })
        }
    }

    /// Encode this message as its fixed-length frame.
    pub fn encode(&self) -> (r: Vec<u8>)
        ensures
            r@ == self.spec_encode(),
    {
        match self {
            Message::Request { rising_edges, period_picos } => {
                let mut out: Vec<u8> = Vec::new();
                out.push(0u8);
                let mut edges = u64_to_le_bytes(*rising_edges);
                out.append(&mut edges);
                let mut period = u64_to_le_bytes(*period_picos);
                out.append(&mut period);
                proof {
                    assert(out@ =~= self.spec_encode());
                }
                out
            },
        }
    }

    /// Decode a byte slice as the earlier revision's command.
    pub fn decode(bytes: &[u8]) -> (r: Result<Message, DecodeError>)
        ensures
            r == Self::spec_decode(bytes@),
    {
        if bytes.len() == 0 {
            return Err(DecodeError::Truncated { needed: 1, got: 0 });
        }
        let disc = bytes[0];
        if disc == 0 {
            if bytes.len() < MESSAGE_REQUEST_FRAME_LEN {
                return Err(
                    DecodeError::Truncated { needed: MESSAGE_REQUEST_FRAME_LEN, got: bytes.len() },
                );
            }
            let rising_edges = u64_from_le_bytes(slice_subrange(bytes, 1, 9));
            let period_picos = u64_from_le_bytes(slice_subrange(bytes, 9, 17));
            Ok(Message::Request { rising_edges, period_picos })
        } else {
            Err(DecodeError::UnknownDiscriminant { byte: disc })
        }
    }
}

/// Round trip: decoding an encoded command gives it back.
pub proof fn lemma_message_round_trip(m: Message)
    ensures
        Message::spec_decode(m.spec_encode()) == Ok::<Message, DecodeError>(m),
{
    match m {
        Message::Request { rising_edges, period_picos } => {
            lemma_auto_spec_u64_to_from_le_bytes();
            let s = m.spec_encode();
            assert(s.subrange(1, 9) =~= spec_u64_to_le_bytes(rising_edges));
            assert(s.subrange(9, 17) =~= spec_u64_to_le_bytes(period_picos));
        },
    }
}

/// Every valid command frame of the earlier revision re-encodes to itself.
pub proof fn lemma_message_frame_round_trip(s: Seq<u8>, m: Message)
    requires
        Message::spec_decode(s) == Ok::<Message, DecodeError>(m),
        s.len() == m.spec_encode().len(),
    ensures
        m.spec_encode() == s,
{
    lemma_auto_spec_u64_to_from_le_bytes();
    assert(s.subrange(1, 9).len() == 8);
    assert(s.subrange(9, 17).len() == 8);
    assert(m.spec_encode() =~= s);
}

} // verus!
