//! The handshake that opens a STDIO session.
//!
//! The server sends a [`Handshake`] as soon as it starts; the client answers with a
//! [`HandshakeAck`] that accepts (selecting a variant) or rejects the session. JSON is read
//! and written outside; the functions here decide on what the JSON layer found.

use vstd::prelude::*;
use vstd::string::*;
use crate::errors::{StdioError, StdioErrorView};
use crate::text::{copy_string, str_eq};

verus! {

/// Features the server advertises during the handshake.
#[derive(Debug)]
pub struct HandshakeFeatures {
    /// Whether the server supports heartbeat pings.
    pub heartbeat: Option<bool>,
    /// Heartbeat interval in seconds.
    pub heartbeat_interval_secs: Option<u32>,
    /// Further feature flags: each name with its JSON value as text.
    pub extra: Vec<(String, String)>,
}

impl HandshakeFeatures {
    /// No feature advertised.
    pub fn empty() -> (res: HandshakeFeatures)
        ensures
            res.heartbeat is None,
            res.heartbeat_interval_secs is None,
            res.extra@.len() == 0,
    {
        HandshakeFeatures { heartbeat: None, heartbeat_interval_secs: None, extra: Vec::new() }
    }
}

/// Server → client handshake message.
#[derive(Debug)]
pub struct Handshake {
    /// Always `"handshake"`.
    pub msg_type: String,
    /// Session identifier.
    pub session_id: String,
    /// Protocol variants the server supports (e.g. `a2a/v1`).
    pub supported_variants: Vec<String>,
    /// Server process id.
    pub pid: Option<u32>,
    /// Optional feature negotiation.
    pub features: Option<HandshakeFeatures>,
}

/// Client → server handshake acknowledgment.
#[derive(Debug)]
pub struct HandshakeAck {
    /// Always `"handshakeAck"`.
    pub msg_type: String,
    /// The variant the client selected from the server's list.
    pub selected_variant: String,
    /// Whether the client accepts the session.
    pub accept: bool,
}

impl Handshake {
    /// A handshake with this session and these variants, and no pid or features.
    pub fn new(session_id: String, supported_variants: Vec<String>) -> (res: Handshake)
        ensures
            res.msg_type@ == "handshake"@,
            res.session_id == session_id,
            res.supported_variants == supported_variants,
            res.pid is None,
            res.features is None,
    {
        Handshake {
            msg_type: String::from_str("handshake"),
            session_id,
            supported_variants,
            pid: None,
            features: None,
        }
    }
}

impl HandshakeAck {
    /// An ack that accepts the session and selects this variant.
    pub fn accept(selected_variant: String) -> (res: HandshakeAck)
        ensures
            res.msg_type@ == "handshakeAck"@,
            res.selected_variant == selected_variant,
            res.accept,
    {
        HandshakeAck { msg_type: String::from_str("handshakeAck"), selected_variant, accept: true }
    }

    /// An ack that rejects the session.
    pub fn reject() -> (res: HandshakeAck)
        ensures
            res.msg_type@ == "handshakeAck"@,
            res.selected_variant@ == Seq::<char>::empty(),
            !res.accept,
    {
        HandshakeAck {
            msg_type: String::from_str("handshakeAck"),
            selected_variant: String::new(),
            accept: false,
        }
    }
}

/// What reading and parsing one frame gave, for a message of type `T`.
pub enum ParsedFrame<T> {
    /// Reading the frame failed.
    ReadFailed(StdioError),
    /// The stream ended before the frame.
    EndOfStream,
    /// The frame is not JSON; the parser's message.
    InvalidJson(String),
    /// The frame is JSON: its `"type"` member (empty when absent or not a string) and the
    /// result of decoding the whole value as a `T`. Both come from the same value, so a
    /// decoded message's own type field is that member.
    Parsed { msg_type: String, decoded: Result<T, String> },
}

/// The outcome of reading a `Handshake`, with errors by their view.
pub open spec fn spec_read_handshake(frame: ParsedFrame<Handshake>) -> Result<Handshake, StdioErrorView> {
    match frame {
        ParsedFrame::ReadFailed(e) => Err(e@),
        ParsedFrame::EndOfStream => Err(StdioErrorView::HandshakeFailed("EOF before handshake"@)),
        ParsedFrame::InvalidJson(m) => Err(StdioErrorView::HandshakeFailed("invalid JSON: "@ + m@)),
        ParsedFrame::Parsed { msg_type, decoded } => if msg_type@ != "handshake"@ {
            Err(
                StdioErrorView::HandshakeFailed(
                    "expected type \"handshake\", got \""@ + msg_type@ + "\""@,
                ),
            )
        } else {
            match decoded {
                Err(m) => Err(StdioErrorView::HandshakeFailed("invalid handshake: "@ + m@)),
                Ok(h) => if h.msg_type@ != "handshake"@ {
                    Err(
                        StdioErrorView::HandshakeFailed(
                            "expected type \"handshake\", got \""@ + h.msg_type@ + "\""@,
                        ),
                    )
                } else if h.supported_variants@.len() == 0 {
                    Err(StdioErrorView::HandshakeFailed("server offered no supported variants"@))
                } else {
                    Ok(h)
                },
            }
        },
    }
}

/// The outcome of reading a `HandshakeAck`, with errors by their view.
pub open spec fn spec_read_handshake_ack(frame: ParsedFrame<HandshakeAck>) -> Result<HandshakeAck, StdioErrorView> {
    match frame {
        ParsedFrame::ReadFailed(e) => Err(e@),
        ParsedFrame::EndOfStream => Err(StdioErrorView::HandshakeFailed("EOF before handshake ack"@)),
        ParsedFrame::InvalidJson(m) => Err(StdioErrorView::HandshakeFailed("invalid JSON: "@ + m@)),
        ParsedFrame::Parsed { msg_type, decoded } => if msg_type@ != "handshakeAck"@ {
            Err(
                StdioErrorView::HandshakeFailed(
                    "expected type \"handshakeAck\", got \""@ + msg_type@ + "\""@,
                ),
            )
        } else {
            match decoded {
                Err(m) => Err(StdioErrorView::HandshakeFailed("invalid handshake ack: "@ + m@)),
                Ok(a) => if a.msg_type@ != "handshakeAck"@ {
                    Err(
                        StdioErrorView::HandshakeFailed(
                            "expected type \"handshakeAck\", got \""@ + a.msg_type@ + "\""@,
                        ),
                    )
                } else {
                    Ok(a)
                },
            }
        },
    }
}

pub open spec fn result_view<T>(r: Result<T, StdioError>) -> Result<T, StdioErrorView> {
    match r {
        Ok(v) => Ok(v),
        Err(e) => Err(e@),
    }
}

fn failed(msg: String) -> (res: StdioError)
    ensures
        res@ == StdioErrorView::HandshakeFailed(msg@),
{
    StdioError::HandshakeFailed(msg)
}

/// Decides on the frame that should hold the server's `Handshake`.
pub fn read_handshake(frame: ParsedFrame<Handshake>) -> (res: Result<Handshake, StdioError>)
    ensures
        result_view(res) == spec_read_handshake(frame),
        res matches Ok(h) ==> h.msg_type@ == "handshake"@ && h.supported_variants@.len() > 0,
{
    match frame {
        ParsedFrame::ReadFailed(e) => Err(e),
        ParsedFrame::EndOfStream => Err(failed(String::from_str("EOF before handshake"))),
        ParsedFrame::InvalidJson(m) => Err(
            failed(String::from_str("invalid JSON: ").concat(m.as_str())),
        ),
        ParsedFrame::Parsed { msg_type, decoded } => {
            if !str_eq(msg_type.as_str(), "handshake") {
                let msg = String::from_str("expected type \"handshake\", got \"").concat(
                    msg_type.as_str(),
                ).concat("\"");
                return Err(failed(msg));
            }
            match decoded {
                Err(m) => Err(failed(String::from_str("invalid handshake: ").concat(m.as_str()))),
                Ok(h) => {
                    if !str_eq(h.msg_type.as_str(), "handshake") {
                        let msg = String::from_str("expected type \"handshake\", got \"").concat(
                            h.msg_type.as_str(),
                        ).concat("\"");
                        return Err(failed(msg));
                    }
                    if h.supported_variants.len() == 0 {
                        Err(failed(String::from_str("server offered no supported variants")))
                    } else {
                        Ok(h)
                    }
                },
            }
        },
    }
}

/// Decides on the frame that should hold the client's `HandshakeAck`.
pub fn read_handshake_ack(frame: ParsedFrame<HandshakeAck>) -> (res: Result<HandshakeAck, StdioError>)
    ensures
        result_view(res) == spec_read_handshake_ack(frame),
        res matches Ok(a) ==> a.msg_type@ == "handshakeAck"@,
{
    match frame {
        ParsedFrame::ReadFailed(e) => Err(e),
        ParsedFrame::EndOfStream => Err(failed(String::from_str("EOF before handshake ack"))),
        ParsedFrame::InvalidJson(m) => Err(
            failed(String::from_str("invalid JSON: ").concat(m.as_str())),
        ),
        ParsedFrame::Parsed { msg_type, decoded } => {
            if !str_eq(msg_type.as_str(), "handshakeAck") {
                let msg = String::from_str("expected type \"handshakeAck\", got \"").concat(
                    msg_type.as_str(),
                ).concat("\"");
                return Err(failed(msg));
            }
            match decoded {
                Err(m) => Err(
                    failed(String::from_str("invalid handshake ack: ").concat(m.as_str())),
                ),
                Ok(a) => {
                    if !str_eq(a.msg_type.as_str(), "handshakeAck") {
                        let msg = String::from_str("expected type \"handshakeAck\", got \"").concat(
                            a.msg_type.as_str(),
                        ).concat("\"");
                        return Err(failed(msg));
                    }
                    Ok(a)
                },
            }
        },
    }
}

/// The variant a client selects: the first one the server offers, or the empty string.
pub fn select_variant(hs: &Handshake) -> (res: String)
    ensures
        hs.supported_variants@.len() > 0 ==> res@ == hs.supported_variants@[0]@,
        hs.supported_variants@.len() == 0 ==> res@ == Seq::<char>::empty(),
{
    if hs.supported_variants.len() > 0 {
        copy_string(hs.supported_variants[0].as_str())
    } else {
        String::new()
    }
}

/// The ack a client answers a server's handshake with: it accepts and selects the first
/// variant offered.
pub fn client_ack(hs: &Handshake) -> (res: HandshakeAck)
    ensures
        res.msg_type@ == "handshakeAck"@,
        res.accept,
        hs.supported_variants@.len() > 0 ==> res.selected_variant@ == hs.supported_variants@[0]@,
        hs.supported_variants@.len() == 0 ==> res.selected_variant@ == Seq::<char>::empty(),
{
    HandshakeAck::accept(select_variant(hs))
}

/// The handshake a server sends: this session and process, the single variant `a2a/v1`,
/// and an empty feature set.
pub fn server_handshake(session_id: String, pid: u32) -> (res: Handshake)
    ensures
        res.msg_type@ == "handshake"@,
        res.session_id == session_id,
        res.supported_variants@.len() == 1,
        res.supported_variants@[0]@ == "a2a/v1"@,
        res.pid == Some(pid),
        res.features matches Some(f) && f.heartbeat is None && f.heartbeat_interval_secs is None
            && f.extra@.len() == 0,
{
    let mut variants: Vec<String> = Vec::new();
    variants.push(String::from_str("a2a/v1"));
    Handshake {
        msg_type: String::from_str("handshake"),
        session_id,
        supported_variants: variants,
        pid: Some(pid),
        features: Some(HandshakeFeatures::empty()),
    }
}

/// The server's decision on the client's ack: go on when it accepts, fail otherwise.
pub fn check_ack(ack: &HandshakeAck) -> (res: Result<(), StdioError>)
    ensures
        ack.accept <==> res is Ok,
        !ack.accept ==> result_view(res) == Err::<(), StdioErrorView>(
            StdioErrorView::HandshakeFailed("client rejected handshake"@),
        ),
{
    if ack.accept {
        Ok(())
    } else {
        Err(failed(String::from_str("client rejected handshake")))
    }
}

/// What a server sends, a client reads back: a handshake of type `handshake` that offers a
/// variant (as [`server_handshake`] makes) passes [`read_handshake`] unchanged, once the
/// JSON layer has decoded it.
pub proof fn lemma_handshake_read_back(hs: Handshake)
    requires
        hs.msg_type@ == "handshake"@,
        hs.supported_variants@.len() > 0,
    ensures
        spec_read_handshake(ParsedFrame::Parsed { msg_type: hs.msg_type, decoded: Ok(hs) }) == Ok::<Handshake, StdioErrorView>(hs),
{
}

/// What a client sends, a server reads back: an ack of type `handshakeAck` (as
/// [`HandshakeAck::accept`] and [`HandshakeAck::reject`] make) passes
/// [`read_handshake_ack`] unchanged, once the JSON layer has decoded it.
pub proof fn lemma_handshake_ack_read_back(ack: HandshakeAck)
    requires
        ack.msg_type@ == "handshakeAck"@,
    ensures
        spec_read_handshake_ack(ParsedFrame::Parsed { msg_type: ack.msg_type, decoded: Ok(ack) }) == Ok::<HandshakeAck, StdioErrorView>(ack),
{
}

} // verus!
