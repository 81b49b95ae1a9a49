//! Transports of a node: their kinds, modes and the bodies that describe them.

use vstd::prelude::*;
use crate::text::{concat, owned, str_equals};

verus! {

/// What `str::to_uppercase` makes of a string: the Unicode upper case of each
/// character.
pub uninterp spec fn upper_of(s: Seq<char>) -> Seq<char>;

/// Relies on `str::to_uppercase`: the result depends on the characters alone.
#[verifier::external_body]
fn uppercase(s: &str) -> (r: String)
    ensures
        r@ == upper_of(s@),
{
    s.to_uppercase()
}

/// An error met while reading a transport type or mode from text.
pub struct ParseError {
    pub message: String,
}

/// The kind of a transport.
#[derive(Copy, Clone, Debug, PartialEq, Eq, Structural)]
pub enum TransportType {
    /// TCP transport
    Tcp,
    /// Embedded BLE transport
    Ble,
    /// Websocket transport
    WebSocket,
}

/// The mode a transport operates in.
#[derive(Copy, Clone, Debug, PartialEq, Eq, Structural)]
pub enum TransportMode {
    /// Listen on a set address
    Listen,
    /// Connect to a remote peer
    Connect,
}

/// The name under which a transport type is shown.
pub open spec fn transport_type_label(t: TransportType) -> Seq<char> {
    match t {
        TransportType::Tcp => "TCP"@,
        TransportType::Ble => "BLE"@,
        TransportType::WebSocket => "Websocket"@,
    }
}

/// The transport type that an upper-case name stands for.
pub open spec fn transport_type_named(u: Seq<char>) -> Option<TransportType> {
    if u == "TCP"@ {
        Some(TransportType::Tcp)
    } else if u == "BLE"@ {
        Some(TransportType::Ble)
    } else if u == "WEBSOCKET"@ || u == "WS"@ {
        Some(TransportType::WebSocket)
    } else {
        None
    }
}

/// The name under which a transport mode is shown.
pub open spec fn transport_mode_label(m: TransportMode) -> Seq<char> {
    match m {
        TransportMode::Listen => "Listening"@,
        TransportMode::Connect => "Remote connection"@,
    }
}

/// The transport mode that an upper-case name stands for.
pub open spec fn transport_mode_named(u: Seq<char>) -> Option<TransportMode> {
    if u == "CONNECT"@ || u == "REMOTE CONNECTION"@ {
        Some(TransportMode::Connect)
    } else if u == "LISTEN"@ || u == "LISTENING"@ {
        Some(TransportMode::Listen)
    } else {
        None
    }
}

/// The message of the error for a name that is not a valid `kind`.
pub open spec fn invalid_name_message(u: Seq<char>, kind: Seq<char>) -> Seq<char> {
    "'"@ + u + "' is not a valid "@ + kind
}

fn invalid_name(u: &str, kind: &str) -> (e: ParseError)
    ensures
        e.message@ == invalid_name_message(u@, kind@),
{
    let a = concat("'", u);
    let b = concat(a.as_str(), "' is not a valid ");
    ParseError { message: concat(b.as_str(), kind) }
}

impl TransportType {
    /// The name under which this transport type is shown.
    pub fn to_display(&self) -> (r: String)
        ensures
            r@ == transport_type_label(*self),
    {
        match self {
            TransportType::Tcp => owned("TCP"),
            TransportType::Ble => owned("BLE"),
            TransportType::WebSocket => owned("Websocket"),
        }
    }

    /// Reads a transport type from a name that is already in upper case.
    pub fn from_upper(u: &str) -> (r: Option<TransportType>)
        ensures
            r == transport_type_named(u@),
    {
        if str_equals(u, "TCP") {
            Some(TransportType::Tcp)
        } else if str_equals(u, "BLE") {
            Some(TransportType::Ble)
        } else if str_equals(u, "WEBSOCKET") || str_equals(u, "WS") {
            Some(TransportType::WebSocket)
        } else {
            None
        }
    }

    /// Reads a transport type from its name, in any case.
    pub fn parse(s: &str) -> (r: Result<TransportType, ParseError>)
        ensures
            transport_type_named(upper_of(s@)) matches Some(t) ==> r == Ok::<TransportType, ParseError>(t),
            transport_type_named(upper_of(s@)) is None ==> (r matches Err(e)
                && e.message@ == invalid_name_message(upper_of(s@), "TransportType"@)),
    {
        let u = uppercase(s);
        match TransportType::from_upper(u.as_str()) {
            Some(t) => Ok(t),
            None => Err(invalid_name(u.as_str(), "TransportType")),
        }
    }
}

impl std::str::FromStr for TransportType {
    type Err = ParseError;

    fn from_str(s: &str) -> Result<Self, Self::Err> {
        TransportType::parse(s)
    }
}

impl TransportMode {
    /// The name under which this transport mode is shown.
    pub fn to_display(&self) -> (r: String)
        ensures
            r@ == transport_mode_label(*self),
    {
        match self {
            TransportMode::Listen => owned("Listening"),
            TransportMode::Connect => owned("Remote connection"),
        }
    }

    /// Reads a transport mode from a name that is already in upper case.
    pub fn from_upper(u: &str) -> (r: Option<TransportMode>)
        ensures
            r == transport_mode_named(u@),
    {
        if str_equals(u, "CONNECT") || str_equals(u, "REMOTE CONNECTION") {
            Some(TransportMode::Connect)
        } else if str_equals(u, "LISTEN") || str_equals(u, "LISTENING") {
            Some(TransportMode::Listen)
        } else {
            None
        }
    }

    /// Reads a transport mode from its name, in any case.
    pub fn parse(s: &str) -> (r: Result<TransportMode, ParseError>)
        ensures
            transport_mode_named(upper_of(s@)) matches Some(m) ==> r == Ok::<TransportMode, ParseError>(m),
            transport_mode_named(upper_of(s@)) is None ==> (r matches Err(e)
                && e.message@ == invalid_name_message(upper_of(s@), "TransportMode"@)),
    {
        let u = uppercase(s);
        match TransportMode::from_upper(u.as_str()) {
            Some(m) => Ok(m),
            None => Err(invalid_name(u.as_str(), "TransportMode")),
        }
    }
}

impl std::str::FromStr for TransportMode {
    type Err = ParseError;

    fn from_str(s: &str) -> Result<Self, Self::Err> {
        TransportMode::parse(s)
    }
}

/// Request body when instructing a node to create a transport.
pub struct CreateTransport {
    /// The type of transport to create
    pub tt: TransportType,
    /// The mode the transport should operate in
    pub tm: TransportMode,
    /// The address payload for the transport
    pub addr: String,
}

impl CreateTransport {
    pub fn new(tt: TransportType, tm: TransportMode, addr: String) -> (r: Self)
        ensures
            r.tt == tt,
            r.tm == tm,
            r.addr@ == addr@,
    {
        CreateTransport { tt, tm, addr }
    }
}

/// Request body when retrieving the list of transports.
pub struct GetTransportList {
    pub tts: Option<Vec<TransportType>>,
    pub tms: Option<Vec<TransportMode>>,
}

/// Every transport type.
pub open spec fn all_transport_types() -> Seq<TransportType> {
    seq![TransportType::Tcp, TransportType::Ble, TransportType::WebSocket]
}

/// Every transport mode.
pub open spec fn all_transport_modes() -> Seq<TransportMode> {
    seq![TransportMode::Listen, TransportMode::Connect]
}

impl GetTransportList {
    pub fn new(tts: Option<Vec<TransportType>>, tms: Option<Vec<TransportMode>>) -> (r: Self)
        ensures
            r.tts == tts,
            r.tms == tms,
    {
        GetTransportList { tts, tms }
    }

    /// The types and modes to select: those asked for, or all of them where
    /// none were named.
    pub fn filters(&self) -> (r: (Vec<TransportType>, Vec<TransportMode>))
        ensures
            r.0@ == (match self.tts {
                Some(v) => v@,
                None => all_transport_types(),
            }),
            r.1@ == (match self.tms {
                Some(v) => v@,
                None => all_transport_modes(),
            }),
    {
        let tts = match &self.tts {
            Some(v) => copy_types(v),
            None => vec![TransportType::Tcp, TransportType::Ble, TransportType::WebSocket],
        };
        let tms = match &self.tms {
            Some(v) => copy_modes(v),
            None => vec![TransportMode::Listen, TransportMode::Connect],
        };
        (tts, tms)
    }
}

fn copy_types(v: &Vec<TransportType>) -> (r: Vec<TransportType>)
    ensures
        r@ == v@,
{
    let mut r: Vec<TransportType> = Vec::new();
    let mut i: usize = 0;
    while i < v.len()
        invariant
            i <= v@.len(),
            r@ == v@.subrange(0, i as int),
        decreases v@.len() - i,
    {
        r.push(v[i]);
        i = i + 1;
        assert(r@ =~= v@.subrange(0, i as int));
    }
    assert(v@ =~= v@.subrange(0, v@.len() as int));
    r
}

fn copy_modes(v: &Vec<TransportMode>) -> (r: Vec<TransportMode>)
    ensures
        r@ == v@,
{
    let mut r: Vec<TransportMode> = Vec::new();
    let mut i: usize = 0;
    while i < v.len()
        invariant
            i <= v@.len(),
            r@ == v@.subrange(0, i as int),
        decreases v@.len() - i,
    {
        r.push(v[i]);
        i = i + 1;
        assert(r@ =~= v@.subrange(0, i as int));
    }
    assert(v@ =~= v@.subrange(0, v@.len() as int));
    r
}

/// Request to delete a transport.
pub struct DeleteTransport {
    /// The transport ID to delete
    pub tid: String,
    /// The user has indicated that deleting the API transport is fine
    pub force: bool,
}

impl DeleteTransport {
    pub fn new(tid: String, force: bool) -> (r: Self)
        ensures
            r.tid@ == tid@,
            r.force == force,
    {
        DeleteTransport { tid, force }
    }
}

/// Response body that describes one transport.
pub struct TransportStatus {
    pub tt: TransportType,
    pub tm: TransportMode,
    /// The status payload: the transport's address
    pub payload: String,
    /// Transport ID inside the node manager
    pub tid: String,
}

impl TransportStatus {
    pub fn new(tt: TransportType, tm: TransportMode, payload: String, tid: String) -> (r: Self)
        ensures
            r.tt == tt,
            r.tm == tm,
            r.payload@ == payload@,
            r.tid@ == tid@,
    {
        TransportStatus { tt, tm, payload, tid }
    }
}

/// Response body that lists transports.
pub struct TransportList {
    pub list: Vec<TransportStatus>,
}

impl TransportList {
    pub fn new(list: Vec<TransportStatus>) -> (r: Self)
        ensures
            r.list@ == list@,
    {
        TransportList { list }
    }
}

} // verus!
