//! WebSocket runs: the outcome of one message exchange, how connection
//! errors are classified, and the statistics of a WebSocket run.
use vstd::prelude::*;

use std::time::Instant;
use tokio_tungstenite::tungstenite::Error as WsError;
use vstd::multiset::Multiset;

use crate::clock::{elapsed_us, instant_now};
use crate::stats::{
    LatencyHistogram, MAX_LATENCY_US, hist_max, hist_min, hist_record, hist_reset, hist_values, max_level, min_level,
    new_histogram, retain_recent, window_after,
};
use crate::text::{
    chars_of, contains_seq, contains_str, decimal, push_decimal, replace_all, replace_spec,
    string_of, to_lowercase, lower_text,
};

verus! {

/// Why a WebSocket exchange failed.
#[derive(Debug, Clone, Copy, PartialEq, Eq, Hash, Structural)]
pub enum WsErrorKind {
    ConnectFailed,
    HandshakeFailed,
    Tls,
    SendFailed,
    Timeout,
    ConnectionClosed,
    ProtocolError,
    Other,
}

/// The position of each kind in the per-kind counters.
pub open spec fn ws_error_index(k: WsErrorKind) -> nat {
    match k {
        WsErrorKind::ConnectFailed => 0,
        WsErrorKind::HandshakeFailed => 1,
        WsErrorKind::Tls => 2,
        WsErrorKind::SendFailed => 3,
        WsErrorKind::Timeout => 4,
        WsErrorKind::ConnectionClosed => 5,
        WsErrorKind::ProtocolError => 6,
        WsErrorKind::Other => 7,
    }
}

/// The kinds that mean the connection could not be made.
pub open spec fn is_connection_error(k: WsErrorKind) -> bool {
    k is ConnectFailed || k is HandshakeFailed || k is Tls
}

impl WsErrorKind {
    /// The kind's name, as reports print it.
    pub fn as_str(&self) -> (s: &'static str)
        ensures
            s@ == ws_error_name(*self),
    {
        match self {
            WsErrorKind::ConnectFailed => "connect_failed",
            WsErrorKind::HandshakeFailed => "handshake_failed",
            WsErrorKind::Tls => "tls",
            WsErrorKind::SendFailed => "send_failed",
            WsErrorKind::Timeout => "timeout",
            WsErrorKind::ConnectionClosed => "connection_closed",
            WsErrorKind::ProtocolError => "protocol_error",
            WsErrorKind::Other => "other",
        }
    }

    /// The kind's position in the per-kind counters.
    pub fn index(&self) -> (i: usize)
        ensures
            i == ws_error_index(*self),
    {
        match self {
            WsErrorKind::ConnectFailed => 0,
            WsErrorKind::HandshakeFailed => 1,
            WsErrorKind::Tls => 2,
            WsErrorKind::SendFailed => 3,
            WsErrorKind::Timeout => 4,
            WsErrorKind::ConnectionClosed => 5,
            WsErrorKind::ProtocolError => 6,
            WsErrorKind::Other => 7,
        }
    }
}

/// The name of each kind.
pub open spec fn ws_error_name(k: WsErrorKind) -> Seq<char> {
    match k {
        WsErrorKind::ConnectFailed => "connect_failed"@,
        WsErrorKind::HandshakeFailed => "handshake_failed"@,
        WsErrorKind::Tls => "tls"@,
        WsErrorKind::SendFailed => "send_failed"@,
        WsErrorKind::Timeout => "timeout"@,
        WsErrorKind::ConnectionClosed => "connection_closed"@,
        WsErrorKind::ProtocolError => "protocol_error"@,
        WsErrorKind::Other => "other"@,
    }
}

/// The outcome of one WebSocket message exchange.
#[derive(Debug, Clone)]
pub struct WsMessageResult {
    /// The round trip (echo) or the send time (fire and forget).
    pub message_latency_us: u64,
    pub bytes_sent: u64,
    pub bytes_received: u64,
    /// The time to connect, when this exchange opened the connection.
    pub connect_time_us: Option<u64>,
    pub error: Option<WsErrorKind>,
    pub response: Option<String>,
}

/// An exchange succeeded when it came back without an error.
pub open spec fn ws_result_is_success(r: WsMessageResult) -> bool {
    r.error is None
}

/// A successful exchange that brought bytes back counts as a message
/// received.
pub open spec fn ws_result_got_reply(r: WsMessageResult) -> bool {
    ws_result_is_success(r) && r.bytes_received > 0
}

impl WsMessageResult {
    /// An exchange that went through.
    pub fn success(latency_us: u64, bytes_sent: u64, bytes_received: u64) -> (r: Self)
        ensures
            r.message_latency_us == latency_us,
            r.bytes_sent == bytes_sent,
            r.bytes_received == bytes_received,
            r.connect_time_us is None,
            r.error is None,
            r.response is None,
    {
        WsMessageResult {
            message_latency_us: latency_us,
            bytes_sent,
            bytes_received,
            connect_time_us: None,
            error: None,
            response: None,
        }
    }

    /// An exchange that failed with `kind`.
    pub fn error(kind: WsErrorKind) -> (r: Self)
        ensures
            r.message_latency_us == 0,
            r.bytes_sent == 0,
            r.bytes_received == 0,
            r.connect_time_us is None,
            r.error == Some(kind),
            r.response is None,
    {
        WsMessageResult {
            message_latency_us: 0,
            bytes_sent: 0,
            bytes_received: 0,
            connect_time_us: None,
            error: Some(kind),
            response: None,
        }
    }

    /// The same outcome, with the text that came back.
    pub fn with_response(self, response: String) -> (r: Self)
        ensures
            r.response == Some(response),
            r.message_latency_us == self.message_latency_us,
            r.bytes_sent == self.bytes_sent,
            r.bytes_received == self.bytes_received,
            r.connect_time_us == self.connect_time_us,
            r.error == self.error,
    {
        WsMessageResult { response: Some(response), ..self }
    }

    /// The same outcome, for the exchange that opened the connection in
    /// `connect_time_us`.
    pub fn with_connect_time(self, connect_time_us: u64) -> (r: Self)
        ensures
            r.connect_time_us == Some(connect_time_us),
            r.message_latency_us == self.message_latency_us,
            r.bytes_sent == self.bytes_sent,
            r.bytes_received == self.bytes_received,
            r.error == self.error,
            r.response == self.response,
    {
        WsMessageResult { connect_time_us: Some(connect_time_us), ..self }
    }

    /// Whether the exchange came back without an error.
    pub fn is_success(&self) -> (b: bool)
        ensures
            b == ws_result_is_success(*self),
    {
        self.error.is_none()
    }
}

/// `s` with `${MESSAGE_ID}` replaced by the message number, then
/// `${TIMESTAMP_MS}` by the time in milliseconds.
pub open spec fn message_spec(s: Seq<char>, message_id: u64, timestamp_ms: u64) -> Seq<char> {
    replace_spec(
        replace_spec(s, "${MESSAGE_ID}"@, decimal(message_id as nat)),
        "${TIMESTAMP_MS}"@,
        decimal(timestamp_ms as nat),
    )
}

/// Fills in the message number and the time of a WebSocket message.
pub fn interpolate_message(s: &str, message_id: u64, timestamp_ms: u64) -> (out: String)
    ensures
        out@ == message_spec(s@, message_id, timestamp_ms),
{
    proof {
        reveal_strlit("${MESSAGE_ID}");
        reveal_strlit("${TIMESTAMP_MS}");
    }
    let cs = chars_of(s);
    let id_pat = chars_of("${MESSAGE_ID}");
    let ts_pat = chars_of("${TIMESTAMP_MS}");
    let mut id_text: Vec<char> = Vec::new();
    push_decimal(&mut id_text, message_id);
    let mut ts_text: Vec<char> = Vec::new();
    push_decimal(&mut ts_text, timestamp_ms);
    let once = replace_all(cs.as_slice(), id_pat.as_slice(), id_text.as_slice());
    let twice = replace_all(once.as_slice(), ts_pat.as_slice(), ts_text.as_slice());
    string_of(twice.as_slice())
}

/// Whether an exchange that failed with `e` lost the connection, so that
/// the worker reconnects.
pub fn connection_lost(e: Option<WsErrorKind>) -> (b: bool)
    ensures
        b == (e == Some(WsErrorKind::ConnectionClosed) || e == Some(WsErrorKind::SendFailed)),
{
    match e {
        Some(WsErrorKind::ConnectionClosed) | Some(WsErrorKind::SendFailed) => true,
        _ => false,
    }
}

#[verifier::external_type_specification]
#[verifier::external_body]
pub struct ExWsError(tokio_tungstenite::tungstenite::Error);

/// The variant of a `tungstenite` error.
#[derive(Debug, Clone, Copy, PartialEq, Eq, Structural)]
pub enum WsErrorClass {
    /// `ConnectionClosed` or `AlreadyClosed`.
    Closed,
    /// `Io`.
    Io,
    Tls,
    Protocol,
    /// `Http` or `HttpFormat`: the handshake's answer was not an upgrade.
    Handshake,
    Url,
    /// `Capacity`, `WriteBufferFull`, `Utf8` or `AttackAttempt`.
    Other,
}

/// Tells the variants of `tungstenite::Error` apart. Nothing is stated:
/// the error is opaque here.
#[verifier::external_body]
fn ws_error_class(err: &WsError) -> WsErrorClass {
    match err {
        WsError::ConnectionClosed => WsErrorClass::Closed,
        WsError::AlreadyClosed => WsErrorClass::Closed,
        WsError::Io(_) => WsErrorClass::Io,
        WsError::Tls(_) => WsErrorClass::Tls,
        WsError::Capacity(_) => WsErrorClass::Other,
        WsError::Protocol(_) => WsErrorClass::Protocol,
        WsError::WriteBufferFull(_) => WsErrorClass::Other,
        WsError::Utf8 => WsErrorClass::Other,
        WsError::AttackAttempt => WsErrorClass::Other,
        WsError::Url(_) => WsErrorClass::Url,
        WsError::Http(_) => WsErrorClass::Handshake,
        WsError::HttpFormat(_) => WsErrorClass::Handshake,
    }
}

/// The `Display` text of the `std::io::Error` inside an `Io` error, and
/// `None` for the other variants. Nothing else is stated.
#[verifier::external_body]
fn ws_io_error_text(err: &WsError) -> Option<String> {
    match err {
        WsError::Io(e) => Some(e.to_string()),
        _ => None,
    }
}

/// The kind of error a class of `tungstenite` error stands for. An I/O
/// error whose text, lowercased, mentions a refusal is a failure to
/// connect; else one that mentions TLS or a certificate is a TLS error;
/// any other is a failure to connect.
pub open spec fn class_kind(c: WsErrorClass, io_text: Option<Seq<char>>) -> WsErrorKind {
    match c {
        WsErrorClass::Closed => WsErrorKind::ConnectionClosed,
        WsErrorClass::Io => match io_text {
            Some(t) => {
                let l = lower_text(t);
                if contains_seq(l, "refused"@) {
                    WsErrorKind::ConnectFailed
                } else if contains_seq(l, "tls"@) || contains_seq(l, "certificate"@) {
                    WsErrorKind::Tls
                } else {
                    WsErrorKind::ConnectFailed
                }
            },
            None => WsErrorKind::ConnectFailed,
        },
        WsErrorClass::Tls => WsErrorKind::Tls,
        WsErrorClass::Protocol => WsErrorKind::ProtocolError,
        WsErrorClass::Handshake => WsErrorKind::HandshakeFailed,
        WsErrorClass::Url => WsErrorKind::ConnectFailed,
        WsErrorClass::Other => WsErrorKind::Other,
    }
}

/// The character view of an optional text.
pub open spec fn opt_text(t: Option<&str>) -> Option<Seq<char>> {
    match t {
        Some(s) => Some(s@),
        None => None,
    }
}

/// The kind of error a class of `tungstenite` error stands for, with the
/// text of an I/O error.
pub fn class_to_kind(c: WsErrorClass, io_text: Option<&str>) -> (k: WsErrorKind)
    ensures
        k == class_kind(c, opt_text(io_text)),
{
    match c {
        WsErrorClass::Closed => WsErrorKind::ConnectionClosed,
        WsErrorClass::Io => match io_text {
            Some(t) => {
                let lower = to_lowercase(t);
                let l = chars_of(lower.as_str());
                if contains_str(l.as_slice(), "refused") {
                    WsErrorKind::ConnectFailed
                } else if contains_str(l.as_slice(), "tls") || contains_str(l.as_slice(), "certificate") {
                    WsErrorKind::Tls
                } else {
                    WsErrorKind::ConnectFailed
                }
            },
            None => WsErrorKind::ConnectFailed,
        },
        WsErrorClass::Tls => WsErrorKind::Tls,
        WsErrorClass::Protocol => WsErrorKind::ProtocolError,
        WsErrorClass::Handshake => WsErrorKind::HandshakeFailed,
        WsErrorClass::Url => WsErrorKind::ConnectFailed,
        WsErrorClass::Other => WsErrorKind::Other,
    }
}

/// The kind of a `tungstenite` error: the kind of its variant, reading the
/// text of an I/O error. A send failure and a timeout are never reported
/// from an error.
pub fn ws_error_to_kind(err: &WsError) -> (k: WsErrorKind)
    ensures
        !(k is SendFailed) && !(k is Timeout),
{
    let c = ws_error_class(err);
    let text: Option<String> = if c == WsErrorClass::Io {
        ws_io_error_text(err)
    } else {
        None
    };
    let t: Option<&str> = match &text {
        Some(s) => Some(s.as_str()),
        None => None,
    };
    class_to_kind(c, t)
}

/// The statistics of a WebSocket run.
pub struct WsStats {
    message_histogram: LatencyHistogram,
    connect_histogram: LatencyHistogram,
    total_messages_sent: u64,
    total_messages_received: u64,
    total_bytes_sent: u64,
    total_bytes_received: u64,
    connections_established: u64,
    connection_errors: u64,
    disconnects: u64,
    errors: Vec<u64>,
    start_time: Instant,
    rolling_window: Vec<u64>,
}

/// A latency clamped to the histogram's range.
pub open spec fn clamp_latency(v: u64) -> u64 {
    if v < MAX_LATENCY_US {
        v
    } else {
        MAX_LATENCY_US
    }
}

impl WsStats {
    /// The invariant: a counter for each error kind, and no more messages
    /// received than sent.
    pub closed spec fn wf(&self) -> bool {
        &&& self.errors@.len() == 8
        &&& self.total_messages_received <= self.total_messages_sent
    }

    pub closed spec fn sent(&self) -> u64 {
        self.total_messages_sent
    }

    pub closed spec fn received(&self) -> u64 {
        self.total_messages_received
    }

    pub closed spec fn sent_bytes(&self) -> u64 {
        self.total_bytes_sent
    }

    pub closed spec fn received_bytes(&self) -> u64 {
        self.total_bytes_received
    }

    pub closed spec fn established(&self) -> u64 {
        self.connections_established
    }

    pub closed spec fn conn_errors(&self) -> u64 {
        self.connection_errors
    }

    pub closed spec fn disconnect_count(&self) -> u64 {
        self.disconnects
    }

    /// How many exchanges failed with `k`.
    pub closed spec fn error_count(&self, k: WsErrorKind) -> u64 {
        self.errors@[ws_error_index(k) as int]
    }

    /// The message latencies recorded, clamped to a minute.
    pub closed spec fn message_latencies(&self) -> Multiset<u64> {
        hist_values(self.message_histogram)
    }

    /// The connection times recorded, clamped to a minute.
    pub closed spec fn connect_times(&self) -> Multiset<u64> {
        hist_values(self.connect_histogram)
    }

    /// The times of the exchanges of the last second.
    pub closed spec fn window(&self) -> Seq<u64> {
        self.rolling_window@
    }

    /// Nothing is recorded.
    pub open spec fn is_fresh(&self) -> bool {
        &&& self.wf()
        &&& self.sent() == 0
        &&& self.received() == 0
        &&& self.sent_bytes() == 0
        &&& self.received_bytes() == 0
        &&& self.established() == 0
        &&& self.conn_errors() == 0
        &&& self.disconnect_count() == 0
        &&& forall|k: WsErrorKind| #[trigger] self.error_count(k) == 0
        &&& self.message_latencies() =~= Multiset::empty()
        &&& self.connect_times() =~= Multiset::empty()
        &&& self.window().len() == 0
    }

    /// Whether one more `result` fits in every counter.
    pub open spec fn has_room_for(&self, r: WsMessageResult) -> bool {
        &&& self.sent() < u64::MAX
        &&& self.sent_bytes() + r.bytes_sent <= u64::MAX
        &&& self.received() < u64::MAX
        &&& self.received_bytes() + r.bytes_received <= u64::MAX
        &&& self.established() < u64::MAX
        &&& self.conn_errors() < u64::MAX
        &&& self.disconnect_count() < u64::MAX
        &&& (r.error matches Some(k) ==> self.error_count(k) < u64::MAX)
    }

    /// These statistics count the exchange `r` on top of `before`: every
    /// exchange is a message sent; a successful one adds its latency, and
    /// a received message when bytes came back; an exchange that opened the
    /// connection adds its time; an error counts for its kind, as a
    /// disconnect when the connection closed, and as a connection error
    /// when the connection could not be made.
    pub open spec fn counts_message(&self, before: WsStats, r: WsMessageResult) -> bool {
        &&& self.wf()
        &&& self.sent() == before.sent() + 1
        &&& self.sent_bytes() == before.sent_bytes() + r.bytes_sent
        &&& self.received() == before.received() + if ws_result_got_reply(r) { 1int } else { 0int }
        &&& self.received_bytes() == before.received_bytes() + if ws_result_got_reply(r) { r.bytes_received as int } else { 0int }
        &&& self.message_latencies() == (if ws_result_is_success(r) {
            before.message_latencies().insert(clamp_latency(r.message_latency_us))
        } else {
            before.message_latencies()
        })
        &&& self.connect_times() == (match r.connect_time_us {
            Some(t) => before.connect_times().insert(clamp_latency(t)),
            None => before.connect_times(),
        })
        &&& self.established() == before.established() + if r.connect_time_us is Some { 1int } else { 0int }
        &&& forall|k: WsErrorKind| #[trigger] self.error_count(k) == before.error_count(k) + if r.error == Some(k) { 1int } else { 0int }
        &&& self.disconnect_count() == before.disconnect_count() + if r.error == Some(WsErrorKind::ConnectionClosed) { 1int } else { 0int }
        &&& self.conn_errors() == before.conn_errors() + if (r.error matches Some(k) && is_connection_error(k)) { 1int } else { 0int }
    }

    /// Statistics with nothing recorded, starting now.
    pub fn new() -> (s: Self)
        ensures
            s.is_fresh(),
    {
        WsStats {
            message_histogram: new_histogram(),
            connect_histogram: new_histogram(),
            total_messages_sent: 0,
            total_messages_received: 0,
            total_bytes_sent: 0,
            total_bytes_received: 0,
            connections_established: 0,
            connection_errors: 0,
            disconnects: 0,
            errors: vec![0, 0, 0, 0, 0, 0, 0, 0],
            start_time: instant_now(),
            rolling_window: Vec::new(),
        }
    }

    /// Forgets everything recorded and starts again now.
    pub fn reset(&mut self)
        ensures
            final(self).is_fresh(),
    {
        hist_reset(&mut self.message_histogram);
        hist_reset(&mut self.connect_histogram);
        self.total_messages_sent = 0;
        self.total_messages_received = 0;
        self.total_bytes_sent = 0;
        self.total_bytes_received = 0;
        self.connections_established = 0;
        self.connection_errors = 0;
        self.disconnects = 0;
        self.errors = vec![0, 0, 0, 0, 0, 0, 0, 0];
        self.start_time = instant_now();
        self.rolling_window = Vec::new();
    }

    /// Whether one more `result` fits in every counter.
    pub fn can_record(&self, r: &WsMessageResult) -> (b: bool)
        requires
            self.wf(),
        ensures
            b == self.has_room_for(*r),
    {
        if self.total_messages_sent == u64::MAX || self.total_messages_received == u64::MAX
            || self.connections_established == u64::MAX || self.connection_errors == u64::MAX
            || self.disconnects == u64::MAX {
            return false;
        }
        if self.total_bytes_sent > u64::MAX - r.bytes_sent {
            return false;
        }
        if self.total_bytes_received > u64::MAX - r.bytes_received {
            return false;
        }
        if let Some(k) = r.error {
            if self.errors[k.index()] == u64::MAX {
                return false;
            }
        }
        true
    }

    /// Counts one more error of kind `k`.
    fn count_error(&mut self, k: WsErrorKind)
        requires
            old(self).wf(),
            old(self).error_count(k) < u64::MAX,
        ensures
            final(self).wf(),
            forall|j: WsErrorKind| #[trigger] final(self).error_count(j) == old(self).error_count(j) + if j == k { 1int } else { 0int },
            final(self).message_histogram == old(self).message_histogram,
            final(self).connect_histogram == old(self).connect_histogram,
            final(self).sent() == old(self).sent(),
            final(self).received() == old(self).received(),
            final(self).sent_bytes() == old(self).sent_bytes(),
            final(self).received_bytes() == old(self).received_bytes(),
            final(self).established() == old(self).established(),
            final(self).conn_errors() == old(self).conn_errors(),
            final(self).disconnect_count() == old(self).disconnect_count(),
            final(self).window() == old(self).window(),
    {
        let i = k.index();
        let c = self.errors[i];
        self.errors.set(i, c + 1);
        assert forall|j: WsErrorKind| #[trigger] self.error_count(j) == old(self).error_count(j) + if j == k { 1int } else { 0int } by {
            if j != k {
                assert(ws_error_index(j) != ws_error_index(k));
            }
        }
    }

    /// Records one message exchange, now.
    pub fn record_message(&mut self, r: &WsMessageResult)
        requires
            old(self).wf(),
            old(self).has_room_for(*r),
        ensures
            final(self).counts_message(*old(self), *r),
            exists|t: u64| final(self).window() == window_after(old(self).window().push(t), t),
    {
        let t = elapsed_us(&self.start_time);
        self.record_message_at(r, t);
    }

    /// Records one message exchange, `now_us` after the start.
    pub fn record_message_at(&mut self, r: &WsMessageResult, now_us: u64)
        requires
            old(self).wf(),
            old(self).has_room_for(*r),
        ensures
            final(self).counts_message(*old(self), *r),
            final(self).window() == window_after(old(self).window().push(now_us), now_us),
    {
        self.total_messages_sent = self.total_messages_sent + 1;
        self.total_bytes_sent = self.total_bytes_sent + r.bytes_sent;
        if r.is_success() {
            let latency = if r.message_latency_us < MAX_LATENCY_US {
                r.message_latency_us
            } else {
                MAX_LATENCY_US
            };
            hist_record(&mut self.message_histogram, latency);
            if r.bytes_received > 0 {
                self.total_messages_received = self.total_messages_received + 1;
                self.total_bytes_received = self.total_bytes_received + r.bytes_received;
            }
        }
        if let Some(connect_time) = r.connect_time_us {
            let clamped = if connect_time < MAX_LATENCY_US {
                connect_time
            } else {
                MAX_LATENCY_US
            };
            hist_record(&mut self.connect_histogram, clamped);
            self.connections_established = self.connections_established + 1;
        }
        if let Some(kind) = r.error {
            let i = kind.index();
            let c = self.errors[i];
            self.errors.set(i, c + 1);
            if kind == WsErrorKind::ConnectionClosed {
                self.disconnects = self.disconnects + 1;
            }
            if kind == WsErrorKind::ConnectFailed || kind == WsErrorKind::HandshakeFailed || kind
                == WsErrorKind::Tls {
                self.connection_errors = self.connection_errors + 1;
            }
        }
        self.rolling_window.push(now_us);
        self.rolling_window = retain_recent(&self.rolling_window, now_us);
        assert forall|k: WsErrorKind| #[trigger] self.error_count(k) == old(self).error_count(k) + if r.error == Some(k) { 1int } else { 0int } by {
            if r.error != Some(k) && r.error is Some {
                assert(ws_error_index(k) != ws_error_index(r.error->0));
            }
        }
    }

    /// Records a connection made in `connect_time_us`.
    pub fn record_connection(&mut self, connect_time_us: u64)
        requires
            old(self).wf(),
            old(self).established() < u64::MAX,
        ensures
            final(self).wf(),
            final(self).connect_times() == old(self).connect_times().insert(clamp_latency(connect_time_us)),
            final(self).established() == old(self).established() + 1,
            final(self).message_latencies() == old(self).message_latencies(),
            final(self).sent() == old(self).sent(),
            final(self).received() == old(self).received(),
            final(self).sent_bytes() == old(self).sent_bytes(),
            final(self).received_bytes() == old(self).received_bytes(),
            final(self).conn_errors() == old(self).conn_errors(),
            final(self).disconnect_count() == old(self).disconnect_count(),
            forall|k: WsErrorKind| #[trigger] final(self).error_count(k) == old(self).error_count(k),
            final(self).window() == old(self).window(),
    {
        let clamped = if connect_time_us < MAX_LATENCY_US {
            connect_time_us
        } else {
            MAX_LATENCY_US
        };
        hist_record(&mut self.connect_histogram, clamped);
        self.connections_established = self.connections_established + 1;
    }

    /// Records a connection that closed.
    pub fn record_disconnect(&mut self)
        requires
            old(self).wf(),
            old(self).disconnect_count() < u64::MAX,
        ensures
            final(self).wf(),
            final(self).disconnect_count() == old(self).disconnect_count() + 1,
            final(self).message_latencies() == old(self).message_latencies(),
            final(self).connect_times() == old(self).connect_times(),
            final(self).sent() == old(self).sent(),
            final(self).received() == old(self).received(),
            final(self).sent_bytes() == old(self).sent_bytes(),
            final(self).received_bytes() == old(self).received_bytes(),
            final(self).established() == old(self).established(),
            final(self).conn_errors() == old(self).conn_errors(),
            forall|k: WsErrorKind| #[trigger] final(self).error_count(k) == old(self).error_count(k),
            final(self).window() == old(self).window(),
    {
        self.disconnects = self.disconnects + 1;
    }

    /// Records a connection that could not be made, with kind `k`.
    pub fn record_connection_error(&mut self, k: WsErrorKind)
        requires
            old(self).wf(),
            old(self).conn_errors() < u64::MAX,
            old(self).error_count(k) < u64::MAX,
        ensures
            final(self).wf(),
            final(self).conn_errors() == old(self).conn_errors() + 1,
            forall|j: WsErrorKind| #[trigger] final(self).error_count(j) == old(self).error_count(j) + if j == k { 1int } else { 0int },
            final(self).message_latencies() == old(self).message_latencies(),
            final(self).connect_times() == old(self).connect_times(),
            final(self).sent() == old(self).sent(),
            final(self).received() == old(self).received(),
            final(self).sent_bytes() == old(self).sent_bytes(),
            final(self).received_bytes() == old(self).received_bytes(),
            final(self).established() == old(self).established(),
            final(self).disconnect_count() == old(self).disconnect_count(),
            final(self).window() == old(self).window(),
    {
        self.connection_errors = self.connection_errors + 1;
        self.count_error(k);
    }

    /// Microseconds since the statistics started or were last reset.
    pub fn elapsed_us(&self) -> u64 {
        elapsed_us(&self.start_time)
    }

    pub fn total_messages_sent(&self) -> (n: u64)
        ensures
            n == self.sent(),
    {
        self.total_messages_sent
    }

    pub fn total_messages_received(&self) -> (n: u64)
        ensures
            n == self.received(),
    {
        self.total_messages_received
    }

    pub fn total_bytes_sent(&self) -> (n: u64)
        ensures
            n == self.sent_bytes(),
    {
        self.total_bytes_sent
    }

    pub fn total_bytes_received(&self) -> (n: u64)
        ensures
            n == self.received_bytes(),
    {
        self.total_bytes_received
    }

    pub fn connections_established(&self) -> (n: u64)
        ensures
            n == self.established(),
    {
        self.connections_established
    }

    pub fn connection_errors(&self) -> (n: u64)
        ensures
            n == self.conn_errors(),
    {
        self.connection_errors
    }

    pub fn disconnects(&self) -> (n: u64)
        ensures
            n == self.disconnect_count(),
    {
        self.disconnects
    }

    /// The count of errors of kind `k`.
    pub fn error_kind_count(&self, k: WsErrorKind) -> (n: u64)
        requires
            self.wf(),
        ensures
            n == self.error_count(k),
    {
        self.errors[k.index()]
    }

    /// The exchanges of the last second.
    pub fn rolling_count(&self) -> (n: usize)
        ensures
            n == self.window().len(),
    {
        self.rolling_window.len()
    }

    /// The smallest message latency level recorded (zero without any).
    pub fn message_latency_min(&self) -> (m: u64)
        ensures
            min_level(self.message_latencies(), m),
            self.message_latencies().len() == 0 ==> m == 0,
            forall|v: u64| self.message_latencies().contains(v) ==> m <= v,
    {
        hist_min(&self.message_histogram)
    }

    /// The largest message latency level recorded (zero without any).
    pub fn message_latency_max(&self) -> (m: u64)
        ensures
            max_level(self.message_latencies(), m),
            self.message_latencies().len() == 0 ==> m == 0,
            forall|v: u64| self.message_latencies().contains(v) ==> v <= m,
    {
        hist_max(&self.message_histogram)
    }

    /// The smallest connection time level recorded (zero without any).
    pub fn connect_time_min(&self) -> (m: u64)
        ensures
            min_level(self.connect_times(), m),
            self.connect_times().len() == 0 ==> m == 0,
            forall|v: u64| self.connect_times().contains(v) ==> m <= v,
    {
        hist_min(&self.connect_histogram)
    }

    /// The largest connection time level recorded (zero without any).
    pub fn connect_time_max(&self) -> (m: u64)
        ensures
            max_level(self.connect_times(), m),
            self.connect_times().len() == 0 ==> m == 0,
            forall|v: u64| self.connect_times().contains(v) ==> v <= m,
    {
        hist_max(&self.connect_histogram)
    }

    /// The histogram of message latencies, for the statistics that are
    /// computed in floating point.
    pub fn message_histogram(&self) -> (h: &LatencyHistogram)
        ensures
            hist_values(*h) == self.message_latencies(),
    {
        &self.message_histogram
    }

    /// The histogram of connection times, for the statistics that are
    /// computed in floating point.
    pub fn connect_histogram(&self) -> (h: &LatencyHistogram)
        ensures
            hist_values(*h) == self.connect_times(),
    {
        &self.connect_histogram
    }
}

/// A WebSocket run never receives more messages than it sends.
pub proof fn lemma_received_at_most_sent(s: WsStats)
    requires
        s.wf(),
    ensures
        s.received() <= s.sent(),
{
}

impl Default for WsStats {
    fn default() -> (s: Self)
        ensures
            s.is_fresh(),
    {
        WsStats::new()
    }
}

} // verus!
