//! The rules of the WebSocket connection: what may be connected to, and what its faults mean.

use crate::curl::{is_loopback_authority, loopback_authority};
use crate::doubao::bootstrap::{bounded_text, is_bounded_text};
use crate::error::{ErrorCategory, VoxError};
use crate::text::{
    ascii_alphanumeric, before_first, begins, decimal, is_ascii_alphanumeric, join3, lower_text,
    lowered, same_text, starts_with, strip_prefix, text_before_first, write_number,
};
use vstd::prelude::*;
use vstd::string::*;

verus! {

pub const MAX_ENDPOINT_BYTES: usize = 16_384;

pub const MAX_HEADERS: usize = 32;

pub const MAX_HEADER_NAME_BYTES: usize = 64;

pub const MAX_HEADER_VALUE_BYTES: usize = 1024;

/// The longest single attempt to connect, so that cancellation is seen in time.
pub const TCP_CONNECT_SLICE_NANOS: u64 = 100_000_000;

/// Fully constructed handshake supplied by the client identity layer; times are in nanoseconds.
///
/// The endpoint can hold persistent device query values, so the type has no form that shows it.
pub struct WebSocketSpec {
    pub endpoint: String,
    pub headers: Vec<(String, String)>,
    pub connect_timeout_nanos: u64,
    pub poll_interval_nanos: u64,
}

impl WebSocketSpec {
    /// What is shown in place of the handshake: how many headers it has, and its times.
    pub fn redacted(&self) -> (r: String)
        ensures
            r@ == "WebSocketSpec { endpoint: \"[redacted]\", headers: ["@ + decimal(
                self.headers@.len(),
            ) + " redacted headers], connect_timeout_nanos: "@ + decimal(
                self.connect_timeout_nanos as nat,
            ) + ", poll_interval_nanos: "@ + decimal(self.poll_interval_nanos as nat) + " }"@,
    {
        let count = write_number(self.headers.len() as u64);
        let connect = write_number(self.connect_timeout_nanos);
        let poll = write_number(self.poll_interval_nanos);
        let mut text = join3(
            "WebSocketSpec { endpoint: \"[redacted]\", headers: [",
            count.as_str(),
            " redacted headers], connect_timeout_nanos: ",
        );
        text.append(connect.as_str());
        text.append(", poll_interval_nanos: ");
        text.append(poll.as_str());
        text.append(" }");
        text
    }
}

#[derive(Debug, Eq, PartialEq)]
pub enum QueueBinaryResult {
    Queued,
    Full(Vec<u8>),
}

#[derive(Clone, Copy, Debug, Eq, PartialEq, Structural)]
pub enum FlushResult {
    Flushed,
    Pending,
    Closed,
}

#[derive(Debug, Eq, PartialEq)]
pub enum SocketEvent {
    Binary(Vec<u8>),
    Ping(Vec<u8>),
    Pong,
    Close,
}

#[derive(Debug, Eq, PartialEq)]
pub enum PollResult {
    Idle,
    Event(SocketEvent),
    Closed,
}

/// A fault of the connection, without any text of the provider.
#[derive(Clone, Copy, Debug, Eq, PartialEq)]
pub struct WebSocketTransportError {
    category: ErrorCategory,
    retryable: bool,
    code: &'static str,
    message: &'static str,
}

/// What a fault says.
pub struct TransportModel {
    pub category: ErrorCategory,
    pub retryable: bool,
    pub code: Seq<char>,
    pub message: Seq<char>,
}

pub open spec fn transport_fault(
    category: ErrorCategory,
    retryable: bool,
    code: Seq<char>,
    message: Seq<char>,
) -> TransportModel {
    TransportModel { category, retryable, code, message }
}

pub open spec fn configuration_fault(code: Seq<char>, message: Seq<char>) -> TransportModel {
    transport_fault(ErrorCategory::Configuration, false, code, message)
}

pub open spec fn connection_fault(code: Seq<char>, message: Seq<char>) -> TransportModel {
    transport_fault(ErrorCategory::Connection, true, code, message)
}

pub open spec fn timeout_fault(code: Seq<char>, message: Seq<char>) -> TransportModel {
    transport_fault(ErrorCategory::Timeout, true, code, message)
}

pub open spec fn cancelled_fault() -> TransportModel {
    transport_fault(
        ErrorCategory::Cancelled,
        false,
        "doubao.websocket_cancelled"@,
        "Doubao WebSocket operation was cancelled"@,
    )
}

impl WebSocketTransportError {
    pub closed spec fn view(&self) -> TransportModel {
        transport_fault(self.category, self.retryable, self.code@, self.message@)
    }

    pub fn new(
        category: ErrorCategory,
        retryable: bool,
        code: &'static str,
        message: &'static str,
    ) -> (error: Self)
        ensures
            error@ == transport_fault(category, retryable, code@, message@),
    {
        WebSocketTransportError { category, retryable, code, message }
    }

    pub fn category(self) -> (r: ErrorCategory)
        ensures
            r == self@.category,
    {
        self.category
    }

    pub fn is_retryable(self) -> (r: bool)
        ensures
            r == self@.retryable,
    {
        self.retryable
    }

    pub fn code(self) -> (r: &'static str)
        ensures
            r@ == self@.code,
    {
        self.code
    }

    pub fn message(self) -> (r: &'static str)
        ensures
            r@ == self@.message,
    {
        self.message
    }

    pub fn into_vox_error(self) -> (error: VoxError)
        ensures
            error.says(self@.category, self@.code, self@.message, self@.retryable),
    {
        VoxError::new(self.category, self.code, self.message).with_retryable(self.retryable)
    }
}

pub fn cancelled() -> (error: WebSocketTransportError)
    ensures
        error@ == cancelled_fault(),
{
    WebSocketTransportError::new(
        ErrorCategory::Cancelled,
        false,
        "doubao.websocket_cancelled",
        "Doubao WebSocket operation was cancelled",
    )
}

pub fn timeout(code: &'static str, message: &'static str) -> (error: WebSocketTransportError)
    ensures
        error@ == timeout_fault(code@, message@),
{
    WebSocketTransportError::new(ErrorCategory::Timeout, true, code, message)
}

pub fn connection_error(
    code: &'static str,
    message: &'static str,
) -> (error: WebSocketTransportError)
    ensures
        error@ == connection_fault(code@, message@),
{
    WebSocketTransportError::new(ErrorCategory::Connection, true, code, message)
}

fn configuration_error(code: &'static str, message: &'static str) -> (error:
    WebSocketTransportError)
    ensures
        error@ == configuration_fault(code@, message@),
{
    WebSocketTransportError::new(ErrorCategory::Configuration, false, code, message)
}

/// The part of a text before the first slash or question mark.
pub open spec fn authority_of(rest: Seq<char>) -> Seq<char> {
    before_first(before_first(rest, '/'), '?')
}

/// A plain WebSocket address of this machine.
pub open spec fn loopback_ws(endpoint: Seq<char>) -> bool {
    &&& begins(endpoint, "ws://"@)
    &&& loopback_authority(lowered(authority_of(endpoint.skip("ws://"@.len() as int))))
}

pub fn is_loopback_ws(endpoint: &str) -> (r: bool)
    ensures
        r == loopback_ws(endpoint@),
{
    match strip_prefix(endpoint, "ws://") {
        None => false,
        Some(rest) => {
            let authority = lower_text(text_before_first(text_before_first(rest, '/'), '?'));
            is_loopback_authority(authority.as_str())
        },
    }
}

pub open spec fn header_char(c: char) -> bool {
    ascii_alphanumeric(c) || c == '-'
}

/// A header name has one to 64 letters, digits and hyphens.
pub open spec fn proper_header_name(name: Seq<char>) -> bool {
    0 < name.len() <= MAX_HEADER_NAME_BYTES && forall|i: int|
        0 <= i < name.len() ==> header_char(#[trigger] name[i])
}

/// A header that the handshake itself sets.
pub open spec fn reserved_header(name: Seq<char>) -> bool {
    let lower = lowered(name);
    ||| lower == "connection"@
    ||| lower == "host"@
    ||| lower == "upgrade"@
    ||| lower == "sec-websocket-accept"@
    ||| lower == "sec-websocket-extensions"@
    ||| lower == "sec-websocket-key"@
    ||| lower == "sec-websocket-protocol"@
    ||| lower == "sec-websocket-version"@
}

/// A header that a caller may add.
pub open spec fn proper_header(header: (String, String)) -> bool {
    &&& proper_header_name(header.0@)
    &&& bounded_text(header.1@, MAX_HEADER_VALUE_BYTES as nat)
    &&& !reserved_header(header.0@)
}

fn valid_header_name(name: &str) -> (r: bool)
    ensures
        r == proper_header_name(name@),
{
    let length: usize = name.unicode_len();
    let mut valid = 0 < length && length <= MAX_HEADER_NAME_BYTES;
    for c in it: name.chars()
        invariant
            it.seq() == name@,
            length == name@.len(),
            valid == (0 < length <= MAX_HEADER_NAME_BYTES && forall|i: int|
                0 <= i < it.index() ==> header_char(#[trigger] name@[i])),
    {
        valid = valid && (is_ascii_alphanumeric(c) || c == '-');
    }
    valid
}

fn is_reserved_header(name: &str) -> (r: bool)
    ensures
        r == reserved_header(name@),
{
    let owned = lower_text(name);
    let lower = owned.as_str();
    same_text(lower, "connection") || same_text(lower, "host") || same_text(lower, "upgrade")
        || same_text(lower, "sec-websocket-accept") || same_text(
        lower,
        "sec-websocket-extensions",
    ) || same_text(lower, "sec-websocket-key") || same_text(lower, "sec-websocket-protocol")
        || same_text(lower, "sec-websocket-version")
}

fn valid_header(header: &(String, String)) -> (r: bool)
    ensures
        r == proper_header(*header),
{
    valid_header_name(header.0.as_str()) && is_bounded_text(
        header.1.as_str(),
        MAX_HEADER_VALUE_BYTES,
    ) && !is_reserved_header(header.0.as_str())
}

/// The parts of an address that a connection needs.
#[derive(Debug, Eq, PartialEq)]
pub struct UriParts {
    pub scheme: Option<String>,
    pub host: Option<String>,
    pub port: Option<u16>,
}

/// What the parts say.
pub struct UriModel {
    pub scheme: Option<Seq<char>>,
    pub host: Option<Seq<char>>,
    pub port: Option<u16>,
}

impl UriParts {
    pub open spec fn view(&self) -> UriModel {
        UriModel {
            scheme: match self.scheme {
                Some(scheme) => Some(scheme@),
                None => None,
            },
            host: match self.host {
                Some(host) => Some(host@),
                None => None,
            },
            port: self.port,
        }
    }
}

/// The scheme, the host and the port that `tungstenite::http::Uri` reads out of an address, if
/// it takes the address.
pub uninterp spec fn uri_of(address: Seq<char>) -> Option<UriModel>;

/// `FromStr` of `tungstenite::http::Uri`, and its `scheme_str`, `host` and `port_u16`.
#[verifier::external_body]
fn read_uri(address: &str) -> (r: Option<UriParts>)
    ensures
        match r {
            Some(parts) => uri_of(address@) == Some(parts@),
            None => uri_of(address@) is None,
        },
{
    let uri = address.parse::<tungstenite::http::Uri>().ok()?;
    Some(UriParts {
        scheme: uri.scheme_str().map(str::to_owned),
        host: uri.host().map(str::to_owned),
        port: uri.port_u16(),
    })
}

/// What is wrong with a handshake, apart from the form of its address.
pub open spec fn spec_fault(spec: WebSocketSpec) -> Option<TransportModel> {
    if !bounded_text(spec.endpoint@, MAX_ENDPOINT_BYTES as nat) {
        Some(
            configuration_fault(
                "doubao.websocket_invalid_endpoint"@,
                "Doubao WebSocket endpoint is invalid"@,
            ),
        )
    } else if !(100_000_000 <= spec.connect_timeout_nanos <= 60_000_000_000) || !(1_000_000
        <= spec.poll_interval_nanos <= 100_000_000) {
        Some(
            configuration_fault(
                "doubao.websocket_invalid_timeout"@,
                "Doubao WebSocket timeouts are outside the safe range"@,
            ),
        )
    } else if !begins(spec.endpoint@, "wss://"@) && !loopback_ws(spec.endpoint@) {
        Some(
            configuration_fault(
                "doubao.websocket_insecure_endpoint"@,
                "Doubao WebSocket endpoint must use WSS or loopback WS"@,
            ),
        )
    } else if spec.headers@.len() > MAX_HEADERS {
        Some(
            configuration_fault(
                "doubao.websocket_too_many_headers"@,
                "Doubao WebSocket handshake contains too many headers"@,
            ),
        )
    } else if exists|i: int|
        0 <= i < spec.headers@.len() && !proper_header(#[trigger] spec.headers@[i]) {
        Some(
            configuration_fault(
                "doubao.websocket_invalid_header"@,
                "Doubao WebSocket handshake header is invalid or reserved"@,
            ),
        )
    } else {
        None
    }
}

/// Checks a handshake, apart from the form of its address.
pub fn check_spec(spec: &WebSocketSpec) -> (r: Result<(), WebSocketTransportError>)
    ensures
        match r {
            Ok(_) => spec_fault(*spec) is None,
            Err(error) => spec_fault(*spec) == Some(error@),
        },
{
    if !is_bounded_text(spec.endpoint.as_str(), MAX_ENDPOINT_BYTES) {
        return Err(
            configuration_error(
                "doubao.websocket_invalid_endpoint",
                "Doubao WebSocket endpoint is invalid",
            ),
        );
    }
    if !(100_000_000 <= spec.connect_timeout_nanos && spec.connect_timeout_nanos
        <= 60_000_000_000) || !(1_000_000 <= spec.poll_interval_nanos && spec.poll_interval_nanos
        <= 100_000_000) {
        return Err(
            configuration_error(
                "doubao.websocket_invalid_timeout",
                "Doubao WebSocket timeouts are outside the safe range",
            ),
        );
    }
    if !starts_with(spec.endpoint.as_str(), "wss://") && !is_loopback_ws(spec.endpoint.as_str()) {
        return Err(
            configuration_error(
                "doubao.websocket_insecure_endpoint",
                "Doubao WebSocket endpoint must use WSS or loopback WS",
            ),
        );
    }
    if spec.headers.len() > MAX_HEADERS {
        return Err(
            configuration_error(
                "doubao.websocket_too_many_headers",
                "Doubao WebSocket handshake contains too many headers",
            ),
        );
    }
    let mut all_valid = true;
    for i in 0..spec.headers.len()
        invariant
            all_valid == (forall|j: int|
                0 <= j < i ==> proper_header(#[trigger] spec.headers@[j])),
    {
        let valid = valid_header(&spec.headers[i]);
        all_valid = all_valid && valid;
    }
    if !all_valid {
        return Err(
            configuration_error(
                "doubao.websocket_invalid_header",
                "Doubao WebSocket handshake header is invalid or reserved",
            ),
        );
    }
    Ok(())
}

/// What is wrong with the form of an address.
pub open spec fn uri_fault() -> TransportModel {
    configuration_fault(
        "doubao.websocket_invalid_uri"@,
        "Doubao WebSocket endpoint is not a valid URI"@,
    )
}

/// Checks a handshake and reads its address.
pub fn validate_spec(spec: &WebSocketSpec) -> (r: Result<UriParts, WebSocketTransportError>)
    ensures
        match r {
            Ok(parts) => spec_fault(*spec) is None && uri_of(spec.endpoint@) == Some(parts@),
            Err(error) => if spec_fault(*spec) is Some {
                spec_fault(*spec) == Some(error@)
            } else {
                uri_of(spec.endpoint@) is None && error@ == uri_fault()
            },
        },
{
    match check_spec(spec) {
        Ok(_) => {},
        Err(error) => {
            return Err(error);
        },
    }
    match read_uri(spec.endpoint.as_str()) {
        Some(parts) => Ok(parts),
        None => Err(
            configuration_error(
                "doubao.websocket_invalid_uri",
                "Doubao WebSocket endpoint is not a valid URI",
            ),
        ),
    }
}

/// The port of an address: its own, or that of its scheme.
pub open spec fn port_of(parts: UriModel) -> u16 {
    match parts.port {
        Some(port) => port,
        None => if parts.scheme == Some("wss"@) {
            443
        } else {
            80
        },
    }
}

/// The host and the port to connect to.
pub fn connect_target(parts: UriParts) -> (r: Result<(String, u16), WebSocketTransportError>)
    ensures
        match r {
            Ok(target) => parts@.host == Some(target.0@) && target.1 == port_of(parts@),
            Err(error) => parts@.host is None && error@ == configuration_fault(
                "doubao.websocket_missing_host"@,
                "Doubao WebSocket endpoint has no host"@,
            ),
        },
{
    let secure = match &parts.scheme {
        Some(scheme) => same_text(scheme.as_str(), "wss"),
        None => false,
    };
    let port: u16 = match parts.port {
        Some(port) => port,
        None => if secure {
            443
        } else {
            80
        },
    };
    match parts.host {
        Some(host) => Ok((host, port)),
        None => Err(
            configuration_error(
                "doubao.websocket_missing_host",
                "Doubao WebSocket endpoint has no host",
            ),
        ),
    }
}

/// The time for one attempt: what remains, but no more than a slice.
pub open spec fn attempt_time(now_nanos: u64, deadline_nanos: u64) -> int {
    if deadline_nanos - now_nanos < TCP_CONNECT_SLICE_NANOS {
        deadline_nanos - now_nanos
    } else {
        TCP_CONNECT_SLICE_NANOS as int
    }
}

/// How long the next attempt to connect may take, or why there is none.
fn connect_slice(now_nanos: u64, deadline_nanos: u64, is_cancelled: bool) -> (r: Result<
    u64,
    WebSocketTransportError,
>)
    ensures
        match r {
            Ok(slice) => {
                &&& !is_cancelled
                &&& now_nanos < deadline_nanos
                &&& slice == attempt_time(now_nanos, deadline_nanos)
                &&& slice > 0
            },
            Err(error) => if is_cancelled {
                error@ == cancelled_fault()
            } else {
                now_nanos >= deadline_nanos && error@ == timeout_fault(
                    "doubao.websocket_connect_timeout"@,
                    "Doubao WebSocket TCP connection timed out"@,
                )
            },
        },
{
    if is_cancelled {
        return Err(cancelled());
    }
    if now_nanos >= deadline_nanos {
        return Err(
            timeout(
                "doubao.websocket_connect_timeout",
                "Doubao WebSocket TCP connection timed out",
            ),
        );
    }
    let remaining: u64 = deadline_nanos - now_nanos;
    if remaining < TCP_CONNECT_SLICE_NANOS {
        Ok(remaining)
    } else {
        Ok(TCP_CONNECT_SLICE_NANOS)
    }
}

/// A place to connect to, and until when to try.
#[derive(Debug, Eq, PartialEq)]
pub struct ConnectPlan {
    pub host: String,
    pub port: u16,
    pub deadline_nanos: u64,
}

/// The end of a time that begins now.
pub open spec fn deadline_after(now_nanos: u64, timeout_nanos: u64) -> u64 {
    if now_nanos + timeout_nanos > u64::MAX {
        u64::MAX
    } else {
        (now_nanos + timeout_nanos) as u64
    }
}

/// Decides what a valid handshake connects to, from the parts that its address was read into.
pub fn plan_connection(
    spec: &WebSocketSpec,
    parts: UriParts,
    now_nanos: u64,
    is_cancelled: bool,
) -> (r: Result<ConnectPlan, WebSocketTransportError>)
    ensures
        match r {
            Ok(plan) => {
                &&& !is_cancelled
                &&& parts@.host == Some(plan.host@)
                &&& plan.port == port_of(parts@)
                &&& plan.deadline_nanos == deadline_after(now_nanos, spec.connect_timeout_nanos)
            },
            Err(error) => if is_cancelled {
                error@ == cancelled_fault()
            } else {
                parts@.host is None && error@ == configuration_fault(
                    "doubao.websocket_missing_host"@,
                    "Doubao WebSocket endpoint has no host"@,
                )
            },
        },
{
    if is_cancelled {
        return Err(cancelled());
    }
    let deadline_nanos: u64 = now_nanos.saturating_add(spec.connect_timeout_nanos);
    match connect_target(parts) {
        Ok((host, port)) => Ok(ConnectPlan { host, port, deadline_nanos }),
        Err(error) => Err(error),
    }
}

/// The attempts to reach one of the addresses of a host, in turn, round after round.
#[derive(Debug)]
pub struct TcpAttempts {
    count: usize,
    next: usize,
    saw_timeout: bool,
}

/// Where the attempts stand.
pub struct AttemptsModel {
    /// How many addresses there are.
    pub count: nat,
    /// The address to be tried next; `count` at the end of a round.
    pub next: nat,
    /// Whether an attempt of this round timed out.
    pub saw_timeout: bool,
}

/// The attempts at the beginning of the next round, where a round is over.
pub open spec fn turned(attempts: AttemptsModel) -> AttemptsModel {
    if attempts.next == attempts.count {
        AttemptsModel { next: 0, saw_timeout: false, ..attempts }
    } else {
        attempts
    }
}

impl TcpAttempts {
    #[verifier::type_invariant]
    spec fn within_round(self) -> bool {
        0 < self.count && self.next <= self.count
    }

    pub closed spec fn view(&self) -> AttemptsModel {
        AttemptsModel {
            count: self.count as nat,
            next: self.next as nat,
            saw_timeout: self.saw_timeout,
        }
    }

    /// Begins with the addresses that a host was resolved to: how many there are, or nothing
    /// where it could not be resolved.
    pub fn new(resolved: Option<usize>) -> (r: Result<Self, WebSocketTransportError>)
        ensures
            match r {
                Ok(attempts) => {
                    &&& resolved is Some && resolved->0 > 0
                    &&& attempts@ == (AttemptsModel {
                        count: resolved->0 as nat,
                        next: 0,
                        saw_timeout: false,
                    })
                },
                Err(error) => if resolved is None {
                    error@ == transport_fault(
                        ErrorCategory::Unavailable,
                        true,
                        "doubao.websocket_dns_failed"@,
                        "Could not resolve the Doubao WebSocket host"@,
                    )
                } else {
                    resolved->0 == 0 && error@ == transport_fault(
                        ErrorCategory::Unavailable,
                        true,
                        "doubao.websocket_dns_empty"@,
                        "Doubao WebSocket host resolved to no addresses"@,
                    )
                },
            },
    {
        match resolved {
            None => Err(
                WebSocketTransportError::new(
                    ErrorCategory::Unavailable,
                    true,
                    "doubao.websocket_dns_failed",
                    "Could not resolve the Doubao WebSocket host",
                ),
            ),
            Some(count) => if count == 0 {
                Err(
                    WebSocketTransportError::new(
                        ErrorCategory::Unavailable,
                        true,
                        "doubao.websocket_dns_empty",
                        "Doubao WebSocket host resolved to no addresses",
                    ),
                )
            } else {
                Ok(TcpAttempts { count, next: 0, saw_timeout: false })
            },
        }
    }

    /// The address to try next and how long the attempt may take. A new round begins only if an
    /// attempt of the last one timed out.
    pub fn next_attempt(&mut self, now_nanos: u64, deadline_nanos: u64, is_cancelled: bool) -> (r:
        Result<(usize, u64), WebSocketTransportError>)
        ensures
            ({
                let turned = turned(old(self)@);
                if old(self)@.next == old(self)@.count && !old(self)@.saw_timeout {
                    &&& r matches Err(error)
                    &&& error@ == connection_fault(
                        "doubao.websocket_connect_failed"@,
                        "Could not connect to the Doubao WebSocket service"@,
                    )
                    &&& final(self)@ == old(self)@
                } else if is_cancelled {
                    &&& r matches Err(error)
                    &&& error@ == cancelled_fault()
                    &&& final(self)@ == turned
                } else if now_nanos >= deadline_nanos {
                    &&& r matches Err(error)
                    &&& error@ == timeout_fault(
                        "doubao.websocket_connect_timeout"@,
                        "Doubao WebSocket TCP connection timed out"@,
                    )
                    &&& final(self)@ == turned
                } else {
                    &&& r is Ok
                    &&& r->Ok_0.0 == turned.next
                    &&& r->Ok_0.0 < turned.count
                    &&& r->Ok_0.1 == attempt_time(now_nanos, deadline_nanos)
                    &&& final(self)@ == (AttemptsModel { next: turned.next + 1, ..turned })
                }
            }),
    {
        proof {
            use_type_invariant(&*self);
        }
        if self.next == self.count {
            if !self.saw_timeout {
                return Err(
                    connection_error(
                        "doubao.websocket_connect_failed",
                        "Could not connect to the Doubao WebSocket service",
                    ),
                );
            }
            self.next = 0;
            self.saw_timeout = false;
        }
        match connect_slice(now_nanos, deadline_nanos, is_cancelled) {
            Ok(slice) => {
                let address: usize = self.next;
                self.next = address + 1;
                Ok((address, slice))
            },
            Err(error) => Err(error),
        }
    }

    /// Takes note of an attempt that failed.
    pub fn attempt_failed(&mut self, timed_out: bool)
        ensures
            final(self)@ == (AttemptsModel {
                saw_timeout: old(self)@.saw_timeout || timed_out,
                ..old(self)@
            }),
    {
        proof {
            use_type_invariant(&*self);
        }
        self.saw_timeout = self.saw_timeout || timed_out;
    }
}

/// Whether the handshake may go on.
pub fn handshake_step(now_nanos: u64, deadline_nanos: u64, is_cancelled: bool) -> (r: Result<
    (),
    WebSocketTransportError,
>)
    ensures
        match r {
            Ok(_) => !is_cancelled && now_nanos < deadline_nanos,
            Err(error) => if is_cancelled {
                error@ == cancelled_fault()
            } else {
                now_nanos >= deadline_nanos && error@ == timeout_fault(
                    "doubao.websocket_handshake_timeout"@,
                    "Doubao WebSocket handshake timed out"@,
                )
            },
        },
{
    if is_cancelled {
        return Err(cancelled());
    }
    if now_nanos >= deadline_nanos {
        return Err(
            timeout(
                "doubao.websocket_handshake_timeout",
                "Doubao WebSocket handshake timed out",
            ),
        );
    }
    Ok(())
}

/// How a handshake failed.
#[derive(Clone, Copy, Debug, Eq, PartialEq, Structural)]
pub enum HandshakeFault {
    /// The server answered with this HTTP status.
    Http(u16),
    Tls,
    Io,
    Other,
}

/// What a failed handshake means.
pub open spec fn handshake_meaning(fault: HandshakeFault) -> TransportModel {
    match fault {
        HandshakeFault::Http(status) => if status == 401 || status == 403 {
            transport_fault(
                ErrorCategory::Authentication,
                false,
                "doubao.websocket_auth_rejected"@,
                "Doubao rejected the WebSocket handshake credentials"@,
            )
        } else if status == 429 {
            transport_fault(
                ErrorCategory::RateLimited,
                true,
                "doubao.websocket_rate_limited"@,
                "Doubao rate limited the WebSocket handshake"@,
            )
        } else {
            transport_fault(
                ErrorCategory::Protocol,
                false,
                "doubao.websocket_handshake_rejected"@,
                "Doubao rejected the WebSocket handshake"@,
            )
        },
        HandshakeFault::Tls => transport_fault(
            ErrorCategory::Connection,
            false,
            "doubao.websocket_tls_failed"@,
            "Doubao WebSocket TLS validation failed"@,
        ),
        HandshakeFault::Io => connection_fault(
            "doubao.websocket_handshake_io_failed"@,
            "Doubao WebSocket handshake I/O failed"@,
        ),
        HandshakeFault::Other => transport_fault(
            ErrorCategory::Protocol,
            false,
            "doubao.websocket_handshake_failed"@,
            "Doubao WebSocket handshake failed"@,
        ),
    }
}

pub fn map_handshake_error(fault: HandshakeFault) -> (error: WebSocketTransportError)
    ensures
        error@ == handshake_meaning(fault),
{
    match fault {
        HandshakeFault::Http(status) => if status == 401 || status == 403 {
            WebSocketTransportError::new(
                ErrorCategory::Authentication,
                false,
                "doubao.websocket_auth_rejected",
                "Doubao rejected the WebSocket handshake credentials",
            )
        } else if status == 429 {
            WebSocketTransportError::new(
                ErrorCategory::RateLimited,
                true,
                "doubao.websocket_rate_limited",
                "Doubao rate limited the WebSocket handshake",
            )
        } else {
            WebSocketTransportError::new(
                ErrorCategory::Protocol,
                false,
                "doubao.websocket_handshake_rejected",
                "Doubao rejected the WebSocket handshake",
            )
        },
        HandshakeFault::Tls => WebSocketTransportError::new(
            ErrorCategory::Connection,
            false,
            "doubao.websocket_tls_failed",
            "Doubao WebSocket TLS validation failed",
        ),
        HandshakeFault::Io => connection_error(
            "doubao.websocket_handshake_io_failed",
            "Doubao WebSocket handshake I/O failed",
        ),
        HandshakeFault::Other => WebSocketTransportError::new(
            ErrorCategory::Protocol,
            false,
            "doubao.websocket_handshake_failed",
            "Doubao WebSocket handshake failed",
        ),
    }
}

/// What a handshake that failed is reported as: a cancelled one as cancelled.
pub fn handshake_failure(fault: HandshakeFault, is_cancelled: bool) -> (error:
    WebSocketTransportError)
    ensures
        error@ == (if is_cancelled {
            cancelled_fault()
        } else {
            handshake_meaning(fault)
        }),
{
    if is_cancelled {
        cancelled()
    } else {
        map_handshake_error(fault)
    }
}

/// How an open connection failed.
#[derive(Clone, Copy, Debug, Eq, PartialEq, Structural)]
pub enum SocketFault {
    Tls,
    /// The peer broke a limit or a rule of the protocol.
    Protocol,
    Other,
}

/// What a failure of an open connection means; `default_code` says what was being done.
pub open spec fn socket_meaning(fault: SocketFault, default_code: Seq<char>) -> TransportModel {
    match fault {
        SocketFault::Tls => transport_fault(
            ErrorCategory::Connection,
            false,
            "doubao.websocket_tls_failed"@,
            "Doubao WebSocket TLS connection failed"@,
        ),
        SocketFault::Protocol => transport_fault(
            ErrorCategory::Protocol,
            false,
            "doubao.websocket_protocol_failed"@,
            "Doubao WebSocket protocol validation failed"@,
        ),
        SocketFault::Other => connection_fault(
            default_code,
            "Doubao WebSocket connection failed"@,
        ),
    }
}

pub fn map_socket_error(fault: SocketFault, default_code: &'static str) -> (error:
    WebSocketTransportError)
    ensures
        error@ == socket_meaning(fault, default_code@),
{
    match fault {
        SocketFault::Tls => WebSocketTransportError::new(
            ErrorCategory::Connection,
            false,
            "doubao.websocket_tls_failed",
            "Doubao WebSocket TLS connection failed",
        ),
        SocketFault::Protocol => WebSocketTransportError::new(
            ErrorCategory::Protocol,
            false,
            "doubao.websocket_protocol_failed",
            "Doubao WebSocket protocol validation failed",
        ),
        SocketFault::Other => connection_error(
            default_code,
            "Doubao WebSocket connection failed",
        ),
    }
}

/// How the socket took a message for writing.
#[derive(Debug, Eq, PartialEq)]
pub enum WriteOutcome {
    Written,
    /// The write buffer is full, and the binary message came back.
    Full(Vec<u8>),
    /// The write buffer is full, and something else came back.
    Unexpected,
    Fault(SocketFault),
}

/// The result of queueing a binary message.
pub fn queue_result(outcome: WriteOutcome) -> (r: Result<
    QueueBinaryResult,
    WebSocketTransportError,
>)
    ensures
        match outcome {
            WriteOutcome::Written => r matches Ok(queued) && queued is Queued,
            WriteOutcome::Full(payload) => r matches Ok(QueueBinaryResult::Full(returned))
                && returned@ == payload@,
            WriteOutcome::Unexpected => r matches Err(error) && error@ == transport_fault(
                ErrorCategory::Internal,
                false,
                "doubao.websocket_buffer_state"@,
                "WebSocket returned an unexpected buffered message"@,
            ),
            WriteOutcome::Fault(fault) => r matches Err(error) && error@ == socket_meaning(
                fault,
                "doubao.websocket_write_failed"@,
            ),
        },
{
    match outcome {
        WriteOutcome::Written => Ok(QueueBinaryResult::Queued),
        WriteOutcome::Full(payload) => Ok(QueueBinaryResult::Full(payload)),
        WriteOutcome::Unexpected => Err(
            WebSocketTransportError::new(
                ErrorCategory::Internal,
                false,
                "doubao.websocket_buffer_state",
                "WebSocket returned an unexpected buffered message",
            ),
        ),
        WriteOutcome::Fault(fault) => Err(map_socket_error(fault, "doubao.websocket_write_failed")),
    }
}

/// What the socket had to be read.
#[derive(Debug, Eq, PartialEq)]
pub enum ReadOutcome {
    Binary(Vec<u8>),
    Ping(Vec<u8>),
    Pong,
    Close,
    /// A text message or a raw frame.
    NotBinary,
    WouldBlock,
    Closed,
    Fault(SocketFault),
}

/// The result of polling for one message.
pub fn poll_result(outcome: ReadOutcome) -> (r: Result<PollResult, WebSocketTransportError>)
    ensures
        match outcome {
            ReadOutcome::Binary(message) => r matches Ok(
                PollResult::Event(SocketEvent::Binary(bytes)),
            ) && bytes@ == message@,
            ReadOutcome::Ping(message) => r matches Ok(PollResult::Event(SocketEvent::Ping(bytes)))
                && bytes@ == message@,
            ReadOutcome::Pong => r matches Ok(PollResult::Event(SocketEvent::Pong)),
            ReadOutcome::Close => r matches Ok(PollResult::Event(SocketEvent::Close)),
            ReadOutcome::NotBinary => r matches Err(error) && error@ == transport_fault(
                ErrorCategory::Protocol,
                false,
                "doubao.websocket_nonbinary_message"@,
                "Doubao WebSocket returned an unsupported non-binary message"@,
            ),
            ReadOutcome::WouldBlock => r matches Ok(PollResult::Idle),
            ReadOutcome::Closed => r matches Ok(PollResult::Closed),
            ReadOutcome::Fault(fault) => r matches Err(error) && error@ == socket_meaning(
                fault,
                "doubao.websocket_read_failed"@,
            ),
        },
{
    match outcome {
        ReadOutcome::Binary(message) => Ok(PollResult::Event(SocketEvent::Binary(message))),
        ReadOutcome::Ping(message) => Ok(PollResult::Event(SocketEvent::Ping(message))),
        ReadOutcome::Pong => Ok(PollResult::Event(SocketEvent::Pong)),
        ReadOutcome::Close => Ok(PollResult::Event(SocketEvent::Close)),
        ReadOutcome::NotBinary => Err(
            WebSocketTransportError::new(
                ErrorCategory::Protocol,
                false,
                "doubao.websocket_nonbinary_message",
                "Doubao WebSocket returned an unsupported non-binary message",
            ),
        ),
        ReadOutcome::WouldBlock => Ok(PollResult::Idle),
        ReadOutcome::Closed => Ok(PollResult::Closed),
        ReadOutcome::Fault(fault) => Err(map_socket_error(fault, "doubao.websocket_read_failed")),
    }
}

/// An attempt never outlasts the deadline, and no attempt goes on unseen by a cancellation for
/// longer than a slice.
pub proof fn law_attempt_ends_in_time(now_nanos: u64, deadline_nanos: u64)
    requires
        now_nanos < deadline_nanos,
    ensures
        0 < attempt_time(now_nanos, deadline_nanos) <= TCP_CONNECT_SLICE_NANOS,
        now_nanos + attempt_time(now_nanos, deadline_nanos) <= deadline_nanos,
{
}

/// Only a secure address or one of this machine passes the check.
pub proof fn law_checked_endpoint_is_safe(spec: WebSocketSpec)
    requires
        spec_fault(spec) is None,
    ensures
        begins(spec.endpoint@, "wss://"@) || loopback_ws(spec.endpoint@),
        forall|i: int|
            0 <= i < spec.headers@.len() ==> !reserved_header((#[trigger] spec.headers@[i]).0@),
{
}

/// A handshake passes the check exactly where its address is a bounded text that is encrypted or of
/// this machine, its times lie in their ranges, and it has at most 32 headers, each proper.
pub proof fn law_good_handshake_passes(spec: WebSocketSpec)
    ensures
        spec_fault(spec) is None <==> {
            &&& bounded_text(spec.endpoint@, 16_384)
            &&& 100_000_000 <= spec.connect_timeout_nanos <= 60_000_000_000
            &&& 1_000_000 <= spec.poll_interval_nanos <= 100_000_000
            &&& begins(spec.endpoint@, "wss://"@) || loopback_ws(spec.endpoint@)
            &&& spec.headers@.len() <= 32
            &&& forall|i: int|
                0 <= i < spec.headers@.len() ==> proper_header(#[trigger] spec.headers@[i])
        },
        spec_fault(spec) is Some ==> spec_fault(spec)->0.category == ErrorCategory::Configuration
            && !spec_fault(spec)->0.retryable,
{
}

/// A header that a caller may add has a name of 1 to 64 letters, digits and hyphens that the handshake
/// does not set itself, in whatever case, and a value of 1 to 1024 bytes without control characters.
pub proof fn law_headers_of_the_handshake_are_its_own(header: (String, String), i: int)
    requires
        proper_header(header),
        0 <= i < header.0@.len(),
    ensures
        header.0@.len() <= 64,
        'a' <= header.0@[i] <= 'z' || 'A' <= header.0@[i] <= 'Z' || '0' <= header.0@[i] <= '9'
            || header.0@[i] == '-',
        lowered(header.0@) != "host"@ && lowered(header.0@) != "connection"@ && lowered(header.0@)
            != "upgrade"@ && lowered(header.0@) != "sec-websocket-key"@ && lowered(header.0@)
            != "sec-websocket-version"@ && lowered(header.0@) != "sec-websocket-protocol"@
            && lowered(header.0@) != "sec-websocket-extensions"@ && lowered(header.0@)
            != "sec-websocket-accept"@,
        0 < vstd::utf8::encode_utf8(header.1@).len() <= 1_024,
{
    assert(header_char(header.0@[i]));
}

/// A failed handshake is worth another try exactly where the provider is too busy or the connection
/// failed; a refused key is told as one of authentication.
pub proof fn law_handshakes_worth_another_try(fault: HandshakeFault)
    ensures
        handshake_meaning(fault).retryable <==> (fault matches HandshakeFault::Http(status)
            && status == 429) || fault is Io,
        handshake_meaning(fault).category == ErrorCategory::Authentication <==> (fault matches
            HandshakeFault::Http(status) && (status == 401 || status == 403)),
        handshake_meaning(fault).category == ErrorCategory::RateLimited <==> (fault matches
            HandshakeFault::Http(status) && status == 429),
        fault is Tls || fault is Io ==> handshake_meaning(fault).category
            == ErrorCategory::Connection,
{
}

/// A failure of an open connection is worth another try unless it is one of encryption or of the
/// protocol, and then it is told by what was being done.
pub proof fn law_failures_worth_another_try(fault: SocketFault, doing: Seq<char>)
    ensures
        socket_meaning(fault, doing).retryable <==> fault is Other,
        fault is Other ==> socket_meaning(fault, doing).code == doing
            && socket_meaning(fault, doing).category == ErrorCategory::Connection,
        fault is Protocol ==> socket_meaning(fault, doing).category == ErrorCategory::Protocol,
        fault is Tls ==> socket_meaning(fault, doing).category == ErrorCategory::Connection,
{
}

/// An address without a port goes to that of its scheme.
pub proof fn law_schemes_have_their_port(parts: UriModel, port: u16)
    ensures
        parts.port == Some(port) ==> port_of(parts) == port,
        parts.port is None && parts.scheme == Some("wss"@) ==> port_of(parts) == 443,
        parts.port is None && parts.scheme != Some("wss"@) ==> port_of(parts) == 80,
{
}

/// An attempt gets what is left, and no more than a tenth of a second at a time.
pub proof fn law_attempts_are_cut_into_slices(now_nanos: u64, deadline_nanos: u64)
    requires
        now_nanos <= deadline_nanos,
    ensures
        deadline_nanos - now_nanos >= 100_000_000 ==> attempt_time(now_nanos, deadline_nanos)
            == 100_000_000,
        deadline_nanos - now_nanos <= 100_000_000 ==> attempt_time(now_nanos, deadline_nanos)
            == deadline_nanos - now_nanos,
{
}

/// A time that begins now ends after it has run, as far as the clock goes.
pub proof fn law_time_ends_after_it_has_run(now_nanos: u64, timeout_nanos: u64)
    ensures
        now_nanos + timeout_nanos <= u64::MAX ==> deadline_after(now_nanos, timeout_nanos)
            == now_nanos + timeout_nanos,
        now_nanos + timeout_nanos > u64::MAX ==> deadline_after(now_nanos, timeout_nanos)
            == u64::MAX,
{
}

/// A plain address of this machine passes with a port, a path or a query behind it, in whatever case
/// its host is written.
pub proof fn law_plain_address_of_this_machine(host: Seq<char>, path: Seq<char>)
    requires
        lowered(host) == "localhost"@ || host == "127.0.0.1"@ || host == "[::1]"@,
        path.len() == 0 || path[0] == '/',
    ensures
        loopback_ws("ws://"@ + host + path),
{
    reveal_strlit("ws://");
    reveal_strlit("localhost");
    reveal_strlit("127.0.0.1");
    reveal_strlit("[::1]");
    let whole = "ws://"@ + host + path;
    assert(whole.subrange(0, 5) =~= "ws://"@);
    let rest = whole.skip(5);
    assert(rest =~= host + path);
    assert(lowered(host).len() == host.len());
    assert forall|i: int| 0 <= i < host.len() implies #[trigger] host[i] != '/' && host[i]
        != '?' by {
        if lowered(host) == "localhost"@ {
            assert(lowered(host)[i] == crate::text::lower_ascii(host[i]));
            assert("localhost"@[i] != '/' && "localhost"@[i] != '?');
        }
    }
    assert forall|i: int| 0 <= i < host.len() implies #[trigger] rest[i] != '/' by {
        assert(rest[i] == host[i]);
    }
    crate::text::law_before_first_at(rest, '/', host.len() as int);
    assert(rest.take(host.len() as int) =~= host);
    crate::text::law_before_first_at(host, '?', host.len() as int);
    assert(host.take(host.len() as int) =~= host);
    assert(authority_of(rest) == host);
    if host == "127.0.0.1"@ || host == "[::1]"@ {
        assert(lowered(host) =~= host);
    }
}

} // verus!
