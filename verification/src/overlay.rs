//! What the overlay window may be told to show.

use crate::text::{owned, parse_number, parsed_number};
use vstd::prelude::*;
use vstd::string::*;

verus! {

pub const MAX_REQUEST_BYTES: u64 = 4_096;

/// The longest that a request may ask to be shown.
pub const MAX_TIMEOUT_MILLIS: u32 = 60_000;

/// A request to show something.
#[derive(Debug)]
pub struct OverlayRequest {
    pub state: String,
    pub title: String,
    pub body: String,
    pub timeout_ms: u32,
    pub rms: Option<u16>,
    pub adaptive_threshold: Option<u16>,
    pub speech_active: bool,
    pub clipping_percent: u8,
}

/// What the overlay window shows.
#[derive(Debug)]
pub struct OverlayState {
    pub state: String,
    pub title: String,
    pub body: String,
    pub timeout_ms: u32,
    pub visible: bool,
    pub updated_ms: u64,
    pub rms: Option<u16>,
    pub adaptive_threshold: Option<u16>,
    pub speech_active: bool,
    pub clipping_percent: u8,
}

/// The fields of a request are short enough.
pub open spec fn fits(request: OverlayRequest) -> bool {
    &&& request.state@.len() <= 32
    &&& request.title@.len() <= 80
    &&& request.body@.len() <= 240
}

pub fn validate_request(request: &OverlayRequest) -> (r: Result<(), &'static str>)
    ensures
        match r {
            Ok(_) => fits(*request),
            Err(message) => !fits(*request) && message@ == "overlay field is too long"@,
        },
{
    if request.state.as_str().unicode_len() > 32 || request.title.as_str().unicode_len() > 80
        || request.body.as_str().unicode_len() > 240 {
        return Err("overlay field is too long");
    }
    Ok(())
}

/// Whether a request of so many bytes is taken.
pub fn check_size(bytes: u64) -> (r: Result<(), &'static str>)
    ensures
        match r {
            Ok(_) => bytes <= MAX_REQUEST_BYTES,
            Err(message) => bytes > MAX_REQUEST_BYTES && message@
                == "overlay request is too large"@,
        },
{
    if bytes > MAX_REQUEST_BYTES {
        return Err("overlay request is too large");
    }
    Ok(())
}

/// The window shows what was asked for, for a minute at most.
pub open spec fn shows(state: OverlayState, request: OverlayRequest, now_millis: u64) -> bool {
    &&& state.state@ == request.state@
    &&& state.title@ == request.title@
    &&& state.body@ == request.body@
    &&& state.timeout_ms == (if request.timeout_ms < MAX_TIMEOUT_MILLIS {
        request.timeout_ms
    } else {
        MAX_TIMEOUT_MILLIS
    })
    &&& state.visible
    &&& state.updated_ms == now_millis
    &&& state.rms == request.rms
    &&& state.adaptive_threshold == request.adaptive_threshold
    &&& state.speech_active == request.speech_active
    &&& state.clipping_percent == (if request.clipping_percent < 100 {
        request.clipping_percent
    } else {
        100
    })
}

/// What the window is to show for a request.
pub fn show(request: &OverlayRequest, now_millis: u64) -> (r: Result<OverlayState, &'static str>)
    ensures
        match r {
            Ok(state) => fits(*request) && shows(state, *request, now_millis),
            Err(message) => !fits(*request) && message@ == "overlay field is too long"@,
        },
{
    match validate_request(request) {
        Ok(_) => {},
        Err(message) => {
            return Err(message);
        },
    }
    Ok(
        OverlayState {
            state: request.state.clone(),
            title: request.title.clone(),
            body: request.body.clone(),
            timeout_ms: if request.timeout_ms < MAX_TIMEOUT_MILLIS {
                request.timeout_ms
            } else {
                MAX_TIMEOUT_MILLIS
            },
            visible: true,
            updated_ms: now_millis,
            rms: request.rms,
            adaptive_threshold: request.adaptive_threshold,
            speech_active: request.speech_active,
            clipping_percent: if request.clipping_percent < 100 {
                request.clipping_percent
            } else {
                100
            },
        },
    )
}

/// What a hidden window shows.
pub fn hidden_state(now_millis: u64) -> (state: OverlayState)
    ensures
        state.state@ == "idle"@,
        state.title@ == "VoxType"@,
        state.body@.len() == 0,
        state.timeout_ms == 0,
        !state.visible,
        state.updated_ms == now_millis,
        state.rms is None,
        state.adaptive_threshold is None,
        !state.speech_active,
        state.clipping_percent == 0,
{
    OverlayState {
        state: owned("idle"),
        title: owned("VoxType"),
        body: String::new(),
        timeout_ms: 0,
        visible: false,
        updated_ms: now_millis,
        rms: None,
        adaptive_threshold: None,
        speech_active: false,
        clipping_percent: 0,
    }
}

/// A request from the words of a command line; nothing where the time is not a number.
pub fn legacy_request(
    state: String,
    title: Option<String>,
    body: Option<String>,
    timeout: Option<&str>,
) -> (r: Option<OverlayRequest>)
    ensures
        ({
            let millis = match timeout {
                Some(text) => parsed_number(text@, u32::MAX as nat),
                None => Some(2_000),
            };
            match r {
                Some(request) => {
                    &&& millis == Some(request.timeout_ms as nat)
                    &&& request.state@ == state@
                    &&& request.title@ == (match title {
                        Some(title) => title@,
                        None => "VoxType"@,
                    })
                    &&& request.body@ == (match body {
                        Some(body) => body@,
                        None => Seq::empty(),
                    })
                    &&& request.rms is None
                    &&& request.adaptive_threshold is None
                    &&& !request.speech_active
                    &&& request.clipping_percent == 0
                },
                None => millis is None,
            }
        }),
{
    let timeout_ms: u32 = match timeout {
        Some(text) => match parse_number(text, u32::MAX as u64) {
            Some(millis) => millis as u32,
            None => {
                return None;
            },
        },
        None => 2_000,
    };
    Some(
        OverlayRequest {
            state,
            title: match title {
                Some(title) => title,
                None => owned("VoxType"),
            },
            body: match body {
                Some(body) => body,
                None => String::new(),
            },
            timeout_ms,
            rms: None,
            adaptive_threshold: None,
            speech_active: false,
            clipping_percent: 0,
        },
    )
}

/// Some bytes hold others, one after the other.
pub open spec fn holds_bytes(bytes: Seq<u8>, part: Seq<u8>) -> bool {
    exists|at: int|
        0 <= at <= bytes.len() - part.len() && #[trigger] bytes.subrange(at, at + part.len())
            == part
}

pub fn contains_bytes(bytes: &[u8], part: &[u8]) -> (r: bool)
    ensures
        r == holds_bytes(bytes@, part@),
{
    let total: usize = bytes.len();
    if total < part.len() {
        return false;
    }
    let last: usize = total - part.len();
    let mut at: usize = 0;
    while at <= last
        invariant
            total == bytes@.len(),
            last == total - part@.len(),
            at <= last + 1,
            forall|k: int|
                0 <= k < at ==> #[trigger] bytes@.subrange(k, k + part@.len()) != part@,
        decreases last + 1 - at,
    {
        let window = vstd::slice::slice_subrange(bytes, at, at + part.len());
        if crate::text::same_bytes(window, part) {
            assert(bytes@.subrange(at as int, at + part@.len()) == part@);
            return true;
        }
        if at == last {
            return false;
        }
        at += 1;
    }
    false
}

/// Whether a command line is that of the overlay window.
pub fn is_overlay_command(command_line: &[u8]) -> (r: bool)
    ensures
        r == (holds_bytes(command_line@, seq![113u8, 109, 108, 54]) && holds_bytes(
            command_line@,
            seq![79u8, 118, 101, 114, 108, 97, 121, 46, 113, 109, 108],
        )),
{
    let program: Vec<u8> = vec![113, 109, 108, 54];
    let window: Vec<u8> = vec![79, 118, 101, 114, 108, 97, 121, 46, 113, 109, 108];
    assert(program@ =~= seq![113u8, 109, 108, 54]);
    assert(window@ =~= seq![79u8, 118, 101, 114, 108, 97, 121, 46, 113, 109, 108]);
    contains_bytes(command_line, &program) && contains_bytes(command_line, &window)
}

/// The window shows what it was asked to show, for no longer than a minute, and never a share above a
/// hundred percent.
pub proof fn law_window_shows_what_was_asked(
    state: OverlayState,
    request: OverlayRequest,
    now_millis: u64,
)
    requires
        shows(state, request, now_millis),
    ensures
        state.visible,
        state.title@ == request.title@ && state.body@ == request.body@ && state.state@
            == request.state@,
        state.timeout_ms <= 60_000 && state.timeout_ms <= request.timeout_ms,
        request.timeout_ms <= 60_000 ==> state.timeout_ms == request.timeout_ms,
        state.clipping_percent <= 100,
        request.clipping_percent <= 100 ==> state.clipping_percent == request.clipping_percent,
        state.updated_ms == now_millis,
        state.rms == request.rms && state.speech_active == request.speech_active,
{
}

} // verus!
