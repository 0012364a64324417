//! One bounded HTTP request through curl: what curl is told, and what its end means.

use crate::error::{ErrorCategory, VoxError};
use crate::provider::{AudioAcceptance, ProviderAttemptFailure};
use crate::text::{
    before_first, begins, decimal, decode_lossy, find_char, first_chars, has_char, join2, join3,
    lossy_text, owned, parse_number, parsed_number, pieces, same_text, split, starts_with,
    strip_prefix, take_chars, text_before_first, texts, to_chars, trim, trimmed, write_number,
};
use vstd::prelude::*;
use vstd::slice::slice_subrange;
use vstd::string::*;

verus! {

/// Maximum provider response retained in memory.
///
/// Transcript JSON is normally only a few kilobytes. A one MiB ceiling leaves ample room for
/// metadata while preventing a broken endpoint from growing the daemon without bound.
pub const DEFAULT_MAX_RESPONSE_BYTES: usize = 1_048_576;

/// Maximum of curl's own diagnostics retained in memory.
pub const MAX_STDERR_BYTES: usize = 16_384;

/// Successful output from one non-redirecting curl request.
#[derive(Debug, Eq, PartialEq)]
pub struct CurlResponse {
    pub http_status: u16,
    pub body: Vec<u8>,
}

/// A normalized curl or HTTP failure that can be mapped to a provider-specific stable error code
/// without losing routing semantics.
#[derive(Debug, Eq, PartialEq)]
pub struct CurlFailure {
    category: ErrorCategory,
    retryable: bool,
    message: String,
    http_status: Option<u16>,
    curl_exit_code: Option<i32>,
    transport_started: bool,
    audio_acceptance: AudioAcceptance,
}

/// What a failure says.
pub struct FailureModel {
    pub category: ErrorCategory,
    pub retryable: bool,
    pub message: Seq<char>,
    pub http_status: Option<u16>,
    pub curl_exit_code: Option<i32>,
    pub transport_started: bool,
    pub audio_acceptance: AudioAcceptance,
}

/// A failure before the request went out.
pub open spec fn unsent(
    category: ErrorCategory,
    retryable: bool,
    message: Seq<char>,
    http_status: Option<u16>,
    curl_exit_code: Option<i32>,
) -> FailureModel {
    FailureModel {
        category,
        retryable,
        message,
        http_status,
        curl_exit_code,
        transport_started: false,
        audio_acceptance: AudioAcceptance::NotAccepted,
    }
}

/// The failure with what is known of the audio once curl has run.
pub open spec fn sent(failure: FailureModel, audio_acceptance: AudioAcceptance) -> FailureModel {
    FailureModel { transport_started: true, audio_acceptance, ..failure }
}

impl CurlFailure {
    pub closed spec fn view(&self) -> FailureModel {
        FailureModel {
            category: self.category,
            retryable: self.retryable,
            message: self.message@,
            http_status: self.http_status,
            curl_exit_code: self.curl_exit_code,
            transport_started: self.transport_started,
            audio_acceptance: self.audio_acceptance,
        }
    }

    pub fn category(&self) -> (r: ErrorCategory)
        ensures
            r == self@.category,
    {
        self.category
    }

    pub fn is_retryable(&self) -> (r: bool)
        ensures
            r == self@.retryable,
    {
        self.retryable
    }

    pub fn http_status(&self) -> (r: Option<u16>)
        ensures
            r == self@.http_status,
    {
        self.http_status
    }

    pub fn curl_exit_code(&self) -> (r: Option<i32>)
        ensures
            r == self@.curl_exit_code,
    {
        self.curl_exit_code
    }

    pub fn transport_started(&self) -> (r: bool)
        ensures
            r == self@.transport_started,
    {
        self.transport_started
    }

    pub fn audio_acceptance(&self) -> (r: AudioAcceptance)
        ensures
            r == self@.audio_acceptance,
    {
        self.audio_acceptance
    }

    /// Converts the transport failure into the application's stable error representation while
    /// preserving category and retryability.
    pub fn into_vox_error(self, code: &'static str) -> (error: VoxError)
        ensures
            error.says(self@.category, code@, self@.message, self@.retryable),
    {
        VoxError::new(self.category, code, self.message.as_str()).with_retryable(self.retryable)
    }

    /// Converts the transport failure while retaining replay and usage lifecycle evidence.
    pub fn into_attempt_failure(self, code: &'static str) -> (failure: ProviderAttemptFailure)
        ensures
            failure.error.says(self@.category, code@, self@.message, self@.retryable),
            failure.transport_started == self@.transport_started,
            failure.audio_acceptance == self@.audio_acceptance,
    {
        let transport_started = self.transport_started;
        let audio_acceptance = self.audio_acceptance;
        ProviderAttemptFailure {
            error: self.into_vox_error(code),
            transport_started,
            audio_acceptance,
        }
    }

    /// The failure as one of a request that curl had started.
    pub fn with_transport_evidence(self, audio_acceptance: AudioAcceptance) -> (failure: Self)
        ensures
            failure@ == sent(self@, audio_acceptance),
    {
        CurlFailure {
            category: self.category,
            retryable: self.retryable,
            message: self.message,
            http_status: self.http_status,
            curl_exit_code: self.curl_exit_code,
            transport_started: true,
            audio_acceptance,
        }
    }
}

/// A failure before the request went out.
pub fn failure(
    category: ErrorCategory,
    retryable: bool,
    message: &str,
    http_status: Option<u16>,
    curl_exit_code: Option<i32>,
) -> (r: CurlFailure)
    ensures
        r@ == unsent(category, retryable, message@, http_status, curl_exit_code),
{
    CurlFailure {
        category,
        retryable,
        message: String::from_str(message),
        http_status,
        curl_exit_code,
        transport_started: false,
        audio_acceptance: AudioAcceptance::NotAccepted,
    }
}

/// What a request fails with that was cancelled.
pub open spec fn cancelled() -> FailureModel {
    unsent(ErrorCategory::Cancelled, false, "provider request was cancelled"@, None, None)
}

pub fn cancelled_failure() -> (r: CurlFailure)
    ensures
        r@ == cancelled(),
{
    failure(ErrorCategory::Cancelled, false, "provider request was cancelled", None, None)
}

/// The arguments that every curl process gets before those of the provider.
pub open spec fn common_arguments(timeout_seconds: nat, max_response_bytes: nat) -> Seq<
    Seq<char>,
> {
    seq![
        "--disable"@,
        "--silent"@,
        "--show-error"@,
        "--fail-with-body"@,
        "--proto"@,
        "=http,https"@,
        "--max-redirs"@,
        "0"@,
        "--max-time"@,
        decimal(timeout_seconds),
        "--max-filesize"@,
        decimal(max_response_bytes),
        "--write-out"@,
        "%{stderr}\nVOXTYPE_HTTP_STATUS:%{http_code}\nVOXTYPE_UPLOAD_BYTES:%{size_upload}\n"@,
        "--config"@,
        "-"@,
    ]
}

/// The arguments that every curl process gets: no user configuration, which only the first
/// argument can suppress, no redirects, only HTTP, bounded time and size, and the private
/// configuration from standard input.
pub fn curl_arguments(timeout_seconds: u64, max_response_bytes: usize) -> (r: Vec<String>)
    ensures
        texts(r@) == common_arguments(timeout_seconds as nat, max_response_bytes as nat),
{
    let mut r: Vec<String> = Vec::new();
    r.push(owned("--disable"));
    r.push(owned("--silent"));
    r.push(owned("--show-error"));
    r.push(owned("--fail-with-body"));
    r.push(owned("--proto"));
    r.push(owned("=http,https"));
    r.push(owned("--max-redirs"));
    r.push(owned("0"));
    r.push(owned("--max-time"));
    r.push(write_number(timeout_seconds));
    r.push(owned("--max-filesize"));
    r.push(write_number(max_response_bytes as u64));
    r.push(owned("--write-out"));
    r.push(
        owned(
            "%{stderr}\nVOXTYPE_HTTP_STATUS:%{http_code}\nVOXTYPE_UPLOAD_BYTES:%{size_upload}\n",
        ),
    );
    r.push(owned("--config"));
    r.push(owned("-"));
    assert(texts(r@) =~= common_arguments(timeout_seconds as nat, max_response_bytes as nat));
    r
}

/// What was kept of a stream, and whether some of it was dropped.
#[derive(Debug, Eq, PartialEq)]
pub struct BoundedRead {
    pub bytes: Vec<u8>,
    pub overflowed: bool,
}

/// `read` holds the first `limit` bytes of the stream and says whether there were more.
pub open spec fn bounded_read(read: BoundedRead, stream: Seq<u8>, limit: nat) -> bool {
    &&& read.bytes@ == (if stream.len() <= limit {
        stream
    } else {
        stream.take(limit as int)
    })
    &&& read.overflowed == (stream.len() > limit)
}

impl BoundedRead {
    pub fn new() -> (read: Self)
        ensures
            forall|limit: nat| #[trigger] bounded_read(read, Seq::empty(), limit),
    {
        BoundedRead { bytes: Vec::new(), overflowed: false }
    }

    /// Takes in the next chunk of the stream and keeps of it what the limit leaves room for.
    ///
    /// Whatever the stream held before, the read holds the longer stream in the same way.
    pub fn retain(&mut self, chunk: &[u8], limit: usize)
        requires
            old(self).bytes@.len() <= limit,
        ensures
            forall|stream: Seq<u8>|
                bounded_read(*old(self), stream, limit as nat) ==> #[trigger] bounded_read(
                    *final(self),
                    stream + chunk@,
                    limit as nat,
                ),
            final(self).bytes@.len() <= limit,
    {
        let remaining: usize = limit - self.bytes.len();
        let retained: usize = if remaining < chunk.len() {
            remaining
        } else {
            chunk.len()
        };
        let ghost before = *self;
        self.bytes.extend_from_slice(slice_subrange(chunk, 0, retained));
        if retained < chunk.len() {
            self.overflowed = true;
        }
        proof {
            assert(self.bytes@ =~= before.bytes@ + chunk@.subrange(0, retained as int));
            assert forall|stream: Seq<u8>|
                bounded_read(before, stream, limit as nat) implies #[trigger] bounded_read(
                *self,
                stream + chunk@,
                limit as nat,
            ) by {
                let longer = stream + chunk@;
                let kept = if longer.len() <= limit {
                    longer
                } else {
                    longer.take(limit as int)
                };
                assert(self.bytes@ =~= kept);
            }
        }
    }
}

/// The HTTP status that a line of curl's diagnostics reports.
pub open spec fn line_status(line: Seq<char>) -> Option<nat> {
    let text = trimmed(line);
    let marker = "VOXTYPE_HTTP_STATUS:"@;
    if begins(text, marker) {
        match parsed_number(text.skip(marker.len() as int), 65_535) {
            Some(n) => if n != 0 {
                Some(n)
            } else {
                None
            },
            None => None,
        }
    } else {
        None
    }
}

/// The status of the last line that reports one.
pub open spec fn last_status(lines: Seq<Seq<char>>) -> Option<nat>
    decreases lines.len(),
{
    if lines.len() == 0 {
        None
    } else {
        match line_status(lines.last()) {
            Some(n) => Some(n),
            None => last_status(lines.drop_last()),
        }
    }
}

/// The upload size that a line of curl's diagnostics reports, without a fraction.
pub open spec fn line_upload(line: Seq<char>) -> Option<nat> {
    let text = trimmed(line);
    let marker = "VOXTYPE_UPLOAD_BYTES:"@;
    if begins(text, marker) {
        parsed_number(before_first(text.skip(marker.len() as int), '.'), u64::MAX as nat)
    } else {
        None
    }
}

/// The upload size of the last line that reports one.
pub open spec fn last_upload(lines: Seq<Seq<char>>) -> Option<nat>
    decreases lines.len(),
{
    if lines.len() == 0 {
        None
    } else {
        match line_upload(lines.last()) {
            Some(n) => Some(n),
            None => last_upload(lines.drop_last()),
        }
    }
}

/// A line that tells a person something.
pub open spec fn telling(line: Seq<char>) -> bool {
    let text = trimmed(line);
    &&& text.len() > 0
    &&& !begins(text, "VOXTYPE_HTTP_STATUS:"@)
    &&& !begins(text, "VOXTYPE_UPLOAD_BYTES:"@)
}

/// The first 300 characters of the first line from `i` on that tells something.
pub open spec fn first_telling(lines: Seq<Seq<char>>, i: int) -> Option<Seq<char>>
    decreases lines.len() - i,
{
    if i < 0 || i >= lines.len() {
        None
    } else if telling(lines[i]) {
        Some(first_chars(trimmed(lines[i]), 300))
    } else {
        first_telling(lines, i + 1)
    }
}

fn status_of_line(line: &str) -> (r: Option<u16>)
    ensures
        match r {
            Some(n) => line_status(line@) == Some(n as nat),
            None => line_status(line@) is None,
        },
{
    match strip_prefix(trim(line), "VOXTYPE_HTTP_STATUS:") {
        None => None,
        Some(digits) => match parse_number(digits, 65_535) {
            Some(n) => if n != 0 {
                Some(n as u16)
            } else {
                None
            },
            None => None,
        },
    }
}

fn upload_of_line(line: &str) -> (r: Option<u64>)
    ensures
        match r {
            Some(n) => line_upload(line@) == Some(n as nat),
            None => line_upload(line@) is None,
        },
{
    match strip_prefix(trim(line), "VOXTYPE_UPLOAD_BYTES:") {
        None => None,
        Some(value) => parse_number(text_before_first(value, '.'), u64::MAX),
    }
}

/// The HTTP status that curl's diagnostics report.
pub fn status_in(diagnostics: &str) -> (r: Option<u16>)
    ensures
        match r {
            Some(n) => last_status(pieces(diagnostics@, '\n')) == Some(n as nat),
            None => last_status(pieces(diagnostics@, '\n')) is None,
        },
{
    let lines = split(diagnostics, '\n');
    let ghost all = texts(lines@);
    let mut n: usize = lines.len();
    assert(all.take(n as int) =~= all);
    while n > 0
        invariant
            all == texts(lines@),
            all == pieces(diagnostics@, '\n'),
            n <= lines@.len(),
            last_status(all) == last_status(all.take(n as int)),
        decreases n,
    {
        proof {
            assert(all.take(n as int).last() == lines@[n - 1]@);
            assert(all.take(n as int).drop_last() =~= all.take(n - 1));
        }
        match status_of_line(lines[n - 1].as_str()) {
            Some(status) => {
                return Some(status);
            },
            None => {},
        }
        n -= 1;
    }
    None
}

/// The number of bytes that curl's diagnostics report as uploaded.
pub fn upload_in(diagnostics: &str) -> (r: Option<u64>)
    ensures
        match r {
            Some(n) => last_upload(pieces(diagnostics@, '\n')) == Some(n as nat),
            None => last_upload(pieces(diagnostics@, '\n')) is None,
        },
{
    let lines = split(diagnostics, '\n');
    let ghost all = texts(lines@);
    let mut n: usize = lines.len();
    assert(all.take(n as int) =~= all);
    while n > 0
        invariant
            all == texts(lines@),
            all == pieces(diagnostics@, '\n'),
            n <= lines@.len(),
            last_upload(all) == last_upload(all.take(n as int)),
        decreases n,
    {
        proof {
            assert(all.take(n as int).last() == lines@[n - 1]@);
            assert(all.take(n as int).drop_last() =~= all.take(n - 1));
        }
        match upload_of_line(lines[n - 1].as_str()) {
            Some(bytes) => {
                return Some(bytes);
            },
            None => {},
        }
        n -= 1;
    }
    None
}

/// What curl's diagnostics tell a person.
pub fn diagnostic_in(diagnostics: &str) -> (r: Option<String>)
    ensures
        match r {
            Some(text) => first_telling(pieces(diagnostics@, '\n'), 0) == Some(text@),
            None => first_telling(pieces(diagnostics@, '\n'), 0) is None,
        },
{
    let lines = split(diagnostics, '\n');
    let ghost all = texts(lines@);
    let mut i: usize = 0;
    while i < lines.len()
        invariant
            all == texts(lines@),
            all == pieces(diagnostics@, '\n'),
            i <= lines@.len(),
            first_telling(all, 0) == first_telling(all, i as int),
        decreases lines@.len() - i,
    {
        let line = trim(lines[i].as_str());
        assert(all[i as int] == lines@[i as int]@);
        if line.unicode_len() > 0 && !starts_with(line, "VOXTYPE_HTTP_STATUS:") && !starts_with(
            line,
            "VOXTYPE_UPLOAD_BYTES:",
        ) {
            return Some(take_chars(line, 300));
        }
        i += 1;
    }
    None
}

/// The HTTP status that curl reports on its standard error.
pub fn parse_http_status(stderr: &[u8]) -> (r: Option<u16>)
    ensures
        match r {
            Some(n) => last_status(pieces(lossy_text(stderr@), '\n')) == Some(n as nat),
            None => last_status(pieces(lossy_text(stderr@), '\n')) is None,
        },
{
    let diagnostics = decode_lossy(stderr);
    status_in(diagnostics.as_str())
}

/// The number of bytes that curl reports as uploaded on its standard error.
pub fn parse_upload_bytes(stderr: &[u8]) -> (r: Option<u64>)
    ensures
        match r {
            Some(n) => last_upload(pieces(lossy_text(stderr@), '\n')) == Some(n as nat),
            None => last_upload(pieces(lossy_text(stderr@), '\n')) is None,
        },
{
    let diagnostics = decode_lossy(stderr);
    upload_in(diagnostics.as_str())
}

/// What is known of the audio from the bytes that went out and from how curl ended.
pub open spec fn acceptance_of(
    uploaded_bytes: Option<u64>,
    curl_exit_code: Option<i32>,
    http_status: Option<u16>,
    was_cancelled: bool,
) -> AudioAcceptance {
    if uploaded_bytes is Some && uploaded_bytes->0 > 0 {
        if curl_exit_code == Some(0i32) && http_status is Some && !(300 <= http_status->0 < 400) {
            AudioAcceptance::Accepted
        } else {
            AudioAcceptance::PossiblyAccepted
        }
    } else if uploaded_bytes == Some(0u64) || (!was_cancelled && no_connection(curl_exit_code)) {
        AudioAcceptance::NotAccepted
    } else {
        AudioAcceptance::PossiblyAccepted
    }
}

/// curl ended before it had a connection that it trusts.
pub open spec fn no_connection(curl_exit_code: Option<i32>) -> bool {
    curl_exit_code is Some && (curl_exit_code->0 == 5 || curl_exit_code->0 == 6
        || curl_exit_code->0 == 7 || curl_exit_code->0 == 35 || curl_exit_code->0 == 60)
}

/// Classifies what is known of the audio, conservatively.
pub fn classify_audio_acceptance(
    uploaded_bytes: Option<u64>,
    curl_exit_code: Option<i32>,
    http_status: Option<u16>,
    was_cancelled: bool,
) -> (r: AudioAcceptance)
    ensures
        r == acceptance_of(uploaded_bytes, curl_exit_code, http_status, was_cancelled),
{
    match uploaded_bytes {
        Some(bytes) => if bytes > 0 {
            let ended_well = match curl_exit_code {
                Some(code) => code == 0,
                None => false,
            };
            let answered = match http_status {
                Some(status) => !(300 <= status && status < 400),
                None => false,
            };
            if ended_well && answered {
                AudioAcceptance::Accepted
            } else {
                AudioAcceptance::PossiblyAccepted
            }
        } else {
            AudioAcceptance::NotAccepted
        },
        None => {
            let unconnected = match curl_exit_code {
                Some(code) => code == 5 || code == 6 || code == 7 || code == 35 || code == 60,
                None => false,
            };
            if !was_cancelled && unconnected {
                AudioAcceptance::NotAccepted
            } else {
                AudioAcceptance::PossiblyAccepted
            }
        },
    }
}

/// What an HTTP status means.
pub open spec fn status_meaning(http_status: u16) -> (ErrorCategory, bool, Seq<char>) {
    if http_status == 401 || http_status == 403 || http_status == 407 {
        (ErrorCategory::Authentication, false, "provider rejected authentication"@)
    } else if http_status == 408 {
        (ErrorCategory::Timeout, true, "provider request timed out"@)
    } else if http_status == 429 {
        (ErrorCategory::RateLimited, true, "provider rate limit was reached"@)
    } else if 500 <= http_status <= 599 {
        (ErrorCategory::Unavailable, true, "provider service is unavailable"@)
    } else if 300 <= http_status <= 399 {
        (
            ErrorCategory::Protocol,
            false,
            "provider returned a redirect; redirects are disabled"@,
        )
    } else {
        (ErrorCategory::Protocol, false, "provider rejected the request"@)
    }
}

pub open spec fn or_else_text(text: Option<Seq<char>>, other: Seq<char>) -> Seq<char> {
    match text {
        Some(text) => text,
        None => other,
    }
}

pub open spec fn opt_text(text: Option<String>) -> Option<Seq<char>> {
    match text {
        Some(text) => Some(text@),
        None => None,
    }
}

/// The failure that an HTTP status stands for.
pub open spec fn http_failure(
    http_status: u16,
    curl_exit_code: Option<i32>,
    diagnostic: Option<Seq<char>>,
) -> FailureModel {
    let (category, retryable, text) = status_meaning(http_status);
    unsent(
        category,
        retryable,
        "HTTP "@ + decimal(http_status as nat) + ": "@ + or_else_text(diagnostic, text),
        Some(http_status),
        curl_exit_code,
    )
}

fn text_or<'a>(text: &'a Option<String>, other: &'a str) -> (r: &'a str)
    ensures
        r@ == or_else_text(opt_text(*text), other@),
{
    match text {
        Some(text) => text.as_str(),
        None => other,
    }
}

/// Classifies a response with a status that is not a success.
pub fn classify_http_failure(
    http_status: u16,
    curl_exit_code: Option<i32>,
    diagnostic: &Option<String>,
) -> (r: CurlFailure)
    ensures
        r@ == http_failure(http_status, curl_exit_code, opt_text(*diagnostic)),
{
    let (category, retryable, text) = if http_status == 401 || http_status == 403 || http_status
        == 407 {
        (ErrorCategory::Authentication, false, "provider rejected authentication")
    } else if http_status == 408 {
        (ErrorCategory::Timeout, true, "provider request timed out")
    } else if http_status == 429 {
        (ErrorCategory::RateLimited, true, "provider rate limit was reached")
    } else if 500 <= http_status && http_status <= 599 {
        (ErrorCategory::Unavailable, true, "provider service is unavailable")
    } else if 300 <= http_status && http_status <= 399 {
        (ErrorCategory::Protocol, false, "provider returned a redirect; redirects are disabled")
    } else {
        (ErrorCategory::Protocol, false, "provider rejected the request")
    };
    let number = write_number(http_status as u64);
    let mut message = join3("HTTP ", number.as_str(), ": ");
    message.append(text_or(diagnostic, text));
    failure(category, retryable, message.as_str(), Some(http_status), curl_exit_code)
}

/// What is said of a response over the limit.
pub open spec fn oversized_message(max_response_bytes: nat) -> Seq<char> {
    "provider response exceeded "@ + decimal(max_response_bytes) + " bytes"@
}

fn write_oversized(max_response_bytes: usize) -> (r: String)
    ensures
        r@ == oversized_message(max_response_bytes as nat),
{
    let number = write_number(max_response_bytes as u64);
    join3("provider response exceeded ", number.as_str(), " bytes")
}

/// curl ended for want of a connection, or lost it.
pub open spec fn connection_code(code: i32) -> bool {
    code == 5 || code == 6 || code == 7 || code == 35 || code == 52 || code == 55 || code == 56
}

/// The failure that an unsuccessful end of curl stands for.
pub open spec fn exit_failure(
    curl_exit_code: Option<i32>,
    http_status: Option<u16>,
    diagnostic: Option<Seq<char>>,
    max_response_bytes: nat,
) -> FailureModel {
    if curl_exit_code == Some(22i32) && http_status is Some {
        http_failure(http_status->0, curl_exit_code, diagnostic)
    } else if curl_exit_code == Some(28i32) {
        unsent(
            ErrorCategory::Timeout,
            true,
            or_else_text(diagnostic, "provider request timed out"@),
            http_status,
            curl_exit_code,
        )
    } else if curl_exit_code == Some(63i32) {
        unsent(
            ErrorCategory::Protocol,
            false,
            oversized_message(max_response_bytes),
            http_status,
            curl_exit_code,
        )
    } else if curl_exit_code is Some && connection_code(curl_exit_code->0) {
        unsent(
            ErrorCategory::Connection,
            true,
            or_else_text(diagnostic, "provider connection failed"@),
            http_status,
            curl_exit_code,
        )
    } else if curl_exit_code == Some(60i32) {
        unsent(
            ErrorCategory::Connection,
            false,
            or_else_text(diagnostic, "provider TLS certificate validation failed"@),
            http_status,
            curl_exit_code,
        )
    } else if http_status is Some && !(200 <= http_status->0 < 300) {
        http_failure(http_status->0, curl_exit_code, diagnostic)
    } else {
        unsent(
            ErrorCategory::Unavailable,
            true,
            or_else_text(diagnostic, "provider transport failed"@),
            http_status,
            curl_exit_code,
        )
    }
}

/// Classifies an unsuccessful end of curl.
pub fn classify_curl_failure(
    curl_exit_code: Option<i32>,
    http_status: Option<u16>,
    diagnostic: &Option<String>,
    max_response_bytes: usize,
) -> (r: CurlFailure)
    ensures
        r@ == exit_failure(
            curl_exit_code,
            http_status,
            opt_text(*diagnostic),
            max_response_bytes as nat,
        ),
{
    match curl_exit_code {
        Some(22) => match http_status {
            Some(status) => {
                return classify_http_failure(status, curl_exit_code, diagnostic);
            },
            None => {},
        },
        Some(28) => {
            return failure(
                ErrorCategory::Timeout,
                true,
                text_or(diagnostic, "provider request timed out"),
                http_status,
                curl_exit_code,
            );
        },
        Some(63) => {
            let message = write_oversized(max_response_bytes);
            return failure(
                ErrorCategory::Protocol,
                false,
                message.as_str(),
                http_status,
                curl_exit_code,
            );
        },
        Some(60) => {
            return failure(
                ErrorCategory::Connection,
                false,
                text_or(diagnostic, "provider TLS certificate validation failed"),
                http_status,
                curl_exit_code,
            );
        },
        Some(code) => if code == 5 || code == 6 || code == 7 || code == 35 || code == 52 || code
            == 55 || code == 56 {
            return failure(
                ErrorCategory::Connection,
                true,
                text_or(diagnostic, "provider connection failed"),
                http_status,
                curl_exit_code,
            );
        },
        None => {},
    }
    match http_status {
        Some(status) => if !(200 <= status && status < 300) {
            return classify_http_failure(status, curl_exit_code, diagnostic);
        },
        None => {},
    }
    failure(
        ErrorCategory::Unavailable,
        true,
        text_or(diagnostic, "provider transport failed"),
        http_status,
        curl_exit_code,
    )
}

/// How one run of curl ended.
#[derive(Debug, Eq, PartialEq)]
pub struct CurlExit {
    /// The exit code; none where a signal ended curl.
    pub exit_code: Option<i32>,
    /// The run was ended by cancellation.
    pub was_cancelled: bool,
    /// What curl wrote to its standard output.
    pub body: BoundedRead,
    /// Why the private configuration could not be handed over, if it could not.
    pub stdin_error: Option<String>,
}

/// What curl's diagnostics say.
pub struct Diagnosis {
    pub status: Option<nat>,
    pub uploaded: Option<nat>,
    pub telling: Option<Seq<char>>,
}

pub open spec fn diagnosis_of(diagnostics: Seq<char>) -> Diagnosis {
    let lines = pieces(diagnostics, '\n');
    Diagnosis {
        status: last_status(lines),
        uploaded: last_upload(lines),
        telling: first_telling(lines, 0),
    }
}

pub open spec fn as_status(status: Option<nat>) -> Option<u16> {
    match status {
        Some(n) => Some(n as u16),
        None => None,
    }
}

pub open spec fn as_count(count: Option<nat>) -> Option<u64> {
    match count {
        Some(n) => Some(n as u64),
        None => None,
    }
}

/// The failure that a run of curl ends in; none where it is a success.
pub open spec fn run_failure(
    exit: CurlExit,
    diagnosis: Diagnosis,
    max_response_bytes: nat,
) -> Option<FailureModel> {
    let status = as_status(diagnosis.status);
    let acceptance = acceptance_of(
        as_count(diagnosis.uploaded),
        exit.exit_code,
        status,
        exit.was_cancelled,
    );
    if exit.was_cancelled {
        Some(sent(cancelled(), acceptance))
    } else if exit.body.overflowed {
        Some(
            sent(
                unsent(
                    ErrorCategory::Protocol,
                    false,
                    oversized_message(max_response_bytes),
                    status,
                    exit.exit_code,
                ),
                acceptance,
            ),
        )
    } else if exit.stdin_error is Some {
        Some(
            sent(
                unsent(
                    ErrorCategory::Connection,
                    true,
                    "could not provide curl request credentials: "@ + exit.stdin_error->0@,
                    status,
                    exit.exit_code,
                ),
                acceptance,
            ),
        )
    } else if exit.exit_code != Some(0i32) {
        Some(
            sent(
                exit_failure(exit.exit_code, status, diagnosis.telling, max_response_bytes),
                acceptance,
            ),
        )
    } else if status is None {
        Some(
            sent(
                unsent(
                    ErrorCategory::Protocol,
                    false,
                    "curl completed without an HTTP status"@,
                    None,
                    exit.exit_code,
                ),
                acceptance,
            ),
        )
    } else if !(200 <= status->0 < 300) {
        Some(sent(http_failure(status->0, exit.exit_code, diagnosis.telling), acceptance))
    } else {
        None
    }
}

/// Concludes a run of curl from its end and from the text of its diagnostics.
pub fn conclude_run(exit: CurlExit, diagnostics: &str, max_response_bytes: usize) -> (r: Result<
    CurlResponse,
    CurlFailure,
>)
    ensures
        match r {
            Ok(response) => {
                &&& run_failure(exit, diagnosis_of(diagnostics@), max_response_bytes as nat) is None
                &&& response.body@ == exit.body.bytes@
                &&& Some(response.http_status) == as_status(diagnosis_of(diagnostics@).status)
            },
            Err(failure) => run_failure(
                exit,
                diagnosis_of(diagnostics@),
                max_response_bytes as nat,
            ) == Some(failure@),
        },
{
    let http_status = status_in(diagnostics);
    let uploaded = upload_in(diagnostics);
    let acceptance = classify_audio_acceptance(
        uploaded,
        exit.exit_code,
        http_status,
        exit.was_cancelled,
    );
    if exit.was_cancelled {
        return Err(cancelled_failure().with_transport_evidence(acceptance));
    }
    let diagnostic = diagnostic_in(diagnostics);
    if exit.body.overflowed {
        let message = write_oversized(max_response_bytes);
        return Err(
            failure(
                ErrorCategory::Protocol,
                false,
                message.as_str(),
                http_status,
                exit.exit_code,
            ).with_transport_evidence(acceptance),
        );
    }
    match &exit.stdin_error {
        Some(error) => {
            let message = join2("could not provide curl request credentials: ", error.as_str());
            return Err(
                failure(
                    ErrorCategory::Connection,
                    true,
                    message.as_str(),
                    http_status,
                    exit.exit_code,
                ).with_transport_evidence(acceptance),
            );
        },
        None => {},
    }
    let success = match exit.exit_code {
        Some(code) => code == 0,
        None => false,
    };
    if !success {
        return Err(
            classify_curl_failure(
                exit.exit_code,
                http_status,
                &diagnostic,
                max_response_bytes,
            ).with_transport_evidence(acceptance),
        );
    }
    match http_status {
        None => Err(
            failure(
                ErrorCategory::Protocol,
                false,
                "curl completed without an HTTP status",
                None,
                exit.exit_code,
            ).with_transport_evidence(acceptance),
        ),
        Some(status) => {
            if !(200 <= status && status < 300) {
                return Err(
                    classify_http_failure(
                        status,
                        exit.exit_code,
                        &diagnostic,
                    ).with_transport_evidence(acceptance),
                );
            }
            Ok(CurlResponse { http_status: status, body: exit.body.bytes })
        },
    }
}

/// Concludes a run of curl from its end and from what it wrote to its standard error.
pub fn finish_curl_attempt(exit: CurlExit, stderr: &[u8], max_response_bytes: usize) -> (r: Result<
    CurlResponse,
    CurlFailure,
>)
    ensures
        ({
            let diagnosis = diagnosis_of(lossy_text(stderr@));
            match r {
                Ok(response) => {
                    &&& run_failure(exit, diagnosis, max_response_bytes as nat) is None
                    &&& response.body@ == exit.body.bytes@
                    &&& Some(response.http_status) == as_status(diagnosis.status)
                },
                Err(failure) => run_failure(exit, diagnosis, max_response_bytes as nat) == Some(
                    failure@,
                ),
            }
        }),
{
    let diagnostics = decode_lossy(stderr);
    conclude_run(exit, diagnostics.as_str(), max_response_bytes)
}

/// What can go wrong with the curl process itself, with the reason that the system gives.
#[derive(Debug, Eq, PartialEq)]
pub enum ProcessFault {
    Unstarted(String),
    NoStdout,
    NoStderr,
    Unwaited(String),
    Unreaped(String),
    /// The reader of a stream went away.
    LostReader(&'static str),
    /// A stream could not be read.
    Unread(&'static str, String),
}

/// The failure that a fault of the process comes to. Once the process runs, it may have sent
/// something.
pub open spec fn fault_failure(fault: ProcessFault) -> FailureModel {
    match fault {
        ProcessFault::Unstarted(reason) => unsent(
            ErrorCategory::Unavailable,
            true,
            "could not start curl: "@ + reason@,
            None,
            None,
        ),
        ProcessFault::NoStdout => sent(
            unsent(ErrorCategory::Internal, false, "curl stdout is unavailable"@, None, None),
            AudioAcceptance::PossiblyAccepted,
        ),
        ProcessFault::NoStderr => sent(
            unsent(ErrorCategory::Internal, false, "curl stderr is unavailable"@, None, None),
            AudioAcceptance::PossiblyAccepted,
        ),
        ProcessFault::Unwaited(reason) => sent(
            unsent(
                ErrorCategory::Unavailable,
                true,
                "could not wait for curl: "@ + reason@,
                None,
                None,
            ),
            AudioAcceptance::PossiblyAccepted,
        ),
        ProcessFault::Unreaped(reason) => sent(
            unsent(
                ErrorCategory::Unavailable,
                true,
                "could not reap cancelled curl: "@ + reason@,
                None,
                None,
            ),
            AudioAcceptance::PossiblyAccepted,
        ),
        ProcessFault::LostReader(stream) => sent(
            unsent(
                ErrorCategory::Internal,
                false,
                "curl "@ + stream@ + " reader panicked"@,
                None,
                None,
            ),
            AudioAcceptance::PossiblyAccepted,
        ),
        ProcessFault::Unread(stream, reason) => sent(
            unsent(
                ErrorCategory::Internal,
                false,
                "could not read curl "@ + stream@ + ": "@ + reason@,
                None,
                None,
            ),
            AudioAcceptance::PossiblyAccepted,
        ),
    }
}

pub fn process_failure(fault: ProcessFault) -> (r: CurlFailure)
    ensures
        r@ == fault_failure(fault),
{
    let possibly = AudioAcceptance::PossiblyAccepted;
    match fault {
        ProcessFault::Unstarted(reason) => {
            let message = join2("could not start curl: ", reason.as_str());
            failure(ErrorCategory::Unavailable, true, message.as_str(), None, None)
        },
        ProcessFault::NoStdout => failure(
            ErrorCategory::Internal,
            false,
            "curl stdout is unavailable",
            None,
            None,
        ).with_transport_evidence(possibly),
        ProcessFault::NoStderr => failure(
            ErrorCategory::Internal,
            false,
            "curl stderr is unavailable",
            None,
            None,
        ).with_transport_evidence(possibly),
        ProcessFault::Unwaited(reason) => {
            let message = join2("could not wait for curl: ", reason.as_str());
            failure(
                ErrorCategory::Unavailable,
                true,
                message.as_str(),
                None,
                None,
            ).with_transport_evidence(possibly)
        },
        ProcessFault::Unreaped(reason) => {
            let message = join2("could not reap cancelled curl: ", reason.as_str());
            failure(
                ErrorCategory::Unavailable,
                true,
                message.as_str(),
                None,
                None,
            ).with_transport_evidence(possibly)
        },
        ProcessFault::LostReader(stream) => {
            let mut message = join2("curl ", stream);
            message.append(" reader panicked");
            failure(
                ErrorCategory::Internal,
                false,
                message.as_str(),
                None,
                None,
            ).with_transport_evidence(possibly)
        },
        ProcessFault::Unread(stream, reason) => {
            let mut message = join2("could not read curl ", stream);
            message.append(": ");
            message.append(reason.as_str());
            failure(
                ErrorCategory::Internal,
                false,
                message.as_str(),
                None,
                None,
            ).with_transport_evidence(possibly)
        },
    }
}

/// What the caller of a running curl process does next.
#[derive(Clone, Copy, Debug, Eq, PartialEq, Structural)]
pub enum WaitStep {
    /// The process has ended on its own.
    Finish,
    /// The process is to be killed.
    Kill,
    /// The process is to be looked at again later.
    Sleep,
}

/// Decides what to do about a running process: one that has ended is never counted as cancelled.
pub fn wait_step(has_ended: bool, is_cancelled: bool) -> (step: WaitStep)
    ensures
        step == (if has_ended {
            WaitStep::Finish
        } else if is_cancelled {
            WaitStep::Kill
        } else {
            WaitStep::Sleep
        }),
{
    if has_ended {
        WaitStep::Finish
    } else if is_cancelled {
        WaitStep::Kill
    } else {
        WaitStep::Sleep
    }
}

/// A fault of a process that was started never counts as proof that no audio was accepted.
pub proof fn law_started_process_may_have_sent(fault: ProcessFault)
    requires
        !(fault is Unstarted),
    ensures
        fault_failure(fault).transport_started,
        fault_failure(fault).audio_acceptance == AudioAcceptance::PossiblyAccepted,
{
}

/// The host part of a plain HTTP address names this machine.
pub open spec fn loopback_http(endpoint: Seq<char>) -> bool {
    &&& begins(endpoint, "http://"@)
    &&& loopback_authority(before_first(endpoint.skip("http://"@.len() as int), '/'))
}

/// The rest of an authority, which a query or a fragment may follow, holds no `@`: what stands
/// before it is no user information.
pub open spec fn ends_without_user(rest: Seq<char>) -> bool {
    !has_char(before_first(before_first(rest, '?'), '#'), '@')
}

/// The text begins with `host_and_colon`, and that is the host: another one does not follow behind
/// user information.
pub open spec fn host_with_port(text: Seq<char>, host_and_colon: Seq<char>) -> bool {
    begins(text, host_and_colon) && ends_without_user(text.skip(host_and_colon.len() as int))
}

/// One of the names of this machine, with or without a port.
pub open spec fn loopback_authority(authority: Seq<char>) -> bool {
    ||| authority == "localhost"@
    ||| host_with_port(authority, "localhost:"@)
    ||| authority == "127.0.0.1"@
    ||| host_with_port(authority, "127.0.0.1:"@)
    ||| authority == "[::1]"@
    ||| host_with_port(authority, "[::1]:"@)
}

/// An endpoint that audio and secrets may go to.
pub open spec fn secure_endpoint(endpoint: Seq<char>) -> bool {
    begins(endpoint, "https://"@) || loopback_http(endpoint)
}

fn is_host_with_port(text: &str, host_and_colon: &str) -> (r: bool)
    ensures
        r == host_with_port(text@, host_and_colon@),
{
    match strip_prefix(text, host_and_colon) {
        Some(rest) => {
            let end = to_chars(text_before_first(text_before_first(rest, '?'), '#'));
            find_char(&end, '@').is_none()
        },
        None => false,
    }
}

pub fn is_loopback_authority(authority: &str) -> (r: bool)
    ensures
        r == loopback_authority(authority@),
{
    same_text(authority, "localhost") || is_host_with_port(authority, "localhost:") || same_text(
        authority,
        "127.0.0.1",
    ) || is_host_with_port(authority, "127.0.0.1:") || same_text(authority, "[::1]")
        || is_host_with_port(authority, "[::1]:")
}

pub fn is_loopback_http(endpoint: &str) -> (r: bool)
    ensures
        r == loopback_http(endpoint@),
{
    match strip_prefix(endpoint, "http://") {
        None => false,
        Some(rest) => is_loopback_authority(text_before_first(rest, '/')),
    }
}

/// Validates HTTPS endpoints while allowing loopback HTTP for offline use.
pub fn validate_endpoint(endpoint: &str, message: &'static str) -> (r: Result<(), VoxError>)
    ensures
        match r {
            Ok(_) => secure_endpoint(endpoint@),
            Err(error) => !secure_endpoint(endpoint@) && error.says(
                ErrorCategory::Configuration,
                "provider.insecure_endpoint"@,
                message@,
                false,
            ),
        },
{
    if starts_with(endpoint, "https://") || is_loopback_http(endpoint) {
        Ok(())
    } else {
        Err(VoxError::new(ErrorCategory::Configuration, "provider.insecure_endpoint", message))
    }
}

/// Four bytes of a number, the lowest first.
pub open spec fn le32(n: nat) -> Seq<u8> {
    seq![
        (n % 256) as u8,
        (n / 256 % 256) as u8,
        (n / 65_536 % 256) as u8,
        (n / 16_777_216 % 256) as u8,
    ]
}

/// Two bytes of a number, the lowest first.
pub open spec fn le16(n: nat) -> Seq<u8> {
    seq![(n % 256) as u8, (n / 256 % 256) as u8]
}

/// The header of a WAV file with `length` bytes of mono 16 kHz signed 16-bit samples.
pub open spec fn wav_header(length: nat) -> Seq<u8> {
    seq![82u8, 73u8, 70u8, 70u8] + le32(length + 36) + seq![
        87u8,
        65u8,
        86u8,
        69u8,
        102u8,
        109u8,
        116u8,
        32u8,
    ] + le32(16) + le16(1) + le16(1) + le32(16_000) + le32(32_000) + le16(2) + le16(16) + seq![
        100u8,
        97u8,
        116u8,
        97u8,
    ] + le32(length)
}

/// Why a recording has no WAV form.
#[derive(Clone, Copy, Debug, Eq, PartialEq, Structural)]
pub enum WavError {
    TooLarge,
    SizeOverflow,
}

impl WavError {
    pub fn message(self) -> (r: &'static str)
        ensures
            r@ == (match self {
                WavError::TooLarge => "recording is too large"@,
                WavError::SizeOverflow => "WAV size overflow"@,
            }),
    {
        match self {
            WavError::TooLarge => "recording is too large",
            WavError::SizeOverflow => "WAV size overflow",
        }
    }
}

fn push_le32(output: &mut Vec<u8>, n: u32)
    ensures
        final(output)@ == old(output)@ + le32(n as nat),
{
    output.push((n % 256) as u8);
    output.push((n / 256 % 256) as u8);
    output.push((n / 65_536 % 256) as u8);
    output.push((n / 16_777_216 % 256) as u8);
    assert(output@ =~= old(output)@ + le32(n as nat));
}

fn push_le16(output: &mut Vec<u8>, n: u16)
    ensures
        final(output)@ == old(output)@ + le16(n as nat),
{
    output.push((n % 256) as u8);
    output.push((n / 256 % 256) as u8);
    assert(output@ =~= old(output)@ + le16(n as nat));
}

/// Converts a mono 16 kHz signed 16-bit PCM recording to the bytes of a WAV file.
pub fn pcm_to_wav(pcm: &[u8]) -> (r: Result<Vec<u8>, WavError>)
    ensures
        match r {
            Ok(wav) => pcm@.len() + 36 <= u32::MAX && wav@ == wav_header(pcm@.len()) + pcm@,
            Err(WavError::TooLarge) => pcm@.len() > u32::MAX,
            Err(WavError::SizeOverflow) => pcm@.len() <= u32::MAX && pcm@.len() + 36 > u32::MAX,
        },
{
    if pcm.len() as u64 > 0xFFFF_FFFF {
        return Err(WavError::TooLarge);
    }
    let length: u32 = pcm.len() as u32;
    match length.checked_add(36) {
        None => Err(WavError::SizeOverflow),
        Some(riff_length) => {
            let mut wav: Vec<u8> = vec![82u8, 73u8, 70u8, 70u8];
            push_le32(&mut wav, riff_length);
            let mut kind: Vec<u8> = vec![87u8, 65u8, 86u8, 69u8, 102u8, 109u8, 116u8, 32u8];
            wav.append(&mut kind);
            push_le32(&mut wav, 16);
            push_le16(&mut wav, 1);
            push_le16(&mut wav, 1);
            push_le32(&mut wav, 16_000);
            push_le32(&mut wav, 32_000);
            push_le16(&mut wav, 2);
            push_le16(&mut wav, 16);
            let mut tag: Vec<u8> = vec![100u8, 97u8, 116u8, 97u8];
            wav.append(&mut tag);
            push_le32(&mut wav, length);
            assert(wav@ =~= wav_header(pcm@.len()));
            wav.extend_from_slice(pcm);
            assert(wav@ =~= wav_header(pcm@.len()) + pcm@);
            Ok(wav)
        },
    }
}

/// A character inside the quotes of a curl configuration line.
pub open spec fn escaped_char(c: char) -> Seq<char> {
    if c == '\\' || c == '"' {
        seq!['\\', c]
    } else {
        seq![c]
    }
}

/// A text inside the quotes of a curl configuration line.
pub open spec fn escaped(text: Seq<char>) -> Seq<char>
    decreases text.len(),
{
    if text.len() == 0 {
        Seq::empty()
    } else {
        escaped_char(text[0]) + escaped(text.skip(1))
    }
}

/// Escapes a text for the quotes of a curl configuration line.
pub fn escape_curl_config(value: &str) -> (r: String)
    ensures
        r@ == escaped(value@),
{
    let chars = to_chars(value);
    let mut out = String::new();
    assert(value@.skip(0) =~= value@);
    for i in 0..chars.len()
        invariant
            chars@ == value@,
            out@ + escaped(value@.skip(i as int)) == escaped(value@),
    {
        let c = chars[i];
        let ghost before = out@;
        if c == '\\' || c == '"' {
            out.push('\\');
        }
        out.push(c);
        proof {
            assert(out@ =~= before + escaped_char(c));
            assert(value@.skip(i as int)[0] == c);
            assert(value@.skip(i as int).skip(1) =~= value@.skip(i + 1));
            assert(out@ + escaped(value@.skip(i + 1)) =~= before + escaped(value@.skip(i as int)));
        }
    }
    assert(out@ =~= escaped(value@));
    out
}

/// A text read between the quotes of a curl configuration line: up to the first quote that no
/// backslash stands before, and each character behind a backslash as it is.
pub open spec fn unescaped(text: Seq<char>) -> Seq<char>
    decreases text.len(),
{
    if text.len() == 0 || text[0] == '"' {
        Seq::empty()
    } else if text[0] == '\\' {
        if text.len() == 1 {
            Seq::empty()
        } else {
            seq![text[1]] + unescaped(text.skip(2))
        }
    } else {
        seq![text[0]] + unescaped(text.skip(1))
    }
}

/// What was escaped is read back whole, whatever stands behind the closing quote: no value can
/// end its line early.
pub proof fn law_escaped_text_reads_back(text: Seq<char>, behind: Seq<char>)
    ensures
        unescaped(escaped(text) + seq!['"'] + behind) == text,
    decreases text.len(),
{
    let line = escaped(text) + seq!['"'] + behind;
    if text.len() == 0 {
        assert(line[0] == '"');
        assert(unescaped(line) =~= text);
    } else {
        let rest = escaped(text.skip(1)) + seq!['"'] + behind;
        law_escaped_text_reads_back(text.skip(1), behind);
        assert(line =~= escaped_char(text[0]) + rest);
        if text[0] == '\\' || text[0] == '"' {
            assert(line[0] == '\\' && line[1] == text[0]);
            assert(line.skip(2) =~= rest);
        } else {
            assert(line[0] == text[0]);
            assert(line.skip(1) =~= rest);
        }
        assert(seq![text[0]] + text.skip(1) =~= text);
    }
}

/// A run that failed tells that audio was not accepted only if no byte of it went out, or
/// if curl never had a connection.
pub proof fn law_audio_evidence_is_conservative(
    uploaded_bytes: Option<u64>,
    curl_exit_code: Option<i32>,
    http_status: Option<u16>,
    was_cancelled: bool,
)
    ensures
        acceptance_of(uploaded_bytes, curl_exit_code, http_status, was_cancelled)
            == AudioAcceptance::NotAccepted ==> uploaded_bytes == Some(0u64) || (uploaded_bytes
            is None && !was_cancelled && no_connection(curl_exit_code)),
{
}

/// A request succeeded exactly where it was not cancelled, its answer was not too long, the
/// credentials were handed over, curl ended well and the answer has a status from 200 to 299.
pub proof fn law_request_succeeds(exit: CurlExit, diagnosis: Diagnosis, max_response_bytes: nat)
    requires
        diagnosis.status is Some ==> diagnosis.status->0 <= u16::MAX,
    ensures
        run_failure(exit, diagnosis, max_response_bytes) is None <==> !exit.was_cancelled
            && !exit.body.overflowed && exit.stdin_error is None && exit.exit_code == Some(0i32)
            && diagnosis.status is Some && 200 <= diagnosis.status->0 < 300,
{
}

/// A request that was cancelled is told as cancelled whatever else went wrong, and is not tried again;
/// every failure of a process that ran counts as begun.
pub proof fn law_cancelled_request_is_told_as_such(
    exit: CurlExit,
    diagnosis: Diagnosis,
    max_response_bytes: nat,
)
    ensures
        exit.was_cancelled ==> {
            &&& run_failure(exit, diagnosis, max_response_bytes) is Some
            &&& run_failure(exit, diagnosis, max_response_bytes)->0.category
                == ErrorCategory::Cancelled
            &&& !run_failure(exit, diagnosis, max_response_bytes)->0.retryable
        },
        run_failure(exit, diagnosis, max_response_bytes) is Some ==> run_failure(
            exit,
            diagnosis,
            max_response_bytes,
        )->0.transport_started,
        !exit.was_cancelled && exit.body.overflowed ==> {
            &&& run_failure(exit, diagnosis, max_response_bytes)->0.category
                == ErrorCategory::Protocol
            &&& !run_failure(exit, diagnosis, max_response_bytes)->0.retryable
        },
{
}

/// What a failure tells of the recording: accepted where bytes of it went out and curl ended well with
/// an answer that is no redirect; not accepted where none went out, or where that is unknown, the
/// work was not cancelled and curl never had a connection; possibly accepted everywhere else.
pub proof fn law_acceptance_is_told(
    exit: CurlExit,
    diagnosis: Diagnosis,
    max_response_bytes: nat,
    code: i32,
)
    requires
        run_failure(exit, diagnosis, max_response_bytes) is Some,
        diagnosis.status is Some ==> diagnosis.status->0 <= u16::MAX,
        diagnosis.uploaded is Some ==> diagnosis.uploaded->0 <= u64::MAX,
        exit.exit_code == Some(code),
    ensures
        ({
            let told = run_failure(exit, diagnosis, max_response_bytes)->0.audio_acceptance;
            let unconnected = code == 5 || code == 6 || code == 7 || code == 35 || code == 60;
            let answered = code == 0 && diagnosis.status is Some && (diagnosis.status->0 < 300
                || diagnosis.status->0 >= 400);
            &&& told == AudioAcceptance::NotAccepted <==> diagnosis.uploaded == Some(0nat)
                || diagnosis.uploaded is None && !exit.was_cancelled && unconnected
            &&& told == AudioAcceptance::Accepted <==> diagnosis.uploaded is Some
                && diagnosis.uploaded->0 > 0 && answered
        }),
{
}

/// By the status of the answer, a request is worth another try exactly where the server was too slow,
/// too busy or broken; a refusal of the key is told as one of authentication.
pub proof fn law_statuses_worth_another_try(
    http_status: u16,
    curl_exit_code: Option<i32>,
    diagnostic: Option<Seq<char>>,
)
    ensures
        ({
            let told = http_failure(http_status, curl_exit_code, diagnostic);
            &&& told.retryable <==> http_status == 408 || http_status == 429 || 500 <= http_status
                < 600
            &&& told.category == ErrorCategory::Authentication <==> http_status == 401
                || http_status == 403 || http_status == 407
            &&& told.category == ErrorCategory::Timeout <==> http_status == 408
            &&& told.category == ErrorCategory::RateLimited <==> http_status == 429
            &&& told.category == ErrorCategory::Unavailable <==> 500 <= http_status < 600
            &&& told.category == ErrorCategory::Authentication || told.category
                == ErrorCategory::Timeout || told.category == ErrorCategory::RateLimited
                || told.category == ErrorCategory::Unavailable || told.category
                == ErrorCategory::Protocol
            &&& told.http_status == Some(http_status)
            &&& told.curl_exit_code == curl_exit_code
        }),
{
}

/// By the end of curl, a request is worth another try where it took too long, or where no connection
/// could be made or was lost; an answer that is too long or a certificate that does not hold is not.
pub proof fn law_exits_worth_another_try(
    code: i32,
    http_status: Option<u16>,
    diagnostic: Option<Seq<char>>,
    max_response_bytes: nat,
)
    ensures
        ({
            let told = exit_failure(Some(code), http_status, diagnostic, max_response_bytes);
            let lost = code == 5 || code == 6 || code == 7 || code == 35 || code == 52 || code == 55
                || code == 56;
            &&& code == 28 ==> told.category == ErrorCategory::Timeout && told.retryable
            &&& lost ==> told.category == ErrorCategory::Connection && told.retryable
            &&& code == 60 ==> told.category == ErrorCategory::Connection && !told.retryable
            &&& code == 63 ==> told.category == ErrorCategory::Protocol && !told.retryable
            &&& code == 22 && http_status is Some ==> told == http_failure(
                http_status->0,
                Some(code),
                diagnostic,
            )
            &&& code != 28 && !lost && code != 60 && code != 63 && http_status is None
                ==> told.category == ErrorCategory::Unavailable && told.retryable
            &&& told.curl_exit_code == Some(code)
            &&& told.http_status == http_status
        }),
{
}

/// The last status that curl reports is the one that counts, and lines that report none change
/// nothing; so it is with the count of bytes that went out.
pub proof fn law_last_report_counts(lines: Seq<Seq<char>>, line: Seq<char>)
    ensures
        line_status(line) is Some ==> last_status(lines.push(line)) == line_status(line),
        line_status(line) is None ==> last_status(lines.push(line)) == last_status(lines),
        line_upload(line) is Some ==> last_upload(lines.push(line)) == line_upload(line),
        line_upload(line) is None ==> last_upload(lines.push(line)) == last_upload(lines),
{
    assert(lines.push(line).drop_last() =~= lines);
}

/// A status and a count that curl reports read back as they are; status 0 stands for none.
pub proof fn law_report_reads_back(status: nat, count: nat)
    requires
        status <= 65_535,
        count <= u64::MAX,
    ensures
        status > 0 ==> line_status("VOXTYPE_HTTP_STATUS:"@ + decimal(status)) == Some(status),
        status == 0 ==> line_status("VOXTYPE_HTTP_STATUS:"@ + decimal(status)) is None,
        line_upload("VOXTYPE_UPLOAD_BYTES:"@ + decimal(count)) == Some(count),
{
    reveal_strlit("VOXTYPE_HTTP_STATUS:");
    reveal_strlit("VOXTYPE_UPLOAD_BYTES:");
    lemma_marked_number("VOXTYPE_HTTP_STATUS:"@, status);
    lemma_marked_number("VOXTYPE_UPLOAD_BYTES:"@, count);
    crate::text::law_decimal_reads_back(status, 65_535);
    crate::text::law_decimal_reads_back(count, u64::MAX as nat);
    crate::text::law_numbers_are_digits(decimal(count), count, '0');
    crate::text::law_decimal_reads_back(count, count);
    crate::text::law_cut_at_the_first(decimal(count), '.');
    if has_char(decimal(count), '.') {
        let digits = decimal(count);
        let i = choose|i: int| 0 <= i < digits.len() && #[trigger] digits[i] == '.';
        assert(i == 0 || '0' <= digits[i] <= '9');
        assert(digits[0] == '+' || '0' <= digits[0] <= '9');
    }
}

proof fn lemma_marked_number(marker: Seq<char>, n: nat)
    requires
        marker.len() > 0,
        !crate::text::white_space(marker[0]),
    ensures
        trimmed(marker + decimal(n)) == marker + decimal(n),
        begins(marker + decimal(n), marker),
        (marker + decimal(n)).skip(marker.len() as int) == decimal(n),
{
    let line = marker + decimal(n);
    let digits = decimal(n);
    crate::text::law_decimal_reads_back(n, n);
    crate::text::law_numbers_are_digits(digits, n, '0');
    assert(digits.len() > 0);
    let last = digits[digits.len() - 1];
    assert(line[line.len() - 1] == last);
    assert(last == '+' || '0' <= last <= '9') by {
        if digits.len() > 1 {
            assert('0' <= digits[digits.len() - 1] <= '9');
        }
    }
    assert(!crate::text::white_space(last));
    crate::text::law_trimming_keeps_the_core(line, 0, line.len() as int);
    assert(line.subrange(0, line.len() as int) =~= line);
    assert(line.subrange(0, marker.len() as int) =~= marker);
    assert(line.skip(marker.len() as int) =~= digits);
}

/// A WAV file tells what it holds: 44 bytes of header, the length of the samples in its last four and
/// 36 more behind the first mark, one channel of 16 bits at 16000 samples a second.
pub proof fn law_wav_header_tells_its_length(length: nat)
    requires
        length + 36 <= u32::MAX,
    ensures
        ({
            let header = wav_header(length);
            &&& header.len() == 44
            &&& header[0] == 82 && header[1] == 73 && header[2] == 70 && header[3] == 70
            &&& header[4] + 256 * header[5] + 65_536 * header[6] + 16_777_216 * header[7] == length
                + 36
            &&& header[8] == 87 && header[9] == 65 && header[10] == 86 && header[11] == 69
            &&& header[20] == 1 && header[21] == 0
            &&& header[22] == 1 && header[23] == 0
            &&& header[24] + 256 * header[25] + 65_536 * header[26] + 16_777_216 * header[27]
                == 16_000
            &&& header[28] + 256 * header[29] + 65_536 * header[30] + 16_777_216 * header[31]
                == 32_000
            &&& header[32] == 2 && header[33] == 0
            &&& header[34] == 16 && header[35] == 0
            &&& header[36] == 100 && header[37] == 97 && header[38] == 116 && header[39] == 97
            &&& header[40] + 256 * header[41] + 65_536 * header[42] + 16_777_216 * header[43]
                == length
        }),
{
    lemma_le32_reads_back(length);
    lemma_le32_reads_back(length + 36);
    lemma_le32_reads_back(16_000);
    lemma_le32_reads_back(32_000);
    let riff = seq![82u8, 73u8, 70u8, 70u8];
    let wave = seq![87u8, 65u8, 86u8, 69u8, 102u8, 109u8, 116u8, 32u8];
    let data = seq![100u8, 97u8, 116u8, 97u8];
    let front = riff + le32(length + 36);
    let format = front + wave + le32(16) + le16(1) + le16(1);
    let rates = format + le32(16_000) + le32(32_000);
    let header = rates + le16(2) + le16(16) + data + le32(length);
    assert(wav_header(length) == header);
    assert(front.len() == 8 && format.len() == 24 && rates.len() == 32 && header.len() == 44);
    lemma_header_front(length);
    lemma_header_back(rates, length);
    assert(header.take(32) =~= rates);
    assert forall|i: int| 0 <= i < 32 implies header[i] == #[trigger] rates[i] by {
        assert(header.take(32)[i] == header[i]);
    }
    assert(header[0] == rates[0] && header[1] == rates[1] && header[2] == rates[2] && header[3]
        == rates[3] && header[4] == rates[4] && header[5] == rates[5] && header[6] == rates[6]
        && header[7] == rates[7] && header[8] == rates[8] && header[9] == rates[9] && header[10]
        == rates[10] && header[11] == rates[11] && header[20] == rates[20] && header[21]
        == rates[21] && header[22] == rates[22] && header[23] == rates[23] && header[24]
        == rates[24] && header[25] == rates[25] && header[26] == rates[26] && header[27]
        == rates[27] && header[28] == rates[28] && header[29] == rates[29] && header[30]
        == rates[30] && header[31] == rates[31]);
}

proof fn lemma_header_front(length: nat)
    ensures
        ({
            let rates = seq![82u8, 73u8, 70u8, 70u8] + le32(length + 36) + seq![
                87u8,
                65u8,
                86u8,
                69u8,
                102u8,
                109u8,
                116u8,
                32u8,
            ] + le32(16) + le16(1) + le16(1) + le32(16_000) + le32(32_000);
            &&& rates[0] == 82 && rates[1] == 73 && rates[2] == 70 && rates[3] == 70
            &&& forall|i: int| 0 <= i < 4 ==> rates[4 + i] == #[trigger] le32(length + 36)[i]
            &&& rates[8] == 87 && rates[9] == 65 && rates[10] == 86 && rates[11] == 69
            &&& rates[20] == 1 && rates[21] == 0 && rates[22] == 1 && rates[23] == 0
            &&& forall|i: int| 0 <= i < 4 ==> rates[24 + i] == #[trigger] le32(16_000)[i]
            &&& forall|i: int| 0 <= i < 4 ==> rates[28 + i] == #[trigger] le32(32_000)[i]
        }),
{
}

proof fn lemma_header_back(rates: Seq<u8>, length: nat)
    requires
        rates.len() == 32,
    ensures
        ({
            let header = rates + le16(2) + le16(16) + seq![100u8, 97u8, 116u8, 97u8] + le32(length);
            &&& header[32] == 2 && header[33] == 0 && header[34] == 16 && header[35] == 0
            &&& header[36] == 100 && header[37] == 97 && header[38] == 116 && header[39] == 97
            &&& forall|i: int| 0 <= i < 4 ==> header[40 + i] == #[trigger] le32(length)[i]
        }),
{
}

proof fn lemma_le32_reads_back(n: nat)
    requires
        n <= u32::MAX,
    ensures
        le32(n)[0] + 256 * le32(n)[1] + 65_536 * le32(n)[2] + 16_777_216 * le32(n)[3] == n,
{
    let a = n % 256;
    let b = n / 256 % 256;
    let c = n / 65_536 % 256;
    let d = n / 16_777_216 % 256;
    assert(n / 256 / 256 == n / 65_536);
    assert(n / 65_536 / 256 == n / 16_777_216);
    assert(n / 16_777_216 < 256);
}

/// What is shown of curl's diagnostics is the first line that says something beside the reports, cut
/// to 300 characters.
pub proof fn law_first_line_that_tells(lines: Seq<Seq<char>>, i: int)
    requires
        0 <= i <= lines.len(),
        forall|k: int| 0 <= k < i ==> !telling(#[trigger] lines[k]),
        i == lines.len() || telling(lines[i]),
    ensures
        i == lines.len() ==> first_telling(lines, 0) is None,
        i < lines.len() ==> first_telling(lines, 0) == Some(first_chars(trimmed(lines[i]), 300)),
        i < lines.len() ==> 0 < first_telling(lines, 0)->0.len() <= 300,
{
    lemma_telling_from(lines, 0, i);
}

proof fn lemma_telling_from(lines: Seq<Seq<char>>, from: int, i: int)
    requires
        0 <= from <= i <= lines.len(),
        forall|k: int| from <= k < i ==> !telling(#[trigger] lines[k]),
        i == lines.len() || telling(lines[i]),
    ensures
        i == lines.len() ==> first_telling(lines, from) is None,
        i < lines.len() ==> first_telling(lines, from) == Some(first_chars(trimmed(lines[i]), 300)),
    decreases i - from,
{
    if from < i {
        assert(!telling(lines[from]));
        lemma_telling_from(lines, from + 1, i);
    }
}

/// Audio and secrets go over a connection that is encrypted, or to this machine; a port and a path may
/// follow, and nothing else makes an address of plain HTTP good.
pub proof fn law_endpoints_of_this_machine(port: nat, path: Seq<char>)
    ensures
        secure_endpoint("https://"@ + path),
        secure_endpoint("http://"@ + "localhost"@ + "/"@ + path),
        secure_endpoint("http://"@ + "localhost:"@ + decimal(port) + "/"@ + path),
        secure_endpoint("http://"@ + "127.0.0.1"@ + "/"@ + path),
        secure_endpoint("http://"@ + "127.0.0.1:"@ + decimal(port) + "/"@ + path),
        secure_endpoint("http://"@ + "[::1]"@ + "/"@ + path),
        secure_endpoint("http://"@ + "[::1]:"@ + decimal(port) + "/"@ + path),
{
    reveal_strlit("https://");
    reveal_strlit("localhost");
    reveal_strlit("localhost:");
    reveal_strlit("127.0.0.1");
    reveal_strlit("127.0.0.1:");
    reveal_strlit("[::1]");
    reveal_strlit("[::1]:");
    assert(("https://"@ + path).subrange(0, 8) =~= "https://"@);
    lemma_plain_host("localhost"@, path);
    lemma_plain_host("127.0.0.1"@, path);
    lemma_plain_host("[::1]"@, path);
    lemma_host_and_port("localhost:"@, port, path);
    lemma_host_and_port("127.0.0.1:"@, port, path);
    lemma_host_and_port("[::1]:"@, port, path);
}

proof fn lemma_plain_host(host: Seq<char>, path: Seq<char>)
    requires
        forall|i: int| 0 <= i < host.len() ==> #[trigger] host[i] != '/',
    ensures
        begins("http://"@ + host + "/"@ + path, "http://"@),
        before_first(("http://"@ + host + "/"@ + path).skip("http://"@.len() as int), '/') == host,
{
    reveal_strlit("http://");
    reveal_strlit("/");
    let whole = "http://"@ + host + "/"@ + path;
    assert(whole.subrange(0, 7) =~= "http://"@);
    let rest = whole.skip(7);
    assert(rest =~= host + "/"@ + path);
    assert forall|i: int| 0 <= i < host.len() implies #[trigger] rest[i] != '/' by {
        assert(rest[i] == host[i]);
    }
    assert(rest[host.len() as int] == '/');
    crate::text::law_before_first_at(rest, '/', host.len() as int);
    assert(rest.take(host.len() as int) =~= host);
}

proof fn lemma_host_and_port(host: Seq<char>, port: nat, path: Seq<char>)
    requires
        forall|i: int| 0 <= i < host.len() ==> #[trigger] host[i] != '/',
    ensures
        begins("http://"@ + host + decimal(port) + "/"@ + path, "http://"@),
        host_with_port(
            before_first(
                ("http://"@ + host + decimal(port) + "/"@ + path).skip("http://"@.len() as int),
                '/',
            ),
            host,
        ),
{
    let digits = decimal(port);
    let named = host + digits;
    crate::text::law_decimal_reads_back(port, port);
    crate::text::law_numbers_are_digits(digits, port, '0');
    assert forall|i: int| 0 <= i < digits.len() implies #[trigger] digits[i] == '+' || '0'
        <= digits[i] <= '9' by {}
    assert forall|i: int| 0 <= i < named.len() implies #[trigger] named[i] != '/' by {
        if i < host.len() {
            assert(named[i] == host[i]);
        } else {
            assert(named[i] == digits[i - host.len()]);
        }
    }
    lemma_plain_host(named, path);
    assert("http://"@ + host + digits + "/"@ + path =~= "http://"@ + named + "/"@ + path);
    assert(named.subrange(0, host.len() as int) =~= host);
    assert(named.skip(host.len() as int) =~= digits);
    let query = before_first(digits, '?');
    crate::text::law_before_first_at(digits, '?', digits.len() as int);
    assert(query =~= digits);
    crate::text::law_before_first_at(digits, '#', digits.len() as int);
    assert(before_first(query, '#') =~= digits);
    assert(!has_char(digits, '@'));
}

} // verus!
