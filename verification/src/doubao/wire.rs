//! The protobuf envelopes of requests and responses.

use crate::text::decode_text;
use vstd::prelude::*;
use vstd::slice::{slice_subrange, slice_to_vec};
use vstd::string::*;
use vstd::utf8::*;

verus! {

/// The largest response that is read.
pub const MAX_MESSAGE_BYTES: usize = 4_194_304;

/// Where an audio frame stands in its session.
#[derive(Clone, Copy, Debug, Eq, PartialEq, Structural)]
pub enum FrameState {
    First,
    Middle,
    Last,
}

impl FrameState {
    pub open spec fn number(self) -> nat {
        match self {
            FrameState::First => 1,
            FrameState::Middle => 3,
            FrameState::Last => 9,
        }
    }

    /// The number that stands for the state on the wire.
    pub fn wire_number(self) -> (r: u64)
        ensures
            r == self.number(),
    {
        match self {
            FrameState::First => 1,
            FrameState::Middle => 3,
            FrameState::Last => 9,
        }
    }
}

#[derive(Debug, Eq, PartialEq)]
pub struct ResponseEnvelope {
    pub request_id: String,
    pub task_id: String,
    pub service: String,
    pub message_type: String,
    pub status_code: u64,
    pub status_message: String,
    pub result_json: Vec<u8>,
}

/// What a response says.
pub struct EnvelopeModel {
    pub request_id: Seq<char>,
    pub task_id: Seq<char>,
    pub service: Seq<char>,
    pub message_type: Seq<char>,
    pub status_code: u64,
    pub status_message: Seq<char>,
    pub result_json: Seq<u8>,
}

/// A response that says nothing.
pub open spec fn empty_envelope() -> EnvelopeModel {
    EnvelopeModel {
        request_id: Seq::empty(),
        task_id: Seq::empty(),
        service: Seq::empty(),
        message_type: Seq::empty(),
        status_code: 0,
        status_message: Seq::empty(),
        result_json: Seq::empty(),
    }
}

impl ResponseEnvelope {
    pub open spec fn view(&self) -> EnvelopeModel {
        EnvelopeModel {
            request_id: self.request_id@,
            task_id: self.task_id@,
            service: self.service@,
            message_type: self.message_type@,
            status_code: self.status_code,
            status_message: self.status_message@,
            result_json: self.result_json@,
        }
    }
}

impl Default for ResponseEnvelope {
    fn default() -> (r: Self)
        ensures
            r@ == empty_envelope(),
    {
        ResponseEnvelope {
            request_id: String::new(),
            task_id: String::new(),
            service: String::new(),
            message_type: String::new(),
            status_code: 0,
            status_message: String::new(),
            result_json: Vec::new(),
        }
    }
}

/// A message that does not follow the wire format.
#[derive(Clone, Copy, Debug, Eq, PartialEq)]
pub struct ProtocolError {
    message: &'static str,
}

impl ProtocolError {
    pub closed spec fn view(&self) -> Seq<char> {
        self.message@
    }

    pub fn new(message: &'static str) -> (error: Self)
        ensures
            error@ == message@,
    {
        ProtocolError { message }
    }

    pub fn message(&self) -> (r: &'static str)
        ensures
            r@ == self@,
    {
        self.message
    }
}

/// A number in groups of seven bits, the lowest first; the high bit says that more follow.
pub open spec fn varint(value: nat) -> Seq<u8>
    decreases value,
{
    if value < 128 {
        seq![value as u8]
    } else {
        seq![(value % 128 + 128) as u8] + varint(value / 128)
    }
}

/// A bytes field: its key, its length and the bytes.
pub open spec fn bytes_field(field: nat, value: Seq<u8>) -> Seq<u8> {
    varint(field * 8 + 2) + varint(value.len()) + value
}

/// A number field: its key and the number.
pub open spec fn number_field(field: nat, value: nat) -> Seq<u8> {
    varint(field * 8) + varint(value)
}

pub open spec fn bytes_field_unless_empty(field: nat, value: Seq<u8>) -> Seq<u8> {
    if value.len() == 0 {
        Seq::empty()
    } else {
        bytes_field(field, value)
    }
}

/// A request: the fields that hold something, in the order of their numbers.
pub open spec fn request_bytes(
    token: Seq<char>,
    method: Seq<char>,
    json_payload: Seq<u8>,
    audio: Seq<u8>,
    request_id: Seq<char>,
    frame_state: Option<FrameState>,
) -> Seq<u8> {
    bytes_field_unless_empty(2, encode_utf8(token)) + bytes_field(3, seq![65u8, 83u8, 82u8])
        + bytes_field(5, encode_utf8(method)) + bytes_field_unless_empty(6, json_payload)
        + bytes_field_unless_empty(7, audio) + bytes_field(8, encode_utf8(request_id)) + (
    match frame_state {
        Some(state) => number_field(9, state.number()),
        None => Seq::empty(),
    })
}

pub fn write_varint(output: &mut Vec<u8>, value: u64)
    ensures
        final(output)@ == old(output)@ + varint(value as nat),
{
    let mut rest: u64 = value;
    let ghost before = output@;
    while rest >= 128
        invariant
            output@ + varint(rest as nat) == before + varint(value as nat),
        decreases rest,
    {
        let ghost was = output@;
        let ghost r = rest as nat;
        output.push((rest % 128 + 128) as u8);
        rest = rest / 128;
        proof {
            assert(output@ + varint(rest as nat) =~= was + varint(r));
        }
    }
    output.push(rest as u8);
    assert(output@ =~= before + varint(value as nat));
}

pub fn write_bytes(output: &mut Vec<u8>, field: u32, value: &[u8])
    ensures
        final(output)@ == old(output)@ + bytes_field(field as nat, value@),
{
    write_varint(output, field as u64 * 8 + 2);
    write_varint(output, value.len() as u64);
    output.extend_from_slice(value);
    assert(output@ =~= old(output)@ + bytes_field(field as nat, value@));
}

pub fn write_varint_field(output: &mut Vec<u8>, field: u32, value: u64)
    ensures
        final(output)@ == old(output)@ + number_field(field as nat, value as nat),
{
    write_varint(output, field as u64 * 8);
    write_varint(output, value);
    assert(output@ =~= old(output)@ + number_field(field as nat, value as nat));
}

/// Encodes a request envelope. Empty token, JSON and audio fields are omitted.
pub fn encode_request(
    token: &str,
    method: &str,
    json_payload: &[u8],
    audio: &[u8],
    request_id: &str,
    frame_state: Option<FrameState>,
) -> (output: Vec<u8>)
    ensures
        output@ == request_bytes(
            token@,
            method@,
            json_payload@,
            audio@,
            request_id@,
            frame_state,
        ),
{
    let mut output: Vec<u8> = Vec::new();
    let token_bytes = token.as_bytes();
    if token_bytes.len() > 0 {
        write_bytes(&mut output, 2, token_bytes);
    }
    let service: Vec<u8> = vec![65u8, 83u8, 82u8];
    write_bytes(&mut output, 3, &service);
    write_bytes(&mut output, 5, method.as_bytes());
    if json_payload.len() > 0 {
        write_bytes(&mut output, 6, json_payload);
    }
    if audio.len() > 0 {
        write_bytes(&mut output, 7, audio);
    }
    write_bytes(&mut output, 8, request_id.as_bytes());
    match frame_state {
        Some(state) => write_varint_field(&mut output, 9, state.wire_number()),
        None => {},
    }
    assert(service@ =~= seq![65u8, 83u8, 82u8]);
    assert(output@ =~= request_bytes(
        token@,
        method@,
        json_payload@,
        audio@,
        request_id@,
        frame_state,
    ));
    output
}

/// The numbers that can still be written from group `k` on.
pub open spec fn varint_limit(k: nat) -> nat
    decreases 9 - k,
{
    if k >= 9 {
        2
    } else {
        128 * varint_limit(k + 1)
    }
}

/// The number whose group `k` stands at `at`, and where it ends; or why there is none.
pub open spec fn varint_at(message: Seq<u8>, at: int, k: nat) -> Result<(nat, int), Seq<char>>
    decreases 10 - k,
{
    if at >= message.len() {
        Err("truncated protobuf varint"@)
    } else if k >= 9 && message[at] > 1 {
        Err("protobuf varint overflow"@)
    } else if message[at] < 128 {
        Ok((message[at] as nat, at + 1))
    } else if k >= 9 {
        Err("protobuf varint overflow"@)
    } else {
        match varint_at(message, at + 1, k + 1) {
            Ok((rest, end)) => Ok(((message[at] - 128 + 128 * rest) as nat, end)),
            Err(why) => Err(why),
        }
    }
}

pub proof fn lemma_varint_at(message: Seq<u8>, at: int, k: nat)
    requires
        k <= 9,
    ensures
        match varint_at(message, at, k) {
            Ok((value, end)) => value < varint_limit(k) && at < end <= message.len(),
            Err(_) => true,
        },
    decreases 10 - k,
{
    if at < message.len() && message[at] >= 128 && k < 9 {
        lemma_varint_at(message, at + 1, k + 1);
    }
    lemma_varint_limit(k);
}

proof fn lemma_varint_limit(k: nat)
    requires
        k <= 9,
    ensures
        varint_limit(k) <= 0x1_0000_0000_0000_0000,
        k < 9 ==> varint_limit(k) >= 256,
{
    reveal_with_fuel(varint_limit, 11);
}

/// Where the bytes of a field stand that begins, with their length, at `at`.
pub open spec fn bytes_at(message: Seq<u8>, at: int) -> Result<(int, int), Seq<char>> {
    match varint_at(message, at, 0) {
        Err(why) => Err(why),
        Ok((length, start)) => if length > usize::MAX {
            Err("protobuf field length overflows usize"@)
        } else if start + length > usize::MAX {
            Err("protobuf field length overflow"@)
        } else if start + length > message.len() {
            Err("truncated protobuf bytes field"@)
        } else {
            Ok((start, start + length))
        },
    }
}

/// The text of a field that begins, with its length, at `at`, and where it ends.
pub open spec fn text_at(message: Seq<u8>, at: int) -> Result<(Seq<char>, int), Seq<char>> {
    match bytes_at(message, at) {
        Err(why) => Err(why),
        Ok((start, end)) => if valid_utf8(message.subrange(start, end)) {
            Ok((decode_utf8(message.subrange(start, end)), end))
        } else {
            Err("protobuf string is not UTF-8"@)
        },
    }
}

/// Where a field of `count` bytes that begins at `at` ends.
pub open spec fn fixed_end(message: Seq<u8>, at: int, count: nat) -> Result<int, Seq<char>> {
    if at + count > usize::MAX {
        Err("protobuf cursor overflow"@)
    } else if at + count > message.len() {
        Err("truncated protobuf fixed-width field"@)
    } else {
        Ok(at + count)
    }
}

/// Where the value of a field of the given wire type ends that begins at `at`.
pub open spec fn value_end(message: Seq<u8>, at: int, wire: nat) -> Result<int, Seq<char>> {
    if wire == 0 {
        match varint_at(message, at, 0) {
            Ok((_, end)) => Ok(end),
            Err(why) => Err(why),
        }
    } else if wire == 1 {
        fixed_end(message, at, 8)
    } else if wire == 2 {
        match bytes_at(message, at) {
            Ok((_, end)) => Ok(end),
            Err(why) => Err(why),
        }
    } else if wire == 5 {
        fixed_end(message, at, 4)
    } else {
        Err("unsupported protobuf wire type"@)
    }
}

/// The response with the value of one field that begins at `at`, and where the field ends.
pub open spec fn with_field(
    message: Seq<u8>,
    at: int,
    field: nat,
    wire: nat,
    response: EnvelopeModel,
) -> Result<(EnvelopeModel, int), Seq<char>> {
    if wire == 2 && (1 <= field <= 4 || field == 6) {
        match text_at(message, at) {
            Err(why) => Err(why),
            Ok((text, end)) => Ok(
                (
                    if field == 1 {
                        EnvelopeModel { request_id: text, ..response }
                    } else if field == 2 {
                        EnvelopeModel { task_id: text, ..response }
                    } else if field == 3 {
                        EnvelopeModel { service: text, ..response }
                    } else if field == 4 {
                        EnvelopeModel { message_type: text, ..response }
                    } else {
                        EnvelopeModel { status_message: text, ..response }
                    },
                    end,
                ),
            ),
        }
    } else if wire == 0 && field == 5 {
        match varint_at(message, at, 0) {
            Err(why) => Err(why),
            Ok((value, end)) => Ok(
                (EnvelopeModel { status_code: value as u64, ..response }, end),
            ),
        }
    } else if wire == 2 && field == 7 {
        match bytes_at(message, at) {
            Err(why) => Err(why),
            Ok((start, end)) => Ok(
                (EnvelopeModel { result_json: message.subrange(start, end), ..response }, end),
            ),
        }
    } else {
        match value_end(message, at, wire) {
            Err(why) => Err(why),
            Ok(end) => Ok((response, end)),
        }
    }
}

pub proof fn lemma_with_field(
    message: Seq<u8>,
    at: int,
    field: nat,
    wire: nat,
    response: EnvelopeModel,
)
    requires
        0 <= at <= message.len(),
    ensures
        match with_field(message, at, field, wire, response) {
            Ok((_, end)) => at < end <= message.len(),
            Err(_) => true,
        },
{
    lemma_varint_at(message, at, 0);
}

/// The response that the fields from `at` on make of `response`.
pub open spec fn decoded_from(message: Seq<u8>, at: int, response: EnvelopeModel) -> Result<
    EnvelopeModel,
    Seq<char>,
>
    decreases message.len() - at,
{
    if at < 0 || at >= message.len() {
        Ok(response)
    } else {
        match varint_at(message, at, 0) {
            Err(why) => Err(why),
            Ok((key, start)) => {
                proof {
                    lemma_varint_at(message, at, 0);
                    lemma_with_field(message, start, key / 8, key % 8, response);
                }
                if key / 8 > u32::MAX {
                    Err("invalid field number"@)
                } else {
                    match with_field(message, start, key / 8, key % 8, response) {
                        Err(why) => Err(why),
                        Ok((next, end)) => decoded_from(message, end, next),
                    }
                }
            },
        }
    }
}

/// What a message says, or why it says nothing.
pub open spec fn decoded(message: Seq<u8>) -> Result<EnvelopeModel, Seq<char>> {
    if message.len() > MAX_MESSAGE_BYTES {
        Err("doubao response exceeds the size limit"@)
    } else {
        decoded_from(message, 0, empty_envelope())
    }
}

fn read_group(message: &[u8], at: usize, k: u32) -> (r: Result<(u64, usize), ProtocolError>)
    requires
        k <= 9,
    ensures
        match r {
            Ok((value, end)) => {
                &&& varint_at(message@, at as int, k as nat) == Ok::<(nat, int), Seq<char>>(
                    (value as nat, end as int),
                )
                &&& value < varint_limit(k as nat)
                &&& at < end <= message@.len()
            },
            Err(error) => varint_at(message@, at as int, k as nat) == Err::<
                (nat, int),
                Seq<char>,
            >(error@),
        },
    decreases 10 - k,
{
    proof {
        lemma_varint_limit(k as nat);
    }
    if at >= message.len() {
        return Err(ProtocolError::new("truncated protobuf varint"));
    }
    let byte: u8 = message[at];
    if k >= 9 && byte > 1 {
        return Err(ProtocolError::new("protobuf varint overflow"));
    }
    if byte < 128 {
        return Ok((byte as u64, at + 1));
    }
    match read_group(message, at + 1, k + 1) {
        Ok((rest, end)) => {
            proof {
                lemma_varint_limit((k + 1) as nat);
            }
            Ok(((byte - 128) as u64 + 128 * rest, end))
        },
        Err(error) => Err(error),
    }
}

fn read_varint(message: &[u8], at: usize) -> (r: Result<(u64, usize), ProtocolError>)
    ensures
        match r {
            Ok((value, end)) => varint_at(message@, at as int, 0) == Ok::<(nat, int), Seq<char>>(
                (value as nat, end as int),
            ) && at < end <= message@.len(),
            Err(error) => varint_at(message@, at as int, 0) == Err::<(nat, int), Seq<char>>(error@),
        },
{
    read_group(message, at, 0)
}

fn read_bytes(message: &[u8], at: usize) -> (r: Result<(usize, usize), ProtocolError>)
    ensures
        match r {
            Ok((start, end)) => bytes_at(message@, at as int) == Ok::<(int, int), Seq<char>>(
                (start as int, end as int),
            ) && at < start <= end <= message@.len(),
            Err(error) => bytes_at(message@, at as int) == Err::<(int, int), Seq<char>>(error@),
        },
{
    match read_varint(message, at) {
        Err(error) => Err(error),
        Ok((length, start)) => {
            if length > usize::MAX as u64 {
                return Err(ProtocolError::new("protobuf field length overflows usize"));
            }
            let length: usize = length as usize;
            match start.checked_add(length) {
                None => Err(ProtocolError::new("protobuf field length overflow")),
                Some(end) => if end > message.len() {
                    Err(ProtocolError::new("truncated protobuf bytes field"))
                } else {
                    Ok((start, end))
                },
            }
        },
    }
}

fn read_string(message: &[u8], at: usize) -> (r: Result<(String, usize), ProtocolError>)
    ensures
        match r {
            Ok((text, end)) => text_at(message@, at as int) == Ok::<(Seq<char>, int), Seq<char>>(
                (text@, end as int),
            ) && at < end <= message@.len(),
            Err(error) => text_at(message@, at as int) == Err::<(Seq<char>, int), Seq<char>>(
                error@,
            ),
        },
{
    match read_bytes(message, at) {
        Err(error) => Err(error),
        Ok((start, end)) => {
            match decode_text(slice_to_vec(slice_subrange(message, start, end))) {
                Ok(text) => Ok((text, end)),
                Err(_) => Err(ProtocolError::new("protobuf string is not UTF-8")),
            }
        },
    }
}

fn advance(message: &[u8], at: usize, count: usize) -> (r: Result<usize, ProtocolError>)
    requires
        count > 0,
    ensures
        match r {
            Ok(end) => fixed_end(message@, at as int, count as nat) == Ok::<int, Seq<char>>(
                end as int,
            ) && at < end <= message@.len(),
            Err(error) => fixed_end(message@, at as int, count as nat) == Err::<int, Seq<char>>(
                error@,
            ),
        },
{
    match at.checked_add(count) {
        None => Err(ProtocolError::new("protobuf cursor overflow")),
        Some(end) => if end > message.len() {
            Err(ProtocolError::new("truncated protobuf fixed-width field"))
        } else {
            Ok(end)
        },
    }
}

fn skip_field(message: &[u8], at: usize, wire: u64) -> (r: Result<usize, ProtocolError>)
    ensures
        match r {
            Ok(end) => value_end(message@, at as int, wire as nat) == Ok::<int, Seq<char>>(
                end as int,
            ) && at < end <= message@.len(),
            Err(error) => value_end(message@, at as int, wire as nat) == Err::<int, Seq<char>>(
                error@,
            ),
        },
{
    if wire == 0 {
        match read_varint(message, at) {
            Ok((_, end)) => Ok(end),
            Err(error) => Err(error),
        }
    } else if wire == 1 {
        advance(message, at, 8)
    } else if wire == 2 {
        match read_bytes(message, at) {
            Ok((_, end)) => Ok(end),
            Err(error) => Err(error),
        }
    } else if wire == 5 {
        advance(message, at, 4)
    } else {
        Err(ProtocolError::new("unsupported protobuf wire type"))
    }
}

fn read_field(
    message: &[u8],
    at: usize,
    field: u64,
    wire: u64,
    response: &mut ResponseEnvelope,
) -> (r: Result<usize, ProtocolError>)
    ensures
        match r {
            Ok(end) => with_field(
                message@,
                at as int,
                field as nat,
                wire as nat,
                old(response)@,
            ) == Ok::<(EnvelopeModel, int), Seq<char>>((final(response)@, end as int)) && at < end
                <= message@.len(),
            Err(error) => with_field(
                message@,
                at as int,
                field as nat,
                wire as nat,
                old(response)@,
            ) == Err::<(EnvelopeModel, int), Seq<char>>(error@),
        },
{
    if wire == 2 && ((1 <= field && field <= 4) || field == 6) {
        match read_string(message, at) {
            Err(error) => Err(error),
            Ok((text, end)) => {
                if field == 1 {
                    response.request_id = text;
                } else if field == 2 {
                    response.task_id = text;
                } else if field == 3 {
                    response.service = text;
                } else if field == 4 {
                    response.message_type = text;
                } else {
                    response.status_message = text;
                }
                Ok(end)
            },
        }
    } else if wire == 0 && field == 5 {
        match read_varint(message, at) {
            Err(error) => Err(error),
            Ok((value, end)) => {
                response.status_code = value;
                Ok(end)
            },
        }
    } else if wire == 2 && field == 7 {
        match read_bytes(message, at) {
            Err(error) => Err(error),
            Ok((start, end)) => {
                response.result_json = slice_to_vec(slice_subrange(message, start, end));
                Ok(end)
            },
        }
    } else {
        skip_field(message, at, wire)
    }
}

/// Decodes the documented response fields and skips valid unknown fields, so that a server may
/// add some.
pub fn decode_response(message: &[u8]) -> (r: Result<ResponseEnvelope, ProtocolError>)
    ensures
        match r {
            Ok(response) => decoded(message@) == Ok::<EnvelopeModel, Seq<char>>(response@),
            Err(error) => decoded(message@) == Err::<EnvelopeModel, Seq<char>>(error@),
        },
{
    if message.len() > MAX_MESSAGE_BYTES {
        return Err(ProtocolError::new("doubao response exceeds the size limit"));
    }
    let mut cursor: usize = 0;
    let mut response = ResponseEnvelope::default();
    while cursor < message.len()
        invariant
            message@.len() <= MAX_MESSAGE_BYTES,
            cursor <= message@.len(),
            decoded(message@) == decoded_from(message@, cursor as int, response@),
        decreases message@.len() - cursor,
    {
        match read_varint(message, cursor) {
            Err(error) => {
                return Err(error);
            },
            Ok((key, start)) => {
                if key / 8 > 0xFFFF_FFFF {
                    return Err(ProtocolError::new("invalid field number"));
                }
                match read_field(message, start, key / 8, key % 8, &mut response) {
                    Err(error) => {
                        return Err(error);
                    },
                    Ok(end) => {
                        cursor = end;
                    },
                }
            },
        }
    }
    Ok(response)
}

/// `part` stands in the message at `at`.
pub open spec fn holds_at(message: Seq<u8>, at: int, part: Seq<u8>) -> bool {
    0 <= at && at + part.len() <= message.len() && message.subrange(at, at + part.len()) == part
}

proof fn lemma_holds_parts(message: Seq<u8>, at: int, left: Seq<u8>, right: Seq<u8>)
    requires
        holds_at(message, at, left + right),
    ensures
        holds_at(message, at, left),
        holds_at(message, at + left.len(), right),
{
    let whole = message.subrange(at, at + (left + right).len());
    assert(whole == left + right);
    assert(message.subrange(at, at + left.len()) =~= whole.subrange(0, left.len() as int));
    assert((left + right).subrange(0, left.len() as int) =~= left);
    assert(message.subrange(at + left.len(), at + left.len() + right.len()) =~= whole.subrange(
        left.len() as int,
        whole.len() as int,
    ));
    assert((left + right).subrange(left.len() as int, (left + right).len() as int) =~= right);
}

proof fn lemma_varint_reads_back(message: Seq<u8>, at: int, value: nat, k: nat)
    requires
        k <= 9,
        value < varint_limit(k),
        holds_at(message, at, varint(value)),
    ensures
        varint_at(message, at, k) == Ok::<(nat, int), Seq<char>>(
            (value, at + varint(value).len()),
        ),
    decreases value,
{
    let bytes = varint(value);
    assert(message[at] == bytes[0]) by {
        assert(message.subrange(at, at + bytes.len())[0] == message[at]);
    }
    if value >= 128 {
        lemma_varint_limit(k);
        let head = seq![(value % 128 + 128) as u8];
        assert(bytes =~= head + varint(value / 128));
        lemma_holds_parts(message, at, head, varint(value / 128));
        assert(value / 128 < varint_limit(k + 1)) by {
            assert(varint_limit(k) == 128 * varint_limit(k + 1));
        }
        lemma_varint_reads_back(message, at + 1, value / 128, k + 1);
    }
}

/// Reading gives back every number that was written, wherever it stands.
pub proof fn law_number_reads_back(message: Seq<u8>, at: int, value: u64)
    requires
        holds_at(message, at, varint(value as nat)),
    ensures
        varint_at(message, at, 0) == Ok::<(nat, int), Seq<char>>(
            (value as nat, at + varint(value as nat).len()),
        ),
{
    reveal_with_fuel(varint_limit, 11);
    lemma_varint_reads_back(message, at, value as nat, 0);
}

/// A text field that was written is read back as it was: the fields before it are kept, and
/// reading goes on behind it.
pub proof fn law_text_field_reads_back(
    message: Seq<u8>,
    at: int,
    field: nat,
    text: Seq<char>,
    response: EnvelopeModel,
)
    requires
        1 <= field <= 4 || field == 6,
        message.len() <= MAX_MESSAGE_BYTES,
        holds_at(message, at, bytes_field(field, encode_utf8(text))),
    ensures
        ({
            let end = at + bytes_field(field, encode_utf8(text)).len();
            decoded_from(message, at, response) == decoded_from(
                message,
                end,
                if field == 1 {
                    EnvelopeModel { request_id: text, ..response }
                } else if field == 2 {
                    EnvelopeModel { task_id: text, ..response }
                } else if field == 3 {
                    EnvelopeModel { service: text, ..response }
                } else if field == 4 {
                    EnvelopeModel { message_type: text, ..response }
                } else {
                    EnvelopeModel { status_message: text, ..response }
                },
            )
        }),
{
    let bytes = encode_utf8(text);
    lemma_bytes_field(message, at, field, bytes);
    encode_utf8_valid_utf8(text);
    encode_utf8_decode_utf8(text);
    assert((field * 8 + 2) / 8 == field && (field * 8 + 2) % 8 == 2);
    lemma_varint_nonempty((field * 8 + 2) as nat);
}

/// A result field that was written is read back as it was.
pub proof fn law_result_field_reads_back(
    message: Seq<u8>,
    at: int,
    result: Seq<u8>,
    response: EnvelopeModel,
)
    requires
        message.len() <= MAX_MESSAGE_BYTES,
        holds_at(message, at, bytes_field(7, result)),
    ensures
        decoded_from(message, at, response) == decoded_from(
            message,
            at + bytes_field(7, result).len(),
            EnvelopeModel { result_json: result, ..response },
        ),
{
    lemma_bytes_field(message, at, 7, result);
    lemma_varint_nonempty(58);
}

/// A status field that was written is read back as it was.
pub proof fn law_status_field_reads_back(
    message: Seq<u8>,
    at: int,
    status: u64,
    response: EnvelopeModel,
)
    requires
        holds_at(message, at, number_field(5, status as nat)),
    ensures
        decoded_from(message, at, response) == decoded_from(
            message,
            at + number_field(5, status as nat).len(),
            EnvelopeModel { status_code: status, ..response },
        ),
{
    lemma_holds_parts(message, at, varint(40), varint(status as nat));
    law_number_reads_back(message, at, 40);
    law_number_reads_back(message, at + varint(40).len(), status);
    lemma_varint_nonempty(40);
}

/// A field that is not known is skipped: it changes nothing that is read.
pub proof fn law_unknown_field_is_skipped(
    message: Seq<u8>,
    at: int,
    field: nat,
    value: Seq<u8>,
    response: EnvelopeModel,
)
    requires
        8 <= field <= u32::MAX,
        message.len() <= MAX_MESSAGE_BYTES,
        holds_at(message, at, bytes_field(field, value)),
    ensures
        decoded_from(message, at, response) == decoded_from(
            message,
            at + bytes_field(field, value).len(),
            response,
        ),
{
    lemma_bytes_field(message, at, field, value);
    assert((field * 8 + 2) / 8 == field && (field * 8 + 2) % 8 == 2);
    lemma_varint_nonempty((field * 8 + 2) as nat);
}

/// A field of a response that is read, with the wire type that it is read with.
pub open spec fn documented(field: nat, wire: nat) -> bool {
    ||| wire == 2 && (1 <= field <= 4 || field == 6 || field == 7)
    ||| wire == 0 && field == 5
}

/// The message holds the documented field `field`, at `at` or behind it.
pub open spec fn carries_from(message: Seq<u8>, at: int, field: nat) -> bool
    decreases message.len() - at,
{
    if at < 0 || at >= message.len() {
        false
    } else {
        match varint_at(message, at, 0) {
            Err(_) => false,
            Ok((key, start)) => {
                proof {
                    lemma_varint_at(message, at, 0);
                    lemma_value_end(message, start, key % 8);
                }
                match value_end(message, start, key % 8) {
                    Err(_) => false,
                    Ok(end) => (key / 8 == field && documented(field, key % 8)) || carries_from(
                        message,
                        end,
                        field,
                    ),
                }
            },
        }
    }
}

/// The message holds the documented field `field`.
pub open spec fn carries(message: Seq<u8>, field: nat) -> bool {
    carries_from(message, 0, field)
}

/// What `first` says, except where `message`, which says `second`, holds a field from `at` on.
pub open spec fn overlaid(
    first: EnvelopeModel,
    second: EnvelopeModel,
    message: Seq<u8>,
    at: int,
) -> EnvelopeModel {
    EnvelopeModel {
        request_id: if carries_from(message, at, 1) {
            second.request_id
        } else {
            first.request_id
        },
        task_id: if carries_from(message, at, 2) {
            second.task_id
        } else {
            first.task_id
        },
        service: if carries_from(message, at, 3) {
            second.service
        } else {
            first.service
        },
        message_type: if carries_from(message, at, 4) {
            second.message_type
        } else {
            first.message_type
        },
        status_code: if carries_from(message, at, 5) {
            second.status_code
        } else {
            first.status_code
        },
        status_message: if carries_from(message, at, 6) {
            second.status_message
        } else {
            first.status_message
        },
        result_json: if carries_from(message, at, 7) {
            second.result_json
        } else {
            first.result_json
        },
    }
}

pub proof fn lemma_value_end(message: Seq<u8>, at: int, wire: nat)
    ensures
        match value_end(message, at, wire) {
            Ok(end) => at < end <= message.len(),
            Err(_) => true,
        },
{
    lemma_varint_at(message, at, 0);
}

/// Reading a number sees only the bytes that hold it.
proof fn lemma_varint_inside(outer: Seq<u8>, inner: Seq<u8>, offset: int, at: int, k: nat)
    requires
        0 <= at,
        holds_at(outer, offset, inner),
        varint_at(inner, at, k) is Ok,
    ensures
        varint_at(outer, offset + at, k) == Ok::<(nat, int), Seq<char>>(
            (varint_at(inner, at, k)->Ok_0.0, offset + varint_at(inner, at, k)->Ok_0.1),
        ),
    decreases 10 - k,
{
    assert(outer[offset + at] == inner[at]) by {
        assert(outer.subrange(offset, offset + inner.len())[at] == outer[offset + at]);
    }
    if inner[at] >= 128 {
        lemma_varint_inside(outer, inner, offset, at + 1, k + 1);
    }
}

/// Reading a field sees only the bytes that hold it.
proof fn lemma_field_inside(
    outer: Seq<u8>,
    inner: Seq<u8>,
    offset: int,
    at: int,
    field: nat,
    wire: nat,
    response: EnvelopeModel,
)
    requires
        0 <= at,
        outer.len() <= MAX_MESSAGE_BYTES,
        holds_at(outer, offset, inner),
        with_field(inner, at, field, wire, response) is Ok,
    ensures
        ({
            let read = with_field(inner, at, field, wire, response)->Ok_0;
            with_field(outer, offset + at, field, wire, response) == Ok::<
                (EnvelopeModel, int),
                Seq<char>,
            >((read.0, offset + read.1))
        }),
{
    if varint_at(inner, at, 0) is Ok {
        lemma_varint_inside(outer, inner, offset, at, 0);
        lemma_varint_at(inner, at, 0);
    }
    if bytes_at(inner, at) is Ok {
        let (start, end) = bytes_at(inner, at)->Ok_0;
        assert(outer.subrange(offset + start, offset + end) =~= inner.subrange(start, end)) by {
            let whole = outer.subrange(offset, offset + inner.len());
            assert(whole == inner);
            assert(outer.subrange(offset + start, offset + end) =~= whole.subrange(start, end));
        }
    }
}

/// A message inside another is read as it is by itself, up to its end.
proof fn lemma_message_inside(
    outer: Seq<u8>,
    inner: Seq<u8>,
    offset: int,
    at: int,
    response: EnvelopeModel,
)
    requires
        0 <= at <= inner.len(),
        outer.len() <= MAX_MESSAGE_BYTES,
        holds_at(outer, offset, inner),
        decoded_from(inner, at, response) is Ok,
    ensures
        decoded_from(outer, offset + at, response) == decoded_from(
            outer,
            offset + inner.len(),
            decoded_from(inner, at, response)->Ok_0,
        ),
    decreases inner.len() - at,
{
    if at < inner.len() {
        let (key, start) = varint_at(inner, at, 0)->Ok_0;
        let (next, end) = with_field(inner, start, key / 8, key % 8, response)->Ok_0;
        lemma_varint_inside(outer, inner, offset, at, 0);
        lemma_varint_at(inner, at, 0);
        lemma_with_field(inner, start, key / 8, key % 8, response);
        lemma_field_inside(outer, inner, offset, start, key / 8, key % 8, response);
        lemma_message_inside(outer, inner, offset, end, next);
    }
}

/// What a field adds to a response does not depend on what the response said.
proof fn lemma_field_alone(
    message: Seq<u8>,
    at: int,
    field: nat,
    wire: nat,
    one: EnvelopeModel,
    other: EnvelopeModel,
)
    requires
        0 <= at <= message.len(),
        with_field(message, at, field, wire, one) is Ok,
    ensures
        with_field(message, at, field, wire, other) is Ok,
        with_field(message, at, field, wire, other)->Ok_0.1 == with_field(
            message,
            at,
            field,
            wire,
            one,
        )->Ok_0.1,
        value_end(message, at, wire) == Ok::<int, Seq<char>>(
            with_field(message, at, field, wire, one)->Ok_0.1,
        ),
        ({
            let a = with_field(message, at, field, wire, one)->Ok_0.0;
            let b = with_field(message, at, field, wire, other)->Ok_0.0;
            let read = documented(field, wire);
            &&& b.request_id == (if read && field == 1 {
                a.request_id
            } else {
                other.request_id
            })
            &&& b.task_id == (if read && field == 2 {
                a.task_id
            } else {
                other.task_id
            })
            &&& b.service == (if read && field == 3 {
                a.service
            } else {
                other.service
            })
            &&& b.message_type == (if read && field == 4 {
                a.message_type
            } else {
                other.message_type
            })
            &&& b.status_code == (if read && field == 5 {
                a.status_code
            } else {
                other.status_code
            })
            &&& b.status_message == (if read && field == 6 {
                a.status_message
            } else {
                other.status_message
            })
            &&& b.result_json == (if read && field == 7 {
                a.result_json
            } else {
                other.result_json
            })
        }),
{
}

/// A message makes of another response what it made of this one in the fields that it holds.
proof fn lemma_message_alone(
    message: Seq<u8>,
    at: int,
    one: EnvelopeModel,
    other: EnvelopeModel,
)
    requires
        0 <= at <= message.len(),
        decoded_from(message, at, one) is Ok,
    ensures
        decoded_from(message, at, other) == Ok::<EnvelopeModel, Seq<char>>(
            overlaid(other, decoded_from(message, at, one)->Ok_0, message, at),
        ),
    decreases message.len() - at,
{
    if at < message.len() {
        let (key, start) = varint_at(message, at, 0)->Ok_0;
        let field = key / 8;
        let wire = key % 8;
        let (next, end) = with_field(message, start, field, wire, one)->Ok_0;
        let (different, _) = with_field(message, start, field, wire, other)->Ok_0;
        lemma_varint_at(message, at, 0);
        lemma_with_field(message, start, field, wire, one);
        lemma_field_alone(message, start, field, wire, one, other);
        lemma_message_alone(message, end, next, different);
        lemma_message_alone(message, end, next, next);
        let r = decoded_from(message, end, next)->Ok_0;
        assert(decoded_from(message, at, other) == decoded_from(message, end, different));
        assert(overlaid(different, r, message, end) == overlaid(other, r, message, at));
    } else {
        assert(overlaid(other, one, message, at) == other);
    }
}

/// Two messages in a row say what the second says in the fields that it holds, and what the first
/// says in the others: the last occurrence of a field wins.
pub proof fn law_last_occurrence_wins(first: Seq<u8>, second: Seq<u8>)
    requires
        decoded(first) is Ok,
        decoded(second) is Ok,
        first.len() + second.len() <= MAX_MESSAGE_BYTES,
    ensures
        decoded(first + second) == Ok::<EnvelopeModel, Seq<char>>(
            overlaid(decoded(first)->Ok_0, decoded(second)->Ok_0, second, 0),
        ),
{
    let both = first + second;
    let said = decoded(first)->Ok_0;
    assert(both.subrange(0, first.len() as int) =~= first);
    assert(both.subrange(first.len() as int, both.len() as int) =~= second);
    lemma_message_inside(both, first, 0, 0, empty_envelope());
    lemma_message_alone(second, 0, empty_envelope(), said);
    lemma_message_inside(both, second, first.len() as int, 0, said);
}

/// Fields that are not documented, of whatever wire type, change nothing behind a message.
pub proof fn law_unknown_fields_change_nothing(message: Seq<u8>, unknown: Seq<u8>)
    requires
        decoded(message) is Ok,
        decoded(unknown) is Ok,
        message.len() + unknown.len() <= MAX_MESSAGE_BYTES,
        forall|field: nat| 1 <= field <= 7 ==> !carries(unknown, field),
    ensures
        decoded(message + unknown) == decoded(message),
{
    law_last_occurrence_wins(message, unknown);
    assert(!carries(unknown, 1) && !carries(unknown, 2) && !carries(unknown, 3) && !carries(
        unknown,
        4,
    ) && !carries(unknown, 5) && !carries(unknown, 6) && !carries(unknown, 7));
}

/// A field that is not documented is skipped by its wire type, wherever it stands.
pub proof fn law_skipped_by_wire_type(
    message: Seq<u8>,
    at: int,
    key: nat,
    start: int,
    end: int,
    response: EnvelopeModel,
)
    requires
        0 <= at < message.len(),
        varint_at(message, at, 0) == Ok::<(nat, int), Seq<char>>((key, start)),
        key / 8 <= u32::MAX,
        !documented(key / 8, key % 8),
        value_end(message, start, key % 8) == Ok::<int, Seq<char>>(end),
    ensures
        key % 8 == 0 || key % 8 == 1 || key % 8 == 2 || key % 8 == 5,
        decoded_from(message, at, response) == decoded_from(message, end, response),
{
}

proof fn lemma_varint_nonempty(value: nat)
    ensures
        varint(value).len() > 0,
{
}

proof fn lemma_bytes_field(message: Seq<u8>, at: int, field: nat, value: Seq<u8>)
    requires
        field <= u32::MAX,
        message.len() <= MAX_MESSAGE_BYTES,
        holds_at(message, at, bytes_field(field, value)),
    ensures
        varint_at(message, at, 0) == Ok::<(nat, int), Seq<char>>(
            ((field * 8 + 2) as nat, at + varint((field * 8 + 2) as nat).len()),
        ),
        ({
            let start = at + varint((field * 8 + 2) as nat).len() + varint(value.len()).len();
            &&& bytes_at(message, at + varint((field * 8 + 2) as nat).len()) == Ok::<
                (int, int),
                Seq<char>,
            >((start, start + value.len()))
            &&& message.subrange(start, start + value.len()) == value
            &&& start + value.len() == at + bytes_field(field, value).len()
        }),
        at < message.len(),
{
    let key = varint((field * 8 + 2) as nat);
    let length = varint(value.len());
    assert(bytes_field(field, value) =~= (key + length) + value);
    lemma_holds_parts(message, at, key + length, value);
    lemma_holds_parts(message, at, key, length);
    law_number_reads_back(message, at, (field * 8 + 2) as u64);
    law_number_reads_back(message, at + key.len(), value.len() as u64);
    lemma_varint_nonempty((field * 8 + 2) as nat);
}

/// The number that groups of seven bits make, the lowest group first.
pub open spec fn grouped_number(bytes: Seq<u8>) -> nat
    decreases bytes.len(),
{
    if bytes.len() == 0 {
        0
    } else {
        bytes[0] as nat % 128 + 128 * grouped_number(bytes.skip(1))
    }
}

/// A number is written in groups of seven bits, the lowest first, no more groups than it needs; every
/// byte but the last has its high bit set.
pub proof fn law_numbers_are_written_in_groups(value: nat)
    ensures
        grouped_number(varint(value)) == value,
        varint(value).len() > 0,
        forall|i: int| 0 <= i < varint(value).len() - 1 ==> #[trigger] varint(value)[i] >= 128,
        varint(value).last() < 128,
        varint(value).len() > 1 ==> varint(value).last() > 0,
    decreases value,
{
    if value < 128 {
        let bytes = varint(value);
        assert(bytes.skip(1) =~= Seq::<u8>::empty());
        assert(grouped_number(bytes.skip(1)) == 0);
    } else {
        law_numbers_are_written_in_groups(value / 128);
        let rest = varint(value / 128);
        let bytes = varint(value);
        assert(bytes.skip(1) =~= rest);
        assert(bytes[0] as nat % 128 == value % 128);
        assert(bytes.last() == rest.last());
        assert forall|i: int| 0 <= i < bytes.len() - 1 implies #[trigger] bytes[i] >= 128 by {
            if i > 0 {
                assert(bytes[i] == rest[i - 1]);
            }
        }
        if rest.len() == 1 {
            assert(rest.last() == rest[0]);
            assert(value / 128 < 128) by {
                if value / 128 >= 128 {
                    let deeper = varint(value / 128 / 128);
                    law_numbers_are_written_in_groups(value / 128 / 128);
                    assert(rest.len() == 1 + deeper.len());
                }
            }
        }
    }
}

/// The bytes of a field with their length before them.
pub open spec fn keyed(key: u8, value: Seq<u8>) -> Seq<u8> {
    seq![key] + varint(value.len()) + value
}

/// A request on the wire: the token where there is one, the service, the method, the description and
/// the audio where there are any, the name of the request, and the place of an audio frame, each
/// behind its key.
pub proof fn law_request_on_the_wire(
    token: Seq<char>,
    method: Seq<char>,
    json_payload: Seq<u8>,
    audio: Seq<u8>,
    request_id: Seq<char>,
    frame_state: Option<FrameState>,
)
    ensures
        request_bytes(token, method, json_payload, audio, request_id, frame_state) == (
        if encode_utf8(token).len() == 0 {
            Seq::empty()
        } else {
            keyed(18, encode_utf8(token))
        }) + seq![26u8, 3u8, 65u8, 83u8, 82u8] + keyed(42, encode_utf8(method)) + (
        if json_payload.len() == 0 {
            Seq::empty()
        } else {
            keyed(50, json_payload)
        }) + (if audio.len() == 0 {
            Seq::empty()
        } else {
            keyed(58, audio)
        }) + keyed(66, encode_utf8(request_id)) + (match frame_state {
            Some(FrameState::First) => seq![72u8, 1u8],
            Some(FrameState::Middle) => seq![72u8, 3u8],
            Some(FrameState::Last) => seq![72u8, 9u8],
            None => Seq::empty(),
        }),
{
    assert(varint(3) =~= seq![3u8]);
    let service = seq![65u8, 83u8, 82u8];
    assert(keyed(26, service) =~= seq![26u8, 3u8, 65u8, 83u8, 82u8]);
    assert(bytes_field(2, encode_utf8(token)) =~= keyed(18, encode_utf8(token)));
    assert(bytes_field(3, service) =~= keyed(26, service));
    assert(bytes_field(5, encode_utf8(method)) =~= keyed(42, encode_utf8(method)));
    assert(bytes_field(6, json_payload) =~= keyed(50, json_payload));
    assert(bytes_field(7, audio) =~= keyed(58, audio));
    assert(bytes_field(8, encode_utf8(request_id)) =~= keyed(66, encode_utf8(request_id)));
    assert(number_field(9, 1) =~= seq![72u8, 1u8]);
    assert(number_field(9, 3) =~= seq![72u8, 3u8]);
    assert(number_field(9, 9) =~= seq![72u8, 9u8]);
}

/// A response on the wire is read by its keys: 10, 18, 26, 34 and 50 hold texts, 40 the status and 58
/// the result.
pub proof fn law_response_on_the_wire(text: Seq<char>, result: Seq<u8>, status: u64)
    requires
        encode_utf8(text).len() + 20 <= MAX_MESSAGE_BYTES,
        result.len() + 20 <= MAX_MESSAGE_BYTES,
    ensures
        ({
            let bytes = encode_utf8(text);
            let none = EnvelopeModel {
                request_id: Seq::empty(),
                task_id: Seq::empty(),
                service: Seq::empty(),
                message_type: Seq::empty(),
                status_code: 0,
                status_message: Seq::empty(),
                result_json: Seq::empty(),
            };
            &&& decoded(keyed(10, bytes)) == Ok::<EnvelopeModel, Seq<char>>(
                EnvelopeModel { request_id: text, ..none },
            )
            &&& decoded(keyed(18, bytes)) == Ok::<EnvelopeModel, Seq<char>>(
                EnvelopeModel { task_id: text, ..none },
            )
            &&& decoded(keyed(26, bytes)) == Ok::<EnvelopeModel, Seq<char>>(
                EnvelopeModel { service: text, ..none },
            )
            &&& decoded(keyed(34, bytes)) == Ok::<EnvelopeModel, Seq<char>>(
                EnvelopeModel { message_type: text, ..none },
            )
            &&& decoded(keyed(50, bytes)) == Ok::<EnvelopeModel, Seq<char>>(
                EnvelopeModel { status_message: text, ..none },
            )
            &&& decoded(keyed(58, result)) == Ok::<EnvelopeModel, Seq<char>>(
                EnvelopeModel { result_json: result, ..none },
            )
            &&& decoded(seq![40u8] + varint(status as nat)) == Ok::<EnvelopeModel, Seq<char>>(
                EnvelopeModel { status_code: status, ..none },
            )
            &&& decoded(Seq::empty()) == Ok::<EnvelopeModel, Seq<char>>(none)
        }),
{
    lemma_lone_text(1, 10, text);
    lemma_lone_text(2, 18, text);
    lemma_lone_text(3, 26, text);
    lemma_lone_text(4, 34, text);
    lemma_lone_text(6, 50, text);
    let whole = keyed(58, result);
    assert(bytes_field(7, result) =~= whole);
    lemma_short_length(result.len());
    assert(whole.subrange(0, whole.len() as int) =~= whole);
    law_result_field_reads_back(whole, 0, result, empty_envelope());
    let told = seq![40u8] + varint(status as nat);
    assert(number_field(5, status as nat) =~= told);
    lemma_short_length(status as nat);
    assert(told.subrange(0, told.len() as int) =~= told);
    law_status_field_reads_back(told, 0, status, empty_envelope());
}

proof fn lemma_short_length(n: nat)
    requires
        n <= u64::MAX,
    ensures
        0 < varint(n).len() <= 10,
{
    reveal_with_fuel(varint, 11);
    assert(n / 128 / 128 / 128 / 128 / 128 / 128 / 128 / 128 / 128 < 128);
}

proof fn lemma_lone_text(field: nat, key: u8, text: Seq<char>)
    requires
        1 <= field <= 4 || field == 6,
        key == field * 8 + 2,
        encode_utf8(text).len() + 20 <= MAX_MESSAGE_BYTES,
    ensures
        ({
            let response = empty_envelope();
            decoded(keyed(key, encode_utf8(text))) == Ok::<EnvelopeModel, Seq<char>>(
                if field == 1 {
                    EnvelopeModel { request_id: text, ..response }
                } else if field == 2 {
                    EnvelopeModel { task_id: text, ..response }
                } else if field == 3 {
                    EnvelopeModel { service: text, ..response }
                } else if field == 4 {
                    EnvelopeModel { message_type: text, ..response }
                } else {
                    EnvelopeModel { status_message: text, ..response }
                },
            )
        }),
{
    let bytes = encode_utf8(text);
    let whole = keyed(key, bytes);
    assert(bytes_field(field, bytes) =~= whole);
    lemma_short_length(bytes.len());
    assert(whole.subrange(0, whole.len() as int) =~= whole);
    law_text_field_reads_back(whole, 0, field, text, empty_envelope());
}

} // verus!
