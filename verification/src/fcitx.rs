//! Messages of the minimal Fcitx5 input-context bridge.

use crate::error::{ErrorCategory, VoxError};
use crate::session::SessionId;
use crate::text::{
    blank, contains, contains_text, decimal, decode_text, is_blank, join2, join3, owned,
    parse_number, parsed_number, pieces, same_bytes, same_text, split, texts, write_number,
};
use vstd::prelude::*;
use vstd::slice::slice_to_vec;
use vstd::string::*;
use vstd::utf8::*;

verus! {

pub const MAX_MESSAGE_BYTES: usize = 61_440;

pub const MAX_RESPONSE_BYTES: usize = 20_480;

pub const MAX_CONTEXT_CHARACTERS: usize = 4_096;

/// The requests that the bridge takes.
#[derive(Clone, Copy, Debug)]
pub struct FcitxBridge;

#[derive(Debug, Eq, PartialEq)]
pub struct FcitxTarget {
    pub program: String,
    pub frontend: String,
}

#[derive(Debug, Eq, PartialEq)]
pub struct FcitxContext {
    pub target: FcitxTarget,
    pub generation: u64,
    pub cursor: usize,
    pub anchor: usize,
    pub capabilities: Vec<String>,
    pub truncated: bool,
    pub text: String,
}

/// The parts one after the other, with a zero byte between two of them.
pub open spec fn joined(parts: Seq<Seq<u8>>) -> Seq<u8>
    decreases parts.len(),
{
    if parts.len() == 0 {
        Seq::empty()
    } else if parts.len() == 1 {
        parts[0]
    } else {
        joined(parts.drop_last()).push(0) + parts.last()
    }
}

/// The fields of a message between its zero bytes.
pub open spec fn fields_of(message: Seq<u8>) -> Seq<Seq<u8>>
    decreases message.len(),
{
    if message.len() == 0 {
        seq![Seq::empty()]
    } else {
        let before = fields_of(message.drop_last());
        if message.last() == 0 {
            before.push(Seq::empty())
        } else {
            before.drop_last().push(before.last().push(message.last()))
        }
    }
}

pub open spec fn byte_views(parts: Seq<Vec<u8>>) -> Seq<Seq<u8>> {
    Seq::new(parts.len(), |i: int| parts[i]@)
}

proof fn lemma_fields_nonempty(message: Seq<u8>)
    ensures
        fields_of(message).len() > 0,
    decreases message.len(),
{
    if message.len() > 0 {
        lemma_fields_nonempty(message.drop_last());
    }
}

fn split_fields(message: &[u8]) -> (fields: Vec<Vec<u8>>)
    ensures
        byte_views(fields@) == fields_of(message@),
        fields@.len() > 0,
{
    let mut fields: Vec<Vec<u8>> = Vec::new();
    let mut current: Vec<u8> = Vec::new();
    assert(byte_views(fields@).push(current@) =~= fields_of(message@.take(0)));
    for i in 0..message.len()
        invariant
            byte_views(fields@).push(current@) == fields_of(message@.take(i as int)),
    {
        proof {
            assert(message@.take(i + 1).drop_last() =~= message@.take(i as int));
        }
        let ghost before = byte_views(fields@);
        let ghost piece = current@;
        if message[i] == 0 {
            fields.push(current);
            current = Vec::new();
            assert(byte_views(fields@) =~= before.push(piece));
            assert(current@ =~= Seq::<u8>::empty());
        } else {
            current.push(message[i]);
            assert(before.push(piece).drop_last() =~= before);
        }
    }
    assert(message@.take(message@.len() as int) =~= message@);
    let ghost before = byte_views(fields@);
    let ghost piece = current@;
    fields.push(current);
    assert(byte_views(fields@) =~= before.push(piece));
    fields
}

/// A message that is too large for one datagram.
pub open spec fn too_large(error: VoxError) -> bool {
    error.says(
        ErrorCategory::Protocol,
        "fcitx.message_too_large"@,
        "Fcitx bridge request exceeds the bounded datagram size"@,
        false,
    )
}

/// `r` is the message that the parts make.
pub open spec fn encodes(r: Result<Vec<u8>, VoxError>, parts: Seq<Seq<u8>>) -> bool {
    match r {
        Ok(message) => message@ == joined(parts) && message@.len() <= MAX_MESSAGE_BYTES,
        Err(error) => joined(parts).len() > MAX_MESSAGE_BYTES && too_large(error),
    }
}

pub open spec fn slice_views(parts: Seq<&[u8]>) -> Seq<Seq<u8>> {
    Seq::new(parts.len(), |i: int| parts[i]@)
}

proof fn lemma_joined_grows(parts: Seq<Seq<u8>>, n: int)
    requires
        0 <= n <= parts.len(),
    ensures
        joined(parts.take(n)).len() <= joined(parts).len(),
    decreases parts.len() - n,
{
    if n < parts.len() {
        lemma_joined_grows(parts, n + 1);
        assert(parts.take(n + 1).drop_last() =~= parts.take(n));
    } else {
        assert(parts.take(n) =~= parts);
    }
}

/// Joins the parts of a message, which has to fit one datagram.
pub fn encode_message(parts: &[&[u8]]) -> (r: Result<Vec<u8>, VoxError>)
    ensures
        encodes(r, slice_views(parts@)),
{
    let ghost views = slice_views(parts@);
    let mut message: Vec<u8> = Vec::new();
    assert(views.take(0) =~= Seq::<Seq<u8>>::empty());
    for i in 0..parts.len()
        invariant
            views == slice_views(parts@),
            message@ == joined(views.take(i as int)),
            message@.len() <= MAX_MESSAGE_BYTES,
    {
        let part = parts[i];
        proof {
            assert(views.take(i + 1).drop_last() =~= views.take(i as int));
            assert(views.take(i + 1).last() == part@);
            lemma_joined_grows(views, i + 1);
        }
        if part.len() > MAX_MESSAGE_BYTES {
            return Err(message_too_large());
        }
        if i > 0 {
            message.push(0);
        }
        message.extend_from_slice(part);
        assert(message@ =~= joined(views.take(i + 1)));
        if message.len() > MAX_MESSAGE_BYTES {
            return Err(message_too_large());
        }
    }
    assert(views.take(views.len() as int) =~= views);
    Ok(message)
}

fn message_too_large() -> (error: VoxError)
    ensures
        too_large(error),
{
    VoxError::new(
        ErrorCategory::Protocol,
        "fcitx.message_too_large",
        "Fcitx bridge request exceeds the bounded datagram size",
    )
}

pub open spec fn bytes_of(text: Seq<char>) -> Seq<u8> {
    encode_utf8(text)
}

pub open spec fn field(fields: Seq<Seq<u8>>, i: int) -> Option<Seq<u8>> {
    if 0 <= i < fields.len() {
        Some(fields[i])
    } else {
        None
    }
}

/// The bridge took the request.
pub open spec fn accepted(response: Seq<u8>) -> bool {
    fields_of(response)[0] == bytes_of("OK"@)
}

/// The word for which the bridge did not take the request.
pub open spec fn rejection(response: Seq<u8>) -> Seq<char> {
    match field(fields_of(response), 1) {
        Some(code) if valid_utf8(code) => decode_utf8(code),
        _ => "bridge-error"@,
    }
}

/// What a rejection means.
pub open spec fn rejection_category(code: Seq<char>) -> ErrorCategory {
    if code == "secure-context"@ {
        ErrorCategory::Permission
    } else if code == "no-focused-context"@ || code == "focus-changed"@ {
        ErrorCategory::InvalidState
    } else if code == "session-mismatch"@ || code == "empty-text"@ {
        ErrorCategory::Protocol
    } else {
        ErrorCategory::Unavailable
    }
}

/// The error of a request that the bridge did not take.
pub open spec fn rejected(error: VoxError, response: Seq<u8>) -> bool {
    error.says(
        rejection_category(rejection(response)),
        "fcitx.bridge_rejected"@,
        "Fcitx bridge rejected request: "@ + rejection(response),
        false,
    )
}

/// Whether the bridge took the request.
pub fn expect_ok(response: &[u8]) -> (r: Result<(), VoxError>)
    ensures
        match r {
            Ok(_) => accepted(response@),
            Err(error) => !accepted(response@) && rejected(error, response@),
        },
{
    let fields = split_fields(response);
    proof {
        assert(fields_of(response@)[0] == fields@[0]@);
    }
    if same_bytes(&fields[0], "OK".as_bytes()) {
        return Ok(());
    }
    let code = if fields.len() > 1 {
        assert(fields_of(response@)[1] == fields@[1]@);
        match decode_text(slice_to_vec(&fields[1])) {
            Ok(code) => code,
            Err(_) => owned("bridge-error"),
        }
    } else {
        owned("bridge-error")
    };
    let word = code.as_str();
    let category = if same_text(word, "secure-context") {
        ErrorCategory::Permission
    } else if same_text(word, "no-focused-context") || same_text(word, "focus-changed") {
        ErrorCategory::InvalidState
    } else if same_text(word, "session-mismatch") || same_text(word, "empty-text") {
        ErrorCategory::Protocol
    } else {
        ErrorCategory::Unavailable
    };
    let message = join2("Fcitx bridge rejected request: ", word);
    Err(VoxError::new(category, "fcitx.bridge_rejected", message.as_str()))
}

/// The bridge says that the text went to the input context.
pub open spec fn says_dispatched(response: Seq<u8>) -> bool {
    match field(fields_of(response), 1) {
        Some(detail) => detail == bytes_of("dispatched"@) || detail == bytes_of("committed"@),
        None => false,
    }
}

fn tells_dispatch(response: &[u8]) -> (r: bool)
    ensures
        r == says_dispatched(response@),
{
    let fields = split_fields(response);
    if fields.len() > 1 {
        assert(fields_of(response@)[1] == fields@[1]@);
        same_bytes(&fields[1], "dispatched".as_bytes()) || same_bytes(
            &fields[1],
            "committed".as_bytes(),
        )
    } else {
        false
    }
}

/// Whether a commit went to the input context.
pub fn expect_dispatched(response: &[u8]) -> (r: Result<(), VoxError>)
    ensures
        match r {
            Ok(_) => accepted(response@) && says_dispatched(response@),
            Err(error) => if !accepted(response@) {
                rejected(error, response@)
            } else {
                !says_dispatched(response@) && error.says(
                    ErrorCategory::Protocol,
                    "fcitx.dispatch_unconfirmed"@,
                    "Fcitx bridge did not confirm dispatch to the input context"@,
                    false,
                )
            },
        },
{
    match expect_ok(response) {
        Ok(_) => {},
        Err(error) => {
            return Err(error);
        },
    }
    if tells_dispatch(response) {
        Ok(())
    } else {
        Err(
            VoxError::new(
                ErrorCategory::Protocol,
                "fcitx.dispatch_unconfirmed",
                "Fcitx bridge did not confirm dispatch to the input context",
            ),
        )
    }
}

/// The bridge names the request that it answers.
pub open spec fn echoes(response: Seq<u8>, request_id: Seq<char>) -> bool {
    match field(fields_of(response), 2) {
        Some(echoed) => valid_utf8(echoed) && decode_utf8(echoed) == request_id,
        None => false,
    }
}

/// Whether the commit with this request id went to the input context.
pub fn expect_dispatched_for(response: &[u8], request_id: &str) -> (r: Result<(), VoxError>)
    ensures
        match r {
            Ok(_) => {
                &&& accepted(response@)
                &&& says_dispatched(response@)
                &&& echoes(response@, request_id@)
            },
            Err(error) => if !accepted(response@) {
                rejected(error, response@)
            } else {
                &&& !(says_dispatched(response@) && echoes(response@, request_id@))
                &&& error.says(
                    ErrorCategory::Protocol,
                    "fcitx.dispatch_unconfirmed"@,
                    "Fcitx bridge did not confirm dispatch for this request id"@,
                    false,
                )
            },
        },
{
    match expect_ok(response) {
        Ok(_) => {},
        Err(error) => {
            return Err(error);
        },
    }
    let fields = split_fields(response);
    let echoed = if fields.len() > 2 {
        assert(fields_of(response@)[2] == fields@[2]@);
        match decode_text(slice_to_vec(&fields[2])) {
            Ok(id) => same_text(id.as_str(), request_id),
            Err(_) => false,
        }
    } else {
        false
    };
    if tells_dispatch(response) && echoed {
        Ok(())
    } else {
        Err(
            VoxError::new(
                ErrorCategory::Protocol,
                "fcitx.dispatch_unconfirmed",
                "Fcitx bridge did not confirm dispatch for this request id",
            ),
        )
    }
}

/// What a target is.
pub struct TargetModel {
    pub program: Seq<char>,
    pub frontend: Seq<char>,
}

impl FcitxTarget {
    pub open spec fn view(&self) -> TargetModel {
        TargetModel { program: self.program@, frontend: self.frontend@ }
    }
}

pub open spec fn invalid(error: VoxError, message: Seq<char>) -> bool {
    error.says(ErrorCategory::Protocol, "fcitx.invalid_response"@, message, false)
}

fn invalid_response(message: &str) -> (error: VoxError)
    ensures
        invalid(error, message@),
{
    VoxError::new(ErrorCategory::Protocol, "fcitx.invalid_response", message)
}

/// The name that a field holds: an empty or missing one is unknown.
pub open spec fn identity_in(named: Option<Seq<u8>>) -> Result<Seq<char>, Seq<char>> {
    match named {
        None => Ok("unknown"@),
        Some(bytes) => if !valid_utf8(bytes) {
            Err("Fcitx bridge response contains invalid UTF-8"@)
        } else if decode_utf8(bytes).len() == 0 {
            Ok("unknown"@)
        } else {
            Ok(decode_utf8(bytes))
        },
    }
}

/// `r` is what a field was read as.
pub open spec fn reads_text(
    r: Result<String, VoxError>,
    read: Result<Seq<char>, Seq<char>>,
) -> bool {
    match read {
        Ok(text) => r matches Ok(value) && value@ == text,
        Err(message) => r matches Err(error) && invalid(error, message),
    }
}

fn parse_identity_field(fields: &Vec<Vec<u8>>, i: usize) -> (r: Result<String, VoxError>)
    ensures
        reads_text(r, identity_in(field(byte_views(fields@), i as int))),
{
    if i >= fields.len() {
        return Ok(owned("unknown"));
    }
    assert(byte_views(fields@)[i as int] == fields@[i as int]@);
    match decode_text(slice_to_vec(&fields[i])) {
        Ok(name) => if name.as_str().unicode_len() == 0 {
            Ok(owned("unknown"))
        } else {
            Ok(name)
        },
        Err(_) => Err(invalid_response("Fcitx bridge response contains invalid UTF-8")),
    }
}

/// The target that an answer to an arm request names.
pub open spec fn target_in(fields: Seq<Seq<u8>>) -> Result<TargetModel, Seq<char>> {
    match identity_in(field(fields, 2)) {
        Err(message) => Err(message),
        Ok(program) => match identity_in(field(fields, 3)) {
            Err(message) => Err(message),
            Ok(frontend) => Ok(TargetModel { program, frontend }),
        },
    }
}

fn read_target(fields: &Vec<Vec<u8>>) -> (r: Result<FcitxTarget, VoxError>)
    ensures
        match target_in(byte_views(fields@)) {
            Ok(target) => r matches Ok(found) && found@ == target,
            Err(message) => r matches Err(error) && invalid(error, message),
        },
{
    let program = match parse_identity_field(fields, 2) {
        Ok(program) => program,
        Err(error) => {
            return Err(error);
        },
    };
    match parse_identity_field(fields, 3) {
        Ok(frontend) => Ok(FcitxTarget { program, frontend }),
        Err(error) => Err(error),
    }
}

/// Reads the answer to an arm request.
pub fn parse_arm_response(response: &[u8]) -> (r: Result<FcitxTarget, VoxError>)
    ensures
        if !accepted(response@) {
            r matches Err(error) && rejected(error, response@)
        } else {
            match target_in(fields_of(response@)) {
                Ok(target) => r matches Ok(found) && found@ == target,
                Err(message) => r matches Err(error) && invalid(error, message),
            }
        },
{
    match expect_ok(response) {
        Ok(_) => {},
        Err(error) => {
            return Err(error);
        },
    }
    let fields = split_fields(response);
    read_target(&fields)
}

/// What a context snapshot says.
pub struct ContextModel {
    pub target: TargetModel,
    pub generation: u64,
    pub cursor: nat,
    pub anchor: nat,
    pub capabilities: Seq<Seq<char>>,
    pub truncated: bool,
    pub text: Seq<char>,
}

impl FcitxContext {
    pub open spec fn view(&self) -> ContextModel {
        ContextModel {
            target: self.target@,
            generation: self.generation,
            cursor: self.cursor as nat,
            anchor: self.anchor as nat,
            capabilities: texts(self.capabilities@),
            truncated: self.truncated,
            text: self.text@,
        }
    }
}

/// The text that a field holds; `name` is what it is called in an error.
pub open spec fn text_in(named: Option<Seq<u8>>, name: Seq<char>) -> Result<Seq<char>, Seq<char>> {
    match named {
        None => Err("Fcitx "@ + name + " is missing"@),
        Some(bytes) => if valid_utf8(bytes) {
            Ok(decode_utf8(bytes))
        } else {
            Err("Fcitx "@ + name + " contains invalid UTF-8"@)
        },
    }
}

fn parse_utf8(fields: &Vec<Vec<u8>>, i: usize, name: &str) -> (r: Result<String, VoxError>)
    ensures
        reads_text(r, text_in(field(byte_views(fields@), i as int), name@)),
{
    if i >= fields.len() {
        let message = join3("Fcitx ", name, " is missing");
        return Err(invalid_response(message.as_str()));
    }
    assert(byte_views(fields@)[i as int] == fields@[i as int]@);
    match decode_text(slice_to_vec(&fields[i])) {
        Ok(text) => Ok(text),
        Err(_) => {
            let message = join3("Fcitx ", name, " contains invalid UTF-8");
            Err(invalid_response(message.as_str()))
        },
    }
}

/// The number that a field holds.
pub open spec fn number_in(named: Option<Seq<u8>>, name: Seq<char>) -> Result<nat, Seq<char>> {
    match text_in(named, name) {
        Err(message) => Err(message),
        Ok(text) => match parsed_number(text, u64::MAX as nat) {
            Some(n) => Ok(n),
            None => Err("Fcitx "@ + name + " is invalid"@),
        },
    }
}

fn parse_number_field(fields: &Vec<Vec<u8>>, i: usize, name: &str) -> (r: Result<u64, VoxError>)
    ensures
        match number_in(field(byte_views(fields@), i as int), name@) {
            Ok(n) => r matches Ok(value) && value == n,
            Err(message) => r matches Err(error) && invalid(error, message),
        },
{
    match parse_utf8(fields, i, name) {
        Err(error) => Err(error),
        Ok(text) => match parse_number(text.as_str(), u64::MAX) {
            Some(n) => Ok(n),
            None => {
                let message = join3("Fcitx ", name, " is invalid");
                Err(invalid_response(message.as_str()))
            },
        },
    }
}

/// The position in a text that a field holds.
pub open spec fn position_in(named: Option<Seq<u8>>, name: Seq<char>) -> Result<nat, Seq<char>> {
    match number_in(named, name) {
        Err(message) => Err(message),
        Ok(n) => if n <= usize::MAX {
            Ok(n)
        } else {
            Err("Fcitx "@ + name + " is out of range"@)
        },
    }
}

fn parse_position(fields: &Vec<Vec<u8>>, i: usize, name: &str) -> (r: Result<usize, VoxError>)
    ensures
        match position_in(field(byte_views(fields@), i as int), name@) {
            Ok(n) => r matches Ok(value) && value == n,
            Err(message) => r matches Err(error) && invalid(error, message),
        },
{
    match parse_number_field(fields, i, name) {
        Err(error) => Err(error),
        Ok(n) => if n <= usize::MAX as u64 {
            Ok(n as usize)
        } else {
            let message = join3("Fcitx ", name, " is out of range");
            Err(invalid_response(message.as_str()))
        },
    }
}

/// The texts that are not empty.
pub open spec fn nonempty(parts: Seq<Seq<char>>) -> Seq<Seq<char>>
    decreases parts.len(),
{
    if parts.len() == 0 {
        Seq::empty()
    } else if parts.last().len() == 0 {
        nonempty(parts.drop_last())
    } else {
        nonempty(parts.drop_last()).push(parts.last())
    }
}

fn split_capabilities(list: &str) -> (r: Vec<String>)
    ensures
        texts(r@) == nonempty(pieces(list@, ',')),
{
    let parts = split(list, ',');
    let ghost all = texts(parts@);
    let mut kept: Vec<String> = Vec::new();
    assert(texts(kept@) =~= nonempty(all.take(0)));
    for i in 0..parts.len()
        invariant
            all == texts(parts@),
            texts(kept@) == nonempty(all.take(i as int)),
    {
        proof {
            assert(all.take(i + 1).drop_last() =~= all.take(i as int));
            assert(all.take(i + 1).last() == parts@[i as int]@);
        }
        if parts[i].as_str().unicode_len() > 0 {
            let ghost before = texts(kept@);
            kept.push(parts[i].clone());
            assert(texts(kept@) =~= before.push(parts@[i as int]@));
        }
    }
    assert(all.take(all.len() as int) =~= all);
    kept
}

/// The snapshot that the fields of an answer make, or what is wrong with them.
pub open spec fn context_in(fields: Seq<Seq<u8>>) -> Result<ContextModel, Seq<char>> {
    if field(fields, 1) != Some(bytes_of("context"@)) {
        Err("Fcitx bridge response is not a context snapshot"@)
    } else {
        match target_in(fields) {
            Err(message) => Err(message),
            Ok(target) => match number_in(field(fields, 4), "context generation"@) {
                Err(message) => Err(message),
                Ok(generation) => match position_in(field(fields, 5), "cursor"@) {
                    Err(message) => Err(message),
                    Ok(cursor) => match position_in(field(fields, 6), "anchor"@) {
                        Err(message) => Err(message),
                        Ok(anchor) => rest_in(fields, target, generation, cursor, anchor),
                    },
                },
            },
        }
    }
}

/// The snapshot from its capabilities on.
pub open spec fn rest_in(
    fields: Seq<Seq<u8>>,
    target: TargetModel,
    generation: nat,
    cursor: nat,
    anchor: nat,
) -> Result<ContextModel, Seq<char>> {
    match text_in(field(fields, 7), "capabilities"@) {
        Err(message) => Err(message),
        Ok(list) => if field(fields, 8) != Some(bytes_of("0"@)) && field(fields, 8) != Some(
            bytes_of("1"@),
        ) {
            Err("Fcitx truncation flag is invalid"@)
        } else {
            match text_in(field(fields, 9), "surrounding text"@) {
                Err(message) => Err(message),
                Ok(text) => if text.len() > MAX_CONTEXT_CHARACTERS || cursor > text.len() || anchor
                    > text.len() {
                    Err("Fcitx surrounding text or cursor exceeds the bounded context"@)
                } else {
                    Ok(
                        ContextModel {
                            target,
                            generation: generation as u64,
                            cursor,
                            anchor,
                            capabilities: nonempty(pieces(list, ',')),
                            truncated: field(fields, 8) == Some(bytes_of("1"@)),
                            text,
                        },
                    )
                },
            }
        },
    }
}

/// `r` is what a context snapshot was read as.
pub open spec fn reads_context(
    r: Result<FcitxContext, VoxError>,
    read: Result<ContextModel, Seq<char>>,
) -> bool {
    match read {
        Ok(context) => r matches Ok(found) && found@ == context,
        Err(message) => r matches Err(error) && invalid(error, message),
    }
}

fn is_field(fields: &Vec<Vec<u8>>, i: usize, text: &str) -> (r: bool)
    ensures
        r == (field(byte_views(fields@), i as int) == Some(bytes_of(text@))),
{
    if i >= fields.len() {
        return false;
    }
    assert(byte_views(fields@)[i as int] == fields@[i as int]@);
    same_bytes(&fields[i], text.as_bytes())
}

fn read_rest(
    fields: &Vec<Vec<u8>>,
    target: FcitxTarget,
    generation: u64,
    cursor: usize,
    anchor: usize,
) -> (r: Result<FcitxContext, VoxError>)
    ensures
        reads_context(
            r,
            rest_in(
                byte_views(fields@),
                target@,
                generation as nat,
                cursor as nat,
                anchor as nat,
            ),
        ),
{
    let list = match parse_utf8(fields, 7, "capabilities") {
        Ok(list) => list,
        Err(error) => {
            return Err(error);
        },
    };
    let truncated = is_field(fields, 8, "1");
    if !truncated && !is_field(fields, 8, "0") {
        return Err(invalid_response("Fcitx truncation flag is invalid"));
    }
    let text = match parse_utf8(fields, 9, "surrounding text") {
        Ok(text) => text,
        Err(error) => {
            return Err(error);
        },
    };
    let characters: usize = text.as_str().unicode_len();
    if characters > MAX_CONTEXT_CHARACTERS || cursor > characters || anchor > characters {
        return Err(
            invalid_response("Fcitx surrounding text or cursor exceeds the bounded context"),
        );
    }
    let capabilities = split_capabilities(list.as_str());
    Ok(FcitxContext { target, generation, cursor, anchor, capabilities, truncated, text })
}

/// Reads the answer to a context request.
pub fn parse_context_response(response: &[u8]) -> (r: Result<FcitxContext, VoxError>)
    ensures
        if !accepted(response@) {
            r matches Err(error) && rejected(error, response@)
        } else {
            reads_context(r, context_in(fields_of(response@)))
        },
{
    match expect_ok(response) {
        Ok(_) => {},
        Err(error) => {
            return Err(error);
        },
    }
    let fields = split_fields(response);
    if !is_field(&fields, 1, "context") {
        return Err(invalid_response("Fcitx bridge response is not a context snapshot"));
    }
    let target = match read_target(&fields) {
        Ok(target) => target,
        Err(error) => {
            return Err(error);
        },
    };
    let generation: u64 = match parse_number_field(&fields, 4, "context generation") {
        Ok(generation) => generation,
        Err(error) => {
            return Err(error);
        },
    };
    let cursor: usize = match parse_position(&fields, 5, "cursor") {
        Ok(cursor) => cursor,
        Err(error) => {
            return Err(error);
        },
    };
    let anchor: usize = match parse_position(&fields, 6, "anchor") {
        Ok(anchor) => anchor,
        Err(error) => {
            return Err(error);
        },
    };
    read_rest(&fields, target, generation, cursor, anchor)
}

/// The characters from `start` to before `end`, as far as there are any.
pub open spec fn characters(text: Seq<char>, start: nat, end: nat) -> Seq<char> {
    let from = if start < text.len() {
        start
    } else {
        text.len()
    };
    let to = if end < from {
        from
    } else if end < text.len() {
        end
    } else {
        text.len()
    };
    text.subrange(from as int, to as int)
}

fn slice_characters(text: &str, start: usize, end: usize) -> (r: String)
    ensures
        r@ == characters(text@, start as nat, end as nat),
{
    let length: usize = text.unicode_len();
    let from: usize = if start < length {
        start
    } else {
        length
    };
    let to: usize = if end < from {
        from
    } else if end < length {
        end
    } else {
        length
    };
    owned(text.substring_char(from, to))
}

impl FcitxContext {
    /// What is to be reviewed: the selection, or else up to 1200 characters before the cursor.
    pub open spec fn reviewed(context: ContextModel) -> Seq<char> {
        if context.cursor < context.anchor {
            characters(context.text, context.cursor, context.anchor)
        } else if context.anchor < context.cursor {
            characters(context.text, context.anchor, context.cursor)
        } else if context.cursor < 1_200 {
            characters(context.text, 0, context.cursor)
        } else {
            characters(context.text, (context.cursor - 1_200) as nat, context.cursor)
        }
    }

    /// Returns the selected text, or up to 1200 characters before the cursor.
    pub fn review_text(&self) -> (r: String)
        ensures
            r@ == Self::reviewed(self@),
    {
        if self.cursor < self.anchor {
            slice_characters(self.text.as_str(), self.cursor, self.anchor)
        } else if self.anchor < self.cursor {
            slice_characters(self.text.as_str(), self.anchor, self.cursor)
        } else {
            slice_characters(self.text.as_str(), self.cursor.saturating_sub(1_200), self.cursor)
        }
    }
}

/// What comes next after the answer to a commit.
#[derive(Clone, Copy, Debug, Eq, PartialEq, Structural)]
pub enum CommitStep {
    Committed,
    /// The addon does not know this form of commit; the plain one is to be tried.
    TryPlain,
}

/// The addon does not know the request.
pub open spec fn unknown_command(response: Seq<u8>) -> bool {
    contains_text("Fcitx bridge rejected request: "@ + rejection(response), "unknown-command"@)
}

/// What comes next after a request was sent.
#[derive(Debug)]
pub enum RetryStep {
    Answered(Vec<u8>),
    /// The same message is to be sent once more.
    SendAgain,
    Failed(VoxError),
}

/// A request whose transport failed is sent once more, unchanged.
pub fn retry_message(first: Result<Vec<u8>, VoxError>) -> (step: RetryStep)
    ensures
        match first {
            Ok(response) => step matches RetryStep::Answered(answer) && answer@ == response@,
            Err(error) => if error.code_text() == "fcitx.transport_failed"@ {
                step is SendAgain
            } else {
                step matches RetryStep::Failed(failed) && failed == error
            },
        },
{
    match first {
        Ok(response) => RetryStep::Answered(response),
        Err(error) => if same_text(error.code(), "fcitx.transport_failed") {
            RetryStep::SendAgain
        } else {
            RetryStep::Failed(error)
        },
    }
}

impl FcitxBridge {
    /// The request that asks whether the addon is there.
    pub fn ping(self) -> (r: Result<Vec<u8>, VoxError>)
        ensures
            encodes(r, seq![bytes_of("PING"@)]),
    {
        let parts = ["PING".as_bytes()];
        assert(slice_views(parts@) =~= seq![bytes_of("PING"@)]);
        encode_message(&parts)
    }

    /// The request that locks the currently focused, non-secure input context to a session.
    pub fn arm(self, session: &SessionId) -> (r: Result<Vec<u8>, VoxError>)
        ensures
            encodes(r, seq![bytes_of("ARM"@), bytes_of(session@)]),
    {
        let parts = ["ARM".as_bytes(), session.as_str().as_bytes()];
        assert(slice_views(parts@) =~= seq![bytes_of("ARM"@), bytes_of(session@)]);
        encode_message(&parts)
    }

    /// The target that the bridge armed, from what it answered.
    pub fn arm_target(self, response: Result<Vec<u8>, VoxError>) -> (r: Result<
        FcitxTarget,
        VoxError,
    >)
        ensures
            match response {
                Ok(bytes) => if !accepted(bytes@) {
                    r matches Err(error) && rejected(error, bytes@)
                } else {
                    match target_in(fields_of(bytes@)) {
                        Ok(target) => r matches Ok(armed) && armed@ == target,
                        Err(message) => r matches Err(error) && invalid(error, message),
                    }
                },
                Err(error) => r matches Err(told) && told == error,
            },
    {
        match response {
            Ok(bytes) => parse_arm_response(bytes.as_slice()),
            Err(error) => Err(error),
        }
    }

    /// The session that a probe is made with.
    pub fn probe_session(self) -> (session: SessionId)
        ensures
            session@ == crate::session::session_name(u64::MAX as nat),
    {
        SessionId::from_counter(u64::MAX)
    }

    /// The request that probes the focused context without committing text.
    pub fn probe(self) -> (r: Result<Vec<u8>, VoxError>)
        ensures
            encodes(
                r,
                seq![
                    bytes_of("ARM"@),
                    bytes_of(crate::session::session_name(u64::MAX as nat)),
                ],
            ),
    {
        let session = self.probe_session();
        self.arm(&session)
    }

    /// The request for a bounded, non-sensitive snapshot of the focused input context.
    pub fn context(self) -> (r: Result<Vec<u8>, VoxError>)
        ensures
            encodes(r, seq![bytes_of("CONTEXT"@)]),
    {
        let parts = ["CONTEXT".as_bytes()];
        assert(slice_views(parts@) =~= seq![bytes_of("CONTEXT"@)]);
        encode_message(&parts)
    }

    /// The session that a diagnostic commit is made with.
    pub fn test_session(self) -> (session: SessionId)
        ensures
            session@ == crate::session::session_name((u64::MAX - 1) as nat),
    {
        SessionId::from_counter(u64::MAX - 1)
    }

    /// The request that a diagnostic commit of `text` begins with, which arms the focused
    /// context.
    pub fn commit_test(self, text: &str) -> (r: Result<Vec<u8>, VoxError>)
        ensures
            if blank(text@) {
                r matches Err(error) && error.says(
                    ErrorCategory::Protocol,
                    "fcitx.empty_test"@,
                    "diagnostic text is empty"@,
                    false,
                )
            } else {
                encodes(
                    r,
                    seq![
                        bytes_of("ARM"@),
                        bytes_of(crate::session::session_name((u64::MAX - 1) as nat)),
                    ],
                )
            },
    {
        if is_blank(text) {
            return Err(
                VoxError::new(
                    ErrorCategory::Protocol,
                    "fcitx.empty_test",
                    "diagnostic text is empty",
                ),
            );
        }
        let session = self.test_session();
        self.arm(&session)
    }

    /// The id of the request number `n` of a process.
    pub fn request_id(self, process: u32, n: u64) -> (id: String)
        ensures
            id@ == decimal(process as nat) + "-"@ + decimal(n as nat),
    {
        let process = write_number(process as u64);
        let number = write_number(n);
        join3(process.as_str(), "-", number.as_str())
    }

    /// The request that commits text only when the context armed for the session still has
    /// focus. It is sent again unchanged if the transport fails, so that the addon can tell the
    /// two apart from two commits.
    pub fn commit(self, request_id: &str, session: &SessionId, text: &str) -> (r: Result<
        Vec<u8>,
        VoxError,
    >)
        ensures
            encodes(
                r,
                seq![
                    bytes_of("COMMIT2"@),
                    bytes_of(request_id@),
                    bytes_of(session@),
                    bytes_of(text@),
                ],
            ),
    {
        let parts = [
            "COMMIT2".as_bytes(),
            request_id.as_bytes(),
            session.as_str().as_bytes(),
            text.as_bytes(),
        ];
        assert(slice_views(parts@) =~= seq![
            bytes_of("COMMIT2"@),
            bytes_of(request_id@),
            bytes_of(session@),
            bytes_of(text@),
        ]);
        encode_message(&parts)
    }

    /// What follows from the answer to a commit.
    pub fn finish_commit(self, response: &[u8], request_id: &str) -> (r: Result<
        CommitStep,
        VoxError,
    >)
        ensures
            match r {
                Ok(CommitStep::Committed) => {
                    &&& accepted(response@)
                    &&& says_dispatched(response@)
                    &&& echoes(response@, request_id@)
                },
                Ok(CommitStep::TryPlain) => !accepted(response@) && unknown_command(response@),
                Err(error) => if !accepted(response@) {
                    !unknown_command(response@) && rejected(error, response@)
                } else {
                    &&& !(says_dispatched(response@) && echoes(response@, request_id@))
                    &&& error.says(
                        ErrorCategory::Protocol,
                        "fcitx.dispatch_unconfirmed"@,
                        "Fcitx bridge did not confirm dispatch for this request id"@,
                        false,
                    )
                },
            },
    {
        match expect_dispatched_for(response, request_id) {
            Ok(_) => Ok(CommitStep::Committed),
            Err(error) => {
                if contains(error.message(), "unknown-command") {
                    proof {
                        if accepted(response@) {
                            lemma_unconfirmed_is_no_unknown_command();
                        }
                    }
                    Ok(CommitStep::TryPlain)
                } else {
                    Err(error)
                }
            },
        }
    }

    /// The plain request that commits text, for an addon that knows no request ids.
    pub fn commit_plain(self, session: &SessionId, text: &str) -> (r: Result<Vec<u8>, VoxError>)
        ensures
            encodes(r, seq![bytes_of("COMMIT"@), bytes_of(session@), bytes_of(text@)]),
    {
        let parts = ["COMMIT".as_bytes(), session.as_str().as_bytes(), text.as_bytes()];
        assert(slice_views(parts@) =~= seq![
            bytes_of("COMMIT"@),
            bytes_of(session@),
            bytes_of(text@),
        ]);
        encode_message(&parts)
    }

    /// The request that clears any armed input context for the session.
    pub fn cancel(self, session: &SessionId) -> (r: Result<Vec<u8>, VoxError>)
        ensures
            encodes(r, seq![bytes_of("CANCEL"@), bytes_of(session@)]),
    {
        let parts = ["CANCEL".as_bytes(), session.as_str().as_bytes()];
        assert(slice_views(parts@) =~= seq![bytes_of("CANCEL"@), bytes_of(session@)]);
        encode_message(&parts)
    }
}

proof fn lemma_unconfirmed_is_no_unknown_command()
    ensures
        !contains_text(
            "Fcitx bridge did not confirm dispatch for this request id"@,
            "unknown-command"@,
        ),
{
    let text = "Fcitx bridge did not confirm dispatch for this request id"@;
    let part = "unknown-command"@;
    reveal_strlit("Fcitx bridge did not confirm dispatch for this request id");
    reveal_strlit("unknown-command");
    assert forall|at: int| !crate::text::stands_at(text, part, at) by {
        if crate::text::stands_at(text, part, at) {
            assert(text.subrange(at, at + part.len())[0] == text[at]);
            assert(text.subrange(at, at + part.len())[7] == text[at + 7]);
            assert(part[0] == 'u' && part[7] == '-');
            assert(forall|k: int| 0 <= k < text.len() ==> text[k] != '-');
        }
    }
}

/// The runtime directory of the bridge is not known.
pub fn runtime_unavailable() -> (error: VoxError)
    ensures
        error.says(
            ErrorCategory::Unavailable,
            "fcitx.runtime_unavailable"@,
            "XDG_RUNTIME_DIR is unavailable"@,
            false,
        ),
{
    VoxError::new(
        ErrorCategory::Unavailable,
        "fcitx.runtime_unavailable",
        "XDG_RUNTIME_DIR is unavailable",
    )
}

/// A request could not be sent or its answer not be received.
pub fn transport_failed(reason: &str) -> (error: VoxError)
    ensures
        error.says(ErrorCategory::Unavailable, "fcitx.transport_failed"@, reason@, false),
{
    VoxError::new(ErrorCategory::Unavailable, "fcitx.transport_failed", reason)
}

/// A part without zero bytes.
pub open spec fn plain(part: Seq<u8>) -> bool {
    forall|i: int| 0 <= i < part.len() ==> #[trigger] part[i] != 0
}

proof fn lemma_plain_tail(head: Seq<u8>, part: Seq<u8>)
    requires
        plain(part),
    ensures
        ({
            let before = fields_of(head);
            fields_of(head + part) == before.drop_last().push(before.last() + part)
        }),
    decreases part.len(),
{
    lemma_fields_nonempty(head);
    let before = fields_of(head);
    if part.len() == 0 {
        assert(head + part =~= head);
        assert(before.last() + part =~= before.last());
        assert(before.drop_last().push(before.last()) =~= before);
    } else {
        let rest = part.drop_last();
        assert forall|i: int| 0 <= i < rest.len() implies #[trigger] rest[i] != 0 by {
            assert(part[i] != 0);
        }
        lemma_plain_tail(head, rest);
        assert((head + part).drop_last() =~= head + rest);
        assert((head + part).last() == part.last());
        assert(part[part.len() - 1] != 0);
        let sofar = before.drop_last().push(before.last() + rest);
        assert(sofar.drop_last() =~= before.drop_last());
        assert((before.last() + rest).push(part.last()) =~= before.last() + part);
    }
}

/// The fields of a message are the parts that it was made of, where no part holds a zero byte.
pub proof fn law_fields_are_the_parts(parts: Seq<Seq<u8>>)
    requires
        parts.len() > 0,
        forall|i: int| 0 <= i < parts.len() ==> plain(#[trigger] parts[i]),
    ensures
        fields_of(joined(parts)) == parts,
    decreases parts.len(),
{
    if parts.len() == 1 {
        let none = Seq::<u8>::empty();
        assert(plain(parts[0]));
        lemma_plain_tail(none, parts[0]);
        assert(none + parts[0] =~= parts[0]);
        assert(fields_of(parts[0]) =~= seq![parts[0]]);
        assert(seq![parts[0]] =~= parts);
    } else {
        let front = parts.drop_last();
        assert forall|i: int| 0 <= i < front.len() implies plain(#[trigger] front[i]) by {
            assert(plain(parts[i]));
        }
        law_fields_are_the_parts(front);
        let head = joined(front).push(0);
        assert(head.drop_last() =~= joined(front));
        assert(fields_of(head) =~= front.push(Seq::empty()));
        assert(plain(parts[parts.len() - 1]));
        lemma_plain_tail(head, parts.last());
        assert(front.push(Seq::empty()).drop_last() =~= front);
        assert(Seq::<u8>::empty() + parts.last() =~= parts.last());
        assert(front.push(parts.last()) =~= parts);
    }
}

/// A commit counts as done only when the bridge says so for this very request.
pub proof fn law_commit_needs_its_own_confirmation(response: Seq<u8>, request_id: Seq<char>)
    requires
        echoes(response, request_id),
    ensures
        forall|other: Seq<char>| other != request_id ==> !#[trigger] echoes(response, other),
{
}

/// A review never shows more than the selection, or than 1200 characters where there is none.
pub proof fn law_review_is_bounded(context: ContextModel)
    requires
        context.cursor <= context.text.len(),
        context.anchor <= context.text.len(),
    ensures
        context.cursor == context.anchor ==> FcitxContext::reviewed(context).len() <= 1_200,
        context.cursor < context.anchor ==> FcitxContext::reviewed(context)
            == context.text.subrange(context.cursor as int, context.anchor as int),
        context.anchor < context.cursor ==> FcitxContext::reviewed(context)
            == context.text.subrange(context.anchor as int, context.cursor as int),
{
}

/// A rejection means what its word says: no permission in a secure field, the wrong moment where the
/// focus is lost, a misunderstanding where the request does not fit, and otherwise that the bridge
/// cannot do it now.
pub proof fn law_rejections_mean_their_word(code: Seq<char>)
    ensures
        code == "secure-context"@ <==> rejection_category(code) == ErrorCategory::Permission,
        code == "no-focused-context"@ || code == "focus-changed"@ ==> rejection_category(code)
            == ErrorCategory::InvalidState,
        code == "session-mismatch"@ || code == "empty-text"@ ==> rejection_category(code)
            == ErrorCategory::Protocol,
        code != "secure-context"@ && code != "no-focused-context"@ && code != "focus-changed"@
            && code != "session-mismatch"@ && code != "empty-text"@ ==> rejection_category(code)
            == ErrorCategory::Unavailable,
{
    reveal_strlit("secure-context");
    reveal_strlit("no-focused-context");
    reveal_strlit("focus-changed");
    reveal_strlit("session-mismatch");
    reveal_strlit("empty-text");
    assert("secure-context"@.len() == 14);
    assert("no-focused-context"@.len() == 18);
    assert("focus-changed"@.len() == 13);
    assert("session-mismatch"@.len() == 16);
    assert("empty-text"@.len() == 10);
}

/// A complete snapshot reads as what its fields hold: the program and the frontend, the generation, the
/// cursor and the anchor, the capabilities between commas, whether the text is cut, and the text.
pub proof fn law_snapshot_reads_as_its_fields(
    fields: Seq<Seq<u8>>,
    program: Seq<char>,
    frontend: Seq<char>,
    numbers: (nat, nat, nat),
    list: Seq<char>,
    truncated: bool,
    text: Seq<char>,
)
    requires
        fields.len() == 10,
        fields[1] == encode_utf8("context"@),
        valid_utf8(fields[2]) && decode_utf8(fields[2]) == program && program.len() > 0,
        valid_utf8(fields[3]) && decode_utf8(fields[3]) == frontend && frontend.len() > 0,
        valid_utf8(fields[4]) && parsed_number(decode_utf8(fields[4]), u64::MAX as nat) == Some(
            numbers.0,
        ),
        valid_utf8(fields[5]) && parsed_number(decode_utf8(fields[5]), u64::MAX as nat) == Some(
            numbers.1,
        ),
        valid_utf8(fields[6]) && parsed_number(decode_utf8(fields[6]), u64::MAX as nat) == Some(
            numbers.2,
        ),
        valid_utf8(fields[7]) && decode_utf8(fields[7]) == list,
        fields[8] == encode_utf8(
            if truncated {
                "1"@
            } else {
                "0"@
            },
        ),
        valid_utf8(fields[9]) && decode_utf8(fields[9]) == text,
        numbers.1 <= usize::MAX,
        numbers.2 <= usize::MAX,
    ensures
        text.len() <= 4_096 && numbers.1 <= text.len() && numbers.2 <= text.len() ==> context_in(
            fields,
        ) == Ok::<ContextModel, Seq<char>>(
            ContextModel {
                target: TargetModel { program, frontend },
                generation: numbers.0 as u64,
                cursor: numbers.1,
                anchor: numbers.2,
                capabilities: nonempty(pieces(list, ',')),
                truncated,
                text,
            },
        ),
        text.len() > 4_096 || numbers.1 > text.len() || numbers.2 > text.len() ==> context_in(
            fields,
        ) is Err,
{
    reveal_strlit("0");
    reveal_strlit("1");
    lemma_flags_differ();
}

proof fn lemma_flags_differ()
    ensures
        encode_utf8("0"@) != encode_utf8("1"@),
{
    reveal_strlit("0");
    reveal_strlit("1");
    encode_utf8_decode_utf8("0"@);
    encode_utf8_decode_utf8("1"@);
    assert("0"@[0] != "1"@[0]);
}

/// Of a list of names those that are not empty are kept, in their order.
pub proof fn law_empty_names_are_dropped(
    parts: Seq<Seq<char>>,
    part: Seq<char>,
    more: Seq<Seq<char>>,
)
    ensures
        part.len() > 0 ==> nonempty(parts.push(part)) == nonempty(parts).push(part),
        part.len() == 0 ==> nonempty(parts.push(part)) == nonempty(parts),
        nonempty(parts + more) == nonempty(parts) + nonempty(more),
        forall|i: int| 0 <= i < nonempty(parts).len() ==> (#[trigger] nonempty(parts)[i]).len() > 0,
    decreases parts.len() + more.len(),
{
    assert(parts.push(part).drop_last() =~= parts);
    if more.len() > 0 {
        law_empty_names_are_dropped(parts, part, more.drop_last());
        assert((parts + more).drop_last() =~= parts + more.drop_last());
        assert((parts + more).last() == more.last());
        assert(nonempty(parts + more) =~= nonempty(parts) + nonempty(more));
    } else {
        assert(parts + more =~= parts);
        assert(nonempty(parts + more) =~= nonempty(parts) + nonempty(more));
        if parts.len() > 0 {
            law_empty_names_are_dropped(parts.drop_last(), part, more);
        }
    }
}

/// Without a selection, what is reviewed is the text right before the cursor, up to 1200 characters.
pub proof fn law_review_reaches_back_from_the_cursor(context: ContextModel)
    requires
        context.cursor <= context.text.len(),
        context.anchor == context.cursor,
    ensures
        context.cursor <= 1_200 ==> FcitxContext::reviewed(context) == context.text.take(
            context.cursor as int,
        ),
        context.cursor > 1_200 ==> FcitxContext::reviewed(context) == context.text.subrange(
            context.cursor - 1_200,
            context.cursor as int,
        ),
{
    if context.cursor == 1_200 {
        assert(context.text.subrange(0, 1_200) =~= context.text.take(1_200));
    }
    if context.cursor < 1_200 {
        assert(context.text.subrange(0, context.cursor as int) =~= context.text.take(
            context.cursor as int,
        ));
    }
}

/// A request is sent exactly where it fits into a datagram of 61440 bytes, and then it is the parts
/// with a zero byte between two of them.
pub proof fn law_request_fits_a_datagram(r: Result<Vec<u8>, VoxError>, parts: Seq<Seq<u8>>)
    requires
        encodes(r, parts),
    ensures
        r is Ok <==> joined(parts).len() <= 61_440,
        r is Ok && parts.len() > 0 && (forall|i: int|
            0 <= i < parts.len() ==> plain(#[trigger] parts[i])) ==> fields_of(r->Ok_0@) == parts,
        r is Err ==> r->Err_0.code_text() == "fcitx.message_too_large"@ && !r->Err_0.retry(),
{
    if r is Ok && parts.len() > 0 && (forall|i: int|
        0 <= i < parts.len() ==> plain(#[trigger] parts[i])) {
        law_fields_are_the_parts(parts);
    }
}

} // verus!
