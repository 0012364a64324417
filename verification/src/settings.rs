//! The settings panel: its requests, what they change, and what it is told.

use crate::config::{Config, InsertionBackend, ProviderConfig, ProviderQuotaConfig};
use crate::doctor::{kind_word, provider_kind, provider_secret, secret_of};
use crate::json::{
    copy_json, json_text, render_json, text_array, text_items, Items, Json, JsonModel, Members,
};
use crate::percent::{percent_decode, percent_decoded};
use crate::presentation::{quota_document, quota_json};
use crate::text::{
    after_first, before_first, begins, decimal, decode_text, has_char, join3, lines, lines_of,
    lower_text, lowered, owned, parse_number, parsed_number, pieces, same_text, split, split_once,
    strip_prefix, texts, trim, trimmed, write_number,
};
use vstd::prelude::*;
use vstd::slice::slice_subrange;
use vstd::slice::slice_to_vec;
use vstd::string::*;
use vstd::utf8::*;

verus! {

pub const MAX_REQUEST_BYTES: usize = 131_072;

/// The longest secret that is stored.
pub const MAX_SECRET_BYTES: usize = 16_384;

/// A line feed, a carriage return and the same once more stand at `at`: the head ends here.
pub open spec fn ends_head(bytes: Seq<u8>, at: int) -> bool {
    &&& 0 <= at <= bytes.len() - 4
    &&& bytes[at] == 13
    &&& bytes[at + 1] == 10
    &&& bytes[at + 2] == 13
    &&& bytes[at + 3] == 10
}

/// The first end of a head from `at` on.
pub open spec fn head_end_from(bytes: Seq<u8>, at: int) -> Option<nat>
    decreases bytes.len() - at,
{
    if at < 0 || at > bytes.len() - 4 {
        None
    } else if ends_head(bytes, at) {
        Some(at as nat)
    } else {
        head_end_from(bytes, at + 1)
    }
}

fn find_head_end(bytes: &Vec<u8>) -> (r: Option<usize>)
    ensures
        match r {
            Some(at) => head_end_from(bytes@, 0) == Some(at as nat) && at + 4 <= bytes@.len(),
            None => head_end_from(bytes@, 0) is None,
        },
{
    let total: usize = bytes.len();
    if total < 4 {
        return None;
    }
    let mut at: usize = 0;
    while at <= total - 4
        invariant
            total == bytes@.len(),
            4 <= total,
            at <= total - 3,
            head_end_from(bytes@, 0) == head_end_from(bytes@, at as int),
        decreases total - at,
    {
        if bytes[at] == 13 && bytes[at + 1] == 10 && bytes[at + 2] == 13 && bytes[at + 3] == 10 {
            return Some(at);
        }
        at += 1;
    }
    None
}

/// The length that a header line gives, if it is one that does.
pub open spec fn length_in(line: Seq<char>) -> Option<nat> {
    if has_char(line, ':') && lowered(before_first(line, ':')) == "content-length"@ {
        parsed_number(trimmed(after_first(line, ':')), usize::MAX as nat)
    } else {
        None
    }
}

/// The first length that a header line from `i` on gives, zero where none does.
pub open spec fn length_from(headers: Seq<Seq<char>>, i: int) -> nat
    decreases headers.len() - i,
{
    if i < 0 || i >= headers.len() {
        0
    } else {
        match length_in(headers[i]) {
            Some(length) => length,
            None => length_from(headers, i + 1),
        }
    }
}

fn content_length(headers: &str) -> (r: usize)
    ensures
        r == length_from(lines_of(headers@), 0),
{
    let all = lines(headers);
    let ghost views = texts(all@);
    for i in 0..all.len()
        invariant
            views == texts(all@),
            views == lines_of(headers@),
            length_from(views, 0) == length_from(views, i as int),
    {
        assert(views[i as int] == all@[i as int]@);
        match split_once(all[i].as_str(), ':') {
            Some((name, value)) => {
                let name = lower_text(name);
                if same_text(name.as_str(), "content-length") {
                    match parse_number(trim(value), usize::MAX as u64) {
                        Some(length) => {
                            return length as usize;
                        },
                        None => {},
                    }
                }
            },
            None => {},
        }
    }
    0
}

/// What is known of a request once its head is read: where its body begins, and how long it is.
#[derive(Clone, Copy, Debug, Eq, PartialEq, Structural)]
pub struct Head {
    pub body_at: usize,
    pub body_length: usize,
}

/// What a head that ends at `at` says.
pub open spec fn head_in(bytes: Seq<u8>, at: nat) -> Result<(nat, nat), Seq<char>> {
    let head = bytes.take(at as int);
    if !valid_utf8(head) {
        Err("invalid HTTP headers"@)
    } else {
        let length = length_from(lines_of(decode_utf8(head)), 0);
        if at + 4 + length > MAX_REQUEST_BYTES {
            Err("settings request body is too large"@)
        } else {
            Ok((at + 4, length))
        }
    }
}

/// A request that is being read.
#[derive(Debug)]
pub struct RequestReader {
    buffer: Vec<u8>,
    head: Option<Head>,
}

/// What was read of a request.
pub struct ReaderModel {
    pub bytes: Seq<u8>,
    pub head: Option<(nat, nat)>,
}

/// A request of the settings panel; its body stays with its reader.
#[derive(Debug, Eq, PartialEq)]
pub struct Request {
    pub method: String,
    pub path: String,
    pub token: Option<String>,
}

impl RequestReader {
    pub closed spec fn view(&self) -> ReaderModel {
        ReaderModel {
            bytes: self.buffer@,
            head: match self.head {
                Some(head) => Some((head.body_at as nat, head.body_length as nat)),
                None => None,
            },
        }
    }

    pub fn new() -> (reader: Self)
        ensures
            reader@.bytes.len() == 0,
            reader@.head is None,
    {
        RequestReader { buffer: Vec::new(), head: None }
    }

    /// Whether more is to be read; a head that does not end is an error.
    pub fn wants_more(&self) -> (r: Result<bool, &'static str>)
        ensures
            match self@.head {
                None => if self@.bytes.len() >= MAX_REQUEST_BYTES {
                    r matches Err(message) && message@ == "settings request is too large"@
                } else {
                    r == Ok::<bool, &'static str>(true)
                },
                Some((body_at, body_length)) => r == Ok::<bool, &'static str>(
                    self@.bytes.len() < body_at + body_length,
                ),
            },
    {
        match self.head {
            None => {
                if self.buffer.len() >= MAX_REQUEST_BYTES {
                    return Err("settings request is too large");
                }
                Ok(true)
            },
            Some(head) => Ok((self.buffer.len() as u128) < head.body_at as u128
                + head.body_length as u128),
        }
    }

    /// Takes what was read; nothing stands for the end of the connection.
    pub fn take(&mut self, chunk: &[u8]) -> (r: Result<(), &'static str>)
        ensures
            ({
                let bytes = old(self)@.bytes + chunk@;
                if chunk@.len() == 0 {
                    &&& r matches Err(message)
                    &&& message@ == (if old(self)@.head is None {
                        "incomplete settings request"@
                    } else {
                        "incomplete settings request body"@
                    })
                    &&& final(self)@ == old(self)@
                } else {
                    &&& final(self)@.bytes == bytes
                    &&& if old(self)@.head is Some || head_end_from(bytes, 0) is None {
                        &&& r is Ok
                        &&& final(self)@.head == old(self)@.head
                    } else {
                        match head_in(bytes, head_end_from(bytes, 0)->0) {
                            Ok(head) => r is Ok && final(self)@.head == Some(head),
                            Err(why) => {
                                &&& r matches Err(message)
                                &&& message@ == why
                                &&& final(self)@.head is None
                            },
                        }
                    }
                }
            }),
    {
        if chunk.len() == 0 {
            return Err(
                if self.head.is_none() {
                    "incomplete settings request"
                } else {
                    "incomplete settings request body"
                },
            );
        }
        self.buffer.extend_from_slice(chunk);
        assert(self.buffer@ =~= old(self)@.bytes + chunk@);
        if self.head.is_some() {
            return Ok(());
        }
        let at: usize = match find_head_end(&self.buffer) {
            Some(at) => at,
            None => {
                return Ok(());
            },
        };
        let head = slice_to_vec(slice_subrange(self.buffer.as_slice(), 0, at));
        assert(head@ =~= self.buffer@.take(at as int));
        let headers = match decode_text(head) {
            Ok(headers) => headers,
            Err(_) => {
                return Err("invalid HTTP headers");
            },
        };
        let length: usize = content_length(headers.as_str());
        if at as u128 + 4 + length as u128 > MAX_REQUEST_BYTES as u128 {
            return Err("settings request body is too large");
        }
        self.head = Some(Head { body_at: at + 4, body_length: length });
        Ok(())
    }

    /// The body of a request that is read.
    pub fn body(&self) -> (r: &[u8])
        ensures
            r@ == body_of(self@),
    {
        match self.head {
            Some(head) => {
                let total: usize = self.buffer.len();
                if head.body_at <= total && head.body_length <= total - head.body_at {
                    let body = slice_subrange(
                        self.buffer.as_slice(),
                        head.body_at,
                        head.body_at + head.body_length,
                    );
                    body
                } else {
                    let body = slice_subrange(self.buffer.as_slice(), 0, 0);
                    assert(body@ =~= Seq::<u8>::empty());
                    body
                }
            },
            None => {
                let body = slice_subrange(self.buffer.as_slice(), 0, 0);
                assert(body@ =~= Seq::<u8>::empty());
                body
            },
        }
    }

    /// The request whose head is read.
    pub fn request(&self) -> (r: Result<Request, &'static str>)
        ensures
            requests(r, head_text(self@)),
    {
        let head: Head = match self.head {
            Some(head) => head,
            None => {
                return Err("invalid HTTP request");
            },
        };
        if head.body_at < 4 || head.body_at > self.buffer.len() {
            return Err("invalid HTTP request");
        }
        let bytes = slice_to_vec(slice_subrange(self.buffer.as_slice(), 0, head.body_at - 4));
        assert(bytes@ =~= self.buffer@.take(head.body_at - 4));
        match decode_text(bytes) {
            Ok(text) => read_head(text.as_str()),
            Err(_) => Err("invalid HTTP request"),
        }
    }

    /// Overwrites what was read: it may have held a secret.
    pub fn wipe(&mut self)
        ensures
            final(self)@.bytes == Seq::new(old(self)@.bytes.len(), |i: int| 0u8),
            final(self)@.head == old(self)@.head,
    {
        let total: usize = self.buffer.len();
        let mut i: usize = 0;
        while i < total
            invariant
                total == self.buffer@.len(),
                total == old(self)@.bytes.len(),
                i <= total,
                forall|k: int| 0 <= k < i ==> self.buffer@[k] == 0,
                self.head == old(self).head,
            decreases total - i,
        {
            self.buffer.set(i, 0);
            i += 1;
        }
        assert(self.buffer@ =~= Seq::new(old(self)@.bytes.len(), |i: int| 0u8));
    }
}

/// The body of a request, nothing where it is not read yet.
pub open spec fn body_of(reader: ReaderModel) -> Seq<u8> {
    match reader.head {
        Some((body_at, body_length)) => if body_at + body_length <= reader.bytes.len() {
            reader.bytes.subrange(body_at as int, (body_at + body_length) as int)
        } else {
            Seq::empty()
        },
        None => Seq::empty(),
    }
}

/// The text of the head of a request, where it is read.
pub open spec fn head_text(reader: ReaderModel) -> Option<Seq<char>> {
    match reader.head {
        Some((body_at, _)) => {
            let head = reader.bytes.take(body_at - 4);
            if 4 <= body_at <= reader.bytes.len() && valid_utf8(head) {
                Some(decode_utf8(head))
            } else {
                None
            }
        },
        None => None,
    }
}

/// The words of a text: what stands between its white space.
pub open spec fn words_of(text: Seq<char>) -> Seq<Seq<char>> {
    crate::client::parts_of(text).filter(|part: Seq<char>| part.len() > 0)
}

pub open spec fn word_at(words: Seq<Seq<char>>, i: int) -> Seq<char> {
    if 0 <= i < words.len() {
        words[i]
    } else {
        Seq::empty()
    }
}

/// Splits a text into its words.
pub fn words(text: &str) -> (r: Vec<String>)
    ensures
        texts(r@) == words_of(text@),
{
    let parts = crate::client::split_parts(text);
    let ghost all = texts(parts@);
    let ghost wanted = |part: Seq<char>| part.len() > 0;
    let mut out: Vec<String> = Vec::new();
    proof {
        reveal(Seq::filter);
        assert(all.take(0) =~= Seq::<Seq<char>>::empty());
        assert(texts(out@) =~= all.take(0).filter(wanted));
    }
    for i in 0..parts.len()
        invariant
            all == texts(parts@),
            wanted == (|part: Seq<char>| part.len() > 0),
            texts(out@) == all.take(i as int).filter(wanted),
    {
        proof {
            reveal(Seq::filter);
            assert(all.take(i + 1).drop_last() =~= all.take(i as int));
            assert(all.take(i + 1).last() == parts@[i as int]@);
        }
        let part = parts[i].as_str();
        if part.unicode_len() > 0 {
            let ghost before = texts(out@);
            out.push(owned(part));
            assert(texts(out@) =~= before.push(part@));
        }
    }
    assert(all.take(all.len() as int) =~= all);
    out
}

/// The value of the first pair from `i` on that is named `token`.
pub open spec fn token_from(pairs: Seq<Seq<char>>, i: int) -> Option<Seq<char>>
    decreases pairs.len() - i,
{
    if i < 0 || i >= pairs.len() {
        None
    } else if has_char(pairs[i], '=') && before_first(pairs[i], '=') == "token"@ {
        Some(after_first(pairs[i], '='))
    } else {
        token_from(pairs, i + 1)
    }
}

fn find_token(query: &str) -> (r: Option<String>)
    ensures
        match r {
            Some(token) => token_from(pieces(query@, '&'), 0) == Some(token@),
            None => token_from(pieces(query@, '&'), 0) is None,
        },
{
    let pairs = split(query, '&');
    let ghost views = texts(pairs@);
    for i in 0..pairs.len()
        invariant
            views == texts(pairs@),
            views == pieces(query@, '&'),
            token_from(views, 0) == token_from(views, i as int),
    {
        assert(views[i as int] == pairs@[i as int]@);
        match split_once(pairs[i].as_str(), '=') {
            Some((name, value)) => {
                if same_text(name, "token") {
                    return Some(owned(value));
                }
            },
            None => {},
        }
    }
    None
}

/// The query of a target: what stands behind its first question mark.
pub open spec fn query_of(target: Seq<char>) -> Seq<char> {
    if has_char(target, '?') {
        after_first(target, '?')
    } else {
        Seq::empty()
    }
}

/// The request that a first line asks for.
pub open spec fn line_asks(request: Request, line: Seq<char>) -> bool {
    let words = words_of(line);
    let target = word_at(words, 1);
    &&& request.method@ == word_at(words, 0)
    &&& request.path@ == before_first(target, '?')
    &&& match request.token {
        Some(token) => token_from(pieces(query_of(target), '&'), 0) == Some(token@),
        None => token_from(pieces(query_of(target), '&'), 0) is None,
    }
}

/// What is read out of the head of a request.
pub open spec fn requests(r: Result<Request, &'static str>, head: Option<Seq<char>>) -> bool {
    match head {
        None => r matches Err(message) && message@ == "invalid HTTP request"@,
        Some(text) => if lines_of(text).len() == 0 {
            r matches Err(message) && message@ == "missing request line"@
        } else {
            r matches Ok(request) && line_asks(request, lines_of(text)[0])
        },
    }
}

fn nth_word(words: &Vec<String>, i: usize) -> (r: String)
    ensures
        r@ == word_at(texts(words@), i as int),
{
    if i < words.len() {
        assert(texts(words@)[i as int] == words@[i as int]@);
        words[i].clone()
    } else {
        String::new()
    }
}

/// Reads the first line of the head of a request.
pub fn read_head(headers: &str) -> (r: Result<Request, &'static str>)
    ensures
        requests(r, Some(headers@)),
{
    let all = lines(headers);
    if all.len() == 0 {
        return Err("missing request line");
    }
    assert(texts(all@)[0] == all@[0]@);
    let parts = words(all[0].as_str());
    let method = nth_word(&parts, 0);
    let target = nth_word(&parts, 1);
    proof {
        reveal_strlit("");
        assert(""@ =~= Seq::<char>::empty());
    }
    let (path, token) = match split_once(target.as_str(), '?') {
        Some((path, query)) => (owned(path), find_token(query)),
        None => {
            proof {
                lemma_before_missing(target@, '?');
            }
            (owned(target.as_str()), find_token(""))
        },
    };
    Ok(Request { method, path, token })
}

/// Where a character does not stand, the text before it is the whole text.
pub proof fn lemma_before_missing(text: Seq<char>, separator: char)
    requires
        !has_char(text, separator),
    ensures
        before_first(text, separator) == text,
    decreases text.len(),
{
    if text.len() > 0 {
        let rest = text.skip(1);
        assert(text[0] != separator);
        assert forall|i: int| 0 <= i < rest.len() implies #[trigger] rest[i] != separator by {
            assert(rest[i] == text[i + 1]);
        }
        lemma_before_missing(rest, separator);
        assert(seq![text[0]] + rest =~= text);
    }
}

/// The answer to a request.
#[derive(Debug, Eq, PartialEq)]
pub struct Response {
    pub status: u16,
    pub body: String,
}

/// The document that tells of an error.
pub open spec fn error_parts(message: Seq<char>) -> Seq<(Seq<char>, JsonModel)> {
    seq![("ok"@, JsonModel::Bool(false)), ("error"@, JsonModel::Text(message))]
}

/// The document that tells of a success.
pub open spec fn ok_parts() -> Seq<(Seq<char>, JsonModel)> {
    seq![("ok"@, JsonModel::Bool(true))]
}

/// The document that tells that settings were saved, and whether the daemon took them.
pub open spec fn saved_parts(daemon_reloaded: bool) -> Seq<(Seq<char>, JsonModel)> {
    seq![
        ("ok"@, JsonModel::Bool(true)),
        ("daemon_reloaded"@, JsonModel::Bool(daemon_reloaded)),
    ]
}

pub open spec fn reason_word(status: u16) -> Seq<char> {
    if status == 200 {
        "OK"@
    } else if status == 400 {
        "Bad Request"@
    } else if status == 403 {
        "Forbidden"@
    } else if status == 404 {
        "Not Found"@
    } else {
        "Error"@
    }
}

impl Response {
    /// The response refuses with a message.
    pub open spec fn refuses(self, status: u16, message: Seq<char>) -> bool {
        &&& self.status == status
        &&& self.body@ == json_text(JsonModel::Object(error_parts(message)))
    }

    pub fn json(value: &Json) -> (response: Self)
        ensures
            response.status == 200,
            response.body@ == json_text(value@),
    {
        Response { status: 200, body: render_json(value) }
    }

    pub fn error(status: u16, message: &str) -> (response: Self)
        ensures
            response.refuses(status, message@),
    {
        let mut members = Members::new();
        members.put_truth("ok", false);
        members.put_text("error", message);
        assert(members@ =~= error_parts(message@));
        let json = members.object();
        Response { status, body: render_json(&json) }
    }

    /// The answer to a request that was carried out.
    pub fn done() -> (response: Self)
        ensures
            response.status == 200,
            response.body@ == json_text(JsonModel::Object(ok_parts())),
    {
        let mut members = Members::new();
        members.put_truth("ok", true);
        assert(members@ =~= ok_parts());
        let json = members.object();
        Response::json(&json)
    }

    /// The answer to a request that changed the configuration.
    pub fn saved(daemon_reloaded: bool) -> (response: Self)
        ensures
            response.status == 200,
            response.body@ == json_text(JsonModel::Object(saved_parts(daemon_reloaded))),
    {
        let mut members = Members::new();
        members.put_truth("ok", true);
        members.put_truth("daemon_reloaded", daemon_reloaded);
        assert(members@ =~= saved_parts(daemon_reloaded));
        let json = members.object();
        Response::json(&json)
    }

    pub fn reason(&self) -> (r: &'static str)
        ensures
            r@ == reason_word(self.status),
    {
        match self.status {
            200 => "OK",
            400 => "Bad Request",
            403 => "Forbidden",
            404 => "Not Found",
            _ => "Error",
        }
    }

    /// What is written before the body.
    pub fn head(&self) -> (text: String)
        ensures
            text@ == "HTTP/1.1 "@ + decimal(self.status as nat) + " "@ + reason_word(self.status)
                + "\r\nContent-Type: application/json; charset=utf-8\r\nContent-Length: "@
                + decimal(crate::text::byte_length(self.body@))
                + "\r\nAccess-Control-Allow-Origin: *\r\nCache-Control: no-store\r\nConnection: close\r\n\r\n"@,
    {
        let status = write_number(self.status as u64);
        let length = write_number(crate::text::byte_count(self.body.as_str()) as u64);
        let mut text = join3("HTTP/1.1 ", status.as_str(), " ");
        text.append(self.reason());
        text.append("\r\nContent-Type: application/json; charset=utf-8\r\nContent-Length: ");
        text.append(length.as_str());
        text.append(
            "\r\nAccess-Control-Allow-Origin: *\r\nCache-Control: no-store\r\nConnection: close\r\n\r\n",
        );
        text
    }
}

/// What a request asks for.
#[derive(Debug, Eq, PartialEq)]
pub enum Endpoint {
    State,
    General,
    Calibrate,
    OpenConfig,
    Provider(String),
    Quota(String),
    Secret(String),
}

/// The name that an address ends with.
pub open spec fn named(path: Seq<char>, prefix: Seq<char>) -> Option<Seq<u8>> {
    percent_decoded(encode_utf8(path.skip(prefix.len() as int)))
}

/// A name was read out of an address, or the answer tells why not.
pub open spec fn reads_name(
    r: Result<Endpoint, Response>,
    decoded: Option<Seq<u8>>,
    name: Option<Seq<char>>,
) -> bool {
    match r {
        Ok(_) => {
            &&& decoded is Some
            &&& valid_utf8(decoded->0)
            &&& name == Some(decode_utf8(decoded->0))
        },
        Err(response) => match decoded {
            None => response.refuses(400, "invalid percent encoding"@),
            Some(bytes) => !valid_utf8(bytes) && response.refuses(400, "path is not UTF-8"@),
        },
    }
}

fn read_name(part: &str) -> (r: Result<String, Response>)
    ensures
        ({
            let decoded = percent_decoded(encode_utf8(part@));
            match r {
                Ok(name) => decoded is Some && valid_utf8(decoded->0) && name@ == decode_utf8(
                    decoded->0,
                ),
                Err(response) => match decoded {
                    None => response.refuses(400, "invalid percent encoding"@),
                    Some(bytes) => !valid_utf8(bytes) && response.refuses(
                        400,
                        "path is not UTF-8"@,
                    ),
                },
            }
        }),
{
    match percent_decode(part) {
        Ok(name) => Ok(name),
        Err(error) => Err(Response::error(400, error.message())),
    }
}

/// What a method and a path ask for.
pub open spec fn routes(
    r: Result<Endpoint, Response>,
    method: Seq<char>,
    path: Seq<char>,
) -> bool {
    let post = method == "POST"@;
    if method == "GET"@ && path == "/state"@ {
        r == Ok::<Endpoint, Response>(Endpoint::State)
    } else if post && path == "/general"@ {
        r == Ok::<Endpoint, Response>(Endpoint::General)
    } else if post && path == "/calibrate"@ {
        r == Ok::<Endpoint, Response>(Endpoint::Calibrate)
    } else if post && path == "/open-config"@ {
        r == Ok::<Endpoint, Response>(Endpoint::OpenConfig)
    } else if post && begins(path, "/provider/"@) {
        &&& reads_name(
            r,
            named(path, "/provider/"@),
            match r {
                Ok(Endpoint::Provider(name)) => Some(name@),
                _ => None,
            },
        )
    } else if post && begins(path, "/quota/"@) {
        &&& reads_name(
            r,
            named(path, "/quota/"@),
            match r {
                Ok(Endpoint::Quota(name)) => Some(name@),
                _ => None,
            },
        )
    } else if post && begins(path, "/secret/"@) {
        &&& reads_name(
            r,
            named(path, "/secret/"@),
            match r {
                Ok(Endpoint::Secret(name)) => Some(name@),
                _ => None,
            },
        )
    } else {
        r matches Err(response) && response.refuses(404, "settings endpoint not found"@)
    }
}

/// Finds what a request asks for.
pub fn route(request: &Request) -> (r: Result<Endpoint, Response>)
    ensures
        routes(r, request.method@, request.path@),
{
    let path = request.path.as_str();
    if same_text(request.method.as_str(), "GET") && same_text(path, "/state") {
        return Ok(Endpoint::State);
    }
    proof {
        reveal_strlit("GET");
        reveal_strlit("POST");
        assert("GET"@.len() != "POST"@.len());
    }
    if same_text(request.method.as_str(), "POST") {
        if same_text(path, "/general") {
            return Ok(Endpoint::General);
        }
        if same_text(path, "/calibrate") {
            return Ok(Endpoint::Calibrate);
        }
        if same_text(path, "/open-config") {
            return Ok(Endpoint::OpenConfig);
        }
        match strip_prefix(path, "/provider/") {
            Some(part) => {
                return match read_name(part) {
                    Ok(name) => Ok(Endpoint::Provider(name)),
                    Err(response) => Err(response),
                };
            },
            None => {},
        }
        match strip_prefix(path, "/quota/") {
            Some(part) => {
                return match read_name(part) {
                    Ok(name) => Ok(Endpoint::Quota(name)),
                    Err(response) => Err(response),
                };
            },
            None => {},
        }
        match strip_prefix(path, "/secret/") {
            Some(part) => {
                return match read_name(part) {
                    Ok(name) => Ok(Endpoint::Secret(name)),
                    Err(response) => Err(response),
                };
            },
            None => {},
        }
    }
    Err(Response::error(404, "settings endpoint not found"))
}

/// The request carries the token of this session of the panel.
pub open spec fn carries(request: Request, token: Seq<char>) -> bool {
    request.token matches Some(given) && given@ == token
}

/// Finds what a request asks for; one without the token of the session is refused.
pub fn authorize(request: &Request, token: &str) -> (r: Result<Endpoint, Response>)
    ensures
        if carries(*request, token@) {
            routes(r, request.method@, request.path@)
        } else {
            r matches Err(response) && response.refuses(403, "invalid settings session"@)
        },
{
    let known = match &request.token {
        Some(given) => same_text(given.as_str(), token),
        None => false,
    };
    if !known {
        return Err(Response::error(403, "invalid settings session"));
    }
    route(request)
}

/// Settings that are not those of a provider.
#[derive(Debug)]
pub struct GeneralUpdate {
    pub default_profile: String,
    pub insertion_backend: String,
    pub restore_clipboard: bool,
    pub retain_recordings: bool,
    pub vad_enabled: bool,
    pub vad_rms_threshold: u16,
    pub vad_minimum_voiced_frames: u32,
    pub minimum_duration_millis: u64,
}

/// The backend that the panel names.
pub open spec fn backend_named(name: Seq<char>) -> Option<InsertionBackend> {
    if name == "fcitx"@ {
        Some(InsertionBackend::Fcitx)
    } else if name == "clipboard"@ {
        Some(InsertionBackend::Clipboard)
    } else if name == "auto"@ {
        Some(InsertionBackend::Auto)
    } else {
        None
    }
}

fn backend_from(name: &str) -> (r: Option<InsertionBackend>)
    ensures
        r == backend_named(name@),
{
    if same_text(name, "fcitx") {
        Some(InsertionBackend::Fcitx)
    } else if same_text(name, "clipboard") {
        Some(InsertionBackend::Clipboard)
    } else if same_text(name, "auto") {
        Some(InsertionBackend::Auto)
    } else {
        None
    }
}

pub open spec fn backend_word(backend: InsertionBackend) -> Seq<char> {
    match backend {
        InsertionBackend::Fcitx => "fcitx"@,
        InsertionBackend::Clipboard => "clipboard"@,
        InsertionBackend::Copy => "copy"@,
        InsertionBackend::Auto => "auto"@,
    }
}

pub fn insertion_backend_name(backend: InsertionBackend) -> (r: &'static str)
    ensures
        r@ == backend_word(backend),
{
    match backend {
        InsertionBackend::Fcitx => "fcitx",
        InsertionBackend::Clipboard => "clipboard",
        InsertionBackend::Copy => "copy",
        InsertionBackend::Auto => "auto",
    }
}

/// Takes settings that are not those of a provider over into a configuration.
pub fn save_general(config: &mut Config, update: GeneralUpdate) -> (r: Result<(), Response>)
    ensures
        match backend_named(update.insertion_backend@) {
            None => {
                &&& r matches Err(response)
                &&& response.refuses(400, "unsupported insertion backend"@)
                &&& *final(config) == *old(config)
            },
            Some(backend) => {
                &&& r is Ok
                &&& *final(config) == (Config {
                    default_profile: update.default_profile,
                    desktop: crate::config::DesktopConfig {
                        insertion_backend: backend,
                        restore_clipboard: update.restore_clipboard,
                        retain_recordings: update.retain_recordings,
                        ..old(config).desktop
                    },
                    audio: crate::config::AudioConfig {
                        vad_enabled: update.vad_enabled,
                        vad_rms_threshold: update.vad_rms_threshold,
                        vad_minimum_voiced_frames: update.vad_minimum_voiced_frames,
                        minimum_duration_millis: update.minimum_duration_millis,
                        ..old(config).audio
                    },
                    ..*old(config)
                })
            },
        },
{
    let backend = match backend_from(update.insertion_backend.as_str()) {
        Some(backend) => backend,
        None => {
            return Err(Response::error(400, "unsupported insertion backend"));
        },
    };
    config.default_profile = update.default_profile;
    config.desktop.insertion_backend = backend;
    config.desktop.restore_clipboard = update.restore_clipboard;
    config.desktop.retain_recordings = update.retain_recordings;
    config.audio.vad_enabled = update.vad_enabled;
    config.audio.vad_rms_threshold = update.vad_rms_threshold;
    config.audio.vad_minimum_voiced_frames = update.vad_minimum_voiced_frames;
    config.audio.minimum_duration_millis = update.minimum_duration_millis;
    Ok(())
}

/// Settings of a cloud provider.
#[derive(Debug)]
pub struct RestProviderUpdate {
    pub endpoint: String,
    pub model: String,
    pub timeout_seconds: u64,
    pub smart_format: Option<bool>,
}

/// A provider with other settings; its secret stays.
pub open spec fn updated_provider(
    before: ProviderConfig,
    update: RestProviderUpdate,
    after: ProviderConfig,
) -> bool {
    match before {
        ProviderConfig::OpenaiCompatible { secret, .. } => {
            &&& after is OpenaiCompatible
            &&& after->OpenaiCompatible_endpoint@ == update.endpoint@
            &&& after->OpenaiCompatible_model@ == update.model@
            &&& after->OpenaiCompatible_secret@ == secret@
            &&& after->OpenaiCompatible_timeout_seconds == update.timeout_seconds
        },
        ProviderConfig::Deepgram { secret, smart_format, .. } => {
            &&& after is Deepgram
            &&& after->Deepgram_endpoint@ == update.endpoint@
            &&& after->Deepgram_model@ == update.model@
            &&& after->Deepgram_secret@ == secret@
            &&& after->Deepgram_timeout_seconds == update.timeout_seconds
            &&& after->Deepgram_smart_format == (match update.smart_format {
                Some(value) => value,
                None => smart_format,
            })
        },
        _ => false,
    }
}

/// The provider can be set up in the panel.
pub open spec fn editable(provider: ProviderConfig) -> bool {
    provider is OpenaiCompatible || provider is Deepgram
}

fn update_provider(provider: &ProviderConfig, update: RestProviderUpdate) -> (r: Option<
    ProviderConfig,
>)
    ensures
        match r {
            Some(after) => editable(*provider) && updated_provider(*provider, update, after),
            None => !editable(*provider),
        },
{
    match provider {
        ProviderConfig::OpenaiCompatible { secret, .. } => Some(
            ProviderConfig::OpenaiCompatible {
                endpoint: update.endpoint,
                model: update.model,
                secret: secret.clone(),
                timeout_seconds: update.timeout_seconds,
            },
        ),
        ProviderConfig::Deepgram { secret, smart_format, .. } => Some(
            ProviderConfig::Deepgram {
                endpoint: update.endpoint,
                model: update.model,
                secret: secret.clone(),
                timeout_seconds: update.timeout_seconds,
                smart_format: match update.smart_format {
                    Some(value) => value,
                    None => *smart_format,
                },
            },
        ),
        _ => None,
    }
}

/// The configuration differs in one table at most.
pub open spec fn same_but_providers(before: Config, after: Config) -> bool {
    after == (Config { providers: after.providers, ..before })
}

pub open spec fn same_but_quotas(before: Config, after: Config) -> bool {
    after == (Config { quotas: after.quotas, ..before })
}

/// Takes settings of a provider over into a configuration.
pub fn save_provider(config: &mut Config, provider: &str, update: RestProviderUpdate) -> (r: Result<
    (),
    Response,
>)
    ensures
        ({
            let before = old(config).providers;
            if !before.has(provider@) {
                &&& r matches Err(response)
                &&& response.refuses(404, "provider is not configured"@)
                &&& *final(config) == *old(config)
            } else if !editable(before.value_of(provider@)) {
                &&& r matches Err(response)
                &&& response.refuses(
                    400,
                    "this provider does not have editable cloud API settings"@,
                )
                &&& *final(config) == *old(config)
            } else {
                let after = final(config).providers;
                &&& r is Ok
                &&& same_but_providers(*old(config), *final(config))
                &&& updated_provider(
                    before.value_of(provider@),
                    update,
                    after.value_of(provider@),
                )
                &&& after.contents() == before.contents().insert(
                    provider@,
                    after.value_of(provider@),
                )
            }
        }),
{
    let changed = match config.providers.get(provider) {
        None => {
            return Err(Response::error(404, "provider is not configured"));
        },
        Some(current) => match update_provider(current, update) {
            Some(changed) => changed,
            None => {
                return Err(
                    Response::error(
                        400,
                        "this provider does not have editable cloud API settings",
                    ),
                );
            },
        },
    };
    config.providers.set(owned(provider), changed);
    Ok(())
}

/// A quota without any limit.
pub open spec fn unlimited(quota: ProviderQuotaConfig) -> bool {
    &&& quota.request_limit is None
    &&& quota.audio_seconds_limit is None
    &&& quota.token_limit is None
}

/// Takes the limits of a provider over into a configuration; no limits take the entry away.
pub fn save_quota(config: &mut Config, provider: &str, quota: ProviderQuotaConfig) -> (r: Result<
    (),
    Response,
>)
    ensures
        if !old(config).providers.has(provider@) {
            &&& r matches Err(response)
            &&& response.refuses(404, "provider is not configured"@)
            &&& *final(config) == *old(config)
        } else {
            &&& r is Ok
            &&& same_but_quotas(*old(config), *final(config))
            &&& final(config).quotas.contents() == (if unlimited(quota) {
                old(config).quotas.contents().remove(provider@)
            } else {
                old(config).quotas.contents().insert(provider@, quota)
            })
        },
{
    if !config.providers.contains(provider) {
        return Err(Response::error(404, "provider is not configured"));
    }
    if quota.request_limit.is_none() && quota.audio_seconds_limit.is_none()
        && quota.token_limit.is_none() {
        let _gone = config.quotas.remove(provider);
    } else {
        config.quotas.set(owned(provider), quota);
    }
    Ok(())
}

/// A provider refers to the secret.
pub open spec fn secret_is_known(config: Config, name: Seq<char>) -> bool {
    exists|i: int|
        0 <= i < config.providers.rows().len() && secret_of(
            (#[trigger] config.providers.rows()[i]).1,
        ) == Some(name)
}

/// The bytes can be the key of an API.
pub open spec fn proper_key(bytes: Seq<u8>) -> bool {
    &&& 0 < bytes.len() <= MAX_SECRET_BYTES
    &&& forall|i: int| 0 <= i < bytes.len() ==> #[trigger] bytes[i] != 0
}

fn has_zero(bytes: &[u8]) -> (r: bool)
    ensures
        r == exists|i: int| 0 <= i < bytes@.len() && #[trigger] bytes@[i] == 0,
{
    for i in 0..bytes.len()
        invariant
            forall|k: int| 0 <= k < i ==> #[trigger] bytes@[k] != 0,
    {
        if bytes[i] == 0 {
            return true;
        }
    }
    false
}

/// Whether a secret may be stored under a name.
pub fn save_secret(config: &Config, name: &str, body: &[u8]) -> (r: Result<(), Response>)
    ensures
        if !secret_is_known(*config, name@) {
            r matches Err(response) && response.refuses(404, "secret reference is not configured"@)
        } else if !proper_key(body@) {
            r matches Err(response) && response.refuses(
                400,
                "API key must contain 1 to 16384 bytes"@,
            )
        } else {
            r is Ok
        },
{
    let total: usize = config.providers.len();
    let mut known = false;
    for i in 0..total
        invariant
            total == config.providers.rows().len(),
            known == exists|k: int|
                0 <= k < i && secret_of((#[trigger] config.providers.rows()[k]).1) == Some(name@),
    {
        let mine = match provider_secret(config.providers.value_at(i)) {
            Some(secret) => same_text(secret, name),
            None => false,
        };
        if mine {
            assert(secret_of(config.providers.rows()[i as int].1) == Some(name@));
        }
        known = known || mine;
    }
    if !known {
        return Err(Response::error(404, "secret reference is not configured"));
    }
    if body.len() == 0 || body.len() > MAX_SECRET_BYTES || has_zero(body) {
        return Err(Response::error(400, "API key must contain 1 to 16384 bytes"));
    }
    Ok(())
}

/// A character of a name in a path into a JSON document.
pub open spec fn pointer_char(c: char) -> Seq<char> {
    if c == '~' {
        seq!['~', '0']
    } else if c == '/' {
        seq!['~', '1']
    } else {
        seq![c]
    }
}

/// A name as it is written in a path into a JSON document.
pub open spec fn pointer_escaped(text: Seq<char>) -> Seq<char>
    decreases text.len(),
{
    if text.len() == 0 {
        Seq::empty()
    } else {
        pointer_escaped(text.drop_last()) + pointer_char(text.last())
    }
}

/// The name that is written in a path into a JSON document.
pub open spec fn pointer_read(text: Seq<char>) -> Seq<char>
    decreases text.len(),
{
    if text.len() == 0 {
        Seq::empty()
    } else if text.len() >= 2 && text[0] == '~' && text[1] == '0' {
        seq!['~'] + pointer_read(text.skip(2))
    } else if text.len() >= 2 && text[0] == '~' && text[1] == '1' {
        seq!['/'] + pointer_read(text.skip(2))
    } else {
        seq![text[0]] + pointer_read(text.skip(1))
    }
}

pub fn json_pointer_escape(value: &str) -> (text: String)
    ensures
        text@ == pointer_escaped(value@),
{
    let mut text = String::new();
    assert(value@.take(0) =~= Seq::<char>::empty());
    for c in it: value.chars()
        invariant
            it.seq() == value@,
            text@ == pointer_escaped(value@.take(it.index() as int)),
    {
        let ghost before = text@;
        proof {
            let n = it.index() as int;
            assert(value@.take(n + 1).drop_last() =~= value@.take(n));
            assert(value@.take(n + 1).last() == c);
        }
        if c == '~' {
            text.push('~');
            text.push('0');
            assert(text@ =~= before + seq!['~', '0']);
        } else if c == '/' {
            text.push('~');
            text.push('1');
            assert(text@ =~= before + seq!['~', '1']);
        } else {
            text.push(c);
            assert(text@ =~= before + seq![c]);
        }
    }
    assert(value@.take(value@.len() as int) =~= value@);
    text
}

proof fn lemma_escape_from_front(text: Seq<char>)
    requires
        text.len() > 0,
    ensures
        pointer_escaped(text) == pointer_char(text[0]) + pointer_escaped(text.skip(1)),
    decreases text.len(),
{
    if text.len() == 1 {
        assert(text.drop_last() =~= Seq::<char>::empty());
        assert(text.skip(1) =~= Seq::<char>::empty());
        assert(pointer_escaped(text) =~= pointer_char(text[0]) + pointer_escaped(text.skip(1)));
    } else {
        lemma_escape_from_front(text.drop_last());
        assert(text.drop_last().skip(1) =~= text.skip(1).drop_last());
        assert(pointer_escaped(text) =~= pointer_char(text[0]) + pointer_escaped(text.skip(1)));
    }
}

/// A name that was written into a path into a JSON document reads back as it was.
pub proof fn law_pointer_reads_back(text: Seq<char>)
    ensures
        pointer_read(pointer_escaped(text)) == text,
    decreases text.len(),
{
    if text.len() > 0 {
        lemma_escape_from_front(text);
        law_pointer_reads_back(text.skip(1));
        let rest = pointer_escaped(text.skip(1));
        let all = pointer_escaped(text);
        if text[0] == '~' || text[0] == '/' {
            assert(all.skip(2) =~= rest);
        } else {
            assert(all.skip(1) =~= rest);
        }
        assert(seq![text[0]] + text.skip(1) =~= text);
    }
}

/// The backend that the panel names is shown under the same name.
pub proof fn law_backend_name_reads_back(name: Seq<char>, backend: InsertionBackend)
    requires
        backend_named(name) == Some(backend),
    ensures
        backend_word(backend) == name,
{
}

/// The position in an array that a step along a path stands for.
pub open spec fn array_index(token: Seq<char>) -> Option<nat> {
    if token.len() > 0 && (token[0] == '+' || (token[0] == '0' && token.len() != 1)) {
        None
    } else {
        parsed_number(token, usize::MAX as nat)
    }
}

fn index_of_token(token: &str) -> (r: Option<usize>)
    ensures
        match r {
            Some(index) => array_index(token@) == Some(index as nat),
            None => array_index(token@) is None,
        },
{
    let length: usize = token.unicode_len();
    if length > 0 {
        let first = token.get_char(0);
        if first == '+' || (first == '0' && length != 1) {
            return None;
        }
    }
    match parse_number(token, usize::MAX as u64) {
        Some(index) => Some(index as usize),
        None => None,
    }
}

pub open spec fn step_into(document: Option<JsonModel>, token: Seq<char>) -> Option<JsonModel> {
    match document {
        Some(value) => value.pointed(token, array_index(token)),
        None => None,
    }
}

fn walk<'a>(document: Option<&'a Json>, token: &str) -> (r: Option<&'a Json>)
    ensures
        ({
            let found = step_into(
                match document {
                    Some(value) => Some(value@),
                    None => None,
                },
                token@,
            );
            match r {
                Some(value) => found == Some(value@),
                None => found is None,
            }
        }),
{
    match document {
        Some(value) => value.point(token, index_of_token(token)),
        None => None,
    }
}

/// The consumption that a document tells of a provider.
pub open spec fn live_usage(document: JsonModel, id: Seq<char>) -> Option<JsonModel> {
    step_into(step_into(step_into(Some(document), "providers"@), id), "usage"@)
}

/// What is shown of a provider without any consumption.
pub open spec fn empty_usage_document() -> JsonModel {
    crate::presentation::usage_document(crate::controller::no_usage())
}

pub fn empty_usage() -> (json: Json)
    ensures
        json@ == empty_usage_document(),
{
    crate::presentation::usage_json(&crate::controller::ProviderUsageSnapshot::default())
}

/// What is shown where the daemon tells of no consumption.
pub open spec fn unavailable_usage_parts() -> Seq<(Seq<char>, JsonModel)> {
    seq![
        ("scope"@, JsonModel::Text("unavailable"@)),
        ("providers"@, JsonModel::Object(Seq::empty())),
    ]
}

/// The consumption that the daemon tells of, from its answer.
pub fn usage_or_unavailable(answer: Option<Json>) -> (json: Json)
    ensures
        match answer {
            Some(document) => json == document,
            None => json@ == JsonModel::Object(unavailable_usage_parts()),
        },
{
    match answer {
        Some(document) => document,
        None => {
            let mut members = Members::new();
            members.put_text("scope", "unavailable");
            members.put("providers", Members::new().object());
            assert(members@ =~= unavailable_usage_parts());
            members.object()
        },
    }
}

/// The endpoint, the model and the secret of a provider, as they are shown.
pub open spec fn shown_settings(provider: ProviderConfig) -> (Seq<char>, Seq<char>, Seq<char>) {
    match provider {
        ProviderConfig::Mock { .. } => (Seq::empty(), Seq::empty(), Seq::empty()),
        ProviderConfig::OpenaiCompatible { endpoint, model, secret, .. } => (
            endpoint@,
            model@,
            secret@,
        ),
        ProviderConfig::Deepgram { endpoint, model, secret, .. } => (endpoint@, model@, secret@),
        ProviderConfig::Command { program, .. } => (program@, Seq::empty(), Seq::empty()),
    }
}

/// The time limit and the formatting of a provider, as they are shown.
pub open spec fn shown_options(provider: ProviderConfig) -> (JsonModel, JsonModel) {
    match provider {
        ProviderConfig::Mock { .. } => (JsonModel::Null, JsonModel::Null),
        ProviderConfig::OpenaiCompatible { timeout_seconds, .. } => (
            JsonModel::Unsigned(timeout_seconds),
            JsonModel::Null,
        ),
        ProviderConfig::Deepgram { timeout_seconds, smart_format, .. } => (
            JsonModel::Unsigned(timeout_seconds),
            JsonModel::Bool(smart_format),
        ),
        ProviderConfig::Command { timeout_seconds, .. } => (
            JsonModel::Unsigned(timeout_seconds),
            JsonModel::Null,
        ),
    }
}

fn settings_of(provider: &ProviderConfig) -> (r: (&str, &str, &str))
    ensures
        (r.0@, r.1@, r.2@) == shown_settings(*provider),
{
    proof {
        reveal_strlit("");
        assert(""@ =~= Seq::<char>::empty());
    }
    match provider {
        ProviderConfig::Mock { .. } => ("", "", ""),
        ProviderConfig::OpenaiCompatible { endpoint, model, secret, .. } => (
            endpoint.as_str(),
            model.as_str(),
            secret.as_str(),
        ),
        ProviderConfig::Deepgram { endpoint, model, secret, .. } => (
            endpoint.as_str(),
            model.as_str(),
            secret.as_str(),
        ),
        ProviderConfig::Command { program, .. } => (program.as_str(), "", ""),
    }
}

fn options_of(provider: &ProviderConfig) -> (r: (Json, Json))
    ensures
        (r.0@, r.1@) == shown_options(*provider),
{
    match provider {
        ProviderConfig::Mock { .. } => (Json::Null, Json::Null),
        ProviderConfig::OpenaiCompatible { timeout_seconds, .. } => (
            Json::Unsigned(*timeout_seconds),
            Json::Null,
        ),
        ProviderConfig::Deepgram { timeout_seconds, smart_format, .. } => (
            Json::Unsigned(*timeout_seconds),
            Json::Bool(*smart_format),
        ),
        ProviderConfig::Command { timeout_seconds, .. } => (
            Json::Unsigned(*timeout_seconds),
            Json::Null,
        ),
    }
}

/// What is shown of a secret: a provider without one needs none.
pub open spec fn shown_secret_state(provider: ProviderConfig, state: Seq<char>) -> Seq<char> {
    if secret_of(provider) is Some {
        state
    } else {
        "not-required"@
    }
}

/// What the panel is told of a provider. The value of its secret is not in it.
pub open spec fn provider_parts(
    id: Seq<char>,
    provider: ProviderConfig,
    state: Seq<char>,
    usage: JsonModel,
    quota: ProviderQuotaConfig,
) -> Seq<(Seq<char>, JsonModel)> {
    let settings = shown_settings(provider);
    let options = shown_options(provider);
    seq![
        ("id"@, JsonModel::Text(id)),
        ("kind"@, JsonModel::Text(kind_word(provider))),
        ("endpoint"@, JsonModel::Text(settings.0)),
        ("model"@, JsonModel::Text(settings.1)),
        ("secret_ref"@, JsonModel::Text(settings.2)),
        ("secret_state"@, JsonModel::Text(shown_secret_state(provider, state))),
        ("timeout_seconds"@, options.0),
        ("smart_format"@, options.1),
        ("usage"@, usage),
        ("quota"@, quota_document(quota)),
    ]
}

pub open spec fn usage_shown(document: JsonModel, id: Seq<char>) -> JsonModel {
    match live_usage(document, id) {
        Some(usage) => usage,
        None => empty_usage_document(),
    }
}

pub open spec fn quota_shown(config: Config, id: Seq<char>) -> ProviderQuotaConfig {
    if config.quotas.has(id) {
        config.quotas.value_of(id)
    } else {
        ProviderQuotaConfig { request_limit: None, audio_seconds_limit: None, token_limit: None }
    }
}

/// What the panel is told of all providers; `states` are what is known of their secrets.
pub open spec fn provider_entries(
    config: Config,
    usage: JsonModel,
    states: Seq<Seq<char>>,
) -> Seq<JsonModel> {
    let rows = config.providers.rows();
    Seq::new(
        rows.len(),
        |i: int|
            JsonModel::Object(
                provider_parts(
                    rows[i].0,
                    rows[i].1,
                    states[i],
                    usage_shown(usage, rows[i].0),
                    quota_shown(config, rows[i].0),
                ),
            ),
    )
}

pub open spec fn profile_names(config: Config) -> Seq<Seq<char>> {
    Seq::new(config.profiles.rows().len(), |i: int| config.profiles.rows()[i].0)
}

pub open spec fn general_parts(config: Config) -> Seq<(Seq<char>, JsonModel)> {
    seq![
        ("default_profile"@, JsonModel::Text(config.default_profile@)),
        ("profiles"@, JsonModel::Array(text_items(profile_names(config)))),
        (
            "insertion_backend"@,
            JsonModel::Text(backend_word(config.desktop.insertion_backend)),
        ),
        ("restore_clipboard"@, JsonModel::Bool(config.desktop.restore_clipboard)),
        ("retain_recordings"@, JsonModel::Bool(config.desktop.retain_recordings)),
        ("vad_enabled"@, JsonModel::Bool(config.audio.vad_enabled)),
        ("vad_rms_threshold"@, JsonModel::Unsigned(config.audio.vad_rms_threshold as u64)),
        (
            "vad_minimum_voiced_frames"@,
            JsonModel::Unsigned(config.audio.vad_minimum_voiced_frames as u64),
        ),
        (
            "minimum_duration_millis"@,
            JsonModel::Unsigned(config.audio.minimum_duration_millis),
        ),
    ]
}

pub open spec fn scope_of(usage: JsonModel) -> Seq<char> {
    match usage.member("scope"@) {
        Some(scope) => match scope.text() {
            Some(text) => text,
            None => "unavailable"@,
        },
        None => "unavailable"@,
    }
}

/// What the panel is told when it opens.
pub open spec fn state_parts(
    config: Config,
    config_path: Seq<char>,
    usage: JsonModel,
    states: Seq<Seq<char>>,
) -> Seq<(Seq<char>, JsonModel)> {
    seq![
        ("config_path"@, JsonModel::Text(config_path)),
        ("usage_scope"@, JsonModel::Text(scope_of(usage))),
        ("general"@, JsonModel::Object(general_parts(config))),
        ("providers"@, JsonModel::Array(provider_entries(config, usage, states))),
    ]
}

fn provider_entry(config: &Config, i: usize, usage: &Json, state: &str) -> (json: Json)
    requires
        i < config.providers.rows().len(),
    ensures
        json@ == JsonModel::Object(
            provider_parts(
                config.providers.rows()[i as int].0,
                config.providers.rows()[i as int].1,
                state@,
                usage_shown(usage@, config.providers.rows()[i as int].0),
                quota_shown(*config, config.providers.rows()[i as int].0),
            ),
        ),
{
    let id = config.providers.name_at(i);
    let provider = config.providers.value_at(i);
    let (endpoint, model, secret) = settings_of(provider);
    let (timeout, formatting) = options_of(provider);
    let shown = if provider_secret(provider).is_some() {
        state
    } else {
        "not-required"
    };
    let found = walk(walk(walk(Some(usage), "providers"), id), "usage");
    let consumption = match found {
        Some(value) => copy_json(value),
        None => empty_usage(),
    };
    let quota = match config.quotas.get(id) {
        Some(quota) => *quota,
        None => ProviderQuotaConfig::default(),
    };
    let mut members = Members::new();
    members.put_text("id", id);
    members.put_text("kind", provider_kind(provider));
    members.put_text("endpoint", endpoint);
    members.put_text("model", model);
    members.put_text("secret_ref", secret);
    members.put_text("secret_state", shown);
    members.put("timeout_seconds", timeout);
    members.put("smart_format", formatting);
    members.put("usage", consumption);
    members.put("quota", quota_json(&quota));
    assert(members@ =~= provider_parts(
        id@,
        *provider,
        state@,
        usage_shown(usage@, id@),
        quota_shown(*config, id@),
    ));
    members.object()
}

fn general_settings(config: &Config) -> (json: Json)
    ensures
        json@ == JsonModel::Object(general_parts(*config)),
{
    let total: usize = config.profiles.len();
    let ghost all = profile_names(*config);
    let mut names: Vec<String> = Vec::new();
    assert(texts(names@) =~= all.take(0));
    for i in 0..total
        invariant
            total == config.profiles.rows().len(),
            all == profile_names(*config),
            texts(names@) == all.take(i as int),
    {
        let ghost before = texts(names@);
        names.push(owned(config.profiles.name_at(i)));
        assert(texts(names@) =~= before.push(all[i as int]));
        assert(all.take(i + 1) =~= all.take(i as int).push(all[i as int]));
    }
    assert(all.take(total as int) =~= all);
    let mut members = Members::new();
    members.put_text("default_profile", config.default_profile.as_str());
    members.put("profiles", text_array(&names));
    members.put_text(
        "insertion_backend",
        insertion_backend_name(config.desktop.insertion_backend),
    );
    members.put_truth("restore_clipboard", config.desktop.restore_clipboard);
    members.put_truth("retain_recordings", config.desktop.retain_recordings);
    members.put_truth("vad_enabled", config.audio.vad_enabled);
    members.put_number("vad_rms_threshold", config.audio.vad_rms_threshold as u64);
    members.put_number(
        "vad_minimum_voiced_frames",
        config.audio.vad_minimum_voiced_frames as u64,
    );
    members.put_number("minimum_duration_millis", config.audio.minimum_duration_millis);
    assert(members@ =~= general_parts(*config));
    members.object()
}

/// What the panel is told when it opens: the configuration, what is known of each secret without
/// its value, and the consumption. There is no answer where a provider has no entry in `states`.
pub fn settings_state(
    config: &Config,
    config_path: &str,
    usage: &Json,
    states: &Vec<String>,
) -> (r: Option<Json>)
    ensures
        match r {
            Some(json) => {
                &&& states@.len() == config.providers.rows().len()
                &&& json@ == JsonModel::Object(
                    state_parts(*config, config_path@, usage@, texts(states@)),
                )
            },
            None => states@.len() != config.providers.rows().len(),
        },
{
    let total: usize = config.providers.len();
    if states.len() != total {
        return None;
    }
    let ghost all = provider_entries(*config, usage@, texts(states@));
    let mut entries = Items::new();
    assert(entries@ =~= all.take(0));
    for i in 0..total
        invariant
            total == config.providers.rows().len(),
            total == states@.len(),
            all == provider_entries(*config, usage@, texts(states@)),
            entries@ == all.take(i as int),
    {
        assert(texts(states@)[i as int] == states@[i as int]@);
        entries.put(provider_entry(config, i, usage, states[i].as_str()));
        assert(all.take(i + 1) =~= all.take(i as int).push(all[i as int]));
    }
    assert(all.take(total as int) =~= all);
    let scope = match usage.get("scope") {
        Some(scope) => match scope.as_text() {
            Some(text) => text,
            None => "unavailable",
        },
        None => "unavailable",
    };
    let mut members = Members::new();
    members.put_text("config_path", config_path);
    members.put_text("usage_scope", scope);
    members.put("general", general_settings(config));
    members.put("providers", entries.array());
    assert(members@ =~= state_parts(*config, config_path@, usage@, texts(states@)));
    Some(members.object())
}

/// What the panel is told of a recording for calibration, apart from the share of speech in it.
pub open spec fn calibration_parts(result: crate::vad::VadResult) -> Seq<(Seq<char>, JsonModel)> {
    seq![
        ("noise_floor"@, JsonModel::Unsigned(result.noise_floor as u64)),
        ("average_rms"@, JsonModel::Unsigned(result.average_rms as u64)),
        ("peak"@, JsonModel::Unsigned(result.peak as u64)),
        ("adaptive_threshold"@, JsonModel::Unsigned(result.adaptive_threshold as u64)),
        (
            "suggested_threshold"@,
            JsonModel::Unsigned(crate::doctor::threshold_above(result.noise_floor) as u64),
        ),
    ]
}

/// What the panel is told of a recording for calibration; `speech_ratio` is the share of speech
/// in it as it is written in JSON.
pub fn calibration_answer(result: &crate::vad::VadResult, speech_ratio: String) -> (json: Json)
    ensures
        json@ == JsonModel::Object(
            calibration_parts(*result).push(
                ("speech_ratio"@, JsonModel::Number(speech_ratio@)),
            ),
        ),
{
    let mut members = Members::new();
    members.put_number("noise_floor", result.noise_floor as u64);
    members.put_number("average_rms", result.average_rms as u64);
    members.put_number("peak", result.peak as u64);
    members.put_number("adaptive_threshold", result.adaptive_threshold as u64);
    members.put_number(
        "suggested_threshold",
        crate::doctor::threshold_above_noise(result.noise_floor) as u64,
    );
    assert(members@ =~= calibration_parts(*result));
    members.put("speech_ratio", Json::Number(speech_ratio));
    members.object()
}

/// The process that a file names may still run: its command line is that of the panel.
pub fn is_settings_command(command_line: &[u8]) -> (r: bool)
    ensures
        r == crate::overlay::holds_bytes(command_line@, encode_utf8("voxtype-settings"@)),
{
    crate::overlay::contains_bytes(command_line, "voxtype-settings".as_bytes())
}

/// The process that a file names.
pub fn process_in(text: &str) -> (r: Option<u32>)
    ensures
        match r {
            Some(process) => parsed_number(trimmed(text@), u32::MAX as nat) == Some(
                process as nat,
            ),
            None => parsed_number(trimmed(text@), u32::MAX as nat) is None,
        },
{
    match parse_number(trim(text), u32::MAX as u64) {
        Some(process) => Some(process as u32),
        None => None,
    }
}

/// Random bytes as the token of a session.
pub open spec fn token_text(bytes: Seq<u8>) -> Seq<char>
    decreases bytes.len(),
{
    if bytes.len() == 0 {
        Seq::empty()
    } else {
        token_text(bytes.drop_last()) + crate::text::hex_digits(bytes.last() as nat, 2)
    }
}

/// Writes random bytes as the token of a session.
pub fn session_token(bytes: &[u8]) -> (token: String)
    ensures
        token@ == token_text(bytes@),
{
    let mut token = String::new();
    assert(bytes@.take(0) =~= Seq::<u8>::empty());
    for i in 0..bytes.len()
        invariant
            token@ == token_text(bytes@.take(i as int)),
    {
        proof {
            assert(bytes@.take(i + 1).drop_last() =~= bytes@.take(i as int));
        }
        let digits = crate::text::write_hex(bytes[i] as u64, 2);
        token.append(digits.as_str());
    }
    assert(bytes@.take(bytes@.len() as int) =~= bytes@);
    token
}

/// The head of a request ends at the first empty line, wherever that stands.
pub proof fn law_head_ends_at_the_first_empty_line(bytes: Seq<u8>, at: int)
    requires
        0 <= at <= bytes.len() - 4,
        bytes[at] == 13 && bytes[at + 1] == 10 && bytes[at + 2] == 13 && bytes[at + 3] == 10,
        forall|k: int|
            0 <= k < at ==> !(#[trigger] bytes[k] == 13 && bytes[k + 1] == 10 && bytes[k + 2] == 13
                && bytes[k + 3] == 10),
    ensures
        head_end_from(bytes, 0) == Some(at as nat),
{
    lemma_head_end_from(bytes, 0, at);
}

proof fn lemma_head_end_from(bytes: Seq<u8>, from: int, at: int)
    requires
        0 <= from <= at <= bytes.len() - 4,
        ends_head(bytes, at),
        forall|k: int|
            from <= k < at ==> !(#[trigger] bytes[k] == 13 && bytes[k + 1] == 10 && bytes[k + 2]
                == 13 && bytes[k + 3] == 10),
    ensures
        head_end_from(bytes, from) == Some(at as nat),
    decreases at - from,
{
    if from < at {
        assert(!ends_head(bytes, from)) by {
            assert(!(bytes[from] == 13 && bytes[from + 1] == 10 && bytes[from + 2] == 13
                && bytes[from + 3] == 10));
        }
        lemma_head_end_from(bytes, from + 1, at);
    }
}

/// The length that a request tells is read back, whatever the case of the name of the header and the
/// white space before the number; the first such header counts, and without one the body is empty.
pub proof fn law_body_length_is_read(headers: Seq<Seq<char>>, i: int, name: Seq<char>, length: nat)
    requires
        0 <= i < headers.len(),
        forall|k: int| 0 <= k < i ==> length_in(#[trigger] headers[k]) is None,
        headers[i] == name + ": "@ + decimal(length),
        lowered(name) == "content-length"@,
        length <= usize::MAX,
    ensures
        length_from(headers, 0) == length,
        length_from(Seq::empty(), 0) == 0,
{
    reveal_strlit(": ");
    reveal_strlit("content-length");
    let line = headers[i];
    let digits = decimal(length);
    assert(name.len() == 14) by {
        assert(lowered(name).len() == name.len());
    }
    assert forall|k: int| 0 <= k < name.len() implies #[trigger] line[k] != ':' by {
        assert(line[k] == name[k]);
        assert(lowered(name)[k] == "content-length"@[k]);
        assert(lowered(name)[k] == crate::text::lower_ascii(name[k]));
    }
    assert(line[name.len() as int] == ':');
    crate::text::law_before_first_at(line, ':', name.len() as int);
    assert(line.take(name.len() as int) =~= name);
    assert(after_first(line, ':') =~= seq![' '] + digits);
    let rest = seq![' '] + digits;
    crate::text::law_decimal_reads_back(length, length);
    crate::text::law_numbers_are_digits(digits, length, '0');
    assert(rest[0] == ' ');
    assert(rest[1] == digits[0]);
    assert(rest[rest.len() - 1] == digits[digits.len() - 1]);
    assert(digits[digits.len() - 1] == '+' || '0' <= digits[digits.len() - 1] <= '9') by {
        if digits.len() > 1 {
            assert('0' <= digits[digits.len() - 1] <= '9');
        }
    }
    crate::text::law_trimming_keeps_the_core(rest, 1, rest.len() as int);
    assert(rest.subrange(1, rest.len() as int) =~= digits);
    crate::text::law_decimal_reads_back(length, usize::MAX as nat);
    assert(length_in(line) == Some(length));
    lemma_length_from(headers, 0, i);
}

proof fn lemma_length_from(headers: Seq<Seq<char>>, from: int, i: int)
    requires
        0 <= from <= i < headers.len(),
        forall|k: int| from <= k < i ==> length_in(#[trigger] headers[k]) is None,
        length_in(headers[i]) is Some,
    ensures
        length_from(headers, from) == length_in(headers[i])->0,
    decreases i - from,
{
    if from < i {
        assert(length_in(headers[from]) is None);
        lemma_length_from(headers, from + 1, i);
    }
}

/// A request is taken up to 131072 bytes together, and its body begins behind the empty line.
pub proof fn law_request_is_bounded(bytes: Seq<u8>, at: nat)
    requires
        valid_utf8(bytes.take(at as int)),
    ensures
        ({
            let length = length_from(lines_of(decode_utf8(bytes.take(at as int))), 0);
            &&& at + 4 + length <= 131_072 ==> head_in(bytes, at) == Ok::<(nat, nat), Seq<char>>(
                (at + 4, length),
            )
            &&& at + 4 + length > 131_072 ==> head_in(bytes, at) is Err
        }),
{
}

/// The body of a request is as many bytes behind the head as the head tells, once they are there.
pub proof fn law_body_stands_behind_the_head(head: Seq<u8>, body: Seq<u8>, more: Seq<u8>)
    ensures
        body_of(
            ReaderModel { bytes: head + body + more, head: Some((head.len(), body.len())) },
        ) == body,
        more.len() > 0 ==> body_of(
            ReaderModel { bytes: head + body, head: Some((head.len(), body.len() + more.len())) },
        ) == Seq::<u8>::empty(),
{
    let all = head + body + more;
    assert(all.subrange(head.len() as int, (head.len() + body.len()) as int) =~= body);
}

/// The token of a request is the value of the first pair that is named so.
pub proof fn law_token_is_found(pairs: Seq<Seq<char>>, i: int, token: Seq<char>)
    requires
        0 <= i < pairs.len(),
        pairs[i] == "token="@ + token,
        forall|k: int|
            0 <= k < i ==> !has_char(#[trigger] pairs[k], '=') || before_first(pairs[k], '=')
                != "token"@,
    ensures
        token_from(pairs, 0) == Some(token),
{
    reveal_strlit("token=");
    reveal_strlit("token");
    let pair = pairs[i];
    assert(pair[0] == 't' && pair[1] == 'o' && pair[2] == 'k' && pair[3] == 'e' && pair[4] == 'n');
    assert(pair[5] == '=');
    crate::text::law_before_first_at(pair, '=', 5);
    assert(pair.take(5) =~= "token"@);
    assert(after_first(pair, '=') =~= token);
    lemma_token_from(pairs, 0, i);
}

proof fn lemma_token_from(pairs: Seq<Seq<char>>, from: int, i: int)
    requires
        0 <= from <= i < pairs.len(),
        has_char(pairs[i], '='),
        before_first(pairs[i], '=') == "token"@,
        forall|k: int|
            from <= k < i ==> !has_char(#[trigger] pairs[k], '=') || before_first(pairs[k], '=')
                != "token"@,
    ensures
        token_from(pairs, from) == Some(after_first(pairs[i], '=')),
    decreases i - from,
{
    if from < i {
        assert(!has_char(pairs[from], '=') || before_first(pairs[from], '=') != "token"@);
        lemma_token_from(pairs, from + 1, i);
    }
}

/// The panel reads its state with GET and changes things with POST; any other method, and any path
/// that nothing stands behind, is answered with 404.
pub proof fn law_panel_answers_its_own_paths(
    r: Result<Endpoint, Response>,
    method: Seq<char>,
    path: Seq<char>,
)
    requires
        routes(r, method, path),
    ensures
        method == "GET"@ && path == "/state"@ ==> r == Ok::<Endpoint, Response>(Endpoint::State),
        method != "GET"@ && method != "POST"@ ==> r is Err && r->Err_0.status == 404,
        method == "GET"@ && path != "/state"@ ==> r is Err && r->Err_0.status == 404,
        method == "POST"@ && path == "/general"@ ==> r == Ok::<Endpoint, Response>(
            Endpoint::General,
        ),
        method == "POST"@ && path == "/calibrate"@ ==> r == Ok::<Endpoint, Response>(
            Endpoint::Calibrate,
        ),
        method == "POST"@ && path == "/open-config"@ ==> r == Ok::<Endpoint, Response>(
            Endpoint::OpenConfig,
        ),
        method == "POST"@ && path == "/state"@ ==> r is Err && r->Err_0.status == 404,
        r == Ok::<Endpoint, Response>(Endpoint::State) ==> method == "GET"@,
        r is Ok && r->Ok_0 is Secret ==> method == "POST"@,
        r is Ok && r->Ok_0 is Provider ==> method == "POST"@,
        r is Ok && r->Ok_0 is Quota ==> method == "POST"@,
{
    reveal_strlit("GET");
    reveal_strlit("POST");
    reveal_strlit("/state");
    reveal_strlit("/general");
    reveal_strlit("/calibrate");
    reveal_strlit("/open-config");
    reveal_strlit("/provider/");
    reveal_strlit("/quota/");
    reveal_strlit("/secret/");
    assert("GET"@.len() == 3 && "POST"@.len() == 4);
    assert("/state"@.len() == 6 && "/general"@.len() == 8 && "/calibrate"@.len() == 10
        && "/open-config"@.len() == 12);
    assert("/provider/"@.len() == 10 && "/quota/"@.len() == 7 && "/secret/"@.len() == 8);
}

/// Changing a provider in the panel sets what the panel sends and keeps the rest: the kind and the
/// secret stay, and so does the formatting where none is sent.
pub proof fn law_secret_outlives_a_change(
    before: ProviderConfig,
    update: RestProviderUpdate,
    after: ProviderConfig,
)
    requires
        updated_provider(before, update, after),
    ensures
        secret_of(after) == secret_of(before),
        kind_word(after) == kind_word(before),
        before is Deepgram || before is OpenaiCompatible,
        before is Deepgram && update.smart_format is None ==> after->Deepgram_smart_format
            == before->Deepgram_smart_format,
        before is Deepgram && update.smart_format is Some ==> after->Deepgram_smart_format
            == update.smart_format->0,
        after is Deepgram ==> after->Deepgram_endpoint@ == update.endpoint@
            && after->Deepgram_model@ == update.model@ && after->Deepgram_timeout_seconds
            == update.timeout_seconds,
        after is OpenaiCompatible ==> after->OpenaiCompatible_endpoint@ == update.endpoint@
            && after->OpenaiCompatible_model@ == update.model@
            && after->OpenaiCompatible_timeout_seconds == update.timeout_seconds,
{
}

/// A key that is saved is not empty, has no zero byte and at most 16384 bytes.
pub proof fn law_saved_key_is_proper(bytes: Seq<u8>)
    ensures
        proper_key(bytes) <==> bytes.len() > 0 && bytes.len() <= 16_384 && !bytes.contains(0u8),
{
    if bytes.contains(0u8) {
        let i = choose|i: int| 0 <= i < bytes.len() && bytes[i] == 0;
        assert(bytes[i] == 0);
    }
    if !bytes.contains(0u8) {
        assert forall|i: int| 0 <= i < bytes.len() implies #[trigger] bytes[i] != 0 by {
            if bytes[i] == 0 {
                assert(bytes.contains(0u8));
            }
        }
    }
}

/// The token of a session has two characters for each of its random bytes, and different bytes make
/// different tokens.
pub proof fn law_tokens_tell_their_bytes(a: Seq<u8>, b: Seq<u8>)
    ensures
        token_text(a).len() == 2 * a.len(),
        token_text(a) == token_text(b) ==> a == b,
    decreases a.len(),
{
    lemma_token_length(a);
    lemma_token_length(b);
    if token_text(a) == token_text(b) {
        assert(a.len() == b.len());
        if a.len() > 0 {
            let x = crate::text::hex_digits(a.last() as nat, 2);
            let y = crate::text::hex_digits(b.last() as nat, 2);
            lemma_hex_pair(a.last());
            lemma_hex_pair(b.last());
            let n = token_text(a).len() as int;
            assert(token_text(a).skip(n - 2) =~= x);
            assert(token_text(b).skip(n - 2) =~= y);
            assert(token_text(a).take(n - 2) =~= token_text(a.drop_last()));
            assert(token_text(b).take(n - 2) =~= token_text(b.drop_last()));
            law_tokens_tell_their_bytes(a.drop_last(), b.drop_last());
            assert(x[0] == y[0] && x[1] == y[1]);
            assert(a.last() == b.last());
            assert(a =~= a.drop_last().push(a.last()));
            assert(b =~= b.drop_last().push(b.last()));
        } else {
            assert(a =~= b);
        }
    }
}

proof fn lemma_token_length(a: Seq<u8>)
    ensures
        token_text(a).len() == 2 * a.len(),
    decreases a.len(),
{
    if a.len() > 0 {
        lemma_token_length(a.drop_last());
        lemma_hex_pair(a.last());
    }
}

proof fn lemma_hex_pair(byte: u8)
    ensures
        ({
            let pair = crate::text::hex_digits(byte as nat, 2);
            &&& pair.len() == 2
            &&& pair[0] == crate::text::hex_char((byte / 16) as nat)
            &&& pair[1] == crate::text::hex_char((byte % 16) as nat)
        }),
{
    reveal_with_fuel(crate::text::hex_digits, 3);
    assert(byte / 16 % 16 == byte / 16);
}

} // verus!
