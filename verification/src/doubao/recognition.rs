//! Recognition results in provider responses.

use crate::doubao::wire::{ProtocolError, ResponseEnvelope};
use crate::json::{json_document, item_models, lemma_item_models, parse_json, Json, JsonModel};
use vstd::prelude::*;
use vstd::string::*;

verus! {

/// One recognition result; the flags are independent of each other.
#[derive(Debug, Eq, PartialEq)]
pub struct RecognitionEvent {
    pub text: Option<String>,
    pub interim: bool,
    pub vad_started: bool,
    pub vad_finished: bool,
    pub final_result: bool,
    pub packet_number: Option<u64>,
}

/// What a recognition result says.
pub struct RecognitionModel {
    pub text: Option<Seq<char>>,
    pub interim: bool,
    pub vad_started: bool,
    pub vad_finished: bool,
    pub final_result: bool,
    pub packet_number: Option<u64>,
}

impl RecognitionEvent {
    pub open spec fn view(&self) -> RecognitionModel {
        RecognitionModel {
            text: match self.text {
                Some(text) => Some(text@),
                None => None,
            },
            interim: self.interim,
            vad_started: self.vad_started,
            vad_finished: self.vad_finished,
            final_result: self.final_result,
            packet_number: self.packet_number,
        }
    }
}

/// The flag `name` of a value, or `missing` where it has none.
pub open spec fn flag_of(value: JsonModel, name: Seq<char>, missing: bool) -> bool {
    match value.member(name) {
        Some(JsonModel::Bool(flag)) => flag,
        _ => missing,
    }
}

/// A result that stands by itself, without being streamed.
pub open spec fn nonstream(result: JsonModel) -> bool {
    match result.member("extra"@) {
        Some(extra) => flag_of(extra, "nonstream_result"@, false),
        None => false,
    }
}

/// Every one of the first `n` results is interim.
pub open spec fn all_interim(results: Seq<JsonModel>, n: int) -> bool
    decreases n,
{
    n <= 0 || (all_interim(results, n - 1) && flag_of(results[n - 1], "is_interim"@, true))
}

/// One of the first `n` results ends speech.
pub open spec fn any_vad_finished(results: Seq<JsonModel>, n: int) -> bool
    decreases n,
{
    n > 0 && (any_vad_finished(results, n - 1) || flag_of(
        results[n - 1],
        "is_vad_finished"@,
        false,
    ))
}

/// One of the first `n` results stands by itself.
pub open spec fn any_nonstream(results: Seq<JsonModel>, n: int) -> bool
    decreases n,
{
    n > 0 && (any_nonstream(results, n - 1) || nonstream(results[n - 1]))
}

/// The recognition result that a document reports: the text of its last result and the flags of
/// all its results together.
pub open spec fn recognition_of(document: JsonModel) -> RecognitionModel {
    let vad_started = match document.member("extra"@) {
        Some(extra) => flag_of(extra, "vad_start"@, false),
        None => false,
    };
    let packet_number = match document.member("extra"@) {
        Some(extra) => match extra.member("packet_number"@) {
            Some(number) => number.unsigned(),
            None => None,
        },
        None => None,
    };
    match document.member("results"@) {
        Some(JsonModel::Array(results)) if results.len() > 0 => {
            let n = results.len() as int;
            let interim = all_interim(results, n);
            let vad_finished = any_vad_finished(results, n);
            RecognitionModel {
                text: match results.last().member("text"@) {
                    Some(text) => text.text(),
                    None => None,
                },
                interim,
                vad_started,
                vad_finished,
                final_result: any_nonstream(results, n) || (!interim && vad_finished),
                packet_number,
            }
        },
        _ => RecognitionModel {
            text: None,
            interim: true,
            vad_started,
            vad_finished: false,
            final_result: false,
            packet_number,
        },
    }
}

fn flag(value: &Json, name: &str, missing: bool) -> (r: bool)
    ensures
        r == flag_of(value@, name@, missing),
{
    match value.get(name) {
        Some(member) => match member.as_bool() {
            Some(value) => value,
            None => missing,
        },
        None => missing,
    }
}

fn is_nonstream(result: &Json) -> (r: bool)
    ensures
        r == nonstream(result@),
{
    match result.get("extra") {
        Some(extra) => flag(extra, "nonstream_result", false),
        None => false,
    }
}

/// The recognition result that a parsed document reports.
pub fn recognition_in(document: &Json) -> (event: RecognitionEvent)
    ensures
        event@ == recognition_of(document@),
{
    let (vad_started, packet_number) = match document.get("extra") {
        Some(extra) => (
            flag(extra, "vad_start", false),
            match extra.get("packet_number") {
                Some(number) => number.as_unsigned(),
                None => None,
            },
        ),
        None => (false, None),
    };
    match document.get("results") {
        Some(Json::Array(items)) => if items.len() > 0 {
            let ghost results = item_models(items@);
            proof {
                lemma_item_models(items@);
            }
            let mut interim = true;
            let mut vad_finished = false;
            let mut alone = false;
            for i in 0..items.len()
                invariant
                    results.len() == items@.len(),
                    forall|k: int| 0 <= k < items@.len() ==> results[k] == (#[trigger] items@[k])@,
                    interim == all_interim(results, i as int),
                    vad_finished == any_vad_finished(results, i as int),
                    alone == any_nonstream(results, i as int),
            {
                let result = &items[i];
                interim = interim && flag(result, "is_interim", true);
                vad_finished = vad_finished || flag(result, "is_vad_finished", false);
                alone = alone || is_nonstream(result);
            }
            let text = match items[items.len() - 1].get("text") {
                Some(text) => match text.as_text() {
                    Some(text) => Some(String::from_str(text)),
                    None => None,
                },
                None => None,
            };
            return RecognitionEvent {
                text,
                interim,
                vad_started,
                vad_finished,
                final_result: alone || (!interim && vad_finished),
                packet_number,
            };
        },
        _ => {},
    }
    RecognitionEvent {
        text: None,
        interim: true,
        vad_started,
        vad_finished: false,
        final_result: false,
        packet_number,
    }
}

/// Interprets the provider result JSON without retaining raw diagnostic data.
pub fn parse_recognition_event(response: &ResponseEnvelope) -> (r: Result<
    Option<RecognitionEvent>,
    ProtocolError,
>)
    ensures
        match r {
            Ok(None) => response.result_json@.len() == 0,
            Ok(Some(event)) => {
                &&& response.result_json@.len() > 0
                &&& json_document(response.result_json@) is Some
                &&& event@ == recognition_of(json_document(response.result_json@)->0)
            },
            Err(error) => {
                &&& response.result_json@.len() > 0
                &&& json_document(response.result_json@) is None
                &&& error@ == "invalid Doubao result JSON"@
            },
        },
{
    if response.result_json.len() == 0 {
        return Ok(None);
    }
    match parse_json(&response.result_json) {
        Some(document) => Ok(Some(recognition_in(&document))),
        None => Err(ProtocolError::new("invalid Doubao result JSON")),
    }
}

/// The text, the flags and the number of a recognition result are those of the document: the text is
/// that of the last result; results are interim unless one of them says that it is not; speech is
/// over if one of them says so; and the recognition is final if a result stands by itself, or if it
/// is not interim and speech is over.
pub proof fn law_flags_are_joined_over_the_results(document: JsonModel, results: Seq<JsonModel>)
    requires
        document.member("results"@) == Some(JsonModel::Array(results)),
        results.len() > 0,
    ensures
        ({
            let event = recognition_of(document);
            let settled = exists|i: int|
                0 <= i < results.len() && (#[trigger] results[i]).member("is_interim"@) == Some(
                    JsonModel::Bool(false),
                );
            let silent = exists|i: int|
                0 <= i < results.len() && (#[trigger] results[i]).member("is_vad_finished"@)
                    == Some(JsonModel::Bool(true));
            let alone = exists|i: int|
                0 <= i < results.len() && (#[trigger] results[i]).member("extra"@) is Some
                    && results[i].member("extra"@)->0.member("nonstream_result"@) == Some(
                    JsonModel::Bool(true),
                );
            &&& event.interim == !settled
            &&& event.vad_finished == silent
            &&& event.final_result == (alone || (settled && silent))
            &&& results.last().member("text"@) matches Some(JsonModel::Text(text)) ==> event.text
                == Some(text)
            &&& !(results.last().member("text"@) matches Some(JsonModel::Text(_))) ==> event.text
                is None
        }),
{
    let n = results.len() as int;
    lemma_joined_flags(results, n);
}

proof fn lemma_joined_flags(results: Seq<JsonModel>, n: int)
    requires
        0 <= n <= results.len(),
    ensures
        all_interim(results, n) == !(exists|i: int|
            0 <= i < n && (#[trigger] results[i]).member("is_interim"@) == Some(
                JsonModel::Bool(false),
            )),
        any_vad_finished(results, n) == (exists|i: int|
            0 <= i < n && (#[trigger] results[i]).member("is_vad_finished"@) == Some(
                JsonModel::Bool(true),
            )),
        any_nonstream(results, n) == (exists|i: int|
            0 <= i < n && (#[trigger] results[i]).member("extra"@) is Some && results[i].member(
                "extra"@,
            )->0.member("nonstream_result"@) == Some(JsonModel::Bool(true))),
    decreases n,
{
    if n > 0 {
        lemma_joined_flags(results, n - 1);
        let last = results[n - 1];
        assert(flag_of(last, "is_interim"@, true) == (last.member("is_interim"@) != Some(
            JsonModel::Bool(false),
        )));
        assert(flag_of(last, "is_vad_finished"@, false) == (last.member("is_vad_finished"@) == Some(
            JsonModel::Bool(true),
        )));
    }
}

/// A document without results says nothing that was recognized and ends nothing.
pub proof fn law_no_results_recognize_nothing(document: JsonModel)
    requires
        !(document.member("results"@) matches Some(JsonModel::Array(results)) && results.len() > 0),
    ensures
        recognition_of(document).text is None,
        recognition_of(document).interim,
        !recognition_of(document).vad_finished,
        !recognition_of(document).final_result,
{
}

/// The start of speech and the packet number stand beside the results.
pub proof fn law_extra_tells_speech_and_packet(document: JsonModel)
    ensures
        recognition_of(document).vad_started <==> document.member("extra"@) is Some
            && document.member("extra"@)->0.member("vad_start"@) == Some(JsonModel::Bool(true)),
        recognition_of(document).packet_number == (if document.member("extra"@) is Some {
            match document.member("extra"@)->0.member("packet_number"@) {
                Some(JsonModel::Unsigned(number)) => Some(number),
                _ => None,
            }
        } else {
            None
        }),
{
}

} // verus!
