//! What a recognition attempt is made from and what it brings: its settings, its recording and its
//! transcription.

use crate::doubao::framer::padded;
use crate::doubao::session::{
    new_session, proper_description, proper_request_id, DoubaoSessionProtocol,
    SessionProtocolError,
};
use crate::doubao::websocket::{
    transport_fault, TransportModel, WebSocketSpec, WebSocketTransportError,
};
use crate::error::{ErrorCategory, VoxError};
use crate::json::{json_document, optional_model, parse_json, Json, JsonModel};
use crate::provider::{AudioAcceptance, ProviderAttemptFailure};
use crate::text::{decimal, join3, write_number};
use vstd::prelude::*;
use vstd::string::*;
use vstd::utf8::*;

verus! {

/// One hour of 16 kHz mono 16-bit PCM.
pub const MAX_PCM_BYTES: u64 = 115_200_000;

pub const MAX_INBOUND_PER_TICK: u8 = 8;

pub const MAX_RUN_JSON_BYTES: usize = 262_144;

/// How an attempt is made; times are in nanoseconds.
pub struct DoubaoRunConfig {
    pub websocket: WebSocketSpec,
    pub request_id: String,
    pub session_json: Vec<u8>,
    pub phase_timeout_nanos: u64,
    pub total_timeout_nanos: u64,
    pub frame_interval_nanos: u64,
}

impl DoubaoRunConfig {
    /// What is shown in place of the configuration: sizes and times, neither names nor contents.
    pub fn redacted(&self) -> (r: String)
        ensures
            r@ == "DoubaoRunConfig { request_id: \"[redacted]\", session_json: ["@ + decimal(
                self.session_json@.len(),
            ) + " redacted bytes], phase_timeout_nanos: "@ + decimal(
                self.phase_timeout_nanos as nat,
            ) + ", total_timeout_nanos: "@ + decimal(self.total_timeout_nanos as nat)
                + ", frame_interval_nanos: "@ + decimal(self.frame_interval_nanos as nat) + " }"@,
    {
        let size = write_number(self.session_json.len() as u64);
        let phase = write_number(self.phase_timeout_nanos);
        let total = write_number(self.total_timeout_nanos);
        let interval = write_number(self.frame_interval_nanos);
        let mut text = join3(
            "DoubaoRunConfig { request_id: \"[redacted]\", session_json: [",
            size.as_str(),
            " redacted bytes], phase_timeout_nanos: ",
        );
        text.append(phase.as_str());
        text.append(", total_timeout_nanos: ");
        text.append(total.as_str());
        text.append(", frame_interval_nanos: ");
        text.append(interval.as_str());
        text.append(" }");
        text
    }
}

/// The result of an attempt.
#[derive(Debug, Eq, PartialEq)]
pub struct DoubaoTranscription {
    pub text: String,
    pub sent_audio_millis: u64,
    pub partial_results: u64,
    pub provider_vad_started: bool,
    pub provider_vad_finished: bool,
}

/// What a result says.
pub struct TranscriptionModel {
    pub text: Seq<char>,
    pub sent_audio_millis: u64,
    pub partial_results: u64,
    pub provider_vad_started: bool,
    pub provider_vad_finished: bool,
}

impl DoubaoTranscription {
    pub open spec fn view(&self) -> TranscriptionModel {
        TranscriptionModel {
            text: self.text@,
            sent_audio_millis: self.sent_audio_millis,
            partial_results: self.partial_results,
            provider_vad_started: self.provider_vad_started,
            provider_vad_finished: self.provider_vad_finished,
        }
    }
}

/// The error says what the fault says.
pub open spec fn reports(error: VoxError, fault: TransportModel) -> bool {
    error.says(fault.category, fault.code, fault.message, fault.retryable)
}

/// The fault of a session that did not follow its lifecycle: its own message is left out.
pub open spec fn protocol_fault(code: Seq<char>) -> TransportModel {
    transport_fault(
        ErrorCategory::Protocol,
        false,
        code,
        "Doubao session protocol validation failed"@,
    )
}

pub open spec fn closed_fault() -> TransportModel {
    transport_fault(
        ErrorCategory::Connection,
        true,
        "doubao.websocket_closed_early"@,
        "Doubao WebSocket closed before recognition completed"@,
    )
}

fn vox_error(
    category: ErrorCategory,
    code: &'static str,
    message: &'static str,
    retryable: bool,
) -> (error: VoxError)
    ensures
        error.says(category, code@, message@, retryable),
{
    VoxError::new(category, code, message).with_retryable(retryable)
}

pub fn protocol_vox_error(error: SessionProtocolError) -> (r: VoxError)
    ensures
        reports(r, protocol_fault(error.code_text())),
{
    vox_error(
        ErrorCategory::Protocol,
        error.code(),
        "Doubao session protocol validation failed",
        false,
    )
}

pub fn connection_closed() -> (r: VoxError)
    ensures
        reports(r, closed_fault()),
{
    vox_error(
        ErrorCategory::Connection,
        "doubao.websocket_closed_early",
        "Doubao WebSocket closed before recognition completed",
        true,
    )
}

/// Times that an attempt can be made with.
pub open spec fn proper_timing(config: DoubaoRunConfig) -> bool {
    &&& 100_000_000 <= config.phase_timeout_nanos <= 60_000_000_000
    &&& config.phase_timeout_nanos <= config.total_timeout_nanos <= 3_600_000_000_000
    &&& config.frame_interval_nanos <= 100_000_000
}

/// What is wrong with a configuration whose session description was parsed to `document`.
pub open spec fn config_fault(config: DoubaoRunConfig, document: Option<JsonModel>) -> Option<
    TransportModel,
> {
    if !proper_timing(config) {
        Some(
            transport_fault(
                ErrorCategory::Configuration,
                false,
                "doubao.invalid_run_timeout"@,
                "Doubao session timing configuration is invalid"@,
            ),
        )
    } else if !proper_description(config.session_json@.len(), document) {
        Some(
            transport_fault(
                ErrorCategory::Configuration,
                false,
                "doubao.invalid_session_json"@,
                "Doubao session configuration must be a bounded JSON object"@,
            ),
        )
    } else {
        None
    }
}

/// Checks a configuration whose session description was parsed to `document`.
pub fn check_run_config(config: &DoubaoRunConfig, document: &Option<Json>) -> (r: Result<
    (),
    VoxError,
>)
    ensures
        match r {
            Ok(_) => config_fault(*config, optional_model(*document)) is None,
            Err(error) => config_fault(*config, optional_model(*document)) matches Some(fault) && reports(
                error,
                fault,
            ),
        },
{
    if !(100_000_000 <= config.phase_timeout_nanos && config.phase_timeout_nanos
        <= 60_000_000_000) || config.total_timeout_nanos < config.phase_timeout_nanos
        || config.total_timeout_nanos > 3_600_000_000_000 || config.frame_interval_nanos
        > 100_000_000 {
        return Err(
            vox_error(
                ErrorCategory::Configuration,
                "doubao.invalid_run_timeout",
                "Doubao session timing configuration is invalid",
                false,
            ),
        );
    }
    let described = match document {
        Some(value) => value.is_object(),
        None => false,
    };
    if config.session_json.len() > MAX_RUN_JSON_BYTES || !described {
        return Err(
            vox_error(
                ErrorCategory::Configuration,
                "doubao.invalid_session_json",
                "Doubao session configuration must be a bounded JSON object",
                false,
            ),
        );
    }
    Ok(())
}

/// Checks a configuration.
pub fn validate_run_config(config: &DoubaoRunConfig) -> (r: Result<(), VoxError>)
    ensures
        ({
            let fault = config_fault(*config, json_document(config.session_json@));
            match r {
                Ok(_) => fault is None,
                Err(error) => fault is Some && reports(error, fault->0),
            }
        }),
{
    let document = parse_json(&config.session_json);
    check_run_config(config, &document)
}

/// What is known of a recording before it is read.
#[derive(Clone, Copy, Debug, Eq, PartialEq, Structural)]
pub enum PcmFile {
    Unopened,
    Uninspected,
    /// The file has this many bytes.
    Bytes(u64),
}

/// What is wrong with a recording.
pub open spec fn pcm_fault(file: PcmFile) -> Option<TransportModel> {
    match file {
        PcmFile::Unopened => Some(
            transport_fault(
                ErrorCategory::Unavailable,
                true,
                "doubao.pcm_open_failed"@,
                "Could not open the PCM recording"@,
            ),
        ),
        PcmFile::Uninspected => Some(
            transport_fault(
                ErrorCategory::Unavailable,
                true,
                "doubao.pcm_metadata_failed"@,
                "Could not inspect the PCM recording"@,
            ),
        ),
        PcmFile::Bytes(length) => if length == 0 || length > MAX_PCM_BYTES || length % 2 != 0 {
            Some(
                transport_fault(
                    ErrorCategory::InvalidArgument,
                    false,
                    "doubao.invalid_pcm"@,
                    "PCM recording must be non-empty bounded 16-bit audio"@,
                ),
            )
        } else {
            None
        },
    }
}

/// Checks a recording before it is read.
pub fn prepare_pcm(file: PcmFile) -> (r: Result<(), VoxError>)
    ensures
        match r {
            Ok(_) => pcm_fault(file) is None,
            Err(error) => pcm_fault(file) matches Some(fault) && reports(error, fault),
        },
{
    match file {
        PcmFile::Unopened => Err(
            vox_error(
                ErrorCategory::Unavailable,
                "doubao.pcm_open_failed",
                "Could not open the PCM recording",
                true,
            ),
        ),
        PcmFile::Uninspected => Err(
            vox_error(
                ErrorCategory::Unavailable,
                "doubao.pcm_metadata_failed",
                "Could not inspect the PCM recording",
                true,
            ),
        ),
        PcmFile::Bytes(length) => if length == 0 || length > MAX_PCM_BYTES || length % 2 != 0 {
            Err(
                vox_error(
                    ErrorCategory::InvalidArgument,
                    "doubao.invalid_pcm",
                    "PCM recording must be non-empty bounded 16-bit audio",
                    false,
                ),
            )
        } else {
            Ok(())
        },
    }
}

/// What reading up to one frame brought: its bytes, none at the end of the recording, or nothing
/// where it could not be read.
pub fn read_pcm_frame(bytes: Option<&[u8]>) -> (r: Result<Option<[u8; 640]>, VoxError>)
    requires
        bytes is Some ==> bytes->0@.len() <= 640,
    ensures
        match bytes {
            None => r matches Err(error) && reports(
                error,
                transport_fault(
                    ErrorCategory::Unavailable,
                    true,
                    "doubao.pcm_read_failed"@,
                    "Could not read the PCM recording"@,
                ),
            ),
            Some(read) => if read@.len() == 0 {
                r matches Ok(frame) && frame is None
            } else if read@.len() % 2 != 0 {
                r matches Err(error) && reports(
                    error,
                    transport_fault(
                        ErrorCategory::InvalidArgument,
                        false,
                        "doubao.invalid_pcm"@,
                        "PCM recording ended with an incomplete sample"@,
                    ),
                )
            } else {
                r matches Ok(Some(frame)) && frame@ == padded(read@)
            },
        },
{
    match bytes {
        None => Err(
            vox_error(
                ErrorCategory::Unavailable,
                "doubao.pcm_read_failed",
                "Could not read the PCM recording",
                true,
            ),
        ),
        Some(read) => {
            if read.len() == 0 {
                return Ok(None);
            }
            if read.len() % 2 != 0 {
                return Err(
                    vox_error(
                        ErrorCategory::InvalidArgument,
                        "doubao.invalid_pcm",
                        "PCM recording ended with an incomplete sample",
                        false,
                    ),
                );
            }
            let mut frame: [u8; 640] = [0u8; 640];
            for i in 0..read.len()
                invariant
                    read@.len() <= 640,
                    frame@.len() == 640,
                    forall|j: int| 0 <= j < i ==> frame@[j] == read@[j],
                    forall|j: int| i <= j < 640 ==> frame@[j] == 0,
            {
                frame[i] = read[i];
            }
            assert(frame@ =~= padded(read@));
            Ok(Some(frame))
        },
    }
}

/// Why an attempt cannot be made, with nothing sent yet.
pub open spec fn preparation_fault(
    config: DoubaoRunConfig,
    document: Option<JsonModel>,
    file: PcmFile,
) -> Option<TransportModel> {
    if config_fault(config, document) is Some {
        config_fault(config, document)
    } else if pcm_fault(file) is Some {
        pcm_fault(file)
    } else if !proper_request_id(encode_utf8(config.request_id@)) {
        Some(protocol_fault("doubao.invalid_request_id"@))
    } else {
        None
    }
}

/// Checks everything that can be checked before a connection is made.
pub fn prepare_run(config: &DoubaoRunConfig, file: PcmFile) -> (r: Result<
    DoubaoSessionProtocol,
    ProviderAttemptFailure,
>)
    ensures
        ({
            let fault = preparation_fault(*config, json_document(config.session_json@), file);
            match r {
                Ok(protocol) => fault is None && protocol@ == new_session(config.request_id@),
                Err(failure) => {
                    &&& fault is Some
                    &&& reports(failure.error, fault->0)
                    &&& !failure.transport_started
                    &&& failure.audio_acceptance == AudioAcceptance::NotAccepted
                },
            }
        }),
{
    match validate_run_config(config) {
        Ok(_) => {},
        Err(error) => {
            return Err(ProviderAttemptFailure::before_transport(error));
        },
    }
    match prepare_pcm(file) {
        Ok(_) => {},
        Err(error) => {
            return Err(ProviderAttemptFailure::before_transport(error));
        },
    }
    match DoubaoSessionProtocol::new(config.request_id.clone()) {
        Ok(protocol) => Ok(protocol),
        Err(error) => Err(ProviderAttemptFailure::before_transport(protocol_vox_error(error))),
    }
}

/// The failure of an attempt that could not connect.
pub fn connect_failure(error: WebSocketTransportError) -> (failure: ProviderAttemptFailure)
    ensures
        reports(failure.error, error@),
        failure.transport_started == (error@.category != ErrorCategory::Configuration),
        failure.audio_acceptance == AudioAcceptance::NotAccepted,
{
    let vox = error.into_vox_error();
    match error.category() {
        ErrorCategory::Configuration => ProviderAttemptFailure::before_transport(vox),
        _ => ProviderAttemptFailure::after_transport(vox, AudioAcceptance::NotAccepted),
    }
}

/// The failure of an attempt without an encoder.
pub fn encoder_unavailable() -> (failure: ProviderAttemptFailure)
    ensures
        failure.error.says(
            ErrorCategory::Unavailable,
            "doubao.opus_unavailable"@,
            "System Opus encoder is unavailable"@,
            false,
        ),
        !failure.transport_started,
        failure.audio_acceptance == AudioAcceptance::NotAccepted,
{
    ProviderAttemptFailure::before_transport(
        vox_error(
            ErrorCategory::Unavailable,
            "doubao.opus_unavailable",
            "System Opus encoder is unavailable",
            false,
        ),
    )
}

/// An attempt is prepared exactly where the phases have from a tenth of a second to a minute, the whole
/// has at least as much and at most an hour, the frames are at most a tenth of a second apart, the
/// session is described by a JSON object of at most 262144 bytes, the recording holds whole samples
/// and at most 115200000 bytes, and the request has a proper name.
pub proof fn law_good_attempt_is_prepared(
    config: DoubaoRunConfig,
    document: Option<JsonModel>,
    file: PcmFile,
)
    ensures
        preparation_fault(config, document, file) is None <==> {
            &&& 100_000_000 <= config.phase_timeout_nanos <= 60_000_000_000
            &&& config.phase_timeout_nanos <= config.total_timeout_nanos
            &&& config.total_timeout_nanos <= 3_600_000_000_000
            &&& config.frame_interval_nanos <= 100_000_000
            &&& config.session_json@.len() <= 262_144
            &&& document matches Some(JsonModel::Object(_))
            &&& file matches PcmFile::Bytes(length) && 0 < length <= 115_200_000 && length % 2 == 0
            &&& 0 < encode_utf8(config.request_id@).len() <= 128
            &&& crate::secret::no_control_bytes(encode_utf8(config.request_id@))
        },
{
}

/// What is wrong with the configuration or the recording is not worth another try; a recording that
/// cannot be read is.
pub proof fn law_unreadable_recording_is_worth_another_try(
    config: DoubaoRunConfig,
    document: Option<JsonModel>,
    file: PcmFile,
)
    requires
        preparation_fault(config, document, file) is Some,
    ensures
        preparation_fault(config, document, file)->0.retryable ==> file is Unopened
            || file is Uninspected,
        config_fault(config, document) is None && (file is Unopened || file is Uninspected)
            ==> preparation_fault(config, document, file)->0.retryable && preparation_fault(
            config,
            document,
            file,
        )->0.category == ErrorCategory::Unavailable,
        config_fault(config, document) is Some ==> preparation_fault(
            config,
            document,
            file,
        )->0.category == ErrorCategory::Configuration,
{
}

} // verus!
