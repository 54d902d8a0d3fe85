use vstd::prelude::*;

verus! {

/// The language models the service talks to, one per kind of request.
#[derive(Debug, Clone, Copy, PartialEq, Eq)]
pub enum Model {
    TranscriptionModel,
    TranslationModel,
    /// Used for chunk summaries and speaker attribution.
    SummaryModel,
    /// Used for overlap detection and stitching.
    StitchModel,
}

/// The model identifier sent to the provider for each model kind.
pub open spec fn model_name(m: Model) -> Seq<char> {
    match m {
        Model::TranscriptionModel => "gemini-3-flash-preview"@,
        Model::TranslationModel => "gemini-3.1-flash-lite"@,
        Model::SummaryModel => "gemini-3.1-flash-lite"@,
        Model::StitchModel => "gemini-3.1-flash-lite"@,
    }
}

impl Model {
    /// Returns the provider-side model identifier.
    pub fn as_str(&self) -> (r: &'static str)
        ensures
            r@ == model_name(*self),
    {
        match self {
            Model::TranscriptionModel => "gemini-3-flash-preview",
            Model::TranslationModel => "gemini-3.1-flash-lite",
            Model::SummaryModel => "gemini-3.1-flash-lite",
            Model::StitchModel => "gemini-3.1-flash-lite",
        }
    }
}

/// Audio of at least this many bytes (10 MiB) is uploaded through the
/// Gemini file API; smaller audio is sent inline as base64, whose payload
/// size is limited.
pub const FILE_API_THRESHOLD_BYTES: usize = 10 * 1024 * 1024;

/// How audio is attached to a Gemini request.
#[derive(Debug, Clone, Copy, PartialEq, Eq)]
pub enum AudioTransport {
    /// Inline base64 data in the request.
    Inline,
    /// A prior upload through the file API, referenced by its URI.
    FileApi,
}

/// How audio of `num_bytes` bytes is sent to Gemini.
pub fn audio_transport(num_bytes: usize) -> (r: AudioTransport)
    ensures
        r == if num_bytes >= FILE_API_THRESHOLD_BYTES {
            AudioTransport::FileApi
        } else {
            AudioTransport::Inline
        },
{
    if num_bytes >= FILE_API_THRESHOLD_BYTES {
        AudioTransport::FileApi
    } else {
        AudioTransport::Inline
    }
}

} // verus!
