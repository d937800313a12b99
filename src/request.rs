//! The generation request handed over by the UI.

use vstd::prelude::*;

verus! {

/// What the UI asks the speech tool to produce.
///
/// The temperatures are held as the text that is handed to the tool for
/// them; an absent field means the tool's own default applies.
#[derive(Debug)]
pub struct GenerationRequest {
    pub text: String,
    pub voice_preset: Option<String>,
    pub text_temp: Option<String>,
    pub waveform_temp: Option<String>,
}

/// Text spoken when a request's payload could not be read.
pub open spec fn fallback_text() -> Seq<char> {
    "Hello world"@
}

/// Temperature used for both stages when a request's payload could not be read.
pub open spec fn fallback_temperature() -> Seq<char> {
    "0.7"@
}

/// The request used in place of a payload that could not be read.
pub open spec fn is_fallback(r: GenerationRequest) -> bool {
    &&& r.text@ == fallback_text()
    &&& r.voice_preset.is_none()
    &&& r.text_temp.is_some() && r.text_temp.unwrap()@ == fallback_temperature()
    &&& r.waveform_temp.is_some() && r.waveform_temp.unwrap()@ == fallback_temperature()
}

impl GenerationRequest {
    /// A request with only the text set.
    pub fn new(text: String) -> (r: GenerationRequest)
        ensures
            r.text == text,
            r.voice_preset.is_none(),
            r.text_temp.is_none(),
            r.waveform_temp.is_none(),
    {
        GenerationRequest { text, voice_preset: None, text_temp: None, waveform_temp: None }
    }

    /// The best-effort request that stands in for a malformed payload.
    pub fn fallback() -> (r: GenerationRequest)
        ensures
            is_fallback(r),
    {
        GenerationRequest {
            text: "Hello world".to_owned(),
            voice_preset: None,
            text_temp: Some("0.7".to_owned()),
            waveform_temp: Some("0.7".to_owned()),
        }
    }
}

} // verus!
