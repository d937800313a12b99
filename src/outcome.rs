//! What a finished (or failed) run of the speech tool means for the caller.

use vstd::prelude::*;

use crate::decimal::{decimal_text, push_unsigned};

verus! {

/// The text `String::from_utf8_lossy` makes of `bytes`.
pub uninterp spec fn utf8_lossy(bytes: Seq<u8>) -> Seq<char>;

/// Relies on `String::from_utf8_lossy`: decodes the bytes, replacing invalid
/// sequences; the text depends on the bytes alone.
#[verifier::external_body]
fn lossy_text(bytes: &[u8]) -> (r: String)
    ensures
        r@ == utf8_lossy(bytes@),
{
    String::from_utf8_lossy(bytes).into_owned()
}

/// The result of one generation request.
#[derive(Debug)]
pub enum GenerationResult {
    Success { output_path: String },
    Failure { message: String },
}

/// A generation result as plain values.
pub enum OutcomeView {
    Succeeded(Seq<char>),
    Failed(Seq<char>),
}

impl View for GenerationResult {
    type V = OutcomeView;

    open spec fn view(&self) -> OutcomeView {
        match self {
            GenerationResult::Success { output_path } => OutcomeView::Succeeded(output_path@),
            GenerationResult::Failure { message } => OutcomeView::Failed(message@),
        }
    }
}

/// The response sent back to the UI: exactly one of `audio_path` and `error`
/// is present, `audio_path` when `success` holds.
#[derive(Debug)]
pub struct Response {
    pub success: bool,
    pub audio_path: Option<String>,
    pub error: Option<String>,
}

/// A response as plain values.
pub struct ResponseView {
    pub success: bool,
    pub audio_path: Option<Seq<char>>,
    pub error: Option<Seq<char>>,
}

/// The view of an optional string.
pub open spec fn opt_view(o: Option<String>) -> Option<Seq<char>> {
    match o {
        Some(s) => Some(s@),
        None => None,
    }
}

impl View for Response {
    type V = ResponseView;

    open spec fn view(&self) -> ResponseView {
        ResponseView {
            success: self.success,
            audio_path: opt_view(self.audio_path),
            error: opt_view(self.error),
        }
    }
}

/// The response that reports `o`.
pub open spec fn response_of(o: OutcomeView) -> ResponseView {
    match o {
        OutcomeView::Succeeded(p) => ResponseView { success: true, audio_path: Some(p), error: None },
        OutcomeView::Failed(m) => ResponseView { success: false, audio_path: None, error: Some(m) },
    }
}

/// Failure text when the output directory cannot be created.
pub open spec fn directory_failure_message() -> Seq<char> {
    "Failed to create output directory"@
}

/// Start of the failure text of a run that failed; the error output follows.
pub open spec fn tool_failure_prefix() -> Seq<char> {
    "Bark execution failed: "@
}

/// Start of the failure text when the tool cannot be started; the system's reason follows.
pub open spec fn spawn_failure_prefix() -> Seq<char> {
    "Failed to execute bark: "@
}

/// Failure text of a run stopped after `seconds`.
pub open spec fn timeout_message(seconds: nat) -> Seq<char> {
    "Bark execution timed out after "@ + decimal_text(seconds as int) + " seconds"@
}

/// The result of a child that ran to its end: success needs both a
/// successful exit and the output file on disk; anything else fails with the
/// child's error output.
pub open spec fn exit_outcome(
    exited_ok: bool,
    output_exists: bool,
    stderr: Seq<char>,
    output_path: Seq<char>,
) -> OutcomeView {
    if exited_ok && output_exists {
        OutcomeView::Succeeded(output_path)
    } else {
        OutcomeView::Failed(tool_failure_prefix() + stderr)
    }
}

/// The result of a child that ran to its end, given its error output as text.
pub fn exit_result(exited_ok: bool, output_exists: bool, stderr: &str, output_path: &str) -> (r:
    GenerationResult)
    ensures
        r@ == exit_outcome(exited_ok, output_exists, stderr@, output_path@),
{
    if exited_ok && output_exists {
        GenerationResult::Success { output_path: output_path.to_owned() }
    } else {
        let mut message = "Bark execution failed: ".to_owned();
        message.append(stderr);
        GenerationResult::Failure { message }
    }
}

/// The result of a child that ran to its end, given its raw error output.
pub fn exit_result_from_bytes(
    exited_ok: bool,
    output_exists: bool,
    stderr: &[u8],
    output_path: &str,
) -> (r: GenerationResult)
    ensures
        r@ == exit_outcome(exited_ok, output_exists, utf8_lossy(stderr@), output_path@),
{
    let text = lossy_text(stderr);
    exit_result(exited_ok, output_exists, text.as_str(), output_path)
}

/// The result when the output directory could not be created.
pub fn directory_failure() -> (r: GenerationResult)
    ensures
        r@ == OutcomeView::Failed(directory_failure_message()),
{
    GenerationResult::Failure { message: "Failed to create output directory".to_owned() }
}

/// The result when the tool could not be started; `os_error` is the system's
/// description of why.
pub fn spawn_failure(os_error: &str) -> (r: GenerationResult)
    ensures
        r@ == OutcomeView::Failed(spawn_failure_prefix() + os_error@),
{
    let mut message = "Failed to execute bark: ".to_owned();
    message.append(os_error);
    GenerationResult::Failure { message }
}

/// The result when the tool was stopped after running for `seconds`.
pub fn timeout_failure(seconds: u64) -> (r: GenerationResult)
    ensures
        r@ == OutcomeView::Failed(timeout_message(seconds as nat)),
{
    let mut message = "Bark execution timed out after ".to_owned();
    push_unsigned(&mut message, seconds);
    message.append(" seconds");
    GenerationResult::Failure { message }
}

impl GenerationResult {
    /// The response that reports this result.
    pub fn to_response(self) -> (r: Response)
        ensures
            r@ == response_of(self@),
    {
        match self {
            GenerationResult::Success { output_path } => Response {
                success: true,
                audio_path: Some(output_path),
                error: None,
            },
            GenerationResult::Failure { message } => Response {
                success: false,
                audio_path: None,
                error: Some(message),
            },
        }
    }
}

/// A run succeeds exactly when the child exited successfully and its output
/// file exists; every other outcome, including a directory, start or timeout
/// failure, is reported unsuccessful with a non-empty error and no path.
pub proof fn lemma_success_iff_exit_and_file(
    exited_ok: bool,
    output_exists: bool,
    stderr: Seq<char>,
    output_path: Seq<char>,
    os_error: Seq<char>,
    seconds: nat,
)
    ensures
        response_of(exit_outcome(exited_ok, output_exists, stderr, output_path)).success <==> (
        exited_ok && output_exists),
        exited_ok && output_exists ==> response_of(
            exit_outcome(exited_ok, output_exists, stderr, output_path),
        ).audio_path == Some(output_path),
        !(exited_ok && output_exists) ==> is_failure_response(
            response_of(exit_outcome(exited_ok, output_exists, stderr, output_path)),
        ),
        is_failure_response(response_of(OutcomeView::Failed(directory_failure_message()))),
        is_failure_response(response_of(OutcomeView::Failed(spawn_failure_prefix() + os_error))),
        is_failure_response(response_of(OutcomeView::Failed(timeout_message(seconds)))),
{
    reveal_strlit("Bark execution failed: ");
    reveal_strlit("Failed to create output directory");
    reveal_strlit("Failed to execute bark: ");
    reveal_strlit("Bark execution timed out after ");
}

/// An unsuccessful response with a non-empty error and no path.
pub open spec fn is_failure_response(r: ResponseView) -> bool {
    &&& !r.success
    &&& r.audio_path.is_none()
    &&& r.error.is_some()
    &&& r.error.unwrap().len() > 0
}

} // verus!
