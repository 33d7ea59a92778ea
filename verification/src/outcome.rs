//! The decisions of a preview run: which inputs are refused, which renderer
//! results are accepted, and what each refusal says.

use vstd::prelude::*;
use vstd::string::*;
use crate::operation::{ParseOperation, input_size_limit_of, MAX_OUTPUT_BYTES};
use crate::output::{output_accepted, valid_output};
use crate::text::{chars_of, i32_words, i32_values, words};

verus! {

/// What a successful preview hands back: the rendered bytes and, for paged
/// documents, the page shown and the number of pages (zero when unknown).
pub struct ParseOutput {
    pub data: Vec<u8>,
    pub page: i32,
    pub pages: i32,
}

/// Why a preview was not produced. Variants that carry a `String` carry the
/// description of the system error behind them.
#[derive(Clone, Debug)]
pub enum ParseFailure {
    Cancelled,
    InputUnavailable(String),
    InputUninspectable(String),
    InputNotFile,
    InputTooLarge,
    OutputDirectory(String),
    ExecutableMissing(String),
    ExecutableNotPreserved(String),
    SpawnFailed(String),
    OutputNotCaptured,
    TimedOut,
    MonitorFailed(String),
    OutputTooLarge,
    OutputReadFailed(String),
    OutputReaderLost,
    RendererFailed,
    NoOutput,
    InvalidMedia,
    InvalidOutputSize,
    ResultUnreadable(String),
    InvalidImage,
}

/// The message that reports each failure.
pub open spec fn failure_message(failure: ParseFailure) -> Seq<char> {
    match failure {
        ParseFailure::Cancelled => "Preview cancelled"@,
        ParseFailure::InputUnavailable(e) => "Unable to open preview input: "@ + e@,
        ParseFailure::InputUninspectable(e) => "Unable to inspect preview input: "@ + e@,
        ParseFailure::InputNotFile => "Preview input is not a regular file"@,
        ParseFailure::InputTooLarge => "Preview input exceeds the supported size limit"@,
        ParseFailure::OutputDirectory(e) => e@,
        ParseFailure::ExecutableMissing(e) => "Unable to locate the Strata executable: "@ + e@,
        ParseFailure::ExecutableNotPreserved(e) =>
            "Unable to preserve the running Strata executable: "@ + e@,
        ParseFailure::SpawnFailed(e) => "Unable to start the preview sandbox: "@ + e@,
        ParseFailure::OutputNotCaptured => "Unable to capture preview renderer output"@,
        ParseFailure::TimedOut => "The preview renderer timed out"@,
        ParseFailure::MonitorFailed(e) => "Unable to monitor the preview renderer: "@ + e@,
        ParseFailure::OutputTooLarge => "Preview provider output exceeded its limit"@,
        ParseFailure::OutputReadFailed(e) => "Unable to read preview renderer output: "@ + e@,
        ParseFailure::OutputReaderLost => "Unable to read preview renderer output"@,
        ParseFailure::RendererFailed => "The sandboxed preview renderer failed"@,
        ParseFailure::NoOutput => "The preview renderer produced no output"@,
        ParseFailure::InvalidMedia => "The preview renderer produced invalid media data"@,
        ParseFailure::InvalidOutputSize => "The preview renderer produced an invalid output size"@,
        ParseFailure::ResultUnreadable(e) => e@,
        ParseFailure::InvalidImage => "The preview renderer produced invalid image data"@,
    }
}

/// `prefix` followed by `detail`.
fn joined(prefix: &str, detail: &String) -> (text: String)
    ensures
        text@ == prefix@ + detail@,
{
    String::from_str(prefix).concat(detail.as_str())
}

impl ParseFailure {
    /// The message that reports this failure to the user.
    pub fn message(&self) -> (text: String)
        ensures
            text@ == failure_message(*self),
    {
        match self {
            ParseFailure::Cancelled => String::from_str("Preview cancelled"),
            ParseFailure::InputUnavailable(e) => joined("Unable to open preview input: ", e),
            ParseFailure::InputUninspectable(e) => joined("Unable to inspect preview input: ", e),
            ParseFailure::InputNotFile => String::from_str("Preview input is not a regular file"),
            ParseFailure::InputTooLarge => String::from_str(
                "Preview input exceeds the supported size limit",
            ),
            ParseFailure::OutputDirectory(e) => e.clone(),
            ParseFailure::ExecutableMissing(e) => joined(
                "Unable to locate the Strata executable: ",
                e,
            ),
            ParseFailure::ExecutableNotPreserved(e) => joined(
                "Unable to preserve the running Strata executable: ",
                e,
            ),
            ParseFailure::SpawnFailed(e) => joined("Unable to start the preview sandbox: ", e),
            ParseFailure::OutputNotCaptured => String::from_str(
                "Unable to capture preview renderer output",
            ),
            ParseFailure::TimedOut => String::from_str("The preview renderer timed out"),
            ParseFailure::MonitorFailed(e) => joined(
                "Unable to monitor the preview renderer: ",
                e,
            ),
            ParseFailure::OutputTooLarge => String::from_str(
                "Preview provider output exceeded its limit",
            ),
            ParseFailure::OutputReadFailed(e) => joined(
                "Unable to read preview renderer output: ",
                e,
            ),
            ParseFailure::OutputReaderLost => String::from_str(
                "Unable to read preview renderer output",
            ),
            ParseFailure::RendererFailed => String::from_str(
                "The sandboxed preview renderer failed",
            ),
            ParseFailure::NoOutput => String::from_str("The preview renderer produced no output"),
            ParseFailure::InvalidMedia => String::from_str(
                "The preview renderer produced invalid media data",
            ),
            ParseFailure::InvalidOutputSize => String::from_str(
                "The preview renderer produced an invalid output size",
            ),
            ParseFailure::ResultUnreadable(e) => e.clone(),
            ParseFailure::InvalidImage => String::from_str(
                "The preview renderer produced invalid image data",
            ),
        }
    }
}

/// Whether an input of `len` bytes exceeds what `operation` accepts.
pub open spec fn input_too_large(operation: ParseOperation, len: u64) -> bool {
    match input_size_limit_of(operation) {
        Some(limit) => len > limit,
        None => false,
    }
}

/// Decides whether the input file may be rendered: it must be a regular file
/// and, for raster operations, no larger than the raster input limit.
pub fn check_input(operation: ParseOperation, is_file: bool, len: u64) -> (checked: Result<(), ParseFailure>)
    ensures
        !is_file ==> checked matches Err(ParseFailure::InputNotFile),
        is_file && input_too_large(operation, len) ==> checked matches Err(ParseFailure::InputTooLarge),
        is_file && !input_too_large(operation, len) ==> checked is Ok,
{
    if !is_file {
        return Err(ParseFailure::InputNotFile);
    }
    match operation.input_size_limit() {
        Some(limit) if len > limit => Err(ParseFailure::InputTooLarge),
        _ => Ok(()),
    }
}

/// Decides on the bytes a media renderer wrote to its standard output: the
/// renderer must have succeeded and written a non-empty media container.
pub fn media_outcome(success: bool, data: Vec<u8>) -> (outcome: Result<ParseOutput, ParseFailure>)
    ensures
        !success ==> outcome matches Err(ParseFailure::RendererFailed),
        success && data@.len() == 0 ==> outcome matches Err(ParseFailure::NoOutput),
        success && data@.len() > 0 && !output_accepted(ParseOperation::PreviewMedia, data@)
            ==> outcome matches Err(ParseFailure::InvalidMedia),
        success && data@.len() > 0 && output_accepted(ParseOperation::PreviewMedia, data@)
            ==> (outcome matches Ok(out) && out.data@ == data@ && out.page == 0 && out.pages == 0),
{
    if !success {
        return Err(ParseFailure::RendererFailed);
    }
    if data.len() == 0 {
        return Err(ParseFailure::NoOutput);
    }
    if !valid_output(ParseOperation::PreviewMedia, &data) {
        return Err(ParseFailure::InvalidMedia);
    }
    Ok(ParseOutput { data, page: 0, pages: 0 })
}

/// Decides, before an image result is read, on the renderer's exit and on the
/// size of the result file (`None` when the file could not be inspected).
pub fn check_image_result(success: bool, size: Option<u64>) -> (checked: Result<(), ParseFailure>)
    ensures
        !success ==> checked matches Err(ParseFailure::RendererFailed),
        success && size is None ==> checked matches Err(ParseFailure::NoOutput),
        success && size is Some && (size.unwrap() == 0 || size.unwrap() > MAX_OUTPUT_BYTES)
            ==> checked matches Err(ParseFailure::InvalidOutputSize),
        success && size is Some && 0 < size.unwrap() <= MAX_OUTPUT_BYTES ==> checked is Ok,
{
    if !success {
        return Err(ParseFailure::RendererFailed);
    }
    match size {
        None => Err(ParseFailure::NoOutput),
        Some(len) => {
            if len == 0 || len > MAX_OUTPUT_BYTES {
                Err(ParseFailure::InvalidOutputSize)
            } else {
                Ok(())
            }
        },
    }
}

/// The page and page count recorded in a metadata text: its first two
/// white-space separated words that are `i32` numerals, zero for each that
/// is missing.
pub open spec fn metadata_values(text: Seq<char>) -> (i32, i32) {
    let values = i32_values(words(text));
    (
        if values.len() > 0 { values[0] } else { 0 },
        if values.len() > 1 { values[1] } else { 0 },
    )
}

/// Reads the page and page count that a document renderer records beside
/// its image.
pub fn read_metadata(text: &str) -> (numbers: (i32, i32))
    ensures
        numbers == metadata_values(text@),
{
    let chars = chars_of(text);
    let values = i32_words(&chars);
    let page = if values.len() > 0 { values[0] } else { 0 };
    let pages = if values.len() > 1 { values[1] } else { 0 };
    (page, pages)
}

/// Decides on an image result that was read back: it must be a PNG within
/// the operation's bounds; the page numbers come from the metadata text when
/// there is one, and are zero otherwise.
pub fn image_outcome(operation: ParseOperation, data: Vec<u8>, metadata: Option<&str>) -> (outcome: Result<ParseOutput, ParseFailure>)
    ensures
        !output_accepted(operation, data@) ==> outcome matches Err(ParseFailure::InvalidImage),
        output_accepted(operation, data@) ==> (outcome matches Ok(out) && out.data@ == data@
            && (out.page, out.pages) == match metadata {
                Some(text) => metadata_values(text@),
                None => (0i32, 0i32),
            }),
{
    if !valid_output(operation, &data) {
        return Err(ParseFailure::InvalidImage);
    }
    let (page, pages) = match metadata {
        Some(text) => read_metadata(text),
        None => (0, 0),
    };
    Ok(ParseOutput { data, page, pages })
}


/// Every raster operation (image, raw and PDF thumbnails, image and PDF
/// previews) accepts a regular file of any length up to 512 MiB and refuses
/// a longer one; video thumbnails and media previews accept any length.
pub proof fn lemma_raster_input_limit(operation: ParseOperation, len: u64)
    ensures
        input_too_large(operation, len) <==> (operation != ParseOperation::ThumbnailVideo
            && operation != ParseOperation::PreviewMedia && len > 536870912),
        (operation == ParseOperation::ThumbnailImage || operation == ParseOperation::ThumbnailRaw
            || operation == ParseOperation::ThumbnailPdf || operation == ParseOperation::PreviewImage
            || operation == ParseOperation::PreviewPdf) && len <= 536870912
            ==> !input_too_large(operation, len),
{
}

} // verus!
