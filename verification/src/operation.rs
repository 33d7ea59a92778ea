//! The preview operations and media back ends, with the limits and the
//! command-line words that belong to each.

use vstd::prelude::*;

verus! {

/// Wall-clock limit of an image or document render, in seconds.
pub const WALL_TIME_LIMIT_SECS: u64 = 12;
/// Wall-clock limit of a media preview, in seconds.
pub const MEDIA_WALL_TIME_LIMIT_SECS: u64 = 30;
/// Address-space limit of the renderer process.
pub const ADDRESS_SPACE_LIMIT_BYTES: u64 = 2 * 1024 * 1024 * 1024;
/// Largest file the renderer may write (other than a video thumbnail).
pub const FILE_SIZE_LIMIT_BYTES: u64 = 512 * 1024 * 1024;
/// Size of the sandbox's private temporary storage.
pub const TEMPORARY_STORAGE_LIMIT_BYTES: u64 = 512 * 1024 * 1024;
/// Largest input that a raster renderer accepts.
pub const MAX_RASTER_INPUT_BYTES: u64 = 512 * 1024 * 1024;
/// Largest output that is accepted from any renderer.
pub const MAX_OUTPUT_BYTES: u64 = 32 * 1024 * 1024;

/// Which video decoding path a media preview should use.
#[derive(Clone, Copy, Debug, PartialEq, Eq, Structural)]
pub enum MediaPreviewBackend {
    Automatic,
    VaApi,
    Vulkan,
    Software,
}

/// The command-line word of each back end.
pub open spec fn backend_word(backend: MediaPreviewBackend) -> Seq<char> {
    match backend {
        MediaPreviewBackend::Automatic => "automatic"@,
        MediaPreviewBackend::VaApi => "vaapi"@,
        MediaPreviewBackend::Vulkan => "vulkan"@,
        MediaPreviewBackend::Software => "software"@,
    }
}

impl MediaPreviewBackend {
    /// The word that names this back end on the renderer's command line.
    pub fn argument(self) -> (word: &'static str)
        ensures
            word@ == backend_word(self),
    {
        match self {
            MediaPreviewBackend::Automatic => "automatic",
            MediaPreviewBackend::VaApi => "vaapi",
            MediaPreviewBackend::Vulkan => "vulkan",
            MediaPreviewBackend::Software => "software",
        }
    }
}

} // verus!

verus! {

impl MediaPreviewBackend {
    /// The back end named by a command-line word, if the word names one.
    pub fn from_argument(value: &str) -> (backend: Option<MediaPreviewBackend>)
        ensures
            match backend {
                Some(b) => value@ == backend_word(b),
                None => forall|b: MediaPreviewBackend| value@ != #[trigger] backend_word(b),
            },
    {
        proof {
            reveal_strlit("automatic");
            reveal_strlit("vaapi");
            reveal_strlit("vulkan");
            reveal_strlit("software");
        }
        if crate::text::str_equal(value, "automatic") {
            Some(MediaPreviewBackend::Automatic)
        } else if crate::text::str_equal(value, "vaapi") {
            Some(MediaPreviewBackend::VaApi)
        } else if crate::text::str_equal(value, "vulkan") {
            Some(MediaPreviewBackend::Vulkan)
        } else if crate::text::str_equal(value, "software") {
            Some(MediaPreviewBackend::Software)
        } else {
            None
        }
    }
}

/// A back end's word names that back end and no other one.
pub proof fn lemma_backend_words_distinct(a: MediaPreviewBackend, b: MediaPreviewBackend)
    ensures
        backend_word(a) == backend_word(b) <==> a == b,
{
    reveal_strlit("automatic");
    reveal_strlit("vaapi");
    reveal_strlit("vulkan");
    reveal_strlit("software");
    if a != b {
        assert(backend_word(a)[0] != backend_word(b)[0] || backend_word(a).len() != backend_word(b).len()
            || backend_word(a)[1] != backend_word(b)[1]);
    }
}

} // verus!

verus! {

/// What the sandboxed renderer is asked to produce.
#[derive(Clone, Copy, Debug, PartialEq, Eq, Structural)]
pub enum ParseOperation {
    ThumbnailImage,
    ThumbnailRaw,
    ThumbnailPdf,
    ThumbnailVideo,
    PreviewImage,
    PreviewPdf,
    PreviewMedia,
}

/// The command-line word of each operation.
pub open spec fn operation_word(operation: ParseOperation) -> Seq<char> {
    match operation {
        ParseOperation::ThumbnailImage => "thumbnail-image"@,
        ParseOperation::ThumbnailRaw => "thumbnail-raw"@,
        ParseOperation::ThumbnailPdf => "thumbnail-pdf"@,
        ParseOperation::ThumbnailVideo => "thumbnail-video"@,
        ParseOperation::PreviewImage => "preview-image"@,
        ParseOperation::PreviewPdf => "preview-pdf"@,
        ParseOperation::PreviewMedia => "preview-media"@,
    }
}

/// The file name under which the renderer leaves its result.
pub open spec fn output_file_name(operation: ParseOperation) -> Seq<char> {
    if operation == ParseOperation::PreviewMedia {
        "result.media"@
    } else {
        "result.png"@
    }
}

/// The (width, height, pixel count) bounds of an operation's PNG output;
/// a media preview produces no PNG and has none.
pub open spec fn image_limits_of(operation: ParseOperation) -> Option<(u32, u32, u64)> {
    match operation {
        ParseOperation::ThumbnailImage
        | ParseOperation::ThumbnailRaw
        | ParseOperation::ThumbnailPdf
        | ParseOperation::ThumbnailVideo => Some((256, 256, 65536)),
        ParseOperation::PreviewImage => Some((1400, 1400, 1960000)),
        ParseOperation::PreviewPdf => Some((1400, 1800, 2500000)),
        ParseOperation::PreviewMedia => None,
    }
}

/// The largest input that an operation accepts; video inputs are unbounded.
pub open spec fn input_size_limit_of(operation: ParseOperation) -> Option<u64> {
    match operation {
        ParseOperation::ThumbnailVideo | ParseOperation::PreviewMedia => None,
        _ => Some(MAX_RASTER_INPUT_BYTES),
    }
}

impl ParseOperation {
    /// The word that names this operation on the renderer's command line.
    pub fn argument(self) -> (word: &'static str)
        ensures
            word@ == operation_word(self),
    {
        match self {
            ParseOperation::ThumbnailImage => "thumbnail-image",
            ParseOperation::ThumbnailRaw => "thumbnail-raw",
            ParseOperation::ThumbnailPdf => "thumbnail-pdf",
            ParseOperation::ThumbnailVideo => "thumbnail-video",
            ParseOperation::PreviewImage => "preview-image",
            ParseOperation::PreviewPdf => "preview-pdf",
            ParseOperation::PreviewMedia => "preview-media",
        }
    }

    /// The file name of the renderer's result: a media container for a media
    /// preview, a PNG otherwise.
    pub fn output_name(self) -> (name: &'static str)
        ensures
            name@ == output_file_name(self),
    {
        if self == ParseOperation::PreviewMedia {
            "result.media"
        } else {
            "result.png"
        }
    }

    /// How long the renderer may run, in seconds: thirty for a media
    /// preview, twelve for everything else.
    pub fn wall_time_limit(self) -> (seconds: u64)
        ensures
            seconds == if self == ParseOperation::PreviewMedia {
                MEDIA_WALL_TIME_LIMIT_SECS
            } else {
                WALL_TIME_LIMIT_SECS
            },
            seconds == if self == ParseOperation::PreviewMedia { 30u64 } else { 12u64 },
    {
        if self == ParseOperation::PreviewMedia {
            MEDIA_WALL_TIME_LIMIT_SECS
        } else {
            WALL_TIME_LIMIT_SECS
        }
    }

    /// The bounds on the PNG that the operation produces.
    pub fn image_limits(self) -> (limits: Option<(u32, u32, u64)>)
        ensures
            limits == image_limits_of(self),
    {
        match self {
            ParseOperation::ThumbnailImage
            | ParseOperation::ThumbnailRaw
            | ParseOperation::ThumbnailPdf
            | ParseOperation::ThumbnailVideo => Some((256, 256, 256 * 256)),
            ParseOperation::PreviewImage => Some((1_400, 1_400, 1_400 * 1_400)),
            ParseOperation::PreviewPdf => Some((1_400, 1_800, 2_500_000)),
            ParseOperation::PreviewMedia => None,
        }
    }

    /// The largest input the operation accepts, if it bounds its input.
    pub fn input_size_limit(self) -> (limit: Option<u64>)
        ensures
            limit == input_size_limit_of(self),
    {
        match self {
            ParseOperation::ThumbnailImage
            | ParseOperation::ThumbnailRaw
            | ParseOperation::ThumbnailPdf
            | ParseOperation::PreviewImage
            | ParseOperation::PreviewPdf => Some(MAX_RASTER_INPUT_BYTES),
            ParseOperation::ThumbnailVideo | ParseOperation::PreviewMedia => None,
        }
    }
}

/// Distinct operations have distinct command-line words, so the renderer can
/// tell them apart.
pub proof fn lemma_operation_words_distinct(a: ParseOperation, b: ParseOperation)
    ensures
        operation_word(a) == operation_word(b) <==> a == b,
{
    reveal_strlit("thumbnail-image");
    reveal_strlit("thumbnail-raw");
    reveal_strlit("thumbnail-pdf");
    reveal_strlit("thumbnail-video");
    reveal_strlit("preview-image");
    reveal_strlit("preview-pdf");
    reveal_strlit("preview-media");
    if a != b {
        let wa = operation_word(a);
        let wb = operation_word(b);
        assert(wa.len() != wb.len() || wa[0] != wb[0] || wa[10] != wb[10] || wa[8] != wb[8]);
    }
}


} // verus!
