use strata_sandbox::cancel::Cancellation;
use strata_sandbox::command::{sandbox_command, sandbox_input_path, SandboxArg};
use strata_sandbox::devices::{
    gpu_devices, pci_id, polaris_gpu_available, polaris_render_node, DeviceDir, DriEntry,
};
use strata_sandbox::monitor::{interruption, status_step, ChildPoll, OutputMonitor, OutputPoll, StatusStep};
use strata_sandbox::operation::{MediaPreviewBackend, ParseOperation, MAX_OUTPUT_BYTES};
use strata_sandbox::outcome::{
    check_image_result, check_input, image_outcome, media_outcome, read_metadata, ParseFailure,
};
use strata_sandbox::output::{png_dimensions, valid_output};
use strata_sandbox::private_output::private_output_name;
use strata_sandbox::text::{i32_text, numbered_name, u64_text};

const ALL_BACKENDS: [MediaPreviewBackend; 4] = [
    MediaPreviewBackend::Automatic,
    MediaPreviewBackend::VaApi,
    MediaPreviewBackend::Vulkan,
    MediaPreviewBackend::Software,
];

const ALL_OPERATIONS: [ParseOperation; 7] = [
    ParseOperation::ThumbnailImage,
    ParseOperation::ThumbnailRaw,
    ParseOperation::ThumbnailPdf,
    ParseOperation::ThumbnailVideo,
    ParseOperation::PreviewImage,
    ParseOperation::PreviewPdf,
    ParseOperation::PreviewMedia,
];

fn png(width: u32, height: u32) -> Vec<u8> {
    let mut data = vec![0x89, b'P', b'N', b'G', b'\r', b'\n', 0x1a, b'\n', 0, 0, 0, 13];
    data.extend_from_slice(b"IHDR");
    data.extend_from_slice(&width.to_be_bytes());
    data.extend_from_slice(&height.to_be_bytes());
    data.extend_from_slice(&[8, 6, 0, 0, 0]);
    data
}

fn rendered(args: &[SandboxArg]) -> Vec<String> {
    args.iter()
        .map(|arg| match arg {
            SandboxArg::Text(text) => text.clone(),
            SandboxArg::Executable => "<executable>".to_owned(),
            SandboxArg::Input => "<input>".to_owned(),
            SandboxArg::Output => "<output>".to_owned(),
            SandboxArg::Device(index) => format!("<device {index}>"),
        })
        .collect()
}

fn strings(words: &[&str]) -> Vec<String> {
    words.iter().map(|word| (*word).to_owned()).collect()
}

const ISOLATION: [&str; 45] = [
    "--unshare-all", "--die-with-parent", "--new-session", "--clearenv",
    "--setenv", "PATH", "/usr/bin",
    "--setenv", "HOME", "/nonexistent",
    "--setenv", "XDG_CACHE_HOME", "/tmp/cache",
    "--proc", "/proc",
    "--dev", "/dev",
    "--size", "536870912",
    "--tmpfs", "/tmp",
    "--dir", "/app",
    "--dir", "/etc",
    "--ro-bind", "/usr", "/usr",
    "--ro-bind-try", "/lib", "/lib",
    "--ro-bind-try", "/lib64", "/lib64",
    "--ro-bind-try", "/etc/fonts", "/etc/fonts",
    "--ro-bind-try", "/etc/ld.so.cache", "/etc/ld.so.cache",
    "--ro-bind-try", "/etc/ImageMagick-7", "/etc/ImageMagick-7",
    "--ro-bind-try", "/etc/ImageMagick-6",
];

#[test]
fn backend_words_round_trip() {
    for backend in ALL_BACKENDS {
        assert_eq!(MediaPreviewBackend::from_argument(backend.argument()), Some(backend));
    }
    assert_eq!(MediaPreviewBackend::Automatic.argument(), "automatic");
    assert_eq!(MediaPreviewBackend::VaApi.argument(), "vaapi");
    assert_eq!(MediaPreviewBackend::Vulkan.argument(), "vulkan");
    assert_eq!(MediaPreviewBackend::Software.argument(), "software");
}

#[test]
fn unknown_backend_words_are_refused() {
    assert_eq!(MediaPreviewBackend::from_argument(""), None);
    assert_eq!(MediaPreviewBackend::from_argument("VAAPI"), None);
    assert_eq!(MediaPreviewBackend::from_argument("vulkan "), None);
    assert_eq!(MediaPreviewBackend::from_argument("soft"), None);
}

#[test]
fn operation_words_and_outputs() {
    let words: Vec<&str> = ALL_OPERATIONS.iter().map(|operation| operation.argument()).collect();
    assert_eq!(
        words,
        [
            "thumbnail-image",
            "thumbnail-raw",
            "thumbnail-pdf",
            "thumbnail-video",
            "preview-image",
            "preview-pdf",
            "preview-media"
        ]
    );
    for operation in ALL_OPERATIONS {
        let media = operation == ParseOperation::PreviewMedia;
        assert_eq!(operation.output_name(), if media { "result.media" } else { "result.png" });
        assert_eq!(operation.wall_time_limit(), if media { 30 } else { 12 });
    }
}

#[test]
fn operation_limits() {
    assert_eq!(ParseOperation::ThumbnailVideo.image_limits(), Some((256, 256, 65_536)));
    assert_eq!(ParseOperation::PreviewImage.image_limits(), Some((1_400, 1_400, 1_960_000)));
    assert_eq!(ParseOperation::PreviewPdf.image_limits(), Some((1_400, 1_800, 2_500_000)));
    assert_eq!(ParseOperation::PreviewMedia.image_limits(), None);
    assert_eq!(ParseOperation::ThumbnailRaw.input_size_limit(), Some(512 * 1024 * 1024));
    assert_eq!(ParseOperation::PreviewPdf.input_size_limit(), Some(512 * 1024 * 1024));
    assert_eq!(ParseOperation::ThumbnailVideo.input_size_limit(), None);
    assert_eq!(ParseOperation::PreviewMedia.input_size_limit(), None);
}

#[test]
fn png_headers_are_read() {
    assert_eq!(png_dimensions(&png(640, 480)), Some((640, 480)));
    assert_eq!(png_dimensions(&png(0x0102_0304, 7)), Some((0x0102_0304, 7)));
    assert_eq!(png_dimensions(&png(0, 480)), None);
    assert_eq!(png_dimensions(&png(640, 0)), None);
    assert_eq!(png_dimensions(&png(640, 480)[..23]), None);
    assert_eq!(png_dimensions(&png(640, 480)[..24]), Some((640, 480)));
    let mut wrong_tag = png(640, 480);
    wrong_tag[12] = b'i';
    assert_eq!(png_dimensions(&wrong_tag), None);
    let mut wrong_length = png(640, 480);
    wrong_length[11] = 14;
    assert_eq!(png_dimensions(&wrong_length), None);
    let mut wrong_signature = png(640, 480);
    wrong_signature[0] = 0x88;
    assert_eq!(png_dimensions(&wrong_signature), None);
    assert_eq!(png_dimensions(&[]), None);
}

#[test]
fn image_outputs_respect_the_operation_bounds() {
    assert!(valid_output(ParseOperation::ThumbnailImage, &png(256, 256)));
    assert!(!valid_output(ParseOperation::ThumbnailImage, &png(257, 10)));
    assert!(!valid_output(ParseOperation::ThumbnailImage, &png(10, 257)));
    assert!(valid_output(ParseOperation::PreviewImage, &png(1_400, 1_400)));
    assert!(valid_output(ParseOperation::PreviewPdf, &png(1_388, 1_800)));
    assert!(!valid_output(ParseOperation::PreviewPdf, &png(1_400, 1_800)));
    assert!(!valid_output(ParseOperation::PreviewImage, b"not a png"));
    assert!(!valid_output(ParseOperation::PreviewMedia, &png(10, 10)));
}

#[test]
fn media_outputs_need_a_container_signature() {
    assert!(valid_output(ParseOperation::PreviewMedia, &[0x1a, 0x45, 0xdf, 0xa3]));
    assert!(valid_output(ParseOperation::PreviewMedia, b"\0\0\0\x20ftypisom"));
    assert!(valid_output(ParseOperation::PreviewMedia, b"....ftyp"));
    assert!(!valid_output(ParseOperation::PreviewMedia, b"....fty"));
    assert!(!valid_output(ParseOperation::PreviewMedia, &[0x1a, 0x45, 0xdf]));
    assert!(!valid_output(ParseOperation::PreviewMedia, b""));
}

#[test]
fn sandbox_input_keeps_short_plain_extensions() {
    assert_eq!(sandbox_input_path(Some("png")), "/input.png");
    assert_eq!(sandbox_input_path(Some("Jpeg2000")), "/input.Jpeg2000");
    assert_eq!(sandbox_input_path(Some("toolongext")), "/input");
    assert_eq!(sandbox_input_path(Some("")), "/input");
    assert_eq!(sandbox_input_path(Some("tar-gz")), "/input");
    assert_eq!(sandbox_input_path(Some("jpé")), "/input");
    assert_eq!(sandbox_input_path(None), "/input");
}

#[test]
fn image_thumbnail_command() {
    let command = sandbox_command(
        ParseOperation::ThumbnailImage,
        256,
        MediaPreviewBackend::Automatic,
        2,
        Some("png"),
    );
    assert_eq!(command.program, "bwrap");
    let mut expected = strings(&ISOLATION);
    expected.extend(strings(&[
        "/etc/ImageMagick-6",
        "--ro-bind", "<executable>", "/app/strata",
        "--ro-bind", "<input>", "/input.png",
        "--bind", "<output>", "/output",
        "--setenv", "MALLOC_ARENA_MAX", "1",
        "--",
        "/usr/bin/prlimit", "--as=2147483648", "--cpu=10", "--fsize=536870912", "--",
        "/app/strata", "--preview-helper", "thumbnail-image", "/input.png", "/output/result.png",
        "256", "automatic",
    ]));
    assert_eq!(rendered(&command.args), expected);
}

#[test]
fn video_thumbnail_command() {
    let command = sandbox_command(
        ParseOperation::ThumbnailVideo,
        -3,
        MediaPreviewBackend::Software,
        0,
        Some("mkv"),
    );
    let mut expected = strings(&ISOLATION);
    expected.extend(strings(&[
        "/etc/ImageMagick-6",
        "--ro-bind", "<input>", "/input.mkv",
        "--bind", "<output>", "/output",
        "--setenv", "MALLOC_ARENA_MAX", "1",
        "--",
        "/usr/bin/prlimit", "--as=2147483648", "--cpu=10", "--fsize=33554432", "--",
        "/usr/bin/ffmpegthumbnailer", "-i", "/input.mkv", "-o", "/output/result.png",
        "-s", "-3", "-q", "8",
    ]));
    assert_eq!(rendered(&command.args), expected);
}

#[test]
fn hardware_media_preview_command() {
    let command = sandbox_command(
        ParseOperation::PreviewMedia,
        1_400,
        MediaPreviewBackend::VaApi,
        2,
        None,
    );
    let mut expected = strings(&ISOLATION);
    expected.extend(strings(&[
        "/etc/ImageMagick-6",
        "--ro-bind", "<executable>", "/app/strata",
        "--ro-bind", "<input>", "/input",
        "--dev-bind-try", "<device 0>", "<device 0>",
        "--dev-bind-try", "<device 1>", "<device 1>",
        "--ro-bind", "/sys", "/sys",
        "--",
        "/app/strata", "--preview-helper", "preview-media", "/input", "/dev/stdout",
        "1400", "vaapi",
    ]));
    assert_eq!(rendered(&command.args), expected);
}

#[test]
fn software_media_preview_gets_no_devices() {
    let command = sandbox_command(
        ParseOperation::PreviewMedia,
        0,
        MediaPreviewBackend::Software,
        3,
        Some("webm"),
    );
    let args = rendered(&command.args);
    assert!(!args.iter().any(|arg| arg.starts_with("<device") || arg == "/sys" || arg == "<output>"));
    assert_eq!(
        &args[args.len() - 8..],
        strings(&["--", "/app/strata", "--preview-helper", "preview-media", "/input.webm", "/dev/stdout", "0", "software"])
    );
}

#[test]
fn numbered_names() {
    assert!(numbered_name("renderD128", "renderD"));
    assert!(numbered_name("nvidia0", "nvidia"));
    assert!(!numbered_name("renderD", "renderD"));
    assert!(!numbered_name("renderD12a", "renderD"));
    assert!(!numbered_name("card0", "renderD"));
    assert!(!numbered_name("nvidiactl", "nvidia"));
    assert!(!numbered_name("renderD１", "renderD"));
}

#[test]
fn gpu_devices_are_selected_and_sorted() {
    let dri = strings(&["renderD129", "card0", "renderD128", "renderD", "by-path"]);
    let dev = strings(&["nvidia1", "null", "nvidiactl", "nvidia0", "nvidia-uvm", "dri"]);
    let names = |backend| {
        gpu_devices(backend, &dri, &dev)
            .into_iter()
            .map(|device| (device.dir, device.name))
            .collect::<Vec<_>>()
    };
    let render_nodes = vec![
        (DeviceDir::Dri, "renderD128".to_owned()),
        (DeviceDir::Dri, "renderD129".to_owned()),
    ];
    let mut all = render_nodes.clone();
    all.extend([
        (DeviceDir::Dev, "nvidia0".to_owned()),
        (DeviceDir::Dev, "nvidia1".to_owned()),
        (DeviceDir::Dev, "nvidiactl".to_owned()),
    ]);
    assert_eq!(names(MediaPreviewBackend::Automatic), all);
    assert_eq!(names(MediaPreviewBackend::Vulkan), all);
    assert_eq!(names(MediaPreviewBackend::VaApi), render_nodes);
    assert_eq!(names(MediaPreviewBackend::Software), vec![]);
}

#[test]
fn pci_identifiers() {
    assert_eq!(pci_id("0x1002\n"), Some(0x1002));
    assert_eq!(pci_id("  67df  "), Some(0x67df));
    assert_eq!(pci_id("0x67DF"), Some(0x67df));
    assert_eq!(pci_id("+0x1"), None);
    assert_eq!(pci_id("0x+1f"), Some(0x1f));
    assert_eq!(pci_id("0x10000"), None);
    assert_eq!(pci_id("0xffff"), Some(0xffff));
    assert_eq!(pci_id("0x"), None);
    assert_eq!(pci_id(""), None);
    assert_eq!(pci_id("0x10 02"), None);
    assert_eq!(pci_id("\u{a0}0x1002\u{2003}"), Some(0x1002));
}

#[test]
fn polaris_render_nodes() {
    assert!(polaris_render_node(Some("0x1002\n"), Some("0x67df\n")));
    assert!(polaris_render_node(Some("0x1002"), Some("0x67e0")));
    assert!(polaris_render_node(Some("0x1002"), Some("0x699f")));
    assert!(!polaris_render_node(Some("0x1002"), Some("0x67bf")));
    assert!(!polaris_render_node(Some("0x1002"), Some("0x69a0")));
    assert!(!polaris_render_node(Some("0x10de"), Some("0x67df")));
    assert!(!polaris_render_node(None, Some("0x67df")));
    assert!(!polaris_render_node(Some("0x1002"), None));
    assert!(!polaris_render_node(Some("amd"), Some("0x67df")));
}

#[test]
fn polaris_gpu_detection() {
    let entry = |name: &str, vendor: Option<&str>, device: Option<&str>| DriEntry {
        name: name.to_owned(),
        vendor: vendor.map(str::to_owned),
        device: device.map(str::to_owned),
    };
    assert!(!polaris_gpu_available(&vec![]));
    assert!(!polaris_gpu_available(&vec![
        entry("card0", Some("0x1002"), Some("0x67df")),
        entry("renderD128", Some("0x8086"), Some("0x3e92")),
    ]));
    assert!(polaris_gpu_available(&vec![
        entry("renderD128", Some("0x8086"), Some("0x3e92")),
        entry("renderD129", Some("0x1002\n"), Some("0x6981\n")),
    ]));
}

#[test]
fn metadata_pages() {
    assert_eq!(read_metadata("3 12\n"), (3, 12));
    assert_eq!(read_metadata("  -1\t+2  9"), (-1, 2));
    assert_eq!(read_metadata("page 4 of 9"), (4, 9));
    assert_eq!(read_metadata("2147483648 7"), (7, 0));
    assert_eq!(read_metadata("-2147483648 2147483647"), (-2147483648, 2147483647));
    assert_eq!(read_metadata("5"), (5, 0));
    assert_eq!(read_metadata(""), (0, 0));
    assert_eq!(read_metadata("+ - 1"), (1, 0));
    assert_eq!(read_metadata("1\u{3000}2"), (1, 2));
}

#[test]
fn numbers_are_written_in_decimal() {
    for value in [0, 7, -7, 10, 1_400, i32::MAX, i32::MIN] {
        assert_eq!(i32_text(value), value.to_string());
        let (page, pages) = read_metadata(&format!("{} {}", i32_text(value), i32_text(-value.wrapping_add(1))));
        assert_eq!((page, pages), (value, -value.wrapping_add(1)));
    }
    for value in [0u64, 9, 10, 536_870_912, u64::MAX] {
        assert_eq!(u64_text(value), value.to_string());
    }
}

#[test]
fn input_checks() {
    assert!(matches!(check_input(ParseOperation::PreviewImage, false, 10), Err(ParseFailure::InputNotFile)));
    assert!(matches!(
        check_input(ParseOperation::PreviewImage, true, 512 * 1024 * 1024 + 1),
        Err(ParseFailure::InputTooLarge)
    ));
    assert!(check_input(ParseOperation::PreviewImage, true, 512 * 1024 * 1024).is_ok());
    assert!(check_input(ParseOperation::ThumbnailVideo, true, u64::MAX).is_ok());
    assert!(check_input(ParseOperation::PreviewMedia, true, u64::MAX).is_ok());
}

#[test]
fn media_outcomes() {
    assert!(matches!(media_outcome(false, vec![0x1a, 0x45, 0xdf, 0xa3]), Err(ParseFailure::RendererFailed)));
    assert!(matches!(media_outcome(true, vec![]), Err(ParseFailure::NoOutput)));
    assert!(matches!(media_outcome(true, b"garbage!".to_vec()), Err(ParseFailure::InvalidMedia)));
    let output = media_outcome(true, b"\0\0\0\x18ftypmp42".to_vec()).ok().unwrap();
    assert_eq!(output.data, b"\0\0\0\x18ftypmp42");
    assert_eq!((output.page, output.pages), (0, 0));
}

#[test]
fn image_outcomes() {
    assert!(matches!(check_image_result(false, Some(10)), Err(ParseFailure::RendererFailed)));
    assert!(matches!(check_image_result(true, None), Err(ParseFailure::NoOutput)));
    assert!(matches!(check_image_result(true, Some(0)), Err(ParseFailure::InvalidOutputSize)));
    assert!(matches!(
        check_image_result(true, Some(MAX_OUTPUT_BYTES + 1)),
        Err(ParseFailure::InvalidOutputSize)
    ));
    assert!(check_image_result(true, Some(MAX_OUTPUT_BYTES)).is_ok());
    assert!(matches!(
        image_outcome(ParseOperation::ThumbnailPdf, png(300, 10), None),
        Err(ParseFailure::InvalidImage)
    ));
    let output = image_outcome(ParseOperation::PreviewPdf, png(1_000, 1_400), Some("2 17\n")).ok().unwrap();
    assert_eq!((output.page, output.pages), (2, 17));
    assert_eq!(output.data, png(1_000, 1_400));
    let output = image_outcome(ParseOperation::PreviewImage, png(20, 20), None).ok().unwrap();
    assert_eq!((output.page, output.pages), (0, 0));
}

#[test]
fn failure_messages() {
    assert_eq!(ParseFailure::Cancelled.message(), "Preview cancelled");
    assert_eq!(
        ParseFailure::InputUnavailable("No such file or directory (os error 2)".to_owned()).message(),
        "Unable to open preview input: No such file or directory (os error 2)"
    );
    assert_eq!(ParseFailure::OutputDirectory("denied".to_owned()).message(), "denied");
    assert_eq!(ParseFailure::TimedOut.message(), "The preview renderer timed out");
    assert_eq!(ParseFailure::OutputTooLarge.message(), "Preview provider output exceeded its limit");
    assert_eq!(
        ParseFailure::InvalidOutputSize.message(),
        "The preview renderer produced an invalid output size"
    );
    assert_eq!(ParseFailure::OutputReaderLost.message(), "Unable to read preview renderer output");
    assert_eq!(
        ParseFailure::OutputReadFailed("broken pipe".to_owned()).message(),
        "Unable to read preview renderer output: broken pipe"
    );
}

#[test]
fn cancellation_takes_precedence_over_the_deadline() {
    assert!(matches!(interruption(true, true), Some(ParseFailure::Cancelled)));
    assert!(matches!(interruption(true, false), Some(ParseFailure::Cancelled)));
    assert!(matches!(interruption(false, true), Some(ParseFailure::TimedOut)));
    assert!(interruption(false, false).is_none());
}

#[test]
fn status_steps() {
    assert!(matches!(status_step(ChildPoll::Exited(true)), StatusStep::Exited(true)));
    assert!(matches!(status_step(ChildPoll::Exited(false)), StatusStep::Exited(false)));
    assert!(matches!(status_step(ChildPoll::Running), StatusStep::Wait));
    match status_step(ChildPoll::Failed("gone".to_owned())) {
        StatusStep::Stop(failure) => {
            assert_eq!(failure.message(), "Unable to monitor the preview renderer: gone")
        }
        _ => panic!("a failed poll stops the wait"),
    }
}

#[test]
fn output_monitor_waits_for_status_and_output() {
    let mut monitor = OutputMonitor::new(8);
    assert!(monitor.record_status(ChildPoll::Running).is_none());
    assert!(monitor.record_output(OutputPoll::Pending).is_none());
    assert!(monitor.take_finished().is_none());
    assert!(monitor.record_output(OutputPoll::Data(b"12345678".to_vec())).is_none());
    assert!(monitor.take_finished().is_none());
    assert!(monitor.record_status(ChildPoll::Exited(true)).is_none());
    assert_eq!(monitor.take_finished(), Some((true, b"12345678".to_vec())));
}

#[test]
fn output_monitor_stops_on_bad_output() {
    let mut monitor = OutputMonitor::new(8);
    assert!(matches!(
        monitor.record_output(OutputPoll::Data(b"123456789".to_vec())),
        Some(ParseFailure::OutputTooLarge)
    ));
    assert!(matches!(monitor.record_output(OutputPoll::Disconnected), Some(ParseFailure::OutputReaderLost)));
    assert!(matches!(
        monitor.record_output(OutputPoll::ReadFailed("eof".to_owned())),
        Some(ParseFailure::OutputReadFailed(_))
    ));
    assert!(matches!(
        monitor.record_status(ChildPoll::Failed("x".to_owned())),
        Some(ParseFailure::MonitorFailed(_))
    ));
}

#[test]
fn private_output_names() {
    assert_eq!(private_output_name(4242, 1), "strata-preview-4242-1");
    assert_eq!(private_output_name(0, u64::MAX), "strata-preview-0-18446744073709551615");
}

#[test]
fn cancellation_is_shared_by_clones() {
    let cancellation = Cancellation::default();
    let clone = cancellation.clone();
    assert!(!cancellation.is_cancelled());
    clone.cancel();
    assert!(cancellation.is_cancelled());
    assert!(clone.is_cancelled());
}
