//! The bubblewrap command line that confines a renderer.

use vstd::prelude::*;
use vstd::string::*;
use crate::operation::{
    MediaPreviewBackend, ParseOperation, backend_word, operation_word, output_file_name,
    ADDRESS_SPACE_LIMIT_BYTES, FILE_SIZE_LIMIT_BYTES, MAX_OUTPUT_BYTES, TEMPORARY_STORAGE_LIMIT_BYTES,
};
use crate::text::{decimal, signed_decimal, push_decimal, u64_text, i32_text};

verus! {

/// One argument of the sandbox command: literal text, or a path that the
/// caller supplies (the renderer executable, the input file, the private
/// output directory, or one of the listed GPU devices, by position).
pub enum SandboxArg {
    Text(String),
    Executable,
    Input,
    Output,
    Device(usize),
}

/// The mathematical form of a `SandboxArg`.
pub enum ArgView {
    Text(Seq<char>),
    Executable,
    Input,
    Output,
    Device(nat),
}

impl View for SandboxArg {
    type V = ArgView;

    open spec fn view(&self) -> ArgView {
        match self {
            SandboxArg::Text(s) => ArgView::Text(s@),
            SandboxArg::Executable => ArgView::Executable,
            SandboxArg::Input => ArgView::Input,
            SandboxArg::Output => ArgView::Output,
            SandboxArg::Device(i) => ArgView::Device(*i as nat),
        }
    }
}

/// The arguments of a command, each by its view.
pub open spec fn args_view(args: Seq<SandboxArg>) -> Seq<ArgView> {
    args.map_values(|a: SandboxArg| a@)
}

/// A literal argument.
pub open spec fn word(s: Seq<char>) -> ArgView {
    ArgView::Text(s)
}

/// Whether `c` is an ASCII letter or digit.
pub open spec fn is_ascii_alphanumeric(c: char) -> bool {
    ('0' <= c && c <= '9') || ('a' <= c && c <= 'z') || ('A' <= c && c <= 'Z')
}

/// Whether a file extension is kept in the sandboxed input's name: one to
/// eight ASCII letters or digits.
pub open spec fn keeps_extension(extension: Seq<char>) -> bool {
    &&& 1 <= extension.len() <= 8
    &&& forall|i: int| 0 <= i < extension.len() ==> is_ascii_alphanumeric(#[trigger] extension[i])
}

/// Where the input appears inside the sandbox: `/input`, with the input's
/// extension when it is short and plain, so that renderers that go by the
/// extension still recognise the file.
pub open spec fn sandbox_input(extension: Option<Seq<char>>) -> Seq<char> {
    match extension {
        Some(e) => if keeps_extension(e) { "/input."@ + e } else { "/input"@ },
        None => "/input"@,
    }
}

/// The path of the input inside the sandbox, given the extension of the
/// input's file name (`None` when it has none, or none that is UTF-8).
pub fn sandbox_input_path(extension: Option<&str>) -> (path: String)
    ensures
        path@ == sandbox_input(match extension {
            Some(e) => Some(e@),
            None => None,
        }),
{
    if let Some(e) = extension {
        let n = e.unicode_len();
        if 1 <= n && n <= 8 {
            let mut i: usize = 0;
            let mut plain = true;
            while i < n
                invariant
                    n == e@.len(),
                    i <= n,
                    plain == forall|j: int| 0 <= j < i ==> is_ascii_alphanumeric(#[trigger] e@[j]),
                decreases n - i,
            {
                let c = e.get_char(i);
                let ok = ('0' <= c && c <= '9') || ('a' <= c && c <= 'z') || ('A' <= c && c <= 'Z');
                proof {
                    if !ok {
                        assert(!is_ascii_alphanumeric(e@[i as int]));
                    }
                }
                plain = plain && ok;
                i = i + 1;
            }
            if plain {
                return String::from_str("/input.").concat(e);
            }
        }
    }
    String::from_str("/input")
}

/// The namespace, environment and process options that every renderer runs
/// under, up to the size option of the temporary storage.
pub open spec fn isolation_words() -> Seq<Seq<char>> {
    seq![
        "--unshare-all"@, "--die-with-parent"@, "--new-session"@, "--clearenv"@,
        "--setenv"@, "PATH"@, "/usr/bin"@,
        "--setenv"@, "HOME"@, "/nonexistent"@,
        "--setenv"@, "XDG_CACHE_HOME"@, "/tmp/cache"@,
        "--proc"@, "/proc"@,
        "--dev"@, "/dev"@,
        "--size"@,
    ]
}

/// The file system every renderer sees, after the size of its temporary
/// storage: a private `/tmp`, and read-only system directories.
pub open spec fn mount_words() -> Seq<Seq<char>> {
    seq![
        "--tmpfs"@, "/tmp"@,
        "--dir"@, "/app"@,
        "--dir"@, "/etc"@,
        "--ro-bind"@, "/usr"@, "/usr"@,
        "--ro-bind-try"@, "/lib"@, "/lib"@,
        "--ro-bind-try"@, "/lib64"@, "/lib64"@,
        "--ro-bind-try"@, "/etc/fonts"@, "/etc/fonts"@,
        "--ro-bind-try"@, "/etc/ld.so.cache"@, "/etc/ld.so.cache"@,
        "--ro-bind-try"@, "/etc/ImageMagick-7"@, "/etc/ImageMagick-7"@,
        "--ro-bind-try"@, "/etc/ImageMagick-6"@, "/etc/ImageMagick-6"@,
    ]
}

/// Literal arguments, in order.
pub open spec fn words_of(ws: Seq<Seq<char>>) -> Seq<ArgView> {
    ws.map_values(|w: Seq<char>| word(w))
}

/// Binds of the first `n` listed devices, each to its own path.
pub open spec fn device_binds(n: nat) -> Seq<ArgView>
    decreases n,
{
    if n == 0 {
        seq![]
    } else {
        device_binds((n - 1) as nat) + seq![
            word("--dev-bind-try"@),
            ArgView::Device((n - 1) as nat),
            ArgView::Device((n - 1) as nat),
        ]
    }
}

/// The bubblewrap options that confine a renderer.
pub open spec fn confinement(
    operation: ParseOperation,
    media_backend: MediaPreviewBackend,
    devices: nat,
    input: Seq<char>,
) -> Seq<ArgView> {
    let media = operation == ParseOperation::PreviewMedia;
    words_of(isolation_words()) + seq![word(decimal(TEMPORARY_STORAGE_LIMIT_BYTES as nat))]
        + words_of(mount_words())
        + (if operation != ParseOperation::ThumbnailVideo {
            seq![word("--ro-bind"@), ArgView::Executable, word("/app/strata"@)]
        } else {
            seq![]
        })
        + seq![word("--ro-bind"@), ArgView::Input, word(input)]
        + (if !media { seq![word("--bind"@), ArgView::Output, word("/output"@)] } else { seq![] })
        + (if media && media_backend != MediaPreviewBackend::Software {
            device_binds(devices) + seq![word("--ro-bind"@), word("/sys"@), word("/sys"@)]
        } else {
            seq![]
        })
        + (if !media { seq![word("--setenv"@), word("MALLOC_ARENA_MAX"@), word("1"@)] } else { seq![] })
        + seq![word("--"@)]
}

/// The resource limits a non-media renderer runs under, through `prlimit`:
/// address space, ten seconds of CPU, and the size of files it writes.
pub open spec fn resource_limits(operation: ParseOperation) -> Seq<ArgView> {
    if operation == ParseOperation::PreviewMedia {
        seq![]
    } else {
        let fsize = if operation == ParseOperation::ThumbnailVideo {
            MAX_OUTPUT_BYTES
        } else {
            FILE_SIZE_LIMIT_BYTES
        };
        seq![
            word("/usr/bin/prlimit"@),
            word("--as="@ + decimal(ADDRESS_SPACE_LIMIT_BYTES as nat)),
            word("--cpu=10"@),
            word("--fsize="@ + decimal(fsize as nat)),
            word("--"@),
        ]
    }
}

/// The renderer invocation: `ffmpegthumbnailer` for video thumbnails, the
/// application's own preview helper for everything else.
pub open spec fn renderer_call(
    operation: ParseOperation,
    value: i32,
    media_backend: MediaPreviewBackend,
    input: Seq<char>,
) -> Seq<ArgView> {
    if operation == ParseOperation::ThumbnailVideo {
        seq![
            word("/usr/bin/ffmpegthumbnailer"@), word("-i"@), word(input), word("-o"@),
            word("/output/"@ + output_file_name(operation)),
            word("-s"@), word(signed_decimal(value as int)),
            word("-q"@), word("8"@),
        ]
    } else {
        seq![
            word("/app/strata"@), word("--preview-helper"@), word(operation_word(operation)), word(input),
            word(if operation == ParseOperation::PreviewMedia {
                "/dev/stdout"@
            } else {
                "/output/"@ + output_file_name(operation)
            }),
            word(signed_decimal(value as int)),
            word(backend_word(media_backend)),
        ]
    }
}

/// The full argument list of the sandbox command.
pub open spec fn sandbox_args(
    operation: ParseOperation,
    value: i32,
    media_backend: MediaPreviewBackend,
    devices: nat,
    extension: Option<Seq<char>>,
) -> Seq<ArgView> {
    let input = sandbox_input(extension);
    confinement(operation, media_backend, devices, input) + resource_limits(operation)
        + renderer_call(operation, value, media_backend, input)
}

/// A program and its arguments.
pub struct SandboxCommand {
    pub program: String,
    pub args: Vec<SandboxArg>,
}


/// Appends one argument.
fn push_arg(args: &mut Vec<SandboxArg>, arg: SandboxArg)
    ensures
        args_view(final(args)@) == args_view(old(args)@).push(arg@),
{
    let ghost a = arg@;
    args.push(arg);
    assert(args_view(args@) =~= args_view(old(args)@).push(a));
}

/// Appends literal arguments, in order.
fn push_words(args: &mut Vec<SandboxArg>, ws: &[&str])
    ensures
        args_view(final(args)@) == args_view(old(args)@) + words_of(ws@.map_values(|w: &str| w@)),
{
    let ghost start = args_view(args@);
    let ghost all = ws@.map_values(|w: &str| w@);
    let mut i: usize = 0;
    while i < ws.len()
        invariant
            i <= ws@.len(),
            all == ws@.map_values(|w: &str| w@),
            args_view(args@) == start + words_of(all.take(i as int)),
        decreases ws.len() - i,
    {
        push_arg(args, SandboxArg::Text(String::from_str(ws[i])));
        i = i + 1;
        assert(words_of(all.take(i as int)) =~= words_of(all.take(i - 1)).push(word(all[i - 1])));
        assert(args_view(args@) =~= start + words_of(all.take(i as int)));
    }
    assert(all.take(ws@.len() as int) =~= all);
}

proof fn lemma_device_binds_step(n: nat)
    ensures
        device_binds(n + 1) == device_binds(n) + seq![
            word("--dev-bind-try"@),
            ArgView::Device(n),
            ArgView::Device(n),
        ],
{
    assert((n + 1 - 1) as nat == n);
}

/// The options that every renderer runs under, up to its own binds.
fn base_args() -> (args: Vec<SandboxArg>)
    ensures
        args_view(args@) == words_of(isolation_words()) + seq![word(decimal(TEMPORARY_STORAGE_LIMIT_BYTES as nat))]
            + words_of(mount_words()),
{
    let mut args: Vec<SandboxArg> = Vec::new();
    let isolation: [&str; 18] = [
        "--unshare-all", "--die-with-parent", "--new-session", "--clearenv",
        "--setenv", "PATH", "/usr/bin",
        "--setenv", "HOME", "/nonexistent",
        "--setenv", "XDG_CACHE_HOME", "/tmp/cache",
        "--proc", "/proc",
        "--dev", "/dev",
        "--size",
    ];
    assert(isolation@.map_values(|w: &str| w@) =~= isolation_words());
    push_words(&mut args, &isolation);
    push_arg(&mut args, SandboxArg::Text(u64_text(TEMPORARY_STORAGE_LIMIT_BYTES)));
    let mounts: [&str; 27] = [
        "--tmpfs", "/tmp",
        "--dir", "/app",
        "--dir", "/etc",
        "--ro-bind", "/usr", "/usr",
        "--ro-bind-try", "/lib", "/lib",
        "--ro-bind-try", "/lib64", "/lib64",
        "--ro-bind-try", "/etc/fonts", "/etc/fonts",
        "--ro-bind-try", "/etc/ld.so.cache", "/etc/ld.so.cache",
        "--ro-bind-try", "/etc/ImageMagick-7", "/etc/ImageMagick-7",
        "--ro-bind-try", "/etc/ImageMagick-6", "/etc/ImageMagick-6",
    ];
    assert(mounts@.map_values(|w: &str| w@) =~= mount_words());
    push_words(&mut args, &mounts);
    assert(args_view(args@) =~= words_of(isolation_words()) + seq![word(decimal(TEMPORARY_STORAGE_LIMIT_BYTES as nat))]
        + words_of(mount_words()));
    args
}

/// Appends the literal argument `w`.
fn push_word(args: &mut Vec<SandboxArg>, w: &str)
    ensures
        args_view(final(args)@) == args_view(old(args)@).push(word(w@)),
{
    push_arg(args, SandboxArg::Text(String::from_str(w)));
}

/// The bubblewrap options that confine a renderer (see `confinement`).
fn confinement_args(
    operation: ParseOperation,
    media_backend: MediaPreviewBackend,
    devices: usize,
    input: &String,
) -> (args: Vec<SandboxArg>)
    ensures
        args_view(args@) == confinement(operation, media_backend, devices as nat, input@),
{
    let media = operation == ParseOperation::PreviewMedia;
    let mut args = base_args();
    let ghost base = args_view(args@);
    if operation != ParseOperation::ThumbnailVideo {
        push_word(&mut args, "--ro-bind");
        push_arg(&mut args, SandboxArg::Executable);
        push_word(&mut args, "/app/strata");
    }
    let ghost s1 = args_view(args@);
    push_word(&mut args, "--ro-bind");
    push_arg(&mut args, SandboxArg::Input);
    push_arg(&mut args, SandboxArg::Text(input.clone()));
    let ghost s2 = args_view(args@);
    if !media {
        push_word(&mut args, "--bind");
        push_arg(&mut args, SandboxArg::Output);
        push_word(&mut args, "/output");
    }
    let ghost before_devices = args_view(args@);
    if media && media_backend != MediaPreviewBackend::Software {
        let mut d: usize = 0;
        while d < devices
            invariant
                d <= devices,
                args_view(args@) == before_devices + device_binds(d as nat),
            decreases devices - d,
        {
            push_word(&mut args, "--dev-bind-try");
            push_arg(&mut args, SandboxArg::Device(d));
            push_arg(&mut args, SandboxArg::Device(d));
            proof {
                lemma_device_binds_step(d as nat);
            }
            d = d + 1;
            assert(args_view(args@) =~= before_devices + device_binds(d as nat));
        }
        push_word(&mut args, "--ro-bind");
        push_word(&mut args, "/sys");
        push_word(&mut args, "/sys");
    }
    let ghost s3 = args_view(args@);
    if !media {
        push_word(&mut args, "--setenv");
        push_word(&mut args, "MALLOC_ARENA_MAX");
        push_word(&mut args, "1");
    }
    let ghost s4 = args_view(args@);
    push_word(&mut args, "--");
    proof {
        assert(s1 =~= base + (if operation != ParseOperation::ThumbnailVideo {
            seq![word("--ro-bind"@), ArgView::Executable, word("/app/strata"@)]
        } else {
            seq![]
        }));
        assert(s2 =~= s1 + seq![word("--ro-bind"@), ArgView::Input, word(input@)]);
        assert(before_devices =~= s2 + (if !media {
            seq![word("--bind"@), ArgView::Output, word("/output"@)]
        } else {
            seq![]
        }));
        assert(s3 =~= before_devices + (if media && media_backend != MediaPreviewBackend::Software {
            device_binds(devices as nat) + seq![word("--ro-bind"@), word("/sys"@), word("/sys"@)]
        } else {
            seq![]
        }));
        assert(s4 =~= s3 + (if !media {
            seq![word("--setenv"@), word("MALLOC_ARENA_MAX"@), word("1"@)]
        } else {
            seq![]
        }));
    }
    assert(args_view(args@) =~= confinement(operation, media_backend, devices as nat, input@));
    args
}

/// Appends the resource limits of `operation` (see `resource_limits`).
fn push_resource_limits(args: &mut Vec<SandboxArg>, operation: ParseOperation)
    ensures
        args_view(final(args)@) == args_view(old(args)@) + resource_limits(operation),
{
    if operation != ParseOperation::PreviewMedia {
        push_word(args, "/usr/bin/prlimit");
        let mut address_space = String::from_str("--as=");
        push_decimal(&mut address_space, ADDRESS_SPACE_LIMIT_BYTES);
        push_arg(args, SandboxArg::Text(address_space));
        push_word(args, "--cpu=10");
        let mut file_size = String::from_str("--fsize=");
        push_decimal(
            &mut file_size,
            if operation == ParseOperation::ThumbnailVideo {
                MAX_OUTPUT_BYTES
            } else {
                FILE_SIZE_LIMIT_BYTES
            },
        );
        push_arg(args, SandboxArg::Text(file_size));
        push_word(args, "--");
    }
    assert(args_view(args@) =~= args_view(old(args)@) + resource_limits(operation));
}

/// Appends the renderer invocation (see `renderer_call`).
fn push_renderer_call(
    args: &mut Vec<SandboxArg>,
    operation: ParseOperation,
    value: i32,
    media_backend: MediaPreviewBackend,
    input: String,
)
    ensures
        args_view(final(args)@) == args_view(old(args)@) + renderer_call(operation, value, media_backend, input@),
{
    let ghost input_view = input@;
    if operation == ParseOperation::ThumbnailVideo {
        push_word(args, "/usr/bin/ffmpegthumbnailer");
        push_word(args, "-i");
        push_arg(args, SandboxArg::Text(input));
        push_word(args, "-o");
        push_arg(args, SandboxArg::Text(String::from_str("/output/").concat(operation.output_name())));
        push_word(args, "-s");
        push_arg(args, SandboxArg::Text(i32_text(value)));
        push_word(args, "-q");
        push_word(args, "8");
    } else {
        push_word(args, "/app/strata");
        push_word(args, "--preview-helper");
        push_word(args, operation.argument());
        push_arg(args, SandboxArg::Text(input));
        if operation == ParseOperation::PreviewMedia {
            push_word(args, "/dev/stdout");
        } else {
            push_arg(args, SandboxArg::Text(String::from_str("/output/").concat(operation.output_name())));
        }
        push_arg(args, SandboxArg::Text(i32_text(value)));
        push_word(args, media_backend.argument());
    }
    assert(args_view(args@) =~= args_view(old(args)@) + renderer_call(operation, value, media_backend, input_view));
}

/// The sandbox command that runs the renderer for `operation` on the input,
/// writing into the private output directory (or, for media, to standard
/// output), with `devices` GPU device nodes passed through for hardware media
/// decoding. `extension` is that of the input's file name.
pub fn sandbox_command(
    operation: ParseOperation,
    value: i32,
    media_backend: MediaPreviewBackend,
    devices: usize,
    extension: Option<&str>,
) -> (command: SandboxCommand)
    ensures
        command.program@ == "bwrap"@,
        args_view(command.args@) == sandbox_args(
            operation,
            value,
            media_backend,
            devices as nat,
            match extension {
                Some(e) => Some(e@),
                None => None,
            },
        ),
{
    let input = sandbox_input_path(extension);
    let mut args = confinement_args(operation, media_backend, devices, &input);
    push_resource_limits(&mut args, operation);
    push_renderer_call(&mut args, operation, value, media_backend, input);
    SandboxCommand { program: String::from_str("bwrap"), args }
}


proof fn lemma_device_binds_shape(n: nat)
    ensures
        device_binds(n).len() == 3 * n,
        forall|i: int| 0 <= i < device_binds(n).len() ==> (#[trigger] device_binds(n)[i]) is Text
            || device_binds(n)[i] is Device,
    decreases n,
{
    if n > 0 {
        lemma_device_binds_shape((n - 1) as nat);
        let prev = device_binds((n - 1) as nat);
        let tail = seq![word("--dev-bind-try"@), ArgView::Device((n - 1) as nat), ArgView::Device((n - 1) as nat)];
        assert forall|i: int| 0 <= i < device_binds(n).len() implies (#[trigger] device_binds(n)[i]) is Text
            || device_binds(n)[i] is Device by {
            if i < prev.len() {
                assert(device_binds(n)[i] == prev[i]);
            } else {
                assert(device_binds(n)[i] == tail[i - prev.len()]);
            }
        }
    }
}

/// What a sandboxed renderer is given besides literal text: the paths that
/// its arguments name.
pub open spec fn passes(args: Seq<ArgView>, a: ArgView) -> bool {
    exists|i: int| 0 <= i < args.len() && args[i] == a
}

proof fn lemma_confinement_shape(
    operation: ParseOperation,
    media_backend: MediaPreviewBackend,
    devices: nat,
    input: Seq<char>,
    extension: Option<Seq<char>>,
    value: i32,
)
    ensures
        ({
            let args = sandbox_args(operation, value, media_backend, devices, extension);
            let media = operation == ParseOperation::PreviewMedia;
            &&& forall|i: int| 0 <= i < args.len() ==> {
                let a = #[trigger] args[i];
                ||| a is Text
                ||| a is Input
                ||| (a is Executable && operation != ParseOperation::ThumbnailVideo)
                ||| (a is Output && !media)
                ||| (a is Device && media && media_backend != MediaPreviewBackend::Software
                    && a->Device_0 < devices)
            }
        }),
{
    let args = sandbox_args(operation, value, media_backend, devices, extension);
    let media = operation == ParseOperation::PreviewMedia;
    let inp = sandbox_input(extension);
    let p0 = words_of(isolation_words()) + seq![word(decimal(TEMPORARY_STORAGE_LIMIT_BYTES as nat))]
        + words_of(mount_words());
    let p1 = if operation != ParseOperation::ThumbnailVideo {
        seq![word("--ro-bind"@), ArgView::Executable, word("/app/strata"@)]
    } else {
        seq![]
    };
    let p2 = seq![word("--ro-bind"@), ArgView::Input, word(inp)];
    let p3 = if !media { seq![word("--bind"@), ArgView::Output, word("/output"@)] } else { seq![] };
    let p4 = if media && media_backend != MediaPreviewBackend::Software {
        device_binds(devices) + seq![word("--ro-bind"@), word("/sys"@), word("/sys"@)]
    } else {
        seq![]
    };
    let p5 = if !media { seq![word("--setenv"@), word("MALLOC_ARENA_MAX"@), word("1"@)] } else { seq![] };
    let p6 = seq![word("--"@)];
    let p7 = resource_limits(operation);
    let p8 = renderer_call(operation, value, media_backend, inp);
    assert(args =~= p0 + p1 + p2 + p3 + p4 + p5 + p6 + p7 + p8);
    lemma_device_binds_shape(devices);
    assert forall|i: int| 0 <= i < device_binds(devices).len() implies (#[trigger] device_binds(devices)[i]) is Text
        || (device_binds(devices)[i] is Device && device_binds(devices)[i]->Device_0 < devices) by {
        lemma_device_bind_index(devices, i);
    }
}

proof fn lemma_device_bind_index(n: nat, i: int)
    requires
        0 <= i < device_binds(n).len(),
    ensures
        device_binds(n)[i] is Text || (device_binds(n)[i] is Device && device_binds(n)[i]->Device_0 < n),
    decreases n,
{
    lemma_device_binds_shape(n);
    if n > 0 {
        let prev = device_binds((n - 1) as nat);
        lemma_device_binds_shape((n - 1) as nat);
        if i < prev.len() {
            assert(device_binds(n)[i] == prev[i]);
            lemma_device_bind_index((n - 1) as nat, i);
        }
    }
}

/// A media preview streams its result and gets no writable output
/// directory; a video thumbnail runs `ffmpegthumbnailer` and never sees the
/// application's executable; GPU devices reach only hardware-decoded media
/// previews, and only those listed. Everything else the sandbox is given is
/// literal text or the input file.
pub proof fn lemma_sandbox_passes_only_what_is_needed(
    operation: ParseOperation,
    value: i32,
    media_backend: MediaPreviewBackend,
    devices: nat,
    extension: Option<Seq<char>>,
)
    ensures
        operation == ParseOperation::PreviewMedia ==> !passes(
            sandbox_args(operation, value, media_backend, devices, extension),
            ArgView::Output,
        ),
        operation == ParseOperation::ThumbnailVideo ==> !passes(
            sandbox_args(operation, value, media_backend, devices, extension),
            ArgView::Executable,
        ),
        forall|d: nat| #[trigger] passes(sandbox_args(operation, value, media_backend, devices, extension), ArgView::Device(d))
            ==> operation == ParseOperation::PreviewMedia && media_backend != MediaPreviewBackend::Software && d < devices,
{
    lemma_confinement_shape(operation, media_backend, devices, sandbox_input(extension), extension, value);
}


proof fn lemma_device_bound(n: nat, d: nat)
    requires
        d < n,
    ensures
        device_binds(n).len() == 3 * n,
        device_binds(n)[3 * d + 1 as int] == ArgView::Device(d),
    decreases n,
{
    lemma_device_binds_shape(n);
    lemma_device_binds_shape((n - 1) as nat);
    if d < n - 1 {
        lemma_device_bound((n - 1) as nat, d);
    }
}

/// A hardware-decoded media preview is given every listed device.
pub proof fn lemma_hardware_media_gets_every_device(
    value: i32,
    media_backend: MediaPreviewBackend,
    devices: nat,
    extension: Option<Seq<char>>,
    d: nat,
)
    requires
        media_backend != MediaPreviewBackend::Software,
        d < devices,
    ensures
        passes(sandbox_args(ParseOperation::PreviewMedia, value, media_backend, devices, extension), ArgView::Device(d)),
{
    let operation = ParseOperation::PreviewMedia;
    let args = sandbox_args(operation, value, media_backend, devices, extension);
    let inp = sandbox_input(extension);
    let p0 = words_of(isolation_words()) + seq![word(decimal(TEMPORARY_STORAGE_LIMIT_BYTES as nat))]
        + words_of(mount_words());
    let p1 = seq![word("--ro-bind"@), ArgView::Executable, word("/app/strata"@)];
    let p2 = seq![word("--ro-bind"@), ArgView::Input, word(inp)];
    let p4 = device_binds(devices) + seq![word("--ro-bind"@), word("/sys"@), word("/sys"@)];
    let rest = seq![word("--"@)] + resource_limits(operation) + renderer_call(operation, value, media_backend, inp);
    assert(args =~= p0 + p1 + p2 + p4 + rest);
    lemma_device_bound(devices, d);
    let k: int = (p0.len() + p1.len() + p2.len() + 3 * d + 1) as int;
    assert(args[k] == ArgView::Device(d));
}


/// Every operation that runs the application's own preview helper (all but
/// the video thumbnail) has the executable bound read-only at
/// `/app/strata`, right after the fixed isolation and mount options (which
/// end with the ImageMagick 6 configuration), and calls `/app/strata` as its
/// renderer; the video thumbnail goes straight on to the input bind.
pub proof fn lemma_helper_runs_from_bound_executable(
    operation: ParseOperation,
    value: i32,
    media_backend: MediaPreviewBackend,
    devices: nat,
    extension: Option<Seq<char>>,
)
    ensures
        ({
            let args = sandbox_args(operation, value, media_backend, devices, extension);
            &&& args.len() > 48
            &&& args[0] == ArgView::Text("--unshare-all"@)
            &&& args[44] == ArgView::Text("/etc/ImageMagick-6"@)
            &&& args[45] == ArgView::Text("/etc/ImageMagick-6"@)
            &&& operation != ParseOperation::ThumbnailVideo ==> {
                &&& args[46] == ArgView::Text("--ro-bind"@)
                &&& args[47] == ArgView::Executable
                &&& args[48] == ArgView::Text("/app/strata"@)
                &&& passes(args, ArgView::Executable)
                &&& args[args.len() - 7] == ArgView::Text("/app/strata"@)
            }
            &&& operation == ParseOperation::ThumbnailVideo ==> {
                &&& args[46] == ArgView::Text("--ro-bind"@)
                &&& args[47] == ArgView::Input
                &&& !passes(args, ArgView::Executable)
            }
        }),
{
    let args = sandbox_args(operation, value, media_backend, devices, extension);
    let media = operation == ParseOperation::PreviewMedia;
    let inp = sandbox_input(extension);
    let p0 = words_of(isolation_words()) + seq![word(decimal(TEMPORARY_STORAGE_LIMIT_BYTES as nat))]
        + words_of(mount_words());
    let p1 = if operation != ParseOperation::ThumbnailVideo {
        seq![word("--ro-bind"@), ArgView::Executable, word("/app/strata"@)]
    } else {
        seq![]
    };
    let p2 = seq![word("--ro-bind"@), ArgView::Input, word(inp)];
    let p3 = if !media { seq![word("--bind"@), ArgView::Output, word("/output"@)] } else { seq![] };
    let p4 = if media && media_backend != MediaPreviewBackend::Software {
        device_binds(devices) + seq![word("--ro-bind"@), word("/sys"@), word("/sys"@)]
    } else {
        seq![]
    };
    let p5 = if !media { seq![word("--setenv"@), word("MALLOC_ARENA_MAX"@), word("1"@)] } else { seq![] };
    let p6 = seq![word("--"@)];
    let p7 = resource_limits(operation);
    let p8 = renderer_call(operation, value, media_backend, inp);
    assert(args =~= p0 + (p1 + p2 + p3 + p4 + p5 + p6 + p7 + p8));
    assert(p0.len() == 46);
    assert(p0[0] == word("--unshare-all"@));
    assert(p0[44] == word("/etc/ImageMagick-6"@));
    assert(p0[45] == word("/etc/ImageMagick-6"@));
    let rest = p1 + p2 + p3 + p4 + p5 + p6 + p7 + p8;
    assert(args[0] == p0[0]);
    assert(args[44] == p0[44]);
    assert(args[45] == p0[45]);
    assert(args[46] == rest[0]);
    assert(args[47] == rest[1]);
    assert(args[48] == rest[2]);
    lemma_sandbox_passes_only_what_is_needed(operation, value, media_backend, devices, extension);
    if operation != ParseOperation::ThumbnailVideo {
        assert(p8.len() == 7);
        assert(args =~= (p0 + p1 + p2 + p3 + p4 + p5 + p6 + p7) + p8);
        assert(args[args.len() - 7] == p8[0]);
        assert(args[47] == ArgView::Executable);
    }
}


/// The limits that confine a renderer, in the words bubblewrap and
/// `prlimit` receive: 512 MiB of temporary storage for every renderer, and
/// for every renderer but the media preview a 2 GiB address space, ten
/// seconds of CPU, and files of at most 32 MiB for a video thumbnail or
/// 512 MiB otherwise.
pub proof fn lemma_limit_words(operation: ParseOperation)
    ensures
        decimal(TEMPORARY_STORAGE_LIMIT_BYTES as nat) == "536870912"@,
        operation == ParseOperation::PreviewMedia ==> resource_limits(operation) == Seq::<ArgView>::empty(),
        operation == ParseOperation::ThumbnailVideo ==> resource_limits(operation) == seq![
            word("/usr/bin/prlimit"@), word("--as=2147483648"@), word("--cpu=10"@),
            word("--fsize=33554432"@), word("--"@),
        ],
        operation != ParseOperation::PreviewMedia && operation != ParseOperation::ThumbnailVideo
            ==> resource_limits(operation) == seq![
            word("/usr/bin/prlimit"@), word("--as=2147483648"@), word("--cpu=10"@),
            word("--fsize=536870912"@), word("--"@),
        ],
{
    reveal_with_fuel(decimal, 11);
    reveal_strlit("536870912");
    reveal_strlit("2147483648");
    reveal_strlit("33554432");
    reveal_strlit("--as=");
    reveal_strlit("--as=2147483648");
    reveal_strlit("--fsize=");
    reveal_strlit("--fsize=33554432");
    reveal_strlit("--fsize=536870912");
    crate::text::lemma_digit_chars();
    assert(decimal(536870912) =~= "536870912"@);
    assert(decimal(2147483648) =~= "2147483648"@);
    assert(decimal(33554432) =~= "33554432"@);
    assert("--as="@ + decimal(2147483648) =~= "--as=2147483648"@);
    assert("--fsize="@ + decimal(33554432) =~= "--fsize=33554432"@);
    assert("--fsize="@ + decimal(536870912) =~= "--fsize=536870912"@);
}

} // verus!
