//! Which GPU device nodes a hardware media preview may use, and whether the
//! machine has an AMD Polaris GPU.

use vstd::prelude::*;
use vstd::multiset::Multiset;
use crate::operation::MediaPreviewBackend;
use crate::order::{names_sorted, sort_names};
use crate::text::{
    all_hex_digits, chars_of, hex_digit_value, hex_value, is_hex_digit, is_numbered_name, is_white_space,
    numbered_name, parse_hex_u16, parsed_hex_u16, str_equal, trim, trim_end, trim_start, trimmed,
};

verus! {

/// A DRM render node, such as `renderD128`.
pub open spec fn is_render_node(name: Seq<char>) -> bool {
    is_numbered_name(name, "renderD"@)
}

/// An NVIDIA device node: `nvidiactl` or `nvidia` followed by digits.
pub open spec fn is_nvidia_node(name: Seq<char>) -> bool {
    name == "nvidiactl"@ || is_numbered_name(name, "nvidia"@)
}

/// Whether a name is kept: NVIDIA nodes among the entries of the device
/// directory, render nodes among those of its `dri` subdirectory.
pub open spec fn device_kept(nvidia: bool, name: Seq<char>) -> bool {
    if nvidia { is_nvidia_node(name) } else { is_render_node(name) }
}

/// The same choice, as a predicate on names.
pub open spec fn kept_by(nvidia: bool) -> spec_fn(String) -> bool {
    |name: String| device_kept(nvidia, name@)
}

/// The render nodes a back end uses: none for software decoding.
pub open spec fn render_nodes_for(backend: MediaPreviewBackend, dri: Seq<String>) -> Seq<String> {
    if backend == MediaPreviewBackend::Software { seq![] } else { dri.filter(kept_by(false)) }
}

/// The NVIDIA nodes a back end uses: none for software decoding or VA-API.
pub open spec fn nvidia_nodes_for(backend: MediaPreviewBackend, dev: Seq<String>) -> Seq<String> {
    if backend == MediaPreviewBackend::Software || backend == MediaPreviewBackend::VaApi {
        seq![]
    } else {
        dev.filter(kept_by(true))
    }
}

/// The directory a device node lives in.
#[derive(Clone, Copy, Debug, PartialEq, Eq, Structural)]
pub enum DeviceDir {
    /// The `dri` subdirectory of the device directory.
    Dri,
    /// The device directory itself.
    Dev,
}

/// A device node: its directory and its file name.
pub struct GpuDevice {
    pub dir: DeviceDir,
    pub name: String,
}

/// The file names of a list of devices.
pub open spec fn device_names(devices: Seq<GpuDevice>) -> Seq<String> {
    devices.map_values(|d: GpuDevice| d.name)
}

/// `devices` lists the render nodes `dri`, sorted, then the nodes `dev`,
/// sorted: the order of their full paths, since `dri` sorts before every
/// NVIDIA node name.
pub open spec fn arranged(devices: Seq<GpuDevice>, dri: Seq<String>, dev: Seq<String>) -> bool {
    let k = dri.len() as int;
    &&& devices.len() == dri.len() + dev.len()
    &&& forall|i: int| 0 <= i < k ==> (#[trigger] devices[i]).dir == DeviceDir::Dri
    &&& forall|i: int| k <= i < devices.len() ==> (#[trigger] devices[i]).dir == DeviceDir::Dev
    &&& names_sorted(device_names(devices.take(k)))
    &&& device_names(devices.take(k)).to_multiset() == dri.to_multiset()
    &&& names_sorted(device_names(devices.skip(k)))
    &&& device_names(devices.skip(k)).to_multiset() == dev.to_multiset()
}

/// Whether `name` is kept (see `device_kept`).
fn device_matches(nvidia: bool, name: &str) -> (kept: bool)
    ensures
        kept == device_kept(nvidia, name@),
{
    if nvidia {
        str_equal(name, "nvidiactl") || numbered_name(name, "nvidia")
    } else {
        numbered_name(name, "renderD")
    }
}

/// The names that are kept, in their original order.
fn keep_devices(names: &Vec<String>, nvidia: bool) -> (kept: Vec<String>)
    ensures
        kept@ == names@.filter(kept_by(nvidia)),
{
    let mut kept: Vec<String> = Vec::new();
    let mut i: usize = 0;
    while i < names.len()
        invariant
            i <= names@.len(),
            kept@ == names@.take(i as int).filter(kept_by(nvidia)),
        decreases names.len() - i,
    {
        let ghost before = names@.take(i as int);
        proof {
            reveal(Seq::filter);
        }
        assert(names@.take(i + 1).drop_last() =~= before);
        assert(names@.take(i + 1).last() == names@[i as int]);
        if device_matches(nvidia, names[i].as_str()) {
            kept.push(names[i].clone());
        }
        i = i + 1;
        assert(kept@ =~= names@.take(i as int).filter(kept_by(nvidia)));
    }
    assert(names@.take(names@.len() as int) =~= names@);
    kept
}

/// Appends `names`, in order, as devices of `dir`.
fn append_devices(devices: &mut Vec<GpuDevice>, dir: DeviceDir, names: &Vec<String>)
    ensures
        final(devices)@.len() == old(devices)@.len() + names@.len(),
        final(devices)@.take(old(devices)@.len() as int) == old(devices)@,
        forall|i: int| old(devices)@.len() <= i < final(devices)@.len() ==> (#[trigger] final(devices)@[i]).dir == dir
            && final(devices)@[i].name == names@[i - old(devices)@.len()],
{
    let ghost start = old(devices)@;
    let mut i: usize = 0;
    while i < names.len()
        invariant
            i <= names@.len(),
            devices@.len() == start.len() + i,
            devices@.take(start.len() as int) == start,
            forall|j: int| start.len() <= j < devices@.len() ==> (#[trigger] devices@[j]).dir == dir
                && devices@[j].name == names@[j - start.len()],
        decreases names.len() - i,
    {
        devices.push(GpuDevice { dir, name: names[i].clone() });
        i = i + 1;
        assert(devices@.take(start.len() as int) =~= start);
    }
}

/// The device nodes a hardware media preview may open, given the file names
/// in the device directory's `dri` subdirectory and in the device directory
/// itself: render nodes unless decoding in software, NVIDIA nodes too unless
/// decoding with VA-API, in the order of their paths.
pub fn gpu_devices(media_backend: MediaPreviewBackend, dri_names: &Vec<String>, dev_names: &Vec<String>) -> (devices: Vec<GpuDevice>)
    ensures
        arranged(
            devices@,
            render_nodes_for(media_backend, dri_names@),
            nvidia_nodes_for(media_backend, dev_names@),
        ),
{
    let mut devices: Vec<GpuDevice> = Vec::new();
    if media_backend == MediaPreviewBackend::Software {
        proof {
            assert(devices@.take(0) =~= devices@);
            assert(devices@.skip(0) =~= devices@);
            assert(device_names(devices@) =~= Seq::<String>::empty());
            Seq::<String>::empty().to_multiset_ensures();
            assert(Seq::<String>::empty().to_multiset() =~= Multiset::<String>::empty());
        }
        return devices;
    }
    let kept_renders = keep_devices(dri_names, false);
    let ghost kept_render_names = kept_renders@;
    let renders = sort_names(kept_renders);
    let nvidias = if media_backend != MediaPreviewBackend::VaApi {
        let kept = keep_devices(dev_names, true);
        let ghost kept_names = kept@;
        let sorted = sort_names(kept);
        proof {
            sorted@.to_multiset_ensures();
            kept_names.to_multiset_ensures();
        }
        sorted
    } else {
        Vec::new()
    };
    proof {
        renders@.to_multiset_ensures();
        kept_render_names.to_multiset_ensures();
        if media_backend == MediaPreviewBackend::VaApi {
            nvidias@.to_multiset_ensures();
            assert(nvidias@.to_multiset() =~= nvidia_nodes_for(media_backend, dev_names@).to_multiset());
            assert(names_sorted(nvidias@));
        }
    }
    append_devices(&mut devices, DeviceDir::Dri, &renders);
    let ghost first = devices@;
    append_devices(&mut devices, DeviceDir::Dev, &nvidias);
    proof {
        let k = renders@.len() as int;
        assert(devices@.take(k) =~= first);
        assert(device_names(first) =~= renders@);
        assert(device_names(devices@.skip(k)) =~= nvidias@);
        assert(nvidias@.len() == nvidia_nodes_for(media_backend, dev_names@).len());
        assert(renders@.len() == render_nodes_for(media_backend, dri_names@).len());
        assert forall|i: int| 0 <= i < k implies (#[trigger] devices@[i]).dir == DeviceDir::Dri by {
            assert(devices@.take(k)[i] == devices@[i]);
            assert(first[i].dir == DeviceDir::Dri);
        }
    }
    devices
}

/// Whether a PCI vendor and device pair is an AMD Polaris GPU.
pub open spec fn is_polaris(vendor: u16, device: u16) -> bool {
    vendor == 0x1002 && ((0x67c0 <= device <= 0x67df) || (0x67e0 <= device <= 0x67ff)
        || (0x6980 <= device <= 0x699f))
}

/// The PCI identifier that a sysfs `vendor` or `device` file holds: the
/// trimmed text, without a leading `0x`, read as a hexadecimal `u16`.
pub open spec fn pci_id_of(text: Seq<char>) -> Option<u16> {
    let t = trim(text);
    let body = if t.len() >= 2 && t[0] == '0' && t[1] == 'x' { t.skip(2) } else { t };
    parsed_hex_u16(body)
}

/// Reads a PCI identifier from the text of a sysfs `vendor` or `device` file.
pub fn pci_id(text: &str) -> (id: Option<u16>)
    ensures
        id == pci_id_of(text@),
{
    let chars = chars_of(text);
    let t = trimmed(&chars);
    if t.len() >= 2 && t[0] == '0' && t[1] == 'x' {
        let mut body: Vec<char> = Vec::new();
        let mut i: usize = 2;
        while i < t.len()
            invariant
                2 <= i <= t@.len(),
                body@ == t@.subrange(2, i as int),
            decreases t.len() - i,
        {
            body.push(t[i]);
            i = i + 1;
            assert(body@ =~= t@.subrange(2, i as int));
        }
        assert(body@ =~= t@.skip(2));
        parse_hex_u16(&body)
    } else {
        parse_hex_u16(&t)
    }
}

/// Whether a render node is an AMD Polaris GPU, given the texts of its sysfs
/// `vendor` and `device` files (`None` where a file could not be read).
pub fn polaris_render_node(vendor: Option<&str>, device: Option<&str>) -> (polaris: bool)
    ensures
        polaris == match (vendor, device) {
            (Some(v), Some(d)) => match (pci_id_of(v@), pci_id_of(d@)) {
                (Some(vendor_id), Some(device_id)) => is_polaris(vendor_id, device_id),
                _ => false,
            },
            _ => false,
        },
{
    let Some(vendor) = vendor else {
        return false;
    };
    let Some(vendor) = pci_id(vendor) else {
        return false;
    };
    let Some(device) = device else {
        return false;
    };
    let Some(device) = pci_id(device) else {
        return false;
    };
    vendor == 0x1002 && ((0x67c0 <= device && device <= 0x67df) || (0x67e0 <= device && device <= 0x67ff)
        || (0x6980 <= device && device <= 0x699f))
}

/// An entry of the `dri` device directory with the texts of its sysfs PCI
/// identifier files (`None` where a file could not be read).
pub struct DriEntry {
    pub name: String,
    pub vendor: Option<String>,
    pub device: Option<String>,
}

/// Whether the entry is a Polaris render node.
pub open spec fn is_polaris_entry(entry: DriEntry) -> bool {
    &&& is_render_node(entry.name@)
    &&& entry.vendor matches Some(v)
    &&& entry.device matches Some(d)
    &&& pci_id_of(v@) matches Some(vendor_id)
    &&& pci_id_of(d@) matches Some(device_id)
    &&& is_polaris(vendor_id, device_id)
}

/// Whether one of the render nodes is an AMD Polaris GPU.
pub fn polaris_gpu_available(entries: &Vec<DriEntry>) -> (available: bool)
    ensures
        available == exists|i: int| 0 <= i < entries@.len() && is_polaris_entry(#[trigger] entries@[i]),
{
    let mut i: usize = 0;
    while i < entries.len()
        invariant
            i <= entries@.len(),
            forall|j: int| 0 <= j < i ==> !is_polaris_entry(#[trigger] entries@[j]),
        decreases entries.len() - i,
    {
        let entry = &entries[i];
        let vendor = match &entry.vendor {
            Some(v) => Some(v.as_str()),
            None => None,
        };
        let device = match &entry.device {
            Some(d) => Some(d.as_str()),
            None => None,
        };
        if numbered_name(entry.name.as_str(), "renderD") && polaris_render_node(vendor, device) {
            return true;
        }
        i = i + 1;
    }
    false
}


/// The lower-case hexadecimal digit of `d` (below sixteen).
pub open spec fn hex_digit_char(d: int) -> char {
    if d < 10 { ((d + 48) as u32) as char } else { ((d + 87) as u32) as char }
}

/// The four lower-case hexadecimal digits of a PCI identifier, as sysfs
/// writes them after `0x`.
pub open spec fn hex4(x: u16) -> Seq<char> {
    seq![
        hex_digit_char(x as int / 4096),
        hex_digit_char((x as int / 256) % 16),
        hex_digit_char((x as int / 16) % 16),
        hex_digit_char(x as int % 16),
    ]
}

proof fn lemma_hex_digit_char(d: int)
    requires
        0 <= d < 16,
    ensures
        is_hex_digit(hex_digit_char(d)),
        hex_digit_value(hex_digit_char(d)) == d,
        !is_white_space(hex_digit_char(d)),
        hex_digit_char(d) != '+',
{
    let c = hex_digit_char(d);
    if d < 10 {
        assert(c as int == d + 48);
    } else {
        assert(c as int == d + 87);
    }
}

/// A PCI identifier written as sysfs writes it, `0x` and four hexadecimal
/// digits, possibly followed by a newline, is read back as itself.
pub proof fn lemma_pci_id_round_trip(x: u16)
    ensures
        pci_id_of("0x"@ + hex4(x)) == Some(x),
        pci_id_of("0x"@ + hex4(x) + seq!['\n']) == Some(x),
{
    reveal_strlit("0x");
    let h = hex4(x);
    let a = x as int / 4096;
    let b = (x as int / 256) % 16;
    let c = (x as int / 16) % 16;
    let d = x as int % 16;
    lemma_hex_digit_char(a);
    lemma_hex_digit_char(b);
    lemma_hex_digit_char(c);
    lemma_hex_digit_char(d);
    let t = "0x"@ + h;
    assert(t[0] == '0' && t[1] == 'x');
    assert(!is_white_space('0'));
    assert(trim_start(t) == t);
    assert(t.last() == h[3]);
    assert(trim_end(t) == t);
    assert(trim(t) == t);
    assert(t.skip(2) =~= h);
    assert(all_hex_digits(h));
    assert(h[0] != '+');
    reveal_with_fuel(hex_value, 5);
    assert(h.drop_last() =~= seq![h[0], h[1], h[2]]);
    assert(h.drop_last().drop_last() =~= seq![h[0], h[1]]);
    assert(h.drop_last().drop_last().drop_last() =~= seq![h[0]]);
    assert(h.drop_last().drop_last().drop_last().drop_last() =~= Seq::<char>::empty());
    assert(hex_value(h) == ((a * 16 + b) * 16 + c) * 16 + d);
    assert(((a * 16 + b) * 16 + c) * 16 + d == x);
    let tn = t + seq!['\n'];
    assert(tn[0] == '0');
    assert(trim_start(tn) == tn);
    assert(is_white_space(tn.last()));
    assert(tn.drop_last() =~= t);
    assert(trim_end(tn) == trim_end(t));
    assert(trim(tn) == t);
}

/// A render node is a Polaris GPU exactly when its vendor is AMD (0x1002)
/// and its device identifier lies in 0x67c0..=0x67ff or 0x6980..=0x699f.
pub proof fn lemma_polaris_ids(vendor: u16, device: u16)
    ensures
        is_polaris(vendor, device) <==> vendor == 0x1002 && ((0x67c0 <= device && device <= 0x67ff)
            || (0x6980 <= device && device <= 0x699f)),
{
}

/// Read from the texts of its sysfs files, a render node with vendor
/// `0x1002` is detected as Polaris exactly for the device identifiers
/// 0x67c0..=0x67ff and 0x6980..=0x699f; with any other vendor it never is.
pub proof fn lemma_polaris_from_sysfs_text(vendor: u16, device: u16)
    ensures
        ({
            let detected = match (pci_id_of("0x"@ + hex4(vendor) + seq!['\n']), pci_id_of("0x"@ + hex4(device) + seq!['\n'])) {
                (Some(vendor_id), Some(device_id)) => is_polaris(vendor_id, device_id),
                _ => false,
            };
            detected <==> vendor == 0x1002 && ((0x67c0 <= device && device <= 0x67ff)
                || (0x6980 <= device && device <= 0x699f))
        }),
        pci_id_of("0x1002\n"@) == Some(0x1002u16),
{
    lemma_pci_id_round_trip(vendor);
    lemma_pci_id_round_trip(device);
    lemma_pci_id_round_trip(0x1002);
    reveal_strlit("0x1002\n");
    reveal_strlit("0x");
    assert(hex4(0x1002) =~= seq!['1', '0', '0', '2']) by {
        lemma_hex_digit_char(1);
        lemma_hex_digit_char(0);
        lemma_hex_digit_char(2);
        assert(hex_digit_char(1) == '1');
        assert(hex_digit_char(0) == '0');
        assert(hex_digit_char(2) == '2');
    }
    assert("0x1002\n"@ =~= "0x"@ + hex4(0x1002) + seq!['\n']);
}

} // verus!
