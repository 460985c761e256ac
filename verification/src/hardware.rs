//! Server hardware: reading what the system reports of its devices, and
//! the driver packages that suit them.
use vstd::prelude::*;
use crate::text::{
    append_str, chars_of, char_views, concat2, count_matches, count_matches_from, decimal,
    decimal_text, find_seq, first_occurrence, has_prefix, has_sub, lines, lines_of, owned,
    second_piece, second_piece_exec, slice_chars, split_ws, str_contains, str_starts_with,
    string_from_chars, texts, to_lowercase, trim, trimmed, unicode_lowercase, words, has_word, str_has_word,
    occurs_at_exec, split_char, split_on_char,
};

verus! {

/// The processor.
#[derive(Debug, Clone)]
pub struct CpuInfo {
    pub vendor: String,
    pub model: String,
    pub architecture: String,
    pub cores: u32,
}

/// A network controller.
#[derive(Debug, Clone)]
pub struct NetworkDevice {
    pub vendor: String,
    pub model: String,
    pub driver: Option<String>,
    pub driver_needed: Option<String>,
}

/// A storage controller.
#[derive(Debug, Clone)]
pub struct StorageDevice {
    pub vendor: String,
    pub model: String,
    pub driver: Option<String>,
    pub driver_needed: Option<String>,
}

/// A graphics controller.
#[derive(Debug, Clone)]
pub struct GpuDevice {
    pub vendor: String,
    pub model: String,
    pub driver: Option<String>,
    pub driver_needed: Option<String>,
}

/// The machine itself.
#[derive(Debug, Clone)]
pub struct SystemInfo {
    pub vendor: String,
    pub model: String,
    pub bios_version: String,
}

/// All that was found of the hardware.
#[derive(Debug, Clone)]
pub struct HardwareInfo {
    pub cpu: CpuInfo,
    pub network: Vec<NetworkDevice>,
    pub storage: Vec<StorageDevice>,
    pub gpu: Vec<GpuDevice>,
    pub system: SystemInfo,
}

/// Reads the hardware and suggests drivers for it.
pub struct HardwareDetector;

/// The optional text of an optional string.
pub open spec fn opt_view(o: Option<String>) -> Option<Seq<char>> {
    match o {
        Some(s) => Some(s@),
        None => None,
    }
}

/// A PCI device line of `lspci -nn` split into vendor and model: before and
/// after the word `Corporation` where it occurs (the word going with the
/// vendor), else at the first space; with neither, the whole text is the
/// vendor and the model is `unknown`.
pub open spec fn split_vendor_model(vm: Seq<char>) -> (Seq<char>, Seq<char>) {
    match first_occurrence(vm, "Corporation"@) {
        Some(p) => (trim(vm.take(p + "Corporation"@.len())), trim(vm.skip(p + "Corporation"@.len()))),
        None => match first_occurrence(vm, seq![' ']) {
            Some(p) => (trim(vm.take(p)), trim(vm.skip(p))),
            None => (vm, "unknown"@),
        },
    }
}

/// What a line of `lspci -nn` tells: the bus address (its first word), and
/// the vendor and model written after the first `]:`, trimmed. `None` where
/// the line has no word or no `]:`.
pub open spec fn pci_line_of(line: Seq<char>) -> Option<(Seq<char>, Seq<char>, Seq<char>)> {
    if words(line).len() == 0 {
        None
    } else {
        match second_piece(line, "]:"@) {
            None => None,
            Some(vm) => {
                let parts = split_vendor_model(trim(vm));
                Some((words(line)[0], parts.0, parts.1))
            },
        }
    }
}

/// Splits a vendor-and-model text.
fn split_vendor_model_exec(vm: &Vec<char>) -> (r: (Vec<char>, Vec<char>))
    ensures
        (r.0@, r.1@) == split_vendor_model(vm@),
{
    let corp = chars_of("Corporation");
    let found = find_seq(vm, &corp);
    match found {
        Some(p) => {
            let cl = corp.len();
            let vl = vm.len();
            assert(p + cl <= vl);
            let cut = p + cl;
            let a = slice_chars(vm, 0, cut);
            let b = slice_chars(vm, cut, vm.len());
            assert(a@ =~= vm@.take(cut as int));
            assert(b@ =~= vm@.skip(cut as int));
            (trimmed(&a), trimmed(&b))
        },
        None => {
            let sp = vec![' '];
            assert(sp@ =~= seq![' ']);
            match find_seq(vm, &sp) {
                Some(p) => {
                    let a = slice_chars(vm, 0, p);
                    let b = slice_chars(vm, p, vm.len());
                    assert(a@ =~= vm@.take(p as int));
                    assert(b@ =~= vm@.skip(p as int));
                    (trimmed(&a), trimmed(&b))
                },
                None => {
                    let a = slice_chars(vm, 0, vm.len());
                    assert(a@ =~= vm@);
                    (a, chars_of("unknown"))
                },
            }
        },
    }
}

/// Reads a line of `lspci -nn`: bus address, vendor and model.
pub fn pci_line(line: &str) -> (r: Option<(String, String, String)>)
    ensures
        match r {
            Some(t) => pci_line_of(line@) == Some((t.0@, t.1@, t.2@)),
            None => pci_line_of(line@) is None,
        },
{
    let v = chars_of(line);
    let ws = split_ws(&v);
    if ws.len() == 0 {
        return None;
    }
    let sep = chars_of("]:");
    match second_piece_exec(&v, &sep) {
        None => None,
        Some(piece) => {
            let vm = trimmed(&piece);
            let (a, b) = split_vendor_model_exec(&vm);
            assert(ws@[0]@ == char_views(ws@)[0]);
            Some((string_from_chars(&ws[0]), string_from_chars(&a), string_from_chars(&b)))
        },
    }
}

/// The path whose link names the driver bound to a PCI device: the domain
/// `0000:` is added to a bus address that lacks it.
pub open spec fn pci_driver_path_of(bus: Seq<char>) -> Seq<char> {
    "/sys/bus/pci/devices/"@ + (if has_prefix(bus, "0000:"@) { bus } else { "0000:"@ + bus }) + "/driver"@
}

/// The path whose link names the driver bound to the device at `bus`.
pub fn pci_driver_path(bus: &str) -> (r: String)
    ensures
        r@ == pci_driver_path_of(bus@),
{
    let addr = if str_starts_with(bus, "0000:") { owned(bus) } else { concat2("0000:", bus) };
    let mut r = owned("/sys/bus/pci/devices/");
    append_str(&mut r, addr.as_str());
    append_str(&mut r, "/driver");
    r
}

/// The network driver package suggested for a vendor, by the (lowercased)
/// vendor name.
pub open spec fn network_driver_of(vendor: Seq<char>) -> Option<Seq<char>> {
    let v = unicode_lowercase(vendor);
    if has_sub(v, "intel"@) {
        Some("intel-ethernet"@)
    } else if has_sub(v, "broadcom"@) {
        Some("broadcom-sta"@)
    } else if has_sub(v, "realtek"@) {
        Some("r8168"@)
    } else if has_sub(v, "mellanox"@) {
        Some("mlx5-core"@)
    } else {
        None
    }
}

/// The storage driver package suggested for a vendor.
pub open spec fn storage_driver_of(vendor: Seq<char>) -> Option<Seq<char>> {
    let v = unicode_lowercase(vendor);
    if has_sub(v, "intel"@) {
        Some("intel-storage"@)
    } else if has_sub(v, "lsi"@) || has_sub(v, "broadcom"@) {
        Some("megaraid"@)
    } else if has_sub(v, "samsung"@) {
        Some("nvme"@)
    } else if has_sub(v, "adaptec"@) {
        Some("aacraid"@)
    } else {
        None
    }
}

/// The graphics driver package suggested for a vendor. Vendor names are
/// matched as whole words, so that "ati" inside "Corporation" names no vendor.
pub open spec fn gpu_driver_of(vendor: Seq<char>) -> Option<Seq<char>> {
    let v = unicode_lowercase(vendor);
    if has_word(v, "nvidia"@) {
        Some("nvidia-driver"@)
    } else if has_word(v, "amd"@) || has_word(v, "ati"@) {
        Some("amdgpu"@)
    } else {
        None
    }
}

/// The network driver package suggested for a vendor.
pub fn suggest_network_driver(vendor: &str) -> (r: Option<String>)
    ensures
        opt_view(r) == network_driver_of(vendor@),
{
    let l = to_lowercase(vendor);
    let v = l.as_str();
    if str_contains(v, "intel") {
        Some(owned("intel-ethernet"))
    } else if str_contains(v, "broadcom") {
        Some(owned("broadcom-sta"))
    } else if str_contains(v, "realtek") {
        Some(owned("r8168"))
    } else if str_contains(v, "mellanox") {
        Some(owned("mlx5-core"))
    } else {
        None
    }
}

/// The storage driver package suggested for a vendor.
pub fn suggest_storage_driver(vendor: &str) -> (r: Option<String>)
    ensures
        opt_view(r) == storage_driver_of(vendor@),
{
    let l = to_lowercase(vendor);
    let v = l.as_str();
    if str_contains(v, "intel") {
        Some(owned("intel-storage"))
    } else if str_contains(v, "lsi") || str_contains(v, "broadcom") {
        Some(owned("megaraid"))
    } else if str_contains(v, "samsung") {
        Some(owned("nvme"))
    } else if str_contains(v, "adaptec") {
        Some(owned("aacraid"))
    } else {
        None
    }
}

/// The graphics driver package suggested for a vendor.
pub fn suggest_gpu_driver(vendor: &str) -> (r: Option<String>)
    ensures
        opt_view(r) == gpu_driver_of(vendor@),
{
    let l = to_lowercase(vendor);
    let v = l.as_str();
    if str_has_word(v, "nvidia") {
        Some(owned("nvidia-driver"))
    } else if str_has_word(v, "amd") || str_has_word(v, "ati") {
        Some(owned("amdgpu"))
    } else {
        None
    }
}

/// The lines of `lspci -nn` that describe network controllers.
pub open spec fn is_network_line(line: Seq<char>) -> bool {
    has_sub(line, "Network controller"@) || has_sub(line, "Ethernet controller"@)
}

/// The lines of `lspci -nn` that describe storage controllers.
pub open spec fn is_storage_line(line: Seq<char>) -> bool {
    has_sub(line, "RAID"@) || has_sub(line, "SATA"@) || has_sub(line, "NVMe"@)
}

/// The lines of `lspci -nn` that describe graphics controllers.
pub open spec fn is_gpu_line(line: Seq<char>) -> bool {
    has_sub(line, "VGA"@) || has_sub(line, "3D controller"@) || has_sub(line, "Display controller"@)
}

/// Whether a line of `lspci -nn` describes a network controller.
pub fn network_line(line: &str) -> (r: bool)
    ensures
        r == is_network_line(line@),
{
    str_contains(line, "Network controller") || str_contains(line, "Ethernet controller")
}

/// Whether a line of `lspci -nn` describes a storage controller.
pub fn storage_line(line: &str) -> (r: bool)
    ensures
        r == is_storage_line(line@),
{
    str_contains(line, "RAID") || str_contains(line, "SATA") || str_contains(line, "NVMe")
}

/// Whether a line of `lspci -nn` describes a graphics controller.
pub fn gpu_line(line: &str) -> (r: bool)
    ensures
        r == is_gpu_line(line@),
{
    str_contains(line, "VGA") || str_contains(line, "3D controller") || str_contains(line, "Display controller")
}

/// The driver packages that servers of a vendor get besides those of their
/// devices, then firmware and microcode for all.
pub open spec fn server_drivers_of(system_vendor: Seq<char>) -> Seq<Seq<char>> {
    let v = unicode_lowercase(system_vendor);
    (if has_sub(v, "dell"@) {
        seq!["dell-smbios"@, "dcdbas"@]
    } else if has_sub(v, "hp"@) || has_sub(v, "hewlett"@) {
        seq!["hpilo"@, "hp-wmi"@]
    } else if has_sub(v, "supermicro"@) {
        seq!["ipmi_si"@, "ipmi_devintf"@]
    } else {
        Seq::empty()
    }) + seq!["firmware-misc-nonfree"@, "linux-firmware"@, "microcode"@]
}

/// The drivers that some devices need, in order.
pub open spec fn needed_of(needs: Seq<Option<String>>) -> Seq<Seq<char>>
    decreases needs.len(),
{
    if needs.len() == 0 {
        Seq::empty()
    } else {
        needed_of(needs.drop_last()) + match needs.last() {
            Some(d) => seq![d@],
            None => Seq::empty(),
        }
    }
}

/// The needed drivers of network devices.
pub open spec fn network_needs(d: Seq<NetworkDevice>) -> Seq<Option<String>> {
    d.map_values(|x: NetworkDevice| x.driver_needed)
}

/// The needed drivers of storage devices.
pub open spec fn storage_needs(d: Seq<StorageDevice>) -> Seq<Option<String>> {
    d.map_values(|x: StorageDevice| x.driver_needed)
}

/// The needed drivers of graphics devices.
pub open spec fn gpu_needs(d: Seq<GpuDevice>) -> Seq<Option<String>> {
    d.map_values(|x: GpuDevice| x.driver_needed)
}

/// The driver packages recommended for the hardware: those its network,
/// storage and graphics devices need, in that order, then the server ones.
pub open spec fn recommended_of(h: HardwareInfo) -> Seq<Seq<char>> {
    needed_of(network_needs(h.network@)) + needed_of(storage_needs(h.storage@))
        + needed_of(gpu_needs(h.gpu@)) + server_drivers_of(h.system.vendor@)
}

/// Appends the needed drivers.
fn push_needed(out: &mut Vec<String>, needs: &Vec<Option<String>>)
    ensures
        texts(final(out)@) == texts(old(out)@) + needed_of(needs@),
{
    let ghost start = texts(out@);
    let mut i: usize = 0;
    while i < needs.len()
        invariant
            i <= needs@.len(),
            texts(out@) == start + needed_of(needs@.take(i as int)),
        decreases needs.len() - i,
    {
        let ghost before = texts(out@);
        assert(needs@.take(i + 1).drop_last() =~= needs@.take(i as int));
        match &needs[i] {
            Some(d) => {
                out.push(d.clone());
                assert(texts(out@) =~= before + seq![d@]);
            },
            None => {
                assert(texts(out@) =~= before + Seq::<Seq<char>>::empty());
            },
        }
        i = i + 1;
    }
    assert(needs@.take(needs@.len() as int) =~= needs@);
}

impl HardwareDetector {
    /// A detector.
    pub fn new() -> (r: Self) {
        HardwareDetector
    }

    /// The driver packages that servers of the system's vendor get.
    pub fn get_common_server_drivers(&self, system: &SystemInfo) -> (r: Vec<String>)
        ensures
            texts(r@) == server_drivers_of(system.vendor@),
    {
        let l = to_lowercase(system.vendor.as_str());
        let v = l.as_str();
        let mut r: Vec<String> = Vec::new();
        if str_contains(v, "dell") {
            r.push(owned("dell-smbios"));
            r.push(owned("dcdbas"));
        } else if str_contains(v, "hp") || str_contains(v, "hewlett") {
            r.push(owned("hpilo"));
            r.push(owned("hp-wmi"));
        } else if str_contains(v, "supermicro") {
            r.push(owned("ipmi_si"));
            r.push(owned("ipmi_devintf"));
        }
        r.push(owned("firmware-misc-nonfree"));
        r.push(owned("linux-firmware"));
        r.push(owned("microcode"));
        assert(texts(r@) =~= server_drivers_of(system.vendor@));
        r
    }

    /// The driver packages recommended for the hardware.
    pub fn get_recommended_drivers(&self, hardware: &HardwareInfo) -> (r: Vec<String>)
        ensures
            texts(r@) == recommended_of(*hardware),
    {
        let mut r: Vec<String> = Vec::new();
        let mut n: Vec<Option<String>> = Vec::new();
        let mut i: usize = 0;
        while i < hardware.network.len()
            invariant
                i <= hardware.network@.len(),
                n@ == network_needs(hardware.network@.take(i as int)),
            decreases hardware.network.len() - i,
        {
            n.push(hardware.network[i].driver_needed.clone());
            assert(n@ =~= network_needs(hardware.network@.take(i + 1)));
            i = i + 1;
        }
        assert(hardware.network@.take(i as int) =~= hardware.network@);
        assert(texts(r@) =~= Seq::<Seq<char>>::empty());
        push_needed(&mut r, &n);
        let mut s: Vec<Option<String>> = Vec::new();
        let mut j: usize = 0;
        while j < hardware.storage.len()
            invariant
                j <= hardware.storage@.len(),
                s@ == storage_needs(hardware.storage@.take(j as int)),
            decreases hardware.storage.len() - j,
        {
            s.push(hardware.storage[j].driver_needed.clone());
            assert(s@ =~= storage_needs(hardware.storage@.take(j + 1)));
            j = j + 1;
        }
        assert(hardware.storage@.take(j as int) =~= hardware.storage@);
        push_needed(&mut r, &s);
        let mut g: Vec<Option<String>> = Vec::new();
        let mut k: usize = 0;
        while k < hardware.gpu.len()
            invariant
                k <= hardware.gpu@.len(),
                g@ == gpu_needs(hardware.gpu@.take(k as int)),
            decreases hardware.gpu.len() - k,
        {
            g.push(hardware.gpu[k].driver_needed.clone());
            assert(g@ =~= gpu_needs(hardware.gpu@.take(k + 1)));
            k = k + 1;
        }
        assert(hardware.gpu@.take(k as int) =~= hardware.gpu@);
        push_needed(&mut r, &g);
        let server = self.get_common_server_drivers(&hardware.system);
        let ghost before = r@;
        let mut server = server;
        r.append(&mut server);
        assert(texts(r@) =~= texts(before) + server_drivers_of(hardware.system.vendor@));
        r
    }

    /// Reads a network controller from its line of `lspci -nn`, with the
    /// driver bound to it (if any).
    pub fn parse_network_device(&self, line: &str, driver: Option<String>) -> (r: Option<NetworkDevice>)
        ensures
            match r {
                Some(d) => pci_line_of(line@) matches Some(p) && d.vendor@ == p.1 && d.model@ == p.2
                    && d.driver == driver && opt_view(d.driver_needed) == network_driver_of(p.1),
                None => pci_line_of(line@) is None,
            },
    {
        match pci_line(line) {
            None => None,
            Some((_bus, vendor, model)) => {
                let needed = suggest_network_driver(vendor.as_str());
                Some(NetworkDevice { vendor, model, driver, driver_needed: needed })
            },
        }
    }

    /// Reads a storage controller from its line of `lspci -nn`.
    pub fn parse_storage_device(&self, line: &str, driver: Option<String>) -> (r: Option<StorageDevice>)
        ensures
            match r {
                Some(d) => pci_line_of(line@) matches Some(p) && d.vendor@ == p.1 && d.model@ == p.2
                    && d.driver == driver && opt_view(d.driver_needed) == storage_driver_of(p.1),
                None => pci_line_of(line@) is None,
            },
    {
        match pci_line(line) {
            None => None,
            Some((_bus, vendor, model)) => {
                let needed = suggest_storage_driver(vendor.as_str());
                Some(StorageDevice { vendor, model, driver, driver_needed: needed })
            },
        }
    }

    /// Reads a graphics controller from its line of `lspci -nn`.
    pub fn parse_gpu_device(&self, line: &str, driver: Option<String>) -> (r: Option<GpuDevice>)
        ensures
            match r {
                Some(d) => pci_line_of(line@) matches Some(p) && d.vendor@ == p.1 && d.model@ == p.2
                    && d.driver == driver && opt_view(d.driver_needed) == gpu_driver_of(p.1),
                None => pci_line_of(line@) is None,
            },
    {
        match pci_line(line) {
            None => None,
            Some((_bus, vendor, model)) => {
                let needed = suggest_gpu_driver(vendor.as_str());
                Some(GpuDevice { vendor, model, driver, driver_needed: needed })
            },
        }
    }
}

/// The value of a field of `/proc/cpuinfo` among its lines: on the first
/// line that starts with the field's name and has a colon, the trimmed text
/// after the first colon (up to any second one).
pub open spec fn cpu_field_from(ls: Seq<Seq<char>>, field: Seq<char>) -> Option<Seq<char>>
    decreases ls.len(),
{
    if ls.len() == 0 {
        None
    } else if has_prefix(ls[0], field) && split_char(ls[0], ':').len() > 1 {
        Some(trim(split_char(ls[0], ':')[1]))
    } else {
        cpu_field_from(ls.drop_first(), field)
    }
}

/// The value of a field of the text of `/proc/cpuinfo`.
pub open spec fn cpu_field_of(cpuinfo: Seq<char>, field: Seq<char>) -> Option<Seq<char>> {
    cpu_field_from(lines(cpuinfo), field)
}

/// The value of a field of the text of `/proc/cpuinfo`.
pub fn extract_cpu_field(cpuinfo: &str, field: &str) -> (r: Option<String>)
    ensures
        opt_view(r) == cpu_field_of(cpuinfo@, field@),
{
    let ls = lines_of(cpuinfo);
    let fv = chars_of(field);
    let ghost all = lines(cpuinfo@);
    let mut i: usize = 0;
    assert(all.skip(0) =~= all);
    while i < ls.len()
        invariant
            i <= ls@.len(),
            ls@.len() == all.len(),
            all == lines(cpuinfo@),
            fv@ == field@,
            forall|k: int| 0 <= k < ls@.len() ==> #[trigger] ls@[k]@ == all[k],
            cpu_field_from(all, field@) == cpu_field_from(all.skip(i as int), field@),
        decreases ls.len() - i,
    {
        let line = &ls[i];
        assert(all.skip(i as int)[0] == line@);
        assert(all.skip(i as int).drop_first() =~= all.skip(i + 1));
        if occurs_at_exec(line, &fv, 0) {
            let parts = split_on_char(line, ':');
            if parts.len() > 1 {
                let t = trimmed(&parts[1]);
                return Some(string_from_chars(&t));
            }
        }
        i = i + 1;
    }
    assert(all.skip(i as int) =~= Seq::<Seq<char>>::empty());
    None
}

/// What `/proc/cpuinfo` tells of the processor, with the machine's
/// architecture name: vendor and model (`unknown` where missing), and the
/// number of times the word `processor` occurs as the number of cores.
pub fn cpu_info(cpuinfo: &str, architecture: &str) -> (r: CpuInfo)
    ensures
        r.vendor@ == match cpu_field_of(cpuinfo@, "vendor_id"@) { Some(v) => v, None => "unknown"@ },
        r.model@ == match cpu_field_of(cpuinfo@, "model name"@) { Some(v) => v, None => "unknown"@ },
        r.architecture@ == architecture@,
        r.cores as int == count_matches_from(cpuinfo@, "processor"@, 0) % 0x1_0000_0000,
{
    let vendor = match extract_cpu_field(cpuinfo, "vendor_id") {
        Some(v) => v,
        None => owned("unknown"),
    };
    let model = match extract_cpu_field(cpuinfo, "model name") {
        Some(v) => v,
        None => owned("unknown"),
    };
    let cv = chars_of(cpuinfo);
    let pv = chars_of("processor");
    proof {
        reveal_strlit("processor");
    }
    let n = count_matches(&cv, &pv);
    let cores: u32 = ((n as u64) % 0x1_0000_0000u64) as u32;
    CpuInfo { vendor, model, architecture: owned(architecture), cores }
}

/// A DMI field as read from its file (`None` where it could not be read):
/// the trimmed text, or `unknown`.
pub fn dmi_value(content: Option<&str>) -> (r: String)
    ensures
        r@ == match content { Some(c) => trim(c@), None => "unknown"@ },
{
    match content {
        Some(c) => {
            let v = chars_of(c);
            string_from_chars(&trimmed(&v))
        },
        None => owned("unknown"),
    }
}

/// The hardware summary shown to the user: the system, the processor, then
/// the network and graphics devices where there are any.
pub open spec fn summary_of(h: HardwareInfo) -> Seq<char> {
    "🖥️  System: "@ + h.system.vendor@ + " "@ + h.system.model@ + "\n"@
    + "⚙️  CPU: "@ + h.cpu.vendor@ + " "@ + h.cpu.model@ + " ("@ + decimal(h.cpu.cores as nat) + " cores)\n"@
    + (if h.network@.len() > 0 {
        "🌐 Network Devices:\n"@ + device_lines(h.network@.map_values(|d: NetworkDevice| (d.vendor@, d.model@)))
    } else {
        Seq::empty()
    })
    + (if h.gpu@.len() > 0 {
        "🎮 GPU Devices:\n"@ + device_lines(h.gpu@.map_values(|d: GpuDevice| (d.vendor@, d.model@)))
    } else {
        Seq::empty()
    })
}

/// One bulleted line per device: vendor and model.
pub open spec fn device_lines(d: Seq<(Seq<char>, Seq<char>)>) -> Seq<char>
    decreases d.len(),
{
    if d.len() == 0 {
        Seq::empty()
    } else {
        device_lines(d.drop_last()) + "   • "@ + d.last().0 + " "@ + d.last().1 + "\n"@
    }
}

/// Appends one bulleted line per network device.
fn push_network_lines(out: &mut String, d: &Vec<NetworkDevice>)
    ensures
        final(out)@ == old(out)@ + device_lines(d@.map_values(|x: NetworkDevice| (x.vendor@, x.model@))),
{
    let ghost start = out@;
    let ghost dv = d@.map_values(|x: NetworkDevice| (x.vendor@, x.model@));
    let mut i: usize = 0;
    while i < d.len()
        invariant
            i <= d@.len(),
            dv == d@.map_values(|x: NetworkDevice| (x.vendor@, x.model@)),
            out@ == start + device_lines(dv.take(i as int)),
        decreases d.len() - i,
    {
        assert(dv.take(i + 1).drop_last() =~= dv.take(i as int));
        append_str(out, "   • ");
        append_str(out, d[i].vendor.as_str());
        append_str(out, " ");
        append_str(out, d[i].model.as_str());
        append_str(out, "\n");
        i = i + 1;
    }
    assert(dv.take(d@.len() as int) =~= dv);
}

/// Appends one bulleted line per graphics device.
fn push_gpu_lines(out: &mut String, d: &Vec<GpuDevice>)
    ensures
        final(out)@ == old(out)@ + device_lines(d@.map_values(|x: GpuDevice| (x.vendor@, x.model@))),
{
    let ghost start = out@;
    let ghost dv = d@.map_values(|x: GpuDevice| (x.vendor@, x.model@));
    let mut i: usize = 0;
    while i < d.len()
        invariant
            i <= d@.len(),
            dv == d@.map_values(|x: GpuDevice| (x.vendor@, x.model@)),
            out@ == start + device_lines(dv.take(i as int)),
        decreases d.len() - i,
    {
        assert(dv.take(i + 1).drop_last() =~= dv.take(i as int));
        append_str(out, "   • ");
        append_str(out, d[i].vendor.as_str());
        append_str(out, " ");
        append_str(out, d[i].model.as_str());
        append_str(out, "\n");
        i = i + 1;
    }
    assert(dv.take(d@.len() as int) =~= dv);
}

/// The hardware summary shown to the user.
pub fn hardware_summary(h: &HardwareInfo) -> (r: String)
    ensures
        r@ == summary_of(*h),
{
    let mut r = owned("🖥️  System: ");
    append_str(&mut r, h.system.vendor.as_str());
    append_str(&mut r, " ");
    append_str(&mut r, h.system.model.as_str());
    append_str(&mut r, "\n");
    append_str(&mut r, "⚙️  CPU: ");
    append_str(&mut r, h.cpu.vendor.as_str());
    append_str(&mut r, " ");
    append_str(&mut r, h.cpu.model.as_str());
    append_str(&mut r, " (");
    let c = decimal_text(h.cpu.cores as u64);
    append_str(&mut r, c.as_str());
    append_str(&mut r, " cores)\n");
    if h.network.len() > 0 {
        append_str(&mut r, "🌐 Network Devices:\n");
        push_network_lines(&mut r, &h.network);
    }
    if h.gpu.len() > 0 {
        append_str(&mut r, "🎮 GPU Devices:\n");
        push_gpu_lines(&mut r, &h.gpu);
    }
    assert(r@ =~= summary_of(*h));
    r
}

} // verus!
