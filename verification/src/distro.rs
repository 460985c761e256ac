//! Operating system and Linux distribution recognition, and the package
//! managers that go with each.
use vstd::prelude::*;
use crate::text::{
    chars_of, concat2, concat3, has_sub, list_contains, owned, str_contains, string_from_chars, text_eq,
    trim, trimmed,
};

verus! {

/// A Linux distribution family.
#[derive(Debug, Clone, Copy, PartialEq, Eq, Structural)]
pub enum LinuxDistro {
    Ubuntu,
    Debian,
    Fedora,
    CentOS,
    RHEL,
    Arch,
    OpenSUSE,
    Unknown,
}

/// An operating system.
#[derive(Debug, Clone, Copy, PartialEq, Eq, Structural)]
pub enum OperatingSystem {
    Linux(LinuxDistro),
    Windows,
    MacOS,
    Unknown,
}

/// What a package manager offers; implemented by the users of the library.
pub trait PackageManager {
    fn install(&self, package: &str) -> Result<(), String>;
    fn remove(&self, package: &str) -> Result<(), String>;
    fn update(&self, package: Option<&str>) -> Result<(), String>;
    fn search(&self, query: &str) -> Result<Vec<String>, String>;
    fn list_installed(&self) -> Result<Vec<String>, String>;
    fn get_info(&self, package: &str) -> Result<String, String>;
    fn needs_privilege(&self) -> bool;
    fn get_name(&self) -> &'static str;
    fn get_priority(&self) -> u8;
}

/// The distribution that the text of `/etc/os-release` names: the first
/// marker found, in a fixed order.
pub open spec fn distro_of(contents: Seq<char>) -> LinuxDistro {
    if has_sub(contents, "Ubuntu"@) {
        LinuxDistro::Ubuntu
    } else if has_sub(contents, "Debian"@) {
        LinuxDistro::Debian
    } else if has_sub(contents, "Fedora"@) {
        LinuxDistro::Fedora
    } else if has_sub(contents, "CentOS"@) {
        LinuxDistro::CentOS
    } else if has_sub(contents, "Red Hat Enterprise Linux"@) || has_sub(contents, "RHEL"@) {
        LinuxDistro::RHEL
    } else if has_sub(contents, "Arch"@) {
        LinuxDistro::Arch
    } else if has_sub(contents, "openSUSE"@) || has_sub(contents, "SUSE"@) {
        LinuxDistro::OpenSUSE
    } else {
        LinuxDistro::Unknown
    }
}

/// The text of `/etc/os-release` carries the marker of distribution `d`:
/// its name (`Red Hat Enterprise Linux` or `RHEL` for RHEL, `openSUSE` or
/// `SUSE` for openSUSE). Nothing marks an unknown distribution.
pub open spec fn carries_marker(d: LinuxDistro, contents: Seq<char>) -> bool {
    match d {
        LinuxDistro::Ubuntu => has_sub(contents, "Ubuntu"@),
        LinuxDistro::Debian => has_sub(contents, "Debian"@),
        LinuxDistro::Fedora => has_sub(contents, "Fedora"@),
        LinuxDistro::CentOS => has_sub(contents, "CentOS"@),
        LinuxDistro::RHEL => has_sub(contents, "Red Hat Enterprise Linux"@) || has_sub(contents, "RHEL"@),
        LinuxDistro::Arch => has_sub(contents, "Arch"@),
        LinuxDistro::OpenSUSE => has_sub(contents, "openSUSE"@) || has_sub(contents, "SUSE"@),
        LinuxDistro::Unknown => false,
    }
}

/// Which distribution wins where a text carries several markers: Ubuntu
/// first, then Debian, Fedora, CentOS, RHEL, Arch and openSUSE.
pub open spec fn distro_precedence(d: LinuxDistro) -> nat {
    match d {
        LinuxDistro::Ubuntu => 0,
        LinuxDistro::Debian => 1,
        LinuxDistro::Fedora => 2,
        LinuxDistro::CentOS => 3,
        LinuxDistro::RHEL => 4,
        LinuxDistro::Arch => 5,
        LinuxDistro::OpenSUSE => 6,
        LinuxDistro::Unknown => 7,
    }
}

/// The distribution recognised in an os-release text is one whose marker
/// the text carries, and of all the distributions whose markers it
/// carries the one that takes precedence; a text carrying no marker is of
/// an unknown distribution. So a CentOS text that names none of Ubuntu,
/// Debian and Fedora is CentOS, with dnf as its native manager.
pub proof fn law_distro_is_first_marked(contents: Seq<char>)
    ensures
        distro_of(contents) == LinuxDistro::Unknown || carries_marker(distro_of(contents), contents),
        forall|d: LinuxDistro| #[trigger] carries_marker(d, contents) ==> distro_of(contents) != LinuxDistro::Unknown
            && distro_precedence(distro_of(contents)) <= distro_precedence(d),
        (forall|d: LinuxDistro| !#[trigger] carries_marker(d, contents)) ==> distro_of(contents) == LinuxDistro::Unknown,
        carries_marker(LinuxDistro::CentOS, contents) && !carries_marker(LinuxDistro::Ubuntu, contents)
            && !carries_marker(LinuxDistro::Debian, contents) && !carries_marker(LinuxDistro::Fedora, contents) ==> distro_of(
            contents,
        ) == LinuxDistro::CentOS && native_manager(OperatingSystem::Linux(distro_of(contents))) == "dnf"@,
{
    assert(carries_marker(distro_of(contents), contents) || distro_of(contents) == LinuxDistro::Unknown);
    assert forall|d: LinuxDistro| #[trigger] carries_marker(d, contents) implies distro_of(contents) != LinuxDistro::Unknown
        && distro_precedence(distro_of(contents)) <= distro_precedence(d) by {
        match d {
            LinuxDistro::Unknown => {},
            _ => {},
        }
    }
    if distro_of(contents) != LinuxDistro::Unknown {
        assert(carries_marker(distro_of(contents), contents));
    }
}

/// The operating system for a target name (as `std::env::consts::OS`
/// gives it) and the text of `/etc/os-release`.
pub open spec fn os_of(target_os: Seq<char>, os_release: Seq<char>) -> OperatingSystem {
    if target_os == "windows"@ {
        OperatingSystem::Windows
    } else if target_os == "macos"@ {
        OperatingSystem::MacOS
    } else if target_os == "linux"@ {
        OperatingSystem::Linux(distro_of(os_release))
    } else {
        OperatingSystem::Unknown
    }
}

/// Recognises the distribution from the text of `/etc/os-release` (empty
/// where it cannot be read).
pub fn detect_linux_distro(contents: &str) -> (d: LinuxDistro)
    ensures
        d == distro_of(contents@),
        d == LinuxDistro::Unknown || carries_marker(d, contents@),
        forall|m: LinuxDistro| #[trigger] carries_marker(m, contents@) ==> d != LinuxDistro::Unknown && distro_precedence(d)
            <= distro_precedence(m),
{
    proof {
        law_distro_is_first_marked(contents@);
    }
    if str_contains(contents, "Ubuntu") {
        LinuxDistro::Ubuntu
    } else if str_contains(contents, "Debian") {
        LinuxDistro::Debian
    } else if str_contains(contents, "Fedora") {
        LinuxDistro::Fedora
    } else if str_contains(contents, "CentOS") {
        LinuxDistro::CentOS
    } else if str_contains(contents, "Red Hat Enterprise Linux") || str_contains(contents, "RHEL") {
        LinuxDistro::RHEL
    } else if str_contains(contents, "Arch") {
        LinuxDistro::Arch
    } else if str_contains(contents, "openSUSE") || str_contains(contents, "SUSE") {
        LinuxDistro::OpenSUSE
    } else {
        LinuxDistro::Unknown
    }
}

/// Recognises the operating system from the target name and the text of
/// `/etc/os-release`.
pub fn detect_os(target_os: &str, os_release: &str) -> (os: OperatingSystem)
    ensures
        os == os_of(target_os@, os_release@),
{
    if text_eq(target_os, "windows") {
        OperatingSystem::Windows
    } else if text_eq(target_os, "macos") {
        OperatingSystem::MacOS
    } else if text_eq(target_os, "linux") {
        OperatingSystem::Linux(detect_linux_distro(os_release))
    } else {
        OperatingSystem::Unknown
    }
}

/// The name of the native package manager of an operating system.
pub open spec fn native_manager(os: OperatingSystem) -> Seq<char> {
    match os {
        OperatingSystem::Linux(d) => match d {
            LinuxDistro::Ubuntu | LinuxDistro::Debian => "apt"@,
            LinuxDistro::Fedora | LinuxDistro::CentOS | LinuxDistro::RHEL => "dnf"@,
            LinuxDistro::Arch => "pacman"@,
            LinuxDistro::OpenSUSE => "zypper"@,
            LinuxDistro::Unknown => "unknown"@,
        },
        OperatingSystem::Windows => "winget"@,
        OperatingSystem::MacOS => "brew"@,
        OperatingSystem::Unknown => "unknown"@,
    }
}

/// The name of the native package manager of `os`.
pub fn detect_distro(os: &OperatingSystem) -> (r: String)
    ensures
        r@ == native_manager(*os),
{
    match os {
        OperatingSystem::Linux(d) => match d {
            LinuxDistro::Ubuntu | LinuxDistro::Debian => owned("apt"),
            LinuxDistro::Fedora | LinuxDistro::CentOS | LinuxDistro::RHEL => owned("dnf"),
            LinuxDistro::Arch => owned("pacman"),
            LinuxDistro::OpenSUSE => owned("zypper"),
            LinuxDistro::Unknown => owned("unknown"),
        },
        OperatingSystem::Windows => owned("winget"),
        OperatingSystem::MacOS => owned("brew"),
        OperatingSystem::Unknown => owned("unknown"),
    }
}

/// The package managers probed on an operating system, in order: the
/// command looked for and the name reported when it is there.
pub open spec fn manager_candidates(os: OperatingSystem) -> Seq<(Seq<char>, Seq<char>)> {
    match os {
        OperatingSystem::Linux(_) => seq![
            ("apt"@, "apt"@),
            ("dnf"@, "dnf"@),
            ("pacman"@, "pacman"@),
            ("zypper"@, "zypper"@),
            ("snap"@, "snap"@),
            ("flatpak"@, "flatpak"@),
        ],
        OperatingSystem::Windows => seq![
            ("winget"@, "winget"@),
            ("choco"@, "chocolatey"@),
            ("scoop"@, "scoop"@),
        ],
        OperatingSystem::MacOS => seq![("brew"@, "brew"@), ("mas"@, "mas"@)],
        OperatingSystem::Unknown => seq![],
    }
}

/// The names of the candidates whose command is among `found`, in order.
pub open spec fn present_names(c: Seq<(Seq<char>, Seq<char>)>, found: Seq<Seq<char>>) -> Seq<Seq<char>>
    decreases c.len(),
{
    if c.len() == 0 {
        Seq::empty()
    } else {
        let rest = present_names(c.drop_last(), found);
        if found.contains(c.last().0) {
            rest.push(c.last().1)
        } else {
            rest
        }
    }
}

/// The package managers available on `os` when the commands `found` exist:
/// those whose command was found, then, on Linux, AppImage, which needs none.
pub open spec fn available_managers(os: OperatingSystem, found: Seq<Seq<char>>) -> Seq<Seq<char>> {
    present_names(manager_candidates(os), found) + if os is Linux {
        seq!["appimage"@]
    } else {
        Seq::empty()
    }
}

/// The texts of a sequence of string slices.
pub open spec fn strs(v: Seq<&str>) -> Seq<Seq<char>> {
    v.map_values(|s: &str| s@)
}

/// The texts of a sequence of pairs of string slices.
pub open spec fn str_pairs(v: Seq<(&str, &str)>) -> Seq<(Seq<char>, Seq<char>)> {
    v.map_values(|p: (&str, &str)| (p.0@, p.1@))
}

/// The package managers probed on `os`.
pub fn candidates_for(os: &OperatingSystem) -> (r: Vec<(&'static str, &'static str)>)
    ensures
        str_pairs(r@) == manager_candidates(*os),
{
    let r: Vec<(&'static str, &'static str)> = match os {
        OperatingSystem::Linux(_) => vec![
            ("apt", "apt"),
            ("dnf", "dnf"),
            ("pacman", "pacman"),
            ("zypper", "zypper"),
            ("snap", "snap"),
            ("flatpak", "flatpak"),
        ],
        OperatingSystem::Windows => vec![("winget", "winget"), ("choco", "chocolatey"), ("scoop", "scoop")],
        OperatingSystem::MacOS => vec![("brew", "brew"), ("mas", "mas")],
        OperatingSystem::Unknown => vec![],
    };
    assert(str_pairs(r@) =~= manager_candidates(*os));
    r
}

/// The package managers available on `os`, given the commands among the
/// candidates that were found on the system.
pub fn get_available_package_managers(os: &OperatingSystem, found: &Vec<&str>) -> (r: Vec<&'static str>)
    ensures
        strs(r@) == available_managers(*os, strs(found@)),
{
    let cands = candidates_for(os);
    let ghost fs = strs(found@);
    let mut r: Vec<&'static str> = Vec::new();
    let mut i: usize = 0;
    while i < cands.len()
        invariant
            i <= cands@.len(),
            fs == strs(found@),
            str_pairs(cands@) == manager_candidates(*os),
            strs(r@) == present_names(str_pairs(cands@).take(i as int), fs),
        decreases cands.len() - i,
    {
        let (cmd, name) = cands[i];
        let ghost pre = str_pairs(cands@).take(i as int);
        let ghost next = str_pairs(cands@).take(i + 1);
        assert(next.drop_last() =~= pre);
        assert(next.last() == (cmd@, name@));
        let cv = chars_of(cmd);
        let here = list_contains(found, &cv);
        assert(here == fs.contains(cmd@)) by {
            if here {
                let k = choose|k: int| 0 <= k < found@.len() && found@[k]@ == cv@;
                assert(fs[k] == cmd@);
            }
            if fs.contains(cmd@) {
                let k = choose|k: int| 0 <= k < fs.len() && fs[k] == cmd@;
                assert(found@[k]@ == cv@);
            }
        }
        if here {
            r.push(name);
            assert(strs(r@) =~= present_names(pre, fs).push(name@));
        }
        i = i + 1;
    }
    assert(str_pairs(cands@).take(cands@.len() as int) =~= str_pairs(cands@));
    let is_linux = match os {
        OperatingSystem::Linux(_) => true,
        _ => false,
    };
    if is_linux {
        let ghost before = strs(r@);
        r.push("appimage");
        assert(strs(r@) =~= before + seq!["appimage"@]);
    } else {
        assert(strs(r@) =~= strs(r@) + Seq::<Seq<char>>::empty());
    }
    r
}

/// How a distribution is named to the user.
pub open spec fn distro_label(d: LinuxDistro) -> Seq<char> {
    match d {
        LinuxDistro::Ubuntu => "Ubuntu"@,
        LinuxDistro::Debian => "Debian"@,
        LinuxDistro::Fedora => "Fedora"@,
        LinuxDistro::CentOS => "CentOS"@,
        LinuxDistro::RHEL => "Red Hat Enterprise Linux"@,
        LinuxDistro::Arch => "Arch Linux"@,
        LinuxDistro::OpenSUSE => "openSUSE"@,
        LinuxDistro::Unknown => "Linux"@,
    }
}

/// The name of the operating system shown to the user. On Windows it is the
/// trimmed output of `ver` where that output is not empty; on macOS the
/// trimmed outputs of `sw_vers -productName` and `sw_vers -productVersion`
/// (`None` where a command could not be run).
pub open spec fn display_name(
    os: OperatingSystem,
    ver_output: Option<Seq<char>>,
    product_output: Option<Seq<char>>,
    version_output: Option<Seq<char>>,
) -> Seq<char> {
    match os {
        OperatingSystem::Linux(d) => distro_label(d) + " Linux"@,
        OperatingSystem::Windows => match ver_output {
            Some(v) => if v.len() > 0 {
                trim(v)
            } else {
                "Windows"@
            },
            None => "Windows"@,
        },
        OperatingSystem::MacOS => match product_output {
            Some(p) => match version_output {
                Some(v) => trim(p) + " "@ + trim(v),
                None => trim(p),
            },
            None => "macOS"@,
        },
        OperatingSystem::Unknown => "Unknown OS"@,
    }
}

/// The label of a distribution.
fn distro_label_exec(d: LinuxDistro) -> (r: &'static str)
    ensures
        r@ == distro_label(d),
{
    match d {
        LinuxDistro::Ubuntu => "Ubuntu",
        LinuxDistro::Debian => "Debian",
        LinuxDistro::Fedora => "Fedora",
        LinuxDistro::CentOS => "CentOS",
        LinuxDistro::RHEL => "Red Hat Enterprise Linux",
        LinuxDistro::Arch => "Arch Linux",
        LinuxDistro::OpenSUSE => "openSUSE",
        LinuxDistro::Unknown => "Linux",
    }
}

/// The trimmed text of `s`, owned.
fn trimmed_string(s: &str) -> (r: String)
    ensures
        r@ == trim(s@),
{
    let v = chars_of(s);
    let t = trimmed(&v);
    string_from_chars(&t)
}

/// The name of the operating system shown to the user, from the outputs of
/// the commands that report it (see `display_name`).
pub fn get_os_display_name(
    os: &OperatingSystem,
    ver_output: Option<&str>,
    product_output: Option<&str>,
    version_output: Option<&str>,
) -> (r: String)
    ensures
        r@ == display_name(
            *os,
            match ver_output { Some(v) => Some(v@), None => None },
            match product_output { Some(v) => Some(v@), None => None },
            match version_output { Some(v) => Some(v@), None => None },
        ),
{
    match os {
        OperatingSystem::Linux(d) => concat2(distro_label_exec(*d), " Linux"),
        OperatingSystem::Windows => match ver_output {
            Some(v) => {
                let n = chars_of(v).len();
                if n > 0 {
                    trimmed_string(v)
                } else {
                    owned("Windows")
                }
            },
            None => owned("Windows"),
        },
        OperatingSystem::MacOS => match product_output {
            Some(p) => match version_output {
                Some(v) => {
                    let a = trimmed_string(p);
                    let b = trimmed_string(v);
                    concat3(a.as_str(), " ", b.as_str())
                },
                None => trimmed_string(p),
            },
            None => owned("macOS"),
        },
        OperatingSystem::Unknown => owned("Unknown OS"),
    }
}

} // verus!
