//! The package managers ("boxes"): the commands each runs, how it is
//! ranked, and how its answers are read.
use vstd::prelude::*;
use crate::error_handling::OmniError;
use crate::secure_executor::{SecureExecutor, ExecError};
use crate::text::{
    before_first, char_views, chars_of, concat2, concat4, has_prefix, lines, lines_of, owned,
    slice_chars, split_char, split_on_char, split_ws, string_from_chars, texts, trim, trimmed, words,
    before_first_exec, occurs_at_exec, has_sub, find_seq, first_occurrence, contains_seq,
};

verus! {

/// A command that a box runs: the program, its arguments, whether it needs
/// `sudo`, and how many seconds it may take.
#[derive(Debug)]
pub struct BoxCommand {
    pub program: String,
    pub args: Vec<String>,
    pub requires_sudo: bool,
    pub timeout_secs: u64,
}

/// A command as plain values.
pub open spec fn command_view(c: BoxCommand) -> (Seq<char>, Seq<Seq<char>>, bool, u64) {
    (c.program@, texts(c.args@), c.requires_sudo, c.timeout_secs)
}

/// The boxes driven through the secure executor.
#[derive(Debug, Clone, Copy, PartialEq, Eq, Structural)]
pub enum BoxKind {
    Apt,
    Dnf,
    Pacman,
    Zypper,
    Snap,
    Flatpak,
    Brew,
    Chocolatey,
    Emerge,
    Nix,
    Winget,
}

/// The name of a box.
pub open spec fn kind_name(k: BoxKind) -> Seq<char> {
    match k {
        BoxKind::Apt => "apt"@,
        BoxKind::Dnf => "dnf"@,
        BoxKind::Pacman => "pacman"@,
        BoxKind::Zypper => "zypper"@,
        BoxKind::Snap => "snap"@,
        BoxKind::Flatpak => "flatpak"@,
        BoxKind::Brew => "brew"@,
        BoxKind::Chocolatey => "chocolatey"@,
        BoxKind::Emerge => "emerge"@,
        BoxKind::Nix => "nix"@,
        BoxKind::Winget => "winget"@,
    }
}

/// How strongly a box is preferred, out of 100.
pub open spec fn kind_priority(k: BoxKind) -> u8 {
    match k {
        BoxKind::Apt => 90,
        BoxKind::Dnf => 85,
        BoxKind::Pacman => 90,
        BoxKind::Zypper => 85,
        BoxKind::Snap => 60,
        BoxKind::Flatpak => 50,
        BoxKind::Brew => 80,
        BoxKind::Chocolatey => 70,
        BoxKind::Emerge => 80,
        BoxKind::Nix => 75,
        BoxKind::Winget => 80,
    }
}

/// Whether a box needs administrator rights.
pub open spec fn kind_privileged(k: BoxKind) -> bool {
    match k {
        BoxKind::Apt | BoxKind::Dnf | BoxKind::Pacman | BoxKind::Zypper | BoxKind::Snap
        | BoxKind::Chocolatey | BoxKind::Emerge => true,
        _ => false,
    }
}

/// The command that installs `p` with a box (for nix, its first try).
pub open spec fn install_of(k: BoxKind, p: Seq<char>) -> (Seq<char>, Seq<Seq<char>>, bool, u64) {
    match k {
        BoxKind::Apt => ("apt"@, seq!["install"@, "-y"@, p], true, 600),
        BoxKind::Dnf => ("dnf"@, seq!["install"@, "-y"@, p], true, 600),
        BoxKind::Pacman => ("pacman"@, seq!["-S"@, "--noconfirm"@, p], true, 600),
        BoxKind::Zypper => ("zypper"@, seq!["install"@, "-y"@, p], true, 600),
        BoxKind::Snap => ("snap"@, seq!["install"@, p], true, 600),
        BoxKind::Flatpak => ("flatpak"@, seq!["install"@, "-y"@, p], false, 600),
        BoxKind::Brew => ("brew"@, seq!["install"@, p], false, 600),
        BoxKind::Chocolatey => ("choco"@, seq!["install"@, p, "-y"@], true, 600),
        BoxKind::Emerge => ("emerge"@, seq!["--ask"@, "n"@, p], true, 3600),
        BoxKind::Nix => ("nix-env"@, seq!["-iA"@, "nixpkgs."@ + p], false, 600),
        BoxKind::Winget => ("winget"@, seq!["install"@, p, "--accept-package-agreements"@, "--accept-source-agreements"@], false, 600),
    }
}

/// The command that removes `p` with a box.
pub open spec fn remove_of(k: BoxKind, p: Seq<char>) -> (Seq<char>, Seq<Seq<char>>, bool, u64) {
    match k {
        BoxKind::Apt => ("apt"@, seq!["remove"@, "-y"@, p], true, 300),
        BoxKind::Dnf => ("dnf"@, seq!["remove"@, "-y"@, p], true, 300),
        BoxKind::Pacman => ("pacman"@, seq!["-R"@, "--noconfirm"@, p], true, 300),
        BoxKind::Zypper => ("zypper"@, seq!["remove"@, "-y"@, p], true, 300),
        BoxKind::Snap => ("snap"@, seq!["remove"@, p], true, 300),
        BoxKind::Flatpak => ("flatpak"@, seq!["uninstall"@, "-y"@, p], false, 300),
        BoxKind::Brew => ("brew"@, seq!["uninstall"@, p], false, 300),
        BoxKind::Chocolatey => ("choco"@, seq!["uninstall"@, p, "-y"@], true, 600),
        BoxKind::Emerge => ("emerge"@, seq!["--unmerge"@, p], true, 600),
        BoxKind::Nix => ("nix-env"@, seq!["-e"@, p], false, 300),
        BoxKind::Winget => ("winget"@, seq!["uninstall"@, p], false, 300),
    }
}

/// Whether a box words a failed removal as such (`Remove failed: ...`)
/// rather than passing on the error output alone.
pub open spec fn marks_remove_failure(k: BoxKind) -> bool {
    match k {
        BoxKind::Chocolatey | BoxKind::Flatpak | BoxKind::Snap => false,
        _ => true,
    }
}

/// The name of a box.
pub fn kind_name_exec(k: BoxKind) -> (r: &'static str)
    ensures
        r@ == kind_name(k),
{
    match k {
        BoxKind::Apt => "apt",
        BoxKind::Dnf => "dnf",
        BoxKind::Pacman => "pacman",
        BoxKind::Zypper => "zypper",
        BoxKind::Snap => "snap",
        BoxKind::Flatpak => "flatpak",
        BoxKind::Brew => "brew",
        BoxKind::Chocolatey => "chocolatey",
        BoxKind::Emerge => "emerge",
        BoxKind::Nix => "nix",
        BoxKind::Winget => "winget",
    }
}

/// How strongly a box is preferred.
pub fn kind_priority_exec(k: BoxKind) -> (r: u8)
    ensures
        r == kind_priority(k),
{
    match k {
        BoxKind::Apt => 90,
        BoxKind::Dnf => 85,
        BoxKind::Pacman => 90,
        BoxKind::Zypper => 85,
        BoxKind::Snap => 60,
        BoxKind::Flatpak => 50,
        BoxKind::Brew => 80,
        BoxKind::Chocolatey => 70,
        BoxKind::Emerge => 80,
        BoxKind::Nix => 75,
        BoxKind::Winget => 80,
    }
}

/// Whether a box needs administrator rights.
pub fn kind_privileged_exec(k: BoxKind) -> (r: bool)
    ensures
        r == kind_privileged(k),
{
    match k {
        BoxKind::Apt | BoxKind::Dnf | BoxKind::Pacman | BoxKind::Zypper | BoxKind::Snap
        | BoxKind::Chocolatey | BoxKind::Emerge => true,
        _ => false,
    }
}

/// A command from its parts.
fn command(program: &str, args: Vec<String>, requires_sudo: bool, timeout_secs: u64) -> (r: BoxCommand)
    ensures
        command_view(r) == (program@, texts(args@), requires_sudo, timeout_secs),
{
    BoxCommand { program: owned(program), args, requires_sudo, timeout_secs }
}

/// Owned copies of two texts.
fn args2(a: &str, b: &str) -> (r: Vec<String>)
    ensures
        texts(r@) == seq![a@, b@],
{
    let r = vec![owned(a), owned(b)];
    assert(texts(r@) =~= seq![a@, b@]);
    r
}

/// Owned copies of three texts.
fn args3(a: &str, b: &str, c: &str) -> (r: Vec<String>)
    ensures
        texts(r@) == seq![a@, b@, c@],
{
    let r = vec![owned(a), owned(b), owned(c)];
    assert(texts(r@) =~= seq![a@, b@, c@]);
    r
}

/// Owned copies of four texts.
fn args4(a: &str, b: &str, c: &str, d: &str) -> (r: Vec<String>)
    ensures
        texts(r@) == seq![a@, b@, c@, d@],
{
    let r = vec![owned(a), owned(b), owned(c), owned(d)];
    assert(texts(r@) =~= seq![a@, b@, c@, d@]);
    r
}

/// The command that installs `p` with a box (for nix, its first try).
pub fn install_command(k: BoxKind, p: &str) -> (r: BoxCommand)
    ensures
        command_view(r) == install_of(k, p@),
{
    match k {
        BoxKind::Apt => command("apt", args3("install", "-y", p), true, 600),
        BoxKind::Dnf => command("dnf", args3("install", "-y", p), true, 600),
        BoxKind::Pacman => command("pacman", args3("-S", "--noconfirm", p), true, 600),
        BoxKind::Zypper => command("zypper", args3("install", "-y", p), true, 600),
        BoxKind::Snap => command("snap", args2("install", p), true, 600),
        BoxKind::Flatpak => command("flatpak", args3("install", "-y", p), false, 600),
        BoxKind::Brew => command("brew", args2("install", p), false, 600),
        BoxKind::Chocolatey => command("choco", args3("install", p, "-y"), true, 600),
        BoxKind::Emerge => command("emerge", args3("--ask", "n", p), true, 3600),
        BoxKind::Nix => {
            let attr = concat2("nixpkgs.", p);
            command("nix-env", args2("-iA", attr.as_str()), false, 600)
        },
        BoxKind::Winget => command("winget", args4("install", p, "--accept-package-agreements", "--accept-source-agreements"), false, 600),
    }
}

/// The command that removes `p` with a box.
pub fn remove_command(k: BoxKind, p: &str) -> (r: BoxCommand)
    ensures
        command_view(r) == remove_of(k, p@),
{
    match k {
        BoxKind::Apt => command("apt", args3("remove", "-y", p), true, 300),
        BoxKind::Dnf => command("dnf", args3("remove", "-y", p), true, 300),
        BoxKind::Pacman => command("pacman", args3("-R", "--noconfirm", p), true, 300),
        BoxKind::Zypper => command("zypper", args3("remove", "-y", p), true, 300),
        BoxKind::Snap => command("snap", args2("remove", p), true, 300),
        BoxKind::Flatpak => command("flatpak", args3("uninstall", "-y", p), false, 300),
        BoxKind::Brew => command("brew", args2("uninstall", p), false, 300),
        BoxKind::Chocolatey => command("choco", args3("uninstall", p, "-y"), true, 600),
        BoxKind::Emerge => command("emerge", args2("--unmerge", p), true, 600),
        BoxKind::Nix => command("nix-env", args2("-e", p), false, 300),
        BoxKind::Winget => command("winget", args2("uninstall", p), false, 300),
    }
}

/// A failed installation error as plain values.
pub open spec fn failure_view(e: OmniError) -> Option<(Seq<char>, Seq<char>, Seq<char>)> {
    match e {
        OmniError::InstallationFailed { package, box_type, reason } => Some((package@, box_type@, reason@)),
        _ => None,
    }
}

/// What an installation's exit code and error output mean: success for
/// code 0, else an installation failure with the error output as reason.
pub fn install_outcome(k: BoxKind, p: &str, exit_code: i32, stderr: &str) -> (r: Result<(), OmniError>)
    ensures
        exit_code == 0 <==> r is Ok,
        r matches Err(e) ==> failure_view(e) == Some((p@, kind_name(k), stderr@)),
{
    if exit_code == 0 {
        Ok(())
    } else {
        Err(OmniError::InstallationFailed { package: owned(p), box_type: owned(kind_name_exec(k)), reason: owned(stderr) })
    }
}

/// What a removal's exit code and error output mean.
pub fn remove_outcome(k: BoxKind, p: &str, exit_code: i32, stderr: &str) -> (r: Result<(), OmniError>)
    ensures
        exit_code == 0 <==> r is Ok,
        r matches Err(e) ==> failure_view(e) == Some((
            p@,
            kind_name(k),
            if marks_remove_failure(k) { "Remove failed: "@ + stderr@ } else { stderr@ },
        )),
{
    if exit_code == 0 {
        Ok(())
    } else {
        let reason = match k {
            BoxKind::Chocolatey | BoxKind::Flatpak | BoxKind::Snap => owned(stderr),
            _ => concat2("Remove failed: ", stderr),
        };
        Err(OmniError::InstallationFailed { package: owned(p), box_type: owned(kind_name_exec(k)), reason })
    }
}

/// The APT box.
pub struct AptManager {}

impl AptManager {
    /// A new box.
    pub fn new() -> (r: Result<Self, ExecError>)
        ensures
            r is Ok,
    {
        Ok(AptManager {})
    }

    /// Which box this is.
    pub fn kind(&self) -> (r: BoxKind)
        ensures
            r == BoxKind::Apt,
    {
        BoxKind::Apt
    }

    /// The name of the box.
    pub fn get_name(&self) -> (r: &'static str)
        ensures
            r@ == kind_name(BoxKind::Apt),
    {
        kind_name_exec(BoxKind::Apt)
    }

    /// How strongly the box is preferred.
    pub fn get_priority(&self) -> (r: u8)
        ensures
            r == kind_priority(BoxKind::Apt),
    {
        kind_priority_exec(BoxKind::Apt)
    }

    /// Whether the box needs administrator rights.
    pub fn needs_privilege(&self) -> (r: bool)
        ensures
            r == kind_privileged(BoxKind::Apt),
    {
        kind_privileged_exec(BoxKind::Apt)
    }

    /// The command that installs `package`.
    pub fn install_command(&self, package: &str) -> (r: BoxCommand)
        ensures
            command_view(r) == install_of(BoxKind::Apt, package@),
    {
        install_command(BoxKind::Apt, package)
    }

    /// The command that removes `package`.
    pub fn remove_command(&self, package: &str) -> (r: BoxCommand)
        ensures
            command_view(r) == remove_of(BoxKind::Apt, package@),
    {
        remove_command(BoxKind::Apt, package)
    }
}

/// The DNF box.
pub struct DnfBox {
    pub executor: SecureExecutor,
}

impl DnfBox {
    /// A new box.
    pub fn new() -> (r: Result<Self, ExecError>)
        ensures
            r is Ok,
    {
        let executor = SecureExecutor::new()?;
        Ok(DnfBox { executor })
    }

    /// Which box this is.
    pub fn kind(&self) -> (r: BoxKind)
        ensures
            r == BoxKind::Dnf,
    {
        BoxKind::Dnf
    }

    /// The name of the box.
    pub fn get_name(&self) -> (r: &'static str)
        ensures
            r@ == kind_name(BoxKind::Dnf),
    {
        kind_name_exec(BoxKind::Dnf)
    }

    /// How strongly the box is preferred.
    pub fn get_priority(&self) -> (r: u8)
        ensures
            r == kind_priority(BoxKind::Dnf),
    {
        kind_priority_exec(BoxKind::Dnf)
    }

    /// Whether the box needs administrator rights.
    pub fn needs_privilege(&self) -> (r: bool)
        ensures
            r == kind_privileged(BoxKind::Dnf),
    {
        kind_privileged_exec(BoxKind::Dnf)
    }

    /// The command that installs `package`.
    pub fn install_command(&self, package: &str) -> (r: BoxCommand)
        ensures
            command_view(r) == install_of(BoxKind::Dnf, package@),
    {
        install_command(BoxKind::Dnf, package)
    }

    /// The command that removes `package`.
    pub fn remove_command(&self, package: &str) -> (r: BoxCommand)
        ensures
            command_view(r) == remove_of(BoxKind::Dnf, package@),
    {
        remove_command(BoxKind::Dnf, package)
    }

    /// The executor that runs the box's commands.
    pub fn executor(&self) -> (r: &SecureExecutor)
        ensures
            r == &self.executor,
    {
        &self.executor
    }
}

/// The Pacman box.
pub struct PacmanBox {
    pub executor: SecureExecutor,
}

impl PacmanBox {
    /// A new box.
    pub fn new() -> (r: Result<Self, ExecError>)
        ensures
            r is Ok,
    {
        let executor = SecureExecutor::new()?;
        Ok(PacmanBox { executor })
    }

    /// Which box this is.
    pub fn kind(&self) -> (r: BoxKind)
        ensures
            r == BoxKind::Pacman,
    {
        BoxKind::Pacman
    }

    /// The name of the box.
    pub fn get_name(&self) -> (r: &'static str)
        ensures
            r@ == kind_name(BoxKind::Pacman),
    {
        kind_name_exec(BoxKind::Pacman)
    }

    /// How strongly the box is preferred.
    pub fn get_priority(&self) -> (r: u8)
        ensures
            r == kind_priority(BoxKind::Pacman),
    {
        kind_priority_exec(BoxKind::Pacman)
    }

    /// Whether the box needs administrator rights.
    pub fn needs_privilege(&self) -> (r: bool)
        ensures
            r == kind_privileged(BoxKind::Pacman),
    {
        kind_privileged_exec(BoxKind::Pacman)
    }

    /// The command that installs `package`.
    pub fn install_command(&self, package: &str) -> (r: BoxCommand)
        ensures
            command_view(r) == install_of(BoxKind::Pacman, package@),
    {
        install_command(BoxKind::Pacman, package)
    }

    /// The command that removes `package`.
    pub fn remove_command(&self, package: &str) -> (r: BoxCommand)
        ensures
            command_view(r) == remove_of(BoxKind::Pacman, package@),
    {
        remove_command(BoxKind::Pacman, package)
    }

    /// The executor that runs the box's commands.
    pub fn executor(&self) -> (r: &SecureExecutor)
        ensures
            r == &self.executor,
    {
        &self.executor
    }
}

/// The Zypper box.
pub struct ZypperBox {
    pub executor: SecureExecutor,
}

impl ZypperBox {
    /// A new box.
    pub fn new() -> (r: Result<Self, ExecError>)
        ensures
            r is Ok,
    {
        let executor = SecureExecutor::new()?;
        Ok(ZypperBox { executor })
    }

    /// Which box this is.
    pub fn kind(&self) -> (r: BoxKind)
        ensures
            r == BoxKind::Zypper,
    {
        BoxKind::Zypper
    }

    /// The name of the box.
    pub fn get_name(&self) -> (r: &'static str)
        ensures
            r@ == kind_name(BoxKind::Zypper),
    {
        kind_name_exec(BoxKind::Zypper)
    }

    /// How strongly the box is preferred.
    pub fn get_priority(&self) -> (r: u8)
        ensures
            r == kind_priority(BoxKind::Zypper),
    {
        kind_priority_exec(BoxKind::Zypper)
    }

    /// Whether the box needs administrator rights.
    pub fn needs_privilege(&self) -> (r: bool)
        ensures
            r == kind_privileged(BoxKind::Zypper),
    {
        kind_privileged_exec(BoxKind::Zypper)
    }

    /// The command that installs `package`.
    pub fn install_command(&self, package: &str) -> (r: BoxCommand)
        ensures
            command_view(r) == install_of(BoxKind::Zypper, package@),
    {
        install_command(BoxKind::Zypper, package)
    }

    /// The command that removes `package`.
    pub fn remove_command(&self, package: &str) -> (r: BoxCommand)
        ensures
            command_view(r) == remove_of(BoxKind::Zypper, package@),
    {
        remove_command(BoxKind::Zypper, package)
    }

    /// The executor that runs the box's commands.
    pub fn executor(&self) -> (r: &SecureExecutor)
        ensures
            r == &self.executor,
    {
        &self.executor
    }
}

/// The Snap box.
pub struct SnapBox {
    pub executor: SecureExecutor,
}

impl SnapBox {
    /// A new box.
    pub fn new() -> (r: Result<Self, ExecError>)
        ensures
            r is Ok,
    {
        let executor = SecureExecutor::new()?;
        Ok(SnapBox { executor })
    }

    /// Which box this is.
    pub fn kind(&self) -> (r: BoxKind)
        ensures
            r == BoxKind::Snap,
    {
        BoxKind::Snap
    }

    /// The name of the box.
    pub fn get_name(&self) -> (r: &'static str)
        ensures
            r@ == kind_name(BoxKind::Snap),
    {
        kind_name_exec(BoxKind::Snap)
    }

    /// How strongly the box is preferred.
    pub fn get_priority(&self) -> (r: u8)
        ensures
            r == kind_priority(BoxKind::Snap),
    {
        kind_priority_exec(BoxKind::Snap)
    }

    /// Whether the box needs administrator rights.
    pub fn needs_privilege(&self) -> (r: bool)
        ensures
            r == kind_privileged(BoxKind::Snap),
    {
        kind_privileged_exec(BoxKind::Snap)
    }

    /// The command that installs `package`.
    pub fn install_command(&self, package: &str) -> (r: BoxCommand)
        ensures
            command_view(r) == install_of(BoxKind::Snap, package@),
    {
        install_command(BoxKind::Snap, package)
    }

    /// The command that removes `package`.
    pub fn remove_command(&self, package: &str) -> (r: BoxCommand)
        ensures
            command_view(r) == remove_of(BoxKind::Snap, package@),
    {
        remove_command(BoxKind::Snap, package)
    }

    /// The executor that runs the box's commands.
    pub fn executor(&self) -> (r: &SecureExecutor)
        ensures
            r == &self.executor,
    {
        &self.executor
    }
}

/// The Flatpak box.
pub struct FlatpakBox {
    pub executor: SecureExecutor,
}

impl FlatpakBox {
    /// A new box.
    pub fn new() -> (r: Result<Self, ExecError>)
        ensures
            r is Ok,
    {
        let executor = SecureExecutor::new()?;
        Ok(FlatpakBox { executor })
    }

    /// Which box this is.
    pub fn kind(&self) -> (r: BoxKind)
        ensures
            r == BoxKind::Flatpak,
    {
        BoxKind::Flatpak
    }

    /// The name of the box.
    pub fn get_name(&self) -> (r: &'static str)
        ensures
            r@ == kind_name(BoxKind::Flatpak),
    {
        kind_name_exec(BoxKind::Flatpak)
    }

    /// How strongly the box is preferred.
    pub fn get_priority(&self) -> (r: u8)
        ensures
            r == kind_priority(BoxKind::Flatpak),
    {
        kind_priority_exec(BoxKind::Flatpak)
    }

    /// Whether the box needs administrator rights.
    pub fn needs_privilege(&self) -> (r: bool)
        ensures
            r == kind_privileged(BoxKind::Flatpak),
    {
        kind_privileged_exec(BoxKind::Flatpak)
    }

    /// The command that installs `package`.
    pub fn install_command(&self, package: &str) -> (r: BoxCommand)
        ensures
            command_view(r) == install_of(BoxKind::Flatpak, package@),
    {
        install_command(BoxKind::Flatpak, package)
    }

    /// The command that removes `package`.
    pub fn remove_command(&self, package: &str) -> (r: BoxCommand)
        ensures
            command_view(r) == remove_of(BoxKind::Flatpak, package@),
    {
        remove_command(BoxKind::Flatpak, package)
    }

    /// The executor that runs the box's commands.
    pub fn executor(&self) -> (r: &SecureExecutor)
        ensures
            r == &self.executor,
    {
        &self.executor
    }
}

/// The Homebrew box.
pub struct BrewBox {
    pub executor: SecureExecutor,
}

impl BrewBox {
    /// A new box.
    pub fn new() -> (r: Result<Self, ExecError>)
        ensures
            r is Ok,
    {
        let executor = SecureExecutor::new()?;
        Ok(BrewBox { executor })
    }

    /// Which box this is.
    pub fn kind(&self) -> (r: BoxKind)
        ensures
            r == BoxKind::Brew,
    {
        BoxKind::Brew
    }

    /// The name of the box.
    pub fn get_name(&self) -> (r: &'static str)
        ensures
            r@ == kind_name(BoxKind::Brew),
    {
        kind_name_exec(BoxKind::Brew)
    }

    /// How strongly the box is preferred.
    pub fn get_priority(&self) -> (r: u8)
        ensures
            r == kind_priority(BoxKind::Brew),
    {
        kind_priority_exec(BoxKind::Brew)
    }

    /// Whether the box needs administrator rights.
    pub fn needs_privilege(&self) -> (r: bool)
        ensures
            r == kind_privileged(BoxKind::Brew),
    {
        kind_privileged_exec(BoxKind::Brew)
    }

    /// The command that installs `package`.
    pub fn install_command(&self, package: &str) -> (r: BoxCommand)
        ensures
            command_view(r) == install_of(BoxKind::Brew, package@),
    {
        install_command(BoxKind::Brew, package)
    }

    /// The command that removes `package`.
    pub fn remove_command(&self, package: &str) -> (r: BoxCommand)
        ensures
            command_view(r) == remove_of(BoxKind::Brew, package@),
    {
        remove_command(BoxKind::Brew, package)
    }

    /// The executor that runs the box's commands.
    pub fn executor(&self) -> (r: &SecureExecutor)
        ensures
            r == &self.executor,
    {
        &self.executor
    }
}

/// The Chocolatey box.
pub struct ChocolateyBox {
    pub executor: SecureExecutor,
}

impl ChocolateyBox {
    /// A new box.
    pub fn new() -> (r: Result<Self, ExecError>)
        ensures
            r is Ok,
    {
        let executor = SecureExecutor::new()?;
        Ok(ChocolateyBox { executor })
    }

    /// Which box this is.
    pub fn kind(&self) -> (r: BoxKind)
        ensures
            r == BoxKind::Chocolatey,
    {
        BoxKind::Chocolatey
    }

    /// The name of the box.
    pub fn get_name(&self) -> (r: &'static str)
        ensures
            r@ == kind_name(BoxKind::Chocolatey),
    {
        kind_name_exec(BoxKind::Chocolatey)
    }

    /// How strongly the box is preferred.
    pub fn get_priority(&self) -> (r: u8)
        ensures
            r == kind_priority(BoxKind::Chocolatey),
    {
        kind_priority_exec(BoxKind::Chocolatey)
    }

    /// Whether the box needs administrator rights.
    pub fn needs_privilege(&self) -> (r: bool)
        ensures
            r == kind_privileged(BoxKind::Chocolatey),
    {
        kind_privileged_exec(BoxKind::Chocolatey)
    }

    /// The command that installs `package`.
    pub fn install_command(&self, package: &str) -> (r: BoxCommand)
        ensures
            command_view(r) == install_of(BoxKind::Chocolatey, package@),
    {
        install_command(BoxKind::Chocolatey, package)
    }

    /// The command that removes `package`.
    pub fn remove_command(&self, package: &str) -> (r: BoxCommand)
        ensures
            command_view(r) == remove_of(BoxKind::Chocolatey, package@),
    {
        remove_command(BoxKind::Chocolatey, package)
    }

    /// The executor that runs the box's commands.
    pub fn executor(&self) -> (r: &SecureExecutor)
        ensures
            r == &self.executor,
    {
        &self.executor
    }
}

/// The Portage (emerge) box.
pub struct EmergeBox {
    pub executor: SecureExecutor,
}

impl EmergeBox {
    /// A new box.
    pub fn new() -> (r: Result<Self, ExecError>)
        ensures
            r is Ok,
    {
        let executor = SecureExecutor::new()?;
        Ok(EmergeBox { executor })
    }

    /// Which box this is.
    pub fn kind(&self) -> (r: BoxKind)
        ensures
            r == BoxKind::Emerge,
    {
        BoxKind::Emerge
    }

    /// The name of the box.
    pub fn get_name(&self) -> (r: &'static str)
        ensures
            r@ == kind_name(BoxKind::Emerge),
    {
        kind_name_exec(BoxKind::Emerge)
    }

    /// How strongly the box is preferred.
    pub fn get_priority(&self) -> (r: u8)
        ensures
            r == kind_priority(BoxKind::Emerge),
    {
        kind_priority_exec(BoxKind::Emerge)
    }

    /// Whether the box needs administrator rights.
    pub fn needs_privilege(&self) -> (r: bool)
        ensures
            r == kind_privileged(BoxKind::Emerge),
    {
        kind_privileged_exec(BoxKind::Emerge)
    }

    /// The command that installs `package`.
    pub fn install_command(&self, package: &str) -> (r: BoxCommand)
        ensures
            command_view(r) == install_of(BoxKind::Emerge, package@),
    {
        install_command(BoxKind::Emerge, package)
    }

    /// The command that removes `package`.
    pub fn remove_command(&self, package: &str) -> (r: BoxCommand)
        ensures
            command_view(r) == remove_of(BoxKind::Emerge, package@),
    {
        remove_command(BoxKind::Emerge, package)
    }

    /// The executor that runs the box's commands.
    pub fn executor(&self) -> (r: &SecureExecutor)
        ensures
            r == &self.executor,
    {
        &self.executor
    }
}

/// The Nix box.
pub struct NixBox {
    pub executor: SecureExecutor,
}

impl NixBox {
    /// A new box.
    pub fn new() -> (r: Result<Self, ExecError>)
        ensures
            r is Ok,
    {
        let executor = SecureExecutor::new()?;
        Ok(NixBox { executor })
    }

    /// Which box this is.
    pub fn kind(&self) -> (r: BoxKind)
        ensures
            r == BoxKind::Nix,
    {
        BoxKind::Nix
    }

    /// The name of the box.
    pub fn get_name(&self) -> (r: &'static str)
        ensures
            r@ == kind_name(BoxKind::Nix),
    {
        kind_name_exec(BoxKind::Nix)
    }

    /// How strongly the box is preferred.
    pub fn get_priority(&self) -> (r: u8)
        ensures
            r == kind_priority(BoxKind::Nix),
    {
        kind_priority_exec(BoxKind::Nix)
    }

    /// Whether the box needs administrator rights.
    pub fn needs_privilege(&self) -> (r: bool)
        ensures
            r == kind_privileged(BoxKind::Nix),
    {
        kind_privileged_exec(BoxKind::Nix)
    }

    /// The command that installs `package`.
    pub fn install_command(&self, package: &str) -> (r: BoxCommand)
        ensures
            command_view(r) == install_of(BoxKind::Nix, package@),
    {
        install_command(BoxKind::Nix, package)
    }

    /// The command that removes `package`.
    pub fn remove_command(&self, package: &str) -> (r: BoxCommand)
        ensures
            command_view(r) == remove_of(BoxKind::Nix, package@),
    {
        remove_command(BoxKind::Nix, package)
    }

    /// The executor that runs the box's commands.
    pub fn executor(&self) -> (r: &SecureExecutor)
        ensures
            r == &self.executor,
    {
        &self.executor
    }
}

/// The winget box.
pub struct WingetBox {
    pub executor: SecureExecutor,
}

impl WingetBox {
    /// A new box.
    pub fn new() -> (r: Result<Self, ExecError>)
        ensures
            r is Ok,
    {
        let executor = SecureExecutor::new()?;
        Ok(WingetBox { executor })
    }

    /// Which box this is.
    pub fn kind(&self) -> (r: BoxKind)
        ensures
            r == BoxKind::Winget,
    {
        BoxKind::Winget
    }

    /// The name of the box.
    pub fn get_name(&self) -> (r: &'static str)
        ensures
            r@ == kind_name(BoxKind::Winget),
    {
        kind_name_exec(BoxKind::Winget)
    }

    /// How strongly the box is preferred.
    pub fn get_priority(&self) -> (r: u8)
        ensures
            r == kind_priority(BoxKind::Winget),
    {
        kind_priority_exec(BoxKind::Winget)
    }

    /// Whether the box needs administrator rights.
    pub fn needs_privilege(&self) -> (r: bool)
        ensures
            r == kind_privileged(BoxKind::Winget),
    {
        kind_privileged_exec(BoxKind::Winget)
    }

    /// The command that installs `package`.
    pub fn install_command(&self, package: &str) -> (r: BoxCommand)
        ensures
            command_view(r) == install_of(BoxKind::Winget, package@),
    {
        install_command(BoxKind::Winget, package)
    }

    /// The command that removes `package`.
    pub fn remove_command(&self, package: &str) -> (r: BoxCommand)
        ensures
            command_view(r) == remove_of(BoxKind::Winget, package@),
    {
        remove_command(BoxKind::Winget, package)
    }

    /// The executor that runs the box's commands.
    pub fn executor(&self) -> (r: &SecureExecutor)
        ensures
            r == &self.executor,
    {
        &self.executor
    }
}

impl AptManager {
    /// The command that refreshes the package lists before an installation
    /// (whose failure does not stop it).
    pub fn update_command(&self) -> (r: BoxCommand)
        ensures
            command_view(r) == ("apt"@, seq!["update"@], true, 300u64),
    {
        let a = vec![owned("update")];
        assert(texts(a@) =~= seq!["update"@]);
        command("apt", a, true, 300)
    }
}

impl DnfBox {
    /// The command that checks for updates before an installation (whose
    /// failure does not stop it).
    pub fn check_update_command(&self) -> (r: BoxCommand)
        ensures
            command_view(r) == ("dnf"@, seq!["check-update"@], true, 300u64),
    {
        let a = vec![owned("check-update")];
        assert(texts(a@) =~= seq!["check-update"@]);
        command("dnf", a, true, 300)
    }
}

impl NixBox {
    /// The second try at installing `package`, by name.
    pub fn fallback_install_command(&self, package: &str) -> (r: BoxCommand)
        ensures
            command_view(r) == ("nix-env"@, seq!["-i"@, package@], false, 600u64),
    {
        command("nix-env", args2("-i", package), false, 600)
    }

    /// The failure after both tries at installing `package` failed.
    pub fn install_failure(&self, package: &str, primary: &str, fallback: &str) -> (r: OmniError)
        ensures
            failure_view(r) == Some((package@, "nix"@, "Primary: "@ + primary@ + " Fallback: "@ + fallback@)),
    {
        OmniError::InstallationFailed {
            package: owned(package),
            box_type: owned("nix"),
            reason: concat4("Primary: ", primary, " Fallback: ", fallback),
        }
    }
}

/// An installed package as the package database lists it.
#[derive(Debug, Clone)]
pub struct InstalledPackage {
    pub name: String,
    pub version: String,
    pub description: Option<String>,
}

/// The results kept from the lines of an answer, in order, where
/// `f` keeps a line.
pub open spec fn kept(ls: Seq<Seq<char>>, f: spec_fn(Seq<char>) -> Option<Seq<char>>) -> Seq<Seq<char>>
    decreases ls.len(),
{
    if ls.len() == 0 {
        Seq::empty()
    } else {
        kept(ls.drop_last(), f) + match f(ls.last()) {
            Some(x) => seq![x],
            None => Seq::empty(),
        }
    }
}

/// The lines after the first (a header).
pub open spec fn after_header(ls: Seq<Seq<char>>) -> Seq<Seq<char>> {
    if ls.len() == 0 {
        ls
    } else {
        ls.skip(1)
    }
}

/// What a line of `apt search` gives: the package name before the first
/// slash, for every line but the warnings and notes.
pub open spec fn apt_search_line(l: Seq<char>) -> Option<Seq<char>> {
    if has_prefix(l, "WARNING"@) || has_prefix(l, "NOTE"@) {
        None
    } else {
        Some(before_first(l, "/"@))
    }
}

/// What a line of `snap find` or `snap list` gives: its first word.
pub open spec fn first_word_line(l: Seq<char>) -> Option<Seq<char>> {
    if words(l).len() > 0 {
        Some(words(l)[0])
    } else {
        None
    }
}

/// The text that follows `"pname": "` in a line of `nix search --json`, up
/// to the next double quote, on lines that mention `"pname"`.
pub open spec fn nix_json_line(l: Seq<char>) -> Option<Seq<char>> {
    let key = "\"pname\": \""@;
    if !has_sub(l, "\"pname\""@) {
        None
    } else {
        match first_occurrence(l, key) {
            Some(s) => {
                let rest = l.skip(s + key.len());
                match first_occurrence(rest, "\""@) {
                    Some(e) => Some(rest.take(e)),
                    None => None,
                }
            },
            None => None,
        }
    }
}

/// The package name in a line of `nix-env -qaP`: the last dot-separated part
/// of its first word, on lines of two words or more.
pub open spec fn nix_query_line(l: Seq<char>) -> Option<Seq<char>> {
    if words(l).len() >= 2 {
        Some(split_char(words(l)[0], '.').last())
    } else {
        None
    }
}

/// The package name in a line of `nix-env -q`: the trimmed line up to its
/// first hyphen, on lines that are not blank.
pub open spec fn nix_list_line(l: Seq<char>) -> Option<Seq<char>> {
    if trim(l).len() > 0 {
        Some(before_first(trim(l), "-"@))
    } else {
        None
    }
}

/// What a line of `apt search` gives.
fn apt_search_line_exec(l: &Vec<char>) -> (r: Option<Vec<char>>)
    ensures
        match r { Some(v) => apt_search_line(l@) == Some(v@), None => apt_search_line(l@) is None },
{
    let w = chars_of("WARNING");
    let n = chars_of("NOTE");
    if occurs_at_exec(l, &w, 0) || occurs_at_exec(l, &n, 0) {
        None
    } else {
        let slash = chars_of("/");
        Some(before_first_exec(l, &slash))
    }
}

/// What a line of `snap find` or `snap list` gives.
fn first_word_line_exec(l: &Vec<char>) -> (r: Option<Vec<char>>)
    ensures
        match r { Some(v) => first_word_line(l@) == Some(v@), None => first_word_line(l@) is None },
{
    let ws = split_ws(l);
    if ws.len() > 0 {
        assert(char_views(ws@)[0] == ws@[0]@);
        Some(slice_chars(&ws[0], 0, ws[0].len()))
    } else {
        None
    }
}

/// What a line of `nix search --json` gives.
#[verifier::rlimit(50)]
fn nix_json_line_exec(l: &Vec<char>) -> (r: Option<Vec<char>>)
    ensures
        match r { Some(v) => nix_json_line(l@) == Some(v@), None => nix_json_line(l@) is None },
{
    let mention = chars_of("\"pname\"");
    if !contains_seq(l, &mention) {
        return None;
    }
    let key = chars_of("\"pname\": \"");
    let found = find_seq(l, &key);
    match found {
        Some(s) => {
            let kl = key.len();
            let ll = l.len();
            assert(s + kl <= ll);
            let start: usize = s + kl;
            let rest = slice_chars(l, start, ll);
            assert(rest@ =~= l@.skip(start as int));
            let quote = chars_of("\"");
            let f2 = find_seq(&rest, &quote);
            match f2 {
                Some(e) => {
                    let v = slice_chars(&rest, 0, e);
                    assert(v@ =~= rest@.take(e as int));
                    Some(v)
                },
                None => None,
            }
        },
        None => None,
    }
}

/// What a line of `nix-env -qaP` gives.
fn nix_query_line_exec(l: &Vec<char>) -> (r: Option<Vec<char>>)
    ensures
        match r { Some(v) => nix_query_line(l@) == Some(v@), None => nix_query_line(l@) is None },
{
    let ws = split_ws(l);
    if ws.len() >= 2 {
        assert(char_views(ws@)[0] == ws@[0]@);
        let parts = split_on_char(&ws[0], '.');
        proof {
            crate::text::lemma_split_char_nonempty(ws@[0]@, '.');
        }
        let last = &parts[parts.len() - 1];
        Some(slice_chars(last, 0, last.len()))
    } else {
        None
    }
}

/// What a line of `nix-env -q` gives.
fn nix_list_line_exec(l: &Vec<char>) -> (r: Option<Vec<char>>)
    ensures
        match r { Some(v) => nix_list_line(l@) == Some(v@), None => nix_list_line(l@) is None },
{
    let t = trimmed(l);
    if t.len() > 0 {
        let dash = chars_of("-");
        Some(before_first_exec(&t, &dash))
    } else {
        None
    }
}

/// The package names that `apt search` lists.
pub fn apt_search_names(stdout: &str) -> (r: Vec<String>)
    ensures
        texts(r@) == kept(lines(stdout@), |l: Seq<char>| apt_search_line(l)),
{
    let ls = lines_of(stdout);
    let ghost f = |l: Seq<char>| apt_search_line(l);
    let ghost all = lines(stdout@);
    let mut r: Vec<String> = Vec::new();
    let mut i: usize = 0;
    while i < ls.len()
        invariant
            i <= ls@.len(),
            ls@.len() == all.len(),
            all == lines(stdout@),
            f == (|l: Seq<char>| apt_search_line(l)),
            forall|k: int| 0 <= k < ls@.len() ==> #[trigger] ls@[k]@ == all[k],
            texts(r@) == kept(all.take(i as int), f),
        decreases ls.len() - i,
    {
        assert(all.take(i + 1).drop_last() =~= all.take(i as int));
        assert(all.take(i + 1).last() == ls@[i as int]@);
        let ghost before = texts(r@);
        match apt_search_line_exec(&ls[i]) {
            Some(v) => {
                r.push(string_from_chars(&v));
                assert(texts(r@) =~= before + seq![v@]);
            },
            None => {
                assert(texts(r@) =~= before + Seq::<Seq<char>>::empty());
            },
        }
        i = i + 1;
    }
    assert(all.take(ls@.len() as int) =~= all);
    r
}

/// The names that `snap find` or `snap list` lists: the first word of each
/// line after the header.
pub fn snap_names(stdout: &str) -> (r: Vec<String>)
    ensures
        texts(r@) == kept(after_header(lines(stdout@)), |l: Seq<char>| first_word_line(l)),
{
    let ls = lines_of(stdout);
    let ghost f = |l: Seq<char>| first_word_line(l);
    let ghost all = after_header(lines(stdout@));
    let mut r: Vec<String> = Vec::new();
    if ls.len() == 0 {
        assert(all =~= Seq::<Seq<char>>::empty());
        assert(texts(r@) =~= kept(all, f));
        return r;
    }
    let mut i: usize = 1;
    assert(all.take(0) =~= Seq::<Seq<char>>::empty());
    while i < ls.len()
        invariant
            1 <= i <= ls@.len(),
            ls@.len() == lines(stdout@).len(),
            all == after_header(lines(stdout@)),
            f == (|l: Seq<char>| first_word_line(l)),
            forall|k: int| 0 <= k < ls@.len() ==> #[trigger] ls@[k]@ == lines(stdout@)[k],
            texts(r@) == kept(all.take(i - 1), f),
        decreases ls.len() - i,
    {
        assert(all.take(i as int).drop_last() =~= all.take(i - 1));
        assert(all.take(i as int).last() == ls@[i as int]@);
        let ghost before = texts(r@);
        match first_word_line_exec(&ls[i]) {
            Some(v) => {
                r.push(string_from_chars(&v));
                assert(texts(r@) =~= before + seq![v@]);
            },
            None => {
                assert(texts(r@) =~= before + Seq::<Seq<char>>::empty());
            },
        }
        i = i + 1;
    }
    assert(all.take(ls@.len() - 1) =~= all);
    r
}

/// The package names that `nix search --json` lists.
pub fn nix_json_names(stdout: &str) -> (r: Vec<String>)
    ensures
        texts(r@) == kept(lines(stdout@), |l: Seq<char>| nix_json_line(l)),
{
    let ls = lines_of(stdout);
    let ghost f = |l: Seq<char>| nix_json_line(l);
    let ghost all = lines(stdout@);
    let mut r: Vec<String> = Vec::new();
    let mut i: usize = 0;
    while i < ls.len()
        invariant
            i <= ls@.len(),
            ls@.len() == all.len(),
            all == lines(stdout@),
            f == (|l: Seq<char>| nix_json_line(l)),
            forall|k: int| 0 <= k < ls@.len() ==> #[trigger] ls@[k]@ == all[k],
            texts(r@) == kept(all.take(i as int), f),
        decreases ls.len() - i,
    {
        assert(all.take(i + 1).drop_last() =~= all.take(i as int));
        assert(all.take(i + 1).last() == ls@[i as int]@);
        let ghost before = texts(r@);
        match nix_json_line_exec(&ls[i]) {
            Some(v) => {
                r.push(string_from_chars(&v));
                assert(texts(r@) =~= before + seq![v@]);
            },
            None => {
                assert(texts(r@) =~= before + Seq::<Seq<char>>::empty());
            },
        }
        i = i + 1;
    }
    assert(all.take(ls@.len() as int) =~= all);
    r
}

/// The package names that `nix-env -qaP` lists.
pub fn nix_query_names(stdout: &str) -> (r: Vec<String>)
    ensures
        texts(r@) == kept(lines(stdout@), |l: Seq<char>| nix_query_line(l)),
{
    let ls = lines_of(stdout);
    let ghost f = |l: Seq<char>| nix_query_line(l);
    let ghost all = lines(stdout@);
    let mut r: Vec<String> = Vec::new();
    let mut i: usize = 0;
    while i < ls.len()
        invariant
            i <= ls@.len(),
            ls@.len() == all.len(),
            all == lines(stdout@),
            f == (|l: Seq<char>| nix_query_line(l)),
            forall|k: int| 0 <= k < ls@.len() ==> #[trigger] ls@[k]@ == all[k],
            texts(r@) == kept(all.take(i as int), f),
        decreases ls.len() - i,
    {
        assert(all.take(i + 1).drop_last() =~= all.take(i as int));
        assert(all.take(i + 1).last() == ls@[i as int]@);
        let ghost before = texts(r@);
        match nix_query_line_exec(&ls[i]) {
            Some(v) => {
                r.push(string_from_chars(&v));
                assert(texts(r@) =~= before + seq![v@]);
            },
            None => {
                assert(texts(r@) =~= before + Seq::<Seq<char>>::empty());
            },
        }
        i = i + 1;
    }
    assert(all.take(ls@.len() as int) =~= all);
    r
}

/// The package names that `nix-env -q` lists.
pub fn nix_installed_names(stdout: &str) -> (r: Vec<String>)
    ensures
        texts(r@) == kept(lines(stdout@), |l: Seq<char>| nix_list_line(l)),
{
    let ls = lines_of(stdout);
    let ghost f = |l: Seq<char>| nix_list_line(l);
    let ghost all = lines(stdout@);
    let mut r: Vec<String> = Vec::new();
    let mut i: usize = 0;
    while i < ls.len()
        invariant
            i <= ls@.len(),
            ls@.len() == all.len(),
            all == lines(stdout@),
            f == (|l: Seq<char>| nix_list_line(l)),
            forall|k: int| 0 <= k < ls@.len() ==> #[trigger] ls@[k]@ == all[k],
            texts(r@) == kept(all.take(i as int), f),
        decreases ls.len() - i,
    {
        assert(all.take(i + 1).drop_last() =~= all.take(i as int));
        assert(all.take(i + 1).last() == ls@[i as int]@);
        let ghost before = texts(r@);
        match nix_list_line_exec(&ls[i]) {
            Some(v) => {
                r.push(string_from_chars(&v));
                assert(texts(r@) =~= before + seq![v@]);
            },
            None => {
                assert(texts(r@) =~= before + Seq::<Seq<char>>::empty());
            },
        }
        i = i + 1;
    }
    assert(all.take(ls@.len() as int) =~= all);
    r
}

/// The step after the first search of nix.
#[derive(Debug)]
pub enum NixSearch {
    /// These packages were found.
    Found(Vec<String>),
    /// Nothing was read from the JSON answer: search again with `nix-env`.
    Fallback,
}

/// What the first search of nix gave: nothing where it failed; the names
/// read from its JSON answer where there are some; otherwise a second
/// search is due.
pub fn nix_search_step(exit_code: i32, stdout: &str) -> (r: NixSearch)
    ensures
        exit_code != 0 ==> (r matches NixSearch::Found(v) && v@.len() == 0),
        exit_code == 0 ==> match r {
            NixSearch::Found(v) => texts(v@) == kept(lines(stdout@), |l: Seq<char>| nix_json_line(l)) && v@.len() > 0,
            NixSearch::Fallback => kept(lines(stdout@), |l: Seq<char>| nix_json_line(l)).len() == 0,
        },
{
    if exit_code != 0 {
        return NixSearch::Found(Vec::new());
    }
    let names = nix_json_names(stdout);
    if names.len() == 0 {
        NixSearch::Fallback
    } else {
        NixSearch::Found(names)
    }
}

/// The command of the first search of nix.
pub fn nix_search_command(query: &str) -> (r: BoxCommand)
    ensures
        command_view(r) == ("nix"@, seq!["search"@, "nixpkgs"@, query@, "--json"@], false, 60u64),
{
    command("nix", args4("search", "nixpkgs", query, "--json"), false, 60)
}

/// The command of the second search of nix.
pub fn nix_fallback_search_command(query: &str) -> (r: BoxCommand)
    ensures
        command_view(r) == ("nix-env"@, seq!["-qaP"@, query@], false, 60u64),
{
    command("nix-env", args2("-qaP", query), false, 60)
}

/// A line of `dpkg-query` (name, version and status separated by tabs)
/// names an installed package when its status says so.
pub open spec fn dpkg_line(l: Seq<char>) -> Option<(Seq<char>, Seq<char>)> {
    let parts = split_char(l, '\t');
    if parts.len() >= 3 && has_sub(parts[2], "installed"@) {
        Some((parts[0], parts[1]))
    } else {
        None
    }
}

/// The installed packages among the lines.
pub open spec fn dpkg_packages(ls: Seq<Seq<char>>) -> Seq<(Seq<char>, Seq<char>)>
    decreases ls.len(),
{
    if ls.len() == 0 {
        Seq::empty()
    } else {
        dpkg_packages(ls.drop_last()) + match dpkg_line(ls.last()) {
            Some(p) => seq![p],
            None => Seq::empty(),
        }
    }
}

/// Installed packages as plain values.
pub open spec fn installed_views(v: Seq<InstalledPackage>) -> Seq<(Seq<char>, Seq<char>)> {
    v.map_values(|p: InstalledPackage| (p.name@, p.version@))
}

/// The installed packages that `dpkg-query` lists (without descriptions).
pub fn dpkg_installed(stdout: &str) -> (r: Vec<InstalledPackage>)
    ensures
        installed_views(r@) == dpkg_packages(lines(stdout@)),
        forall|k: int| 0 <= k < r@.len() ==> (#[trigger] r@[k]).description is None,
{
    let ls = lines_of(stdout);
    let ghost all = lines(stdout@);
    let mut r: Vec<InstalledPackage> = Vec::new();
    let mut i: usize = 0;
    while i < ls.len()
        invariant
            i <= ls@.len(),
            ls@.len() == all.len(),
            all == lines(stdout@),
            forall|k: int| 0 <= k < ls@.len() ==> #[trigger] ls@[k]@ == all[k],
            installed_views(r@) == dpkg_packages(all.take(i as int)),
            forall|k: int| 0 <= k < r@.len() ==> (#[trigger] r@[k]).description is None,
        decreases ls.len() - i,
    {
        assert(all.take(i + 1).drop_last() =~= all.take(i as int));
        assert(all.take(i + 1).last() == ls@[i as int]@);
        let ghost before = installed_views(r@);
        let parts = split_on_char(&ls[i], '\t');
        let inst = chars_of("installed");
        if parts.len() >= 3 && contains_seq(&parts[2], &inst) {
            let p = InstalledPackage {
                name: string_from_chars(&parts[0]),
                version: string_from_chars(&parts[1]),
                description: None,
            };
            r.push(p);
            assert(installed_views(r@) =~= before + seq![(parts@[0]@, parts@[1]@)]);
        } else {
            assert(installed_views(r@) =~= before + Seq::<(Seq<char>, Seq<char>)>::empty());
        }
        i = i + 1;
    }
    assert(all.take(ls@.len() as int) =~= all);
    r
}

/// The Scoop box, which runs its program directly.
pub struct ScoopBox {}

impl ScoopBox {
    /// A new box.
    pub fn new() -> (r: Result<Self, ExecError>)
        ensures
            r is Ok,
    {
        Ok(ScoopBox {})
    }

    /// The name of the box.
    pub fn get_name(&self) -> (r: &'static str)
        ensures
            r@ == "scoop"@,
    {
        "scoop"
    }

    /// How strongly the box is preferred.
    pub fn get_priority(&self) -> (r: u8)
        ensures
            r == 60,
    {
        60
    }

    /// Scoop needs no administrator rights.
    pub fn needs_privilege(&self) -> (r: bool)
        ensures
            !r,
    {
        false
    }

    /// The arguments that install `package`.
    pub fn install_args(&self, package: &str) -> (r: Vec<String>)
        ensures
            texts(r@) == seq!["install"@, package@],
    {
        args2("install", package)
    }

    /// The arguments that remove `package`.
    pub fn remove_args(&self, package: &str) -> (r: Vec<String>)
        ensures
            texts(r@) == seq!["uninstall"@, package@],
    {
        args2("uninstall", package)
    }

    /// The complaint when an installation fails.
    pub fn install_failure(&self, stderr: &str) -> (r: String)
        ensures
            r@ == "scoop install failed: "@ + stderr@,
    {
        concat2("scoop install failed: ", stderr)
    }
}

/// What `char::is_numeric` says of a character.
pub uninterp spec fn unicode_numeric(c: char) -> bool;

/// `char::is_numeric`: whether the character is a number (general category
/// Nd, Nl or No); the decimal digits are. The result is named by
/// `unicode_numeric`.
#[verifier::external_body]
fn is_numeric_char(c: char) -> (r: bool)
    ensures
        r == unicode_numeric(c),
        '0' <= c <= '9' ==> r,
{
    c.is_numeric()
}

/// The Mac App Store box.
pub struct MasBox {}

/// How an App Store installation goes on.
#[derive(Debug)]
pub enum MasInstall {
    /// Install the app with this identifier.
    Install(String),
    /// The search failed or found nothing; the complaint.
    Refused(String),
}

/// A number character: among ASCII characters the decimal digits (where
/// `char::is_numeric` agrees), beyond ASCII what `char::is_numeric` says.
pub open spec fn number_char(c: char) -> bool {
    if c <= '\u{7f}' {
        '0' <= c && c <= '9'
    } else {
        unicode_numeric(c)
    }
}

/// A name made of numbers only is an App Store identifier.
pub open spec fn is_app_id(p: Seq<char>) -> bool {
    forall|i: int| 0 <= i < p.len() ==> number_char(#[trigger] p[i])
}

/// Whether the character is a number.
fn number_char_exec(c: char) -> (r: bool)
    ensures
        r == number_char(c),
{
    if c <= '\u{7f}' {
        '0' <= c && c <= '9'
    } else {
        is_numeric_char(c)
    }
}

impl MasBox {
    /// A new box.
    pub fn new() -> (r: Result<Self, ExecError>)
        ensures
            r is Ok,
    {
        Ok(MasBox {})
    }

    /// The name of the box.
    pub fn get_name(&self) -> (r: &'static str)
        ensures
            r@ == "mas"@,
    {
        "mas"
    }

    /// How strongly the box is preferred.
    pub fn get_priority(&self) -> (r: u8)
        ensures
            r == 60,
    {
        60
    }

    /// The App Store needs no administrator rights.
    pub fn needs_privilege(&self) -> (r: bool)
        ensures
            !r,
    {
        false
    }

    /// Whether `package` is an App Store identifier (all its characters are
    /// numbers), so that it is installed without a search.
    pub fn is_app_id(&self, package: &str) -> (r: bool)
        ensures
            r == is_app_id(package@),
    {
        let v = chars_of(package);
        let mut i: usize = 0;
        while i < v.len()
            invariant
                i <= v@.len(),
                v@ == package@,
                forall|k: int| 0 <= k < i ==> number_char(#[trigger] v@[k]),
            decreases v.len() - i,
        {
            if !number_char_exec(v[i]) {
                return false;
            }
            i = i + 1;
        }
        true
    }

    /// The app to install for a name, from the search for it (`None` where
    /// the search failed): the first word of the first line of the answer.
    pub fn install_target(&self, package: &str, search_output: Option<&str>) -> (r: MasInstall)
        ensures
            match search_output {
                None => r matches MasInstall::Refused(m) && m@ == "Search failed for: "@ + package@,
                Some(out) => if lines(out@).len() > 0 && words(lines(out@)[0]).len() > 0 {
                    r matches MasInstall::Install(id) && id@ == words(lines(out@)[0])[0]
                } else {
                    r matches MasInstall::Refused(m) && m@ == "No app found for: "@ + package@
                },
            },
    {
        match search_output {
            None => MasInstall::Refused(concat2("Search failed for: ", package)),
            Some(out) => {
                let ls = lines_of(out);
                if ls.len() > 0 {
                    let ws = split_ws(&ls[0]);
                    if ws.len() > 0 {
                        assert(char_views(ws@)[0] == ws@[0]@);
                        return MasInstall::Install(string_from_chars(&ws[0]));
                    }
                }
                MasInstall::Refused(concat2("No app found for: ", package))
            },
        }
    }

    /// Apps are not removed through the App Store.
    pub fn remove_refusal(&self) -> (r: String)
        ensures
            r@ == "mas doesn't support uninstalling apps. Use Finder to delete apps manually."@,
    {
        owned("mas doesn't support uninstalling apps. Use Finder to delete apps manually.")
    }

    /// The complaint when an installation fails.
    pub fn install_failure(&self, stderr: &str) -> (r: String)
        ensures
            r@ == "mas install failed: "@ + stderr@,
    {
        concat2("mas install failed: ", stderr)
    }
}

} // verus!
