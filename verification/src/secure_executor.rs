//! The allow-list of commands and flags that may be run, and the checks
//! that arguments pass before a command runs.
use vstd::prelude::*;
use core::time::Duration;
use std::collections::HashMap;
use crate::keyed::{key_in, keys_unique, lemma_absent, lemma_push_new, lemma_update_value, lemma_value_at, value_of};
use crate::text::{byte_count, byte_len, chars_of, has_prefix, has_sub, owned, owned_all, seq_has_char, str_contains, text_eq, texts};

verus! {

/// What `Duration::from_secs` returns for a number of seconds.
pub uninterp spec fn duration_from_secs(secs: u64) -> Duration;

/// `Duration::from_secs`. Its result is named by `duration_from_secs`.
#[verifier::external_body]
pub(crate) fn seconds(secs: u64) -> (r: Duration)
    ensures
        r == duration_from_secs(secs),
{
    Duration::from_secs(secs)
}

/// How a command is to be run.
pub struct ExecutionConfig {
    pub requires_sudo: bool,
    pub timeout: Duration,
    pub allow_network: bool,
    pub working_directory: Option<String>,
    pub environment_vars: HashMap<String, String>,
}

impl ExecutionConfig {
    /// No sudo, a 30 second timeout, network allowed, the current directory
    /// and no extra environment.
    pub fn default() -> (r: Self)
        ensures
            r.requires_sudo == false,
            r.timeout == duration_from_secs(30),
            r.allow_network == true,
            r.working_directory is None,
            r.environment_vars@ == Map::<String, String>::empty(),
    {
        ExecutionConfig {
            requires_sudo: false,
            timeout: seconds(30),
            allow_network: true,
            working_directory: None,
            environment_vars: HashMap::new(),
        }
    }

    /// The default configuration with the given sudo need and timeout.
    pub fn with_timeout(requires_sudo: bool, timeout_secs: u64) -> (r: Self)
        ensures
            r.requires_sudo == requires_sudo,
            r.timeout == duration_from_secs(timeout_secs),
            r.allow_network == true,
            r.working_directory is None,
            r.environment_vars@ == Map::<String, String>::empty(),
    {
        ExecutionConfig {
            requires_sudo,
            timeout: seconds(timeout_secs),
            allow_network: true,
            working_directory: None,
            environment_vars: HashMap::new(),
        }
    }
}

/// What running a command gave.
pub struct ExecutionResult {
    pub stdout: String,
    pub stderr: String,
    pub exit_code: i32,
    pub execution_time: Duration,
}

/// Why a command was refused before it ran.
#[derive(Debug)]
pub enum ExecError {
    /// The command is not on the allow-list.
    CommandNotAllowed(String),
    /// The flag (first) is not allowed for the command (second).
    ArgumentNotAllowed(String, String),
    /// The argument holds `;`, `|`, `&` or a backtick.
    DangerousCharacters(String),
    /// The argument holds `$(` or `${`.
    CommandSubstitution(String),
    /// The argument holds `../` or `..\`.
    PathTraversal(String),
    /// The argument is longer than 1024 bytes.
    ArgumentTooLong(String),
}

/// An `ExecError` with its texts as character sequences.
pub enum ExecIssue {
    CommandNotAllowed(Seq<char>),
    ArgumentNotAllowed(Seq<char>, Seq<char>),
    DangerousCharacters(Seq<char>),
    CommandSubstitution(Seq<char>),
    PathTraversal(Seq<char>),
    ArgumentTooLong(Seq<char>),
}

impl View for ExecError {
    type V = ExecIssue;

    open spec fn view(&self) -> ExecIssue {
        match self {
            ExecError::CommandNotAllowed(c) => ExecIssue::CommandNotAllowed(c@),
            ExecError::ArgumentNotAllowed(a, c) => ExecIssue::ArgumentNotAllowed(a@, c@),
            ExecError::DangerousCharacters(a) => ExecIssue::DangerousCharacters(a@),
            ExecError::CommandSubstitution(a) => ExecIssue::CommandSubstitution(a@),
            ExecError::PathTraversal(a) => ExecIssue::PathTraversal(a@),
            ExecError::ArgumentTooLong(a) => ExecIssue::ArgumentTooLong(a@),
        }
    }
}

/// The outcome of a check, with texts as character sequences.
pub open spec fn exec_outcome<T>(r: Result<T, ExecError>) -> Result<(), ExecIssue> {
    match r {
        Ok(_) => Ok(()),
        Err(e) => Err(e@),
    }
}

/// The allow-list a new executor starts with: each command with the flags
/// it may take.
pub open spec fn default_allow_list() -> Seq<(Seq<char>, Seq<Seq<char>>)> {
    seq![
        ("apt"@, seq!["install"@, "remove"@, "update"@, "upgrade"@, "search"@, "show"@]),
        ("dnf"@, seq!["install"@, "remove"@, "update"@, "check-update"@, "search"@, "info"@, "makecache"@]),
        ("pacman"@, seq!["-S"@, "-R"@, "-Sy"@, "-Syu"@, "-Ss"@, "-Si"@]),
        ("snap"@, seq!["install"@, "remove"@, "refresh"@, "find"@, "info"@, "list"@]),
        ("flatpak"@, seq!["install"@, "uninstall"@, "update"@, "search"@, "info"@, "list"@]),
        ("wget"@, seq!["-O"@, "-q"@, "--timeout"@]),
        ("curl"@, seq!["-o"@, "-s"@, "--max-time"@, "-L"@]),
        ("gpg"@, seq!["--import"@, "--verify"@, "--keyserver"@]),
        ("lspci"@, seq!["-nn"@, "-v"@]),
        ("lsusb"@, seq!["-v"@]),
        ("dmidecode"@, seq!["-s"@, "-t"@]),
    ]
}

/// What the command check finds for the arguments from index `k` on, given
/// the flags the command allows: the first flag (an argument starting with
/// `-`) that is not allowed.
pub open spec fn flags_outcome(cmd: Seq<char>, allowed: Seq<Seq<char>>, args: Seq<&str>, k: int) -> Result<(), ExecIssue>
    decreases args.len() - k,
{
    if k < 0 || k >= args.len() {
        Ok(())
    } else if has_prefix(args[k]@, "-"@) && !allowed.contains(args[k]@) {
        Err(ExecIssue::ArgumentNotAllowed(args[k]@, cmd))
    } else {
        flags_outcome(cmd, allowed, args, k + 1)
    }
}

/// What sanitising finds wrong with one argument, if anything.
pub open spec fn sanitize_issue(a: Seq<char>) -> Option<ExecIssue> {
    if a.contains(';') || a.contains('|') || a.contains('&') || a.contains('`') {
        Some(ExecIssue::DangerousCharacters(a))
    } else if has_sub(a, "$("@) || has_sub(a, "${"@) {
        Some(ExecIssue::CommandSubstitution(a))
    } else if has_sub(a, "../"@) || has_sub(a, "..\\"@) {
        Some(ExecIssue::PathTraversal(a))
    } else if byte_len(a) > 1024 {
        Some(ExecIssue::ArgumentTooLong(a))
    } else {
        None
    }
}

/// What sanitising finds for the arguments from index `k` on.
pub open spec fn sanitize_outcome(args: Seq<&str>, k: int) -> Result<(), ExecIssue>
    decreases args.len() - k,
{
    if k < 0 || k >= args.len() {
        Ok(())
    } else {
        match sanitize_issue(args[k]@) {
            Some(e) => Err(e),
            None => sanitize_outcome(args, k + 1),
        }
    }
}

/// A command with the flags it may take.
pub struct AllowedCommand {
    pub command: String,
    pub flags: Vec<String>,
}

/// Runs only allow-listed commands with allow-listed flags.
pub struct SecureExecutor {
    allowed_commands: Vec<AllowedCommand>,
}

/// A command entry from texts.
fn entry(command: &str, flags: Vec<&str>) -> (r: AllowedCommand)
    ensures
        r.command@ == command@,
        texts(r.flags@) == Seq::new(flags@.len(), |i: int| flags@[i]@),
{
    AllowedCommand { command: owned(command), flags: owned_all(&flags) }
}

impl SecureExecutor {
    /// The allow-list, as commands and flags.
    pub closed spec fn allow_list(&self) -> Seq<(Seq<char>, Seq<Seq<char>>)> {
        Seq::new(
            self.allowed_commands@.len(),
            |i: int| (self.allowed_commands@[i].command@, texts(self.allowed_commands@[i].flags@)),
        )
    }

    /// The flags allowed for a command, where it is allowed at all.
    pub open spec fn flags_for(&self, command: Seq<char>) -> Option<Seq<Seq<char>>> {
        value_of(self.allow_list(), command)
    }

    /// No command is listed twice.
    pub closed spec fn wf(&self) -> bool {
        keys_unique(self.allow_list())
    }

    /// An executor with the default allow-list of package managers, download
    /// tools and hardware probes.
    pub fn new() -> (r: Result<Self, ExecError>)
        ensures
            r matches Ok(e) && e.wf() && e.allow_list() == default_allow_list(),
    {
        let mut v: Vec<AllowedCommand> = Vec::new();
        v.push(entry("apt", vec!["install", "remove", "update", "upgrade", "search", "show"]));
        v.push(entry("dnf", vec!["install", "remove", "update", "check-update", "search", "info", "makecache"]));
        v.push(entry("pacman", vec!["-S", "-R", "-Sy", "-Syu", "-Ss", "-Si"]));
        v.push(entry("snap", vec!["install", "remove", "refresh", "find", "info", "list"]));
        v.push(entry("flatpak", vec!["install", "uninstall", "update", "search", "info", "list"]));
        v.push(entry("wget", vec!["-O", "-q", "--timeout"]));
        v.push(entry("curl", vec!["-o", "-s", "--max-time", "-L"]));
        v.push(entry("gpg", vec!["--import", "--verify", "--keyserver"]));
        v.push(entry("lspci", vec!["-nn", "-v"]));
        v.push(entry("lsusb", vec!["-v"]));
        v.push(entry("dmidecode", vec!["-s", "-t"]));
        let e = SecureExecutor { allowed_commands: v };
        proof {
            let l = default_allow_list();
            let a = e.allow_list();
            assert forall|i: int| 0 <= i < l.len() implies a[i] == l[i] by {
                assert(a[i].1 =~= l[i].1);
            }
        }
        assert(e.allow_list() =~= default_allow_list());
        proof {
            reveal_strlit("apt");
            reveal_strlit("dnf");
            reveal_strlit("pacman");
            reveal_strlit("snap");
            reveal_strlit("flatpak");
            reveal_strlit("wget");
            reveal_strlit("curl");
            reveal_strlit("gpg");
            reveal_strlit("lspci");
            reveal_strlit("lsusb");
            reveal_strlit("dmidecode");
            let l = default_allow_list();
            assert forall|i: int, j: int| 0 <= i < j < l.len() implies (#[trigger] l[i]).0 != (#[trigger] l[j]).0 by {
                assert(l[i].0.len() != l[j].0.len() || l[i].0[0] != l[j].0[0] || l[i].0[1] != l[j].0[1]
                    || l[i].0[2] != l[j].0[2] || l[i].0[3] != l[j].0[3] || l[i].0[4] != l[j].0[4]);
            }
        }
        Ok(e)
    }

    /// The index of a command's entry.
    fn find(&self, command: &str) -> (r: Option<usize>)
        requires
            self.wf(),
        ensures
            match r {
                Some(i) => i < self.allow_list().len() && self.allow_list()[i as int].0 == command@
                    && self.flags_for(command@) == Some(self.allow_list()[i as int].1),
                None => self.flags_for(command@) is None && !key_in(self.allow_list(), command@),
            },
    {
        let mut i: usize = 0;
        while i < self.allowed_commands.len()
            invariant
                i <= self.allowed_commands@.len(),
                keys_unique(self.allow_list()),
                forall|j: int| 0 <= j < i ==> self.allow_list()[j].0 != command@,
            decreases self.allowed_commands.len() - i,
        {
            if text_eq(self.allowed_commands[i].command.as_str(), command) {
                proof {
                    lemma_value_at(self.allow_list(), command@, i as int);
                }
                return Some(i);
            }
            i = i + 1;
        }
        proof {
            lemma_absent(self.allow_list(), command@);
        }
        None
    }

    /// Add a new allowed command with its permitted flags, replacing any
    /// flags it had.
    pub fn add_allowed_command(&mut self, command: String, allowed_args: Vec<String>)
        requires
            old(self).wf(),
        ensures
            final(self).wf(),
            final(self).flags_for(command@) == Some(texts(allowed_args@)),
            forall|c: Seq<char>| c != command@ ==> final(self).flags_for(c) == old(self).flags_for(c),
    {
        let ghost e = self.allow_list();
        let ghost cv = command@;
        let ghost av = texts(allowed_args@);
        match self.find(command.as_str()) {
            Some(i) => {
                self.allowed_commands.set(i, AllowedCommand { command, flags: allowed_args });
                proof {
                    assert(self.allow_list() =~= e.update(i as int, (e[i as int].0, av)));
                    lemma_update_value(e, i as int, av, cv);
                    assert forall|c: Seq<char>| c != cv implies self.flags_for(c) == value_of(e, c) by {
                        lemma_update_value(e, i as int, av, c);
                    }
                }
            },
            None => {
                self.allowed_commands.push(AllowedCommand { command, flags: allowed_args });
                proof {
                    assert(self.allow_list() =~= e.push((cv, av)));
                    lemma_push_new(e, (cv, av), cv);
                    assert forall|c: Seq<char>| c != cv implies self.flags_for(c) == value_of(e, c) by {
                        lemma_push_new(e, (cv, av), c);
                    }
                }
            },
        }
    }

    /// Check if a command is allowed.
    pub fn is_command_allowed(&self, command: &str) -> (r: bool)
        requires
            self.wf(),
        ensures
            r == self.flags_for(command@) is Some,
    {
        self.find(command).is_some()
    }

    /// Checks that the command is allowed and that every flag among the
    /// arguments is allowed for it.
    pub fn validate_command(&self, command: &str, args: &[&str]) -> (r: Result<(), ExecError>)
        requires
            self.wf(),
        ensures
            exec_outcome(r) == match self.flags_for(command@) {
                None => Err(ExecIssue::CommandNotAllowed(command@)),
                Some(allowed) => flags_outcome(command@, allowed, args@, 0),
            },
    {
        let idx = match self.find(command) {
            None => {
                return Err(ExecError::CommandNotAllowed(owned(command)));
            },
            Some(i) => i,
        };
        let flags = &self.allowed_commands[idx].flags;
        let ghost allowed = texts(flags@);
        assert(self.flags_for(command@) == Some(allowed));
        let mut k: usize = 0;
        while k < args.len()
            invariant
                k <= args@.len(),
                allowed == texts(flags@),
                self.flags_for(command@) == Some(allowed),
                flags_outcome(command@, allowed, args@, 0) == flags_outcome(command@, allowed, args@, k as int),
            decreases args.len() - k,
        {
            let arg = args[k];
            if str_contains_prefix_dash(arg) {
                let mut found = false;
                let mut j: usize = 0;
                while j < flags.len()
                    invariant
                        j <= flags@.len(),
                        allowed == texts(flags@),
                        found <==> exists|m: int| 0 <= m < j && flags@[m]@ == arg@,
                    decreases flags.len() - j,
                {
                    if text_eq(flags[j].as_str(), arg) {
                        found = true;
                    }
                    j = j + 1;
                }
                proof {
                    if allowed.contains(arg@) {
                        let m = choose|m: int| 0 <= m < allowed.len() && allowed[m] == arg@;
                        assert(flags@[m]@ == arg@);
                    }
                    if found {
                        let m = choose|m: int| 0 <= m < flags@.len() && flags@[m]@ == arg@;
                        assert(allowed[m] == arg@);
                    }
                }
                if !found {
                    return Err(ExecError::ArgumentNotAllowed(owned(arg), owned(command)));
                }
            }
            k = k + 1;
        }
        Ok(())
    }

    /// Checks every argument against shell injection and path traversal,
    /// and returns owned copies of them.
    pub fn sanitize_arguments(&self, args: &[&str]) -> (r: Result<Vec<String>, ExecError>)
        ensures
            exec_outcome(r) == sanitize_outcome(args@, 0),
            r matches Ok(v) ==> texts(v@) == Seq::new(args@.len(), |i: int| args@[i]@),
    {
        let mut out: Vec<String> = Vec::new();
        let mut k: usize = 0;
        while k < args.len()
            invariant
                k <= args@.len(),
                sanitize_outcome(args@, 0) == sanitize_outcome(args@, k as int),
                texts(out@) == Seq::new(k as nat, |i: int| args@[i]@),
            decreases args.len() - k,
        {
            let arg = args[k];
            let v = chars_of(arg);
            if seq_has_char(&v, ';') || seq_has_char(&v, '|') || seq_has_char(&v, '&') || seq_has_char(&v, '`') {
                return Err(ExecError::DangerousCharacters(owned(arg)));
            }
            if str_contains(arg, "$(") || str_contains(arg, "${") {
                return Err(ExecError::CommandSubstitution(owned(arg)));
            }
            if str_contains(arg, "../") || str_contains(arg, "..\\") {
                return Err(ExecError::PathTraversal(owned(arg)));
            }
            if byte_count(arg) > 1024 {
                return Err(ExecError::ArgumentTooLong(owned(arg)));
            }
            let ghost prev = out@;
            assert(prev.len() == texts(prev).len());
            let x = owned(arg);
            out.push(x);
            assert(out@ == prev.push(x));
            assert forall|i: int| 0 <= i < k implies texts(out@)[i] == args@[i]@ by {
                assert(out@[i] == prev[i]);
                assert(texts(prev)[i] == Seq::new(k as nat, |j: int| args@[j]@)[i]);
            }
            assert(texts(out@) =~= Seq::new((k + 1) as nat, |i: int| args@[i]@));
            k = k + 1;
        }
        Ok(out)
    }
}

impl SecureExecutor {
    /// What `validate_command` finds for a command and its arguments.
    pub open spec fn validation_outcome(&self, command: Seq<char>, args: Seq<&str>) -> Result<(), ExecIssue> {
        match self.flags_for(command) {
            None => Err(ExecIssue::CommandNotAllowed(command)),
            Some(allowed) => flags_outcome(command, allowed, args, 0),
        }
    }

    /// The checks made before a package command runs: the command and its
    /// flags are validated against the allow-list, then every argument is
    /// sanitised. The first refusal is returned; when both pass, the
    /// arguments to run the command with, unchanged.
    pub fn prepare_command(&self, command: &str, args: &[&str]) -> (r: Result<Vec<String>, ExecError>)
        requires
            self.wf(),
        ensures
            exec_outcome(r) == match self.validation_outcome(command@, args@) {
                Err(e) => Err(e),
                Ok(()) => sanitize_outcome(args@, 0),
            },
            r matches Ok(v) ==> texts(v@) == Seq::new(args@.len(), |i: int| args@[i]@),
    {
        match self.validate_command(command, args) {
            Err(e) => Err(e),
            Ok(()) => self.sanitize_arguments(args),
        }
    }
}

/// Whether the text starts with `-`.
fn str_contains_prefix_dash(s: &str) -> (r: bool)
    ensures
        r == has_prefix(s@, "-"@),
{
    crate::text::str_starts_with(s, "-")
}

impl ExecError {
    /// The message that reports this error.
    pub fn message(&self) -> (r: String)
        ensures
            r@ == match self {
                ExecError::CommandNotAllowed(c) => "Command '"@ + c@ + "' not in allowed list"@,
                ExecError::ArgumentNotAllowed(a, c) => "Argument '"@ + a@ + "' not allowed for command '"@ + c@ + "'"@,
                ExecError::DangerousCharacters(a) => "Dangerous characters found in argument: "@ + a@,
                ExecError::CommandSubstitution(a) => "Command substitution not allowed in argument: "@ + a@,
                ExecError::PathTraversal(a) => "Path traversal not allowed in argument: "@ + a@,
                ExecError::ArgumentTooLong(a) => "Argument too long: "@ + a@,
            },
    {
        match self {
            ExecError::CommandNotAllowed(c) => crate::text::concat3("Command '", c.as_str(), "' not in allowed list"),
            ExecError::ArgumentNotAllowed(a, c) => {
                let mut r = crate::text::concat3("Argument '", a.as_str(), "' not allowed for command '");
                crate::text::append_str(&mut r, c.as_str());
                crate::text::append_str(&mut r, "'");
                r
            },
            ExecError::DangerousCharacters(a) => crate::text::concat2("Dangerous characters found in argument: ", a.as_str()),
            ExecError::CommandSubstitution(a) => crate::text::concat2("Command substitution not allowed in argument: ", a.as_str()),
            ExecError::PathTraversal(a) => crate::text::concat2("Path traversal not allowed in argument: ", a.as_str()),
            ExecError::ArgumentTooLong(a) => crate::text::concat2("Argument too long: ", a.as_str()),
        }
    }
}

} // verus!
