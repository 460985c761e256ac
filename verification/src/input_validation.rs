//! Validation of user-supplied names, URLs, paths and arguments before they
//! reach a package manager or a shell.
use vstd::prelude::*;
use crate::text::{
    ascii_lower_text, byte_count, byte_len, chars_of, has_prefix, list_contains, list_has_prefix_of, owned, text_eq, has_sub, is_ascii_char, occurs_at_exec, seq_has_char, str_contains,
    to_lowercase, contains_seq, unicode_lowercase,
};

verus! {

/// Why an input was refused.
#[derive(Debug)]
pub enum ValidationError {
    PackageNameEmpty,
    PackageNameTooLong,
    PackageNameInvalidCharacters,
    PackageNamePathSeparators,
    PackageNameReserved,
    UrlEmpty,
    UrlTooLong,
    UrlInvalidFormat,
    UrlSchemeNotAllowed,
    PrivateNetwork,
    InvalidHostname,
    Localhost,
    RepositoryHostBlocked(String),
    RepositorySchemeNotAllowed,
    PathEmpty,
    PathTooLong,
    PathNullBytes,
    PathTraversal,
    PathUnresolvable,
    PathOutsideAllowed,
    ArgumentDangerousCharacters(String),
    ArgumentCommandSubstitution(String),
    ArgumentNullBytes(String),
    ArgumentTooLong(String),
    VersionEmpty,
    VersionTooLong,
    VersionInvalidCharacters,
    EnvNameLength,
    EnvNameFormat,
    EnvValueTooLong,
    EnvValueDangerous,
    ChecksumEmpty,
    ChecksumInvalidCharacters,
    ChecksumInvalidLength,
    BoxTypeEmpty,
    BoxTypeInvalid(String),
    InputEmpty,
    InputTooLong,
    DangerousCharacter(char),
    DangerousPattern(String),
}

/// A `ValidationError` with its texts taken as character sequences.
pub enum ValidationIssue {
    PackageNameEmpty,
    PackageNameTooLong,
    PackageNameInvalidCharacters,
    PackageNamePathSeparators,
    PackageNameReserved,
    UrlEmpty,
    UrlTooLong,
    UrlInvalidFormat,
    UrlSchemeNotAllowed,
    PrivateNetwork,
    InvalidHostname,
    Localhost,
    RepositoryHostBlocked(Seq<char>),
    RepositorySchemeNotAllowed,
    PathEmpty,
    PathTooLong,
    PathNullBytes,
    PathTraversal,
    PathUnresolvable,
    PathOutsideAllowed,
    ArgumentDangerousCharacters(Seq<char>),
    ArgumentCommandSubstitution(Seq<char>),
    ArgumentNullBytes(Seq<char>),
    ArgumentTooLong(Seq<char>),
    VersionEmpty,
    VersionTooLong,
    VersionInvalidCharacters,
    EnvNameLength,
    EnvNameFormat,
    EnvValueTooLong,
    EnvValueDangerous,
    ChecksumEmpty,
    ChecksumInvalidCharacters,
    ChecksumInvalidLength,
    BoxTypeEmpty,
    BoxTypeInvalid(Seq<char>),
    InputEmpty,
    InputTooLong,
    DangerousCharacter(char),
    DangerousPattern(Seq<char>),
}

impl View for ValidationError {
    type V = ValidationIssue;

    open spec fn view(&self) -> ValidationIssue {
        match self {
            ValidationError::PackageNameEmpty => ValidationIssue::PackageNameEmpty,
            ValidationError::PackageNameTooLong => ValidationIssue::PackageNameTooLong,
            ValidationError::PackageNameInvalidCharacters => ValidationIssue::PackageNameInvalidCharacters,
            ValidationError::PackageNamePathSeparators => ValidationIssue::PackageNamePathSeparators,
            ValidationError::PackageNameReserved => ValidationIssue::PackageNameReserved,
            ValidationError::UrlEmpty => ValidationIssue::UrlEmpty,
            ValidationError::UrlTooLong => ValidationIssue::UrlTooLong,
            ValidationError::UrlInvalidFormat => ValidationIssue::UrlInvalidFormat,
            ValidationError::UrlSchemeNotAllowed => ValidationIssue::UrlSchemeNotAllowed,
            ValidationError::PrivateNetwork => ValidationIssue::PrivateNetwork,
            ValidationError::InvalidHostname => ValidationIssue::InvalidHostname,
            ValidationError::Localhost => ValidationIssue::Localhost,
            ValidationError::RepositoryHostBlocked(h) => ValidationIssue::RepositoryHostBlocked(h@),
            ValidationError::RepositorySchemeNotAllowed => ValidationIssue::RepositorySchemeNotAllowed,
            ValidationError::PathEmpty => ValidationIssue::PathEmpty,
            ValidationError::PathTooLong => ValidationIssue::PathTooLong,
            ValidationError::PathNullBytes => ValidationIssue::PathNullBytes,
            ValidationError::PathTraversal => ValidationIssue::PathTraversal,
            ValidationError::PathUnresolvable => ValidationIssue::PathUnresolvable,
            ValidationError::PathOutsideAllowed => ValidationIssue::PathOutsideAllowed,
            ValidationError::ArgumentDangerousCharacters(a) => ValidationIssue::ArgumentDangerousCharacters(a@),
            ValidationError::ArgumentCommandSubstitution(a) => ValidationIssue::ArgumentCommandSubstitution(a@),
            ValidationError::ArgumentNullBytes(a) => ValidationIssue::ArgumentNullBytes(a@),
            ValidationError::ArgumentTooLong(a) => ValidationIssue::ArgumentTooLong(a@),
            ValidationError::VersionEmpty => ValidationIssue::VersionEmpty,
            ValidationError::VersionTooLong => ValidationIssue::VersionTooLong,
            ValidationError::VersionInvalidCharacters => ValidationIssue::VersionInvalidCharacters,
            ValidationError::EnvNameLength => ValidationIssue::EnvNameLength,
            ValidationError::EnvNameFormat => ValidationIssue::EnvNameFormat,
            ValidationError::EnvValueTooLong => ValidationIssue::EnvValueTooLong,
            ValidationError::EnvValueDangerous => ValidationIssue::EnvValueDangerous,
            ValidationError::ChecksumEmpty => ValidationIssue::ChecksumEmpty,
            ValidationError::ChecksumInvalidCharacters => ValidationIssue::ChecksumInvalidCharacters,
            ValidationError::ChecksumInvalidLength => ValidationIssue::ChecksumInvalidLength,
            ValidationError::BoxTypeEmpty => ValidationIssue::BoxTypeEmpty,
            ValidationError::BoxTypeInvalid(b) => ValidationIssue::BoxTypeInvalid(b@),
            ValidationError::InputEmpty => ValidationIssue::InputEmpty,
            ValidationError::InputTooLong => ValidationIssue::InputTooLong,
            ValidationError::DangerousCharacter(c) => ValidationIssue::DangerousCharacter(*c),
            ValidationError::DangerousPattern(p) => ValidationIssue::DangerousPattern(p@),
        }
    }
}

/// The outcome of a check, with texts taken as character sequences.
pub open spec fn outcome<T>(r: Result<T, ValidationError>) -> Result<(), ValidationIssue> {
    match r {
        Ok(_) => Ok(()),
        Err(e) => Err(e@),
    }
}

/// Pattern of the characters allowed in package names and versions.
pub open spec fn name_pattern() -> Seq<char> {
    "^[a-zA-Z0-9._+-]+$"@
}

/// Pattern of environment variable names.
pub open spec fn env_name_pattern() -> Seq<char> {
    "^[A-Z_][A-Z0-9_]*$"@
}

/// Pattern of hexadecimal checksums.
pub open spec fn hex_pattern() -> Seq<char> {
    "^[a-fA-F0-9]+$"@
}

/// Pattern of host names.
pub open spec fn hostname_pattern() -> Seq<char> {
    "^[a-zA-Z0-9.-]+$"@
}

/// `c` is an ASCII letter or digit.
pub open spec fn ascii_alnum(c: char) -> bool {
    ('a' <= c && c <= 'z') || ('A' <= c && c <= 'Z') || ('0' <= c && c <= '9')
}

/// `c` may stand in a package name or a version.
pub open spec fn name_char(c: char) -> bool {
    ascii_alnum(c) || c == '.' || c == '_' || c == '+' || c == '-'
}

/// `c` may stand in an environment variable name after its first character.
pub open spec fn env_name_char(c: char) -> bool {
    ('A' <= c && c <= 'Z') || ('0' <= c && c <= '9') || c == '_'
}

/// `c` is a hexadecimal digit.
pub open spec fn hex_char(c: char) -> bool {
    ('a' <= c && c <= 'f') || ('A' <= c && c <= 'F') || ('0' <= c && c <= '9')
}

/// `c` may stand in a host name.
pub open spec fn host_char(c: char) -> bool {
    ascii_alnum(c) || c == '.' || c == '-'
}

/// `s` matches the package-name pattern: non-empty, of name characters only.
pub open spec fn name_text(s: Seq<char>) -> bool {
    s.len() > 0 && forall|i: int| 0 <= i < s.len() ==> name_char(#[trigger] s[i])
}

/// `s` matches the environment-name pattern.
pub open spec fn env_name_text(s: Seq<char>) -> bool {
    &&& s.len() > 0
    &&& ('A' <= s[0] && s[0] <= 'Z') || s[0] == '_'
    &&& forall|i: int| 1 <= i < s.len() ==> env_name_char(#[trigger] s[i])
}

/// `s` matches the checksum pattern: non-empty, of hexadecimal digits only.
pub open spec fn hex_text(s: Seq<char>) -> bool {
    s.len() > 0 && forall|i: int| 0 <= i < s.len() ==> hex_char(#[trigger] s[i])
}

/// `s` matches the host-name pattern.
pub open spec fn host_text(s: Seq<char>) -> bool {
    s.len() > 0 && forall|i: int| 0 <= i < s.len() ==> host_char(#[trigger] s[i])
}

/// What `Regex::is_match` answers for a pattern and a text.
pub uninterp spec fn regex_match(pattern: Seq<char>, text: Seq<char>) -> bool;

/// Compiles `pattern` with `regex::Regex::new` and asks `Regex::is_match`
/// whether it matches `text`. The answer is named by `regex_match`. For the
/// four anchored character-class patterns this library uses, the regex
/// crate's documented syntax (`^` and `$` the start and end of the haystack,
/// `[...]` a class of characters, `+` one or more, `*` zero or more) fixes the
/// answer, which the contract states. Only those four patterns are admitted,
/// as each of them compiles.
#[verifier::external_body]
pub(crate) fn regex_is_match(pattern: &str, text: &str) -> (r: bool)
    requires
        pattern@ == name_pattern() || pattern@ == env_name_pattern() || pattern@ == hex_pattern()
            || pattern@ == hostname_pattern(),
    ensures
        r == regex_match(pattern@, text@),
        pattern@ == name_pattern() ==> (r <==> name_text(text@)),
        pattern@ == env_name_pattern() ==> (r <==> env_name_text(text@)),
        pattern@ == hex_pattern() ==> (r <==> hex_text(text@)),
        pattern@ == hostname_pattern() ==> (r <==> host_text(text@)),
{
    regex::Regex::new(pattern).unwrap().is_match(text)
}

/// Names that no package may take (compared in lower case).
pub open spec fn reserved_names() -> Seq<Seq<char>> {
    seq!["."@, ".."@, "con"@, "prn"@, "aux"@, "nul"@]
}

/// What `validate_package_name` decides for a name.
pub open spec fn package_name_outcome(s: Seq<char>) -> Result<(), ValidationIssue> {
    if s.len() == 0 {
        Err(ValidationIssue::PackageNameEmpty)
    } else if byte_len(s) > 255 {
        Err(ValidationIssue::PackageNameTooLong)
    } else if !name_text(s) {
        Err(ValidationIssue::PackageNameInvalidCharacters)
    } else if has_sub(s, ".."@) || s.contains('/') || s.contains('\\') {
        Err(ValidationIssue::PackageNamePathSeparators)
    } else if reserved_names().contains(ascii_lower_text(s)) {
        Err(ValidationIssue::PackageNameReserved)
    } else {
        Ok(())
    }
}

/// Input validation utilities for security.
pub struct InputValidator;

impl InputValidator {
    /// Validate package names to prevent injection attacks.
    pub fn validate_package_name(name: &str) -> (r: Result<(), ValidationError>)
        ensures
            outcome(r) == package_name_outcome(name@),
    {
        if name.is_empty() {
            return Err(ValidationError::PackageNameEmpty);
        }
        if byte_count(name) > 255 {
            return Err(ValidationError::PackageNameTooLong);
        }
        if !regex_is_match("^[a-zA-Z0-9._+-]+$", name) {
            return Err(ValidationError::PackageNameInvalidCharacters);
        }
        let v = chars_of(name);
        if str_contains(name, "..") || seq_has_char(&v, '/') || seq_has_char(&v, '\\') {
            return Err(ValidationError::PackageNamePathSeparators);
        }
        let lower = to_lowercase(name);
        let lv = chars_of(lower.as_str());
        let reserved: Vec<&str> = vec![".", "..", "con", "prn", "aux", "nul"];
        proof {
            assert forall|i: int| 0 <= i < v@.len() implies is_ascii_char(#[trigger] v@[i]) by {
                assert(name_char(v@[i]));
            }
        }
        if list_contains(&reserved, &lv) {
            return Err(ValidationError::PackageNameReserved);
        }
        proof {
            if reserved_names().contains(ascii_lower_text(name@)) {
                let k = choose|k: int| 0 <= k < reserved_names().len() && reserved_names()[k] == ascii_lower_text(name@);
                assert(reserved@[k]@ == lv@);
            }
        }
        Ok(())
    }
    
    /// Validate URLs to prevent SSRF and other attacks.
    pub fn validate_url(url_str: &str) -> (r: Result<ParsedUrl, ValidationError>)
        ensures
            outcome(r) == url_outcome(url_str@),
            r matches Ok(u) ==> url_parse(url_str@) == Some(u@),
    {
        if url_str.is_empty() {
            return Err(ValidationError::UrlEmpty);
        }
        if byte_count(url_str) > 2048 {
            return Err(ValidationError::UrlTooLong);
        }
        match parse_url(url_str) {
            None => Err(ValidationError::UrlInvalidFormat),
            Some(url) => check_parsed_url(url),
        }
    }

    /// Validate file paths to prevent directory traversal. `resolved` is
    /// what resolving the path on the file system gave (its canonical form),
    /// or `None` where it could not be resolved.
    pub fn validate_file_path(path_str: &str, resolved: Option<String>) -> (r: Result<String, ValidationError>)
        ensures
            outcome(r) == path_outcome(path_str@, opt_text(resolved)),
            r matches Ok(c) ==> resolved == Some(c),
    {
        if path_str.is_empty() {
            return Err(ValidationError::PathEmpty);
        }
        if byte_count(path_str) > 4096 {
            return Err(ValidationError::PathTooLong);
        }
        let v = chars_of(path_str);
        if seq_has_char(&v, '\0') {
            return Err(ValidationError::PathNullBytes);
        }
        if str_contains(path_str, "../") || str_contains(path_str, "..\\") {
            return Err(ValidationError::PathTraversal);
        }
        match resolved {
            None => Err(ValidationError::PathUnresolvable),
            Some(canonical) => {
                let allowed: Vec<&str> = vec!["/tmp/", "/var/tmp/", "/home/", "/opt/", "/usr/local/", "/var/cache/"];
                assert(allowed@.len() == allowed_path_prefixes().len());
                assert forall|i: int| 0 <= i < allowed@.len() implies allowed@[i]@ == allowed_path_prefixes()[i] by {}
                if list_has_prefix_of(&allowed, canonical.as_str()) {
                    proof {
                        let k = choose|k: int| 0 <= k < allowed@.len() && has_prefix(canonical@, allowed@[k]@);
                        assert(has_prefix(canonical@, allowed_path_prefixes()[k]));
                    }
                    Ok(canonical)
                } else {
                    Err(ValidationError::PathOutsideAllowed)
                }
            },
        }
    }

    /// Validate command line arguments to prevent injection.
    pub fn validate_command_args(args: &[&str]) -> (r: Result<(), ValidationError>)
        ensures
            outcome(r) == args_outcome(args@, 0),
    {
        let mut i: usize = 0;
        while i < args.len()
            invariant
                i <= args@.len(),
                args_outcome(args@, 0) == args_outcome(args@, i as int),
            decreases args.len() - i,
        {
            let arg = args[i];
            let v = chars_of(arg);
            if seq_has_char(&v, ';') || seq_has_char(&v, '|') || seq_has_char(&v, '&') || seq_has_char(&v, '`') {
                return Err(ValidationError::ArgumentDangerousCharacters(owned(arg)));
            }
            if str_contains(arg, "$(") || str_contains(arg, "${") || str_contains(arg, "\\`") {
                return Err(ValidationError::ArgumentCommandSubstitution(owned(arg)));
            }
            if seq_has_char(&v, '\0') {
                return Err(ValidationError::ArgumentNullBytes(owned(arg)));
            }
            if byte_count(arg) > 1024 {
                return Err(ValidationError::ArgumentTooLong(owned(arg)));
            }
            i = i + 1;
        }
        Ok(())
    }

    /// Validate repository URLs for security.
    pub fn validate_repository_url(url_str: &str) -> (r: Result<ParsedUrl, ValidationError>)
        ensures
            outcome(r) == repository_url_outcome(url_str@),
            r matches Ok(u) ==> url_parse(url_str@) == Some(u@),
    {
        let url = Self::validate_url(url_str)?;
        check_repository_url(url)
    }

    /// Validate version strings to prevent injection.
    pub fn validate_version_string(version: &str) -> (r: Result<(), ValidationError>)
        ensures
            outcome(r) == version_outcome(version@),
    {
        if version.is_empty() {
            return Err(ValidationError::VersionEmpty);
        }
        if byte_count(version) > 64 {
            return Err(ValidationError::VersionTooLong);
        }
        if !regex_is_match("^[a-zA-Z0-9._+-]+$", version) {
            return Err(ValidationError::VersionInvalidCharacters);
        }
        Ok(())
    }

    /// Validate environment variable values.
    pub fn validate_env_var(name: &str, value: &str) -> (r: Result<(), ValidationError>)
        ensures
            outcome(r) == env_var_outcome(name@, value@),
    {
        if name.is_empty() || byte_count(name) > 128 {
            return Err(ValidationError::EnvNameLength);
        }
        if !regex_is_match("^[A-Z_][A-Z0-9_]*$", name) {
            return Err(ValidationError::EnvNameFormat);
        }
        if byte_count(value) > 4096 {
            return Err(ValidationError::EnvValueTooLong);
        }
        let v = chars_of(value);
        if seq_has_char(&v, '\0') || str_contains(value, "$(") || str_contains(value, "${") {
            return Err(ValidationError::EnvValueDangerous);
        }
        Ok(())
    }

    /// Validate checksums.
    pub fn validate_checksum(checksum: &str) -> (r: Result<(), ValidationError>)
        ensures
            outcome(r) == checksum_outcome(checksum@),
    {
        if checksum.is_empty() {
            return Err(ValidationError::ChecksumEmpty);
        }
        if !regex_is_match("^[a-fA-F0-9]+$", checksum) {
            return Err(ValidationError::ChecksumInvalidCharacters);
        }
        let n = byte_count(checksum);
        if n == 32 || n == 40 || n == 64 || n == 128 {
            Ok(())
        } else {
            Err(ValidationError::ChecksumInvalidLength)
        }
    }

    /// Validate box type names.
    pub fn validate_box_type(box_type: &str) -> (r: Result<(), ValidationError>)
        ensures
            outcome(r) == box_type_outcome(box_type@),
    {
        if box_type.is_empty() {
            return Err(ValidationError::BoxTypeEmpty);
        }
        let valid: Vec<&str> = vec![
            "apt", "dnf", "pacman", "snap", "flatpak", "appimage", "winget", "chocolatey", "scoop",
            "homebrew", "mas",
        ];
        let v = chars_of(box_type);
        if !list_contains(&valid, &v) {
            return Err(ValidationError::BoxTypeInvalid(owned(box_type)));
        }
        Ok(())
    }

    /// Validate input to prevent shell injection attacks.
    pub fn validate_shell_safe(input: &str) -> (r: Result<(), ValidationError>)
        ensures
            outcome(r) == shell_safe_outcome(input@, unicode_lowercase(input@)),
    {
        if input.is_empty() {
            return Err(ValidationError::InputEmpty);
        }
        if byte_count(input) > 1024 {
            return Err(ValidationError::InputTooLong);
        }
        let dangerous: Vec<char> = vec![
            '&', '|', ';', '`', '$', '(', ')', '{', '}', '<', '>', '\'', '"', '\\', '\n', '\r',
            '\t', '\0', '!', '?', '*', '[', ']', '~', '#',
        ];
        assert(dangerous@ =~= shell_dangerous_chars());
        let v = chars_of(input);
        let mut k: usize = 0;
        while k < dangerous.len()
            invariant
                k <= dangerous@.len(),
                input@.len() > 0,
                byte_len(input@) <= 1024,
                dangerous@ == shell_dangerous_chars(),
                v@ == input@,
                first_char_hit(shell_dangerous_chars(), input@, 0) == first_char_hit(shell_dangerous_chars(), input@, k as int),
            decreases dangerous.len() - k,
        {
            let ch = dangerous[k];
            if seq_has_char(&v, ch) {
                assert(first_char_hit(shell_dangerous_chars(), input@, k as int) == Some(ch));
                return Err(ValidationError::DangerousCharacter(ch));
            }
            k = k + 1;
        }
        let patterns: Vec<&str> = vec![
            "&&", "||", ";;", "$(", "${", "`", "..", "/etc/", "/bin/", "/usr/bin/", "passwd", "shadow",
            "/dev/", "/proc/", "/sys/", "rm -rf", "dd if=", "curl", "wget", "nc ", "netcat", "telnet",
            "ssh ", "ftp ", "python", "perl", "ruby", "php", "bash", "sh ", "zsh", "csh",
        ];
        let lower = to_lowercase(input);
        let lv = chars_of(lower.as_str());
        let mut j: usize = 0;
        while j < patterns.len()
            invariant
                j <= patterns@.len(),
                input@.len() > 0,
                byte_len(input@) <= 1024,
                first_char_hit(shell_dangerous_chars(), input@, 0) is None,
                patterns@ == shell_dangerous_patterns(),
                lv@ == unicode_lowercase(input@),
                first_pattern_hit(shell_dangerous_patterns(), lv@, 0) == first_pattern_hit(shell_dangerous_patterns(), lv@, j as int),
            decreases patterns.len() - j,
        {
            let pv = chars_of(patterns[j]);
            if contains_seq(&lv, &pv) {
                assert(first_pattern_hit(shell_dangerous_patterns(), lv@, j as int) == Some(pv@));
                return Err(ValidationError::DangerousPattern(owned(patterns[j])));
            }
            j = j + 1;
        }
        Ok(())
    }

}

/// The text of an optional string.
pub open spec fn opt_text(s: Option<String>) -> Option<Seq<char>> {
    match s {
        Some(t) => Some(t@),
        None => None,
    }
}

/// A parsed URL, holding what the checks read of it.
pub struct ParsedUrl {
    /// The URL as the parser serialised it.
    pub serialization: String,
    /// Its scheme, such as `https`.
    pub scheme: String,
    /// Its host, where it has one.
    pub host: Option<String>,
    /// The IPv4 address the parser recognised as its host, where it did.
    pub host_ipv4: Option<(u8, u8, u8, u8)>,
}

/// The texts of a parsed URL.
pub struct UrlParts {
    pub serialization: Seq<char>,
    pub scheme: Seq<char>,
    pub host: Option<Seq<char>>,
    pub host_ipv4: Option<(u8, u8, u8, u8)>,
}

impl View for ParsedUrl {
    type V = UrlParts;

    open spec fn view(&self) -> UrlParts {
        UrlParts {
            serialization: self.serialization@,
            scheme: self.scheme@,
            host: opt_text(self.host),
            host_ipv4: self.host_ipv4,
        }
    }
}

/// What `url::Url::parse` makes of a text: its serialisation, scheme, host,
/// and the IPv4 address that its host is, or `None` where it refuses the
/// text.
pub uninterp spec fn url_parse(text: Seq<char>) -> Option<UrlParts>;

/// Parses `text` with `url::Url::parse` and keeps its serialisation
/// (`as_str`), `scheme`, `host_str`, and the octets of its host where `host`
/// is an IPv4 address. The result is named by `url_parse`; nothing more is
/// stated of the URL grammar.
#[verifier::external_body]
pub(crate) fn parse_url(text: &str) -> (r: Option<ParsedUrl>)
    ensures
        match r {
            Some(u) => url_parse(text@) == Some(u@),
            None => url_parse(text@) is None,
        },
{
    match url::Url::parse(text) {
        Ok(u) => Some(ParsedUrl {
            serialization: u.as_str().to_string(),
            scheme: u.scheme().to_string(),
            host: u.host_str().map(|h| h.to_string()),
            host_ipv4: match u.host() {
                Some(url::Host::Ipv4(a)) => Some((a.octets()[0], a.octets()[1], a.octets()[2], a.octets()[3])),
                _ => None,
            },
        }),
        Err(_) => None,
    }
}

/// An IP address.
pub enum IpAddress {
    V4(u8, u8, u8, u8),
    V6(u16, u16, u16, u16, u16, u16, u16, u16),
}

/// The address of a host that is an IPv4 address.
pub open spec fn ipv4_of(o: Option<(u8, u8, u8, u8)>) -> Option<IpAddress> {
    match o {
        Some((a, b, c, d)) => Some(IpAddress::V4(a, b, c, d)),
        None => None,
    }
}

/// `ip` lies in a private or loopback network.
pub open spec fn private_address(ip: IpAddress) -> bool {
    match ip {
        IpAddress::V4(a, b, _, _) => a == 10 || (a == 172 && 16 <= b <= 31) || (a == 192 && b == 168) || a == 127,
        IpAddress::V6(s0, s1, s2, s3, s4, s5, s6, s7) =>
            (s0 == 0 && s1 == 0 && s2 == 0 && s3 == 0 && s4 == 0 && s5 == 0 && s6 == 0 && s7 == 1) || s0 == 0xfc00,
    }
}

/// Host names that stand for the local machine.
pub open spec fn local_host_names() -> Seq<Seq<char>> {
    seq!["localhost"@, "127.0.0.1"@, "::1"@]
}

/// What the host check decides, given the IP address that the host is, if
/// it is one.
pub open spec fn host_outcome(host: Seq<char>, ip: Option<IpAddress>) -> Result<(), ValidationIssue> {
    match ip {
        Some(a) => if private_address(a) {
            Err(ValidationIssue::PrivateNetwork)
        } else {
            Ok(())
        },
        None => if !host_text(host) {
            Err(ValidationIssue::InvalidHostname)
        } else if local_host_names().contains(ascii_lower_text(host)) {
            Err(ValidationIssue::Localhost)
        } else {
            Ok(())
        },
    }
}

/// Checks a host, given the IP address that it is, if it is one: private
/// networks and local hosts are refused.
pub fn check_host(host: &str, ip: Option<IpAddress>) -> (r: Result<(), ValidationError>)
    ensures
        outcome(r) == host_outcome(host@, ip),
{
    match ip {
        Some(IpAddress::V4(a, b, _, _)) => {
            if a == 10 || (a == 172 && b >= 16 && b <= 31) || (a == 192 && b == 168) || a == 127 {
                return Err(ValidationError::PrivateNetwork);
            }
            Ok(())
        },
        Some(IpAddress::V6(s0, s1, s2, s3, s4, s5, s6, s7)) => {
            let loopback = s0 == 0 && s1 == 0 && s2 == 0 && s3 == 0 && s4 == 0 && s5 == 0 && s6 == 0 && s7 == 1;
            if loopback || s0 == 0xfc00 {
                return Err(ValidationError::PrivateNetwork);
            }
            Ok(())
        },
        None => {
            if !regex_is_match("^[a-zA-Z0-9.-]+$", host) {
                return Err(ValidationError::InvalidHostname);
            }
            let v = chars_of(host);
            proof {
                assert forall|i: int| 0 <= i < v@.len() implies is_ascii_char(#[trigger] v@[i]) by {
                    assert(host_char(v@[i]));
                }
            }
            let lower = to_lowercase(host);
            let lv = chars_of(lower.as_str());
            let blocked: Vec<&str> = vec!["localhost", "127.0.0.1", "::1"];
            if list_contains(&blocked, &lv) {
                return Err(ValidationError::Localhost);
            }
            proof {
                if local_host_names().contains(ascii_lower_text(host@)) {
                    let k = choose|k: int| 0 <= k < local_host_names().len() && local_host_names()[k] == ascii_lower_text(host@);
                    assert(blocked@[k]@ == lv@);
                }
            }
            Ok(())
        },
    }
}

/// What the URL checks decide for a parsed URL.
pub open spec fn parsed_url_outcome(u: UrlParts) -> Result<(), ValidationIssue> {
    if u.scheme != "http"@ && u.scheme != "https"@ {
        Err(ValidationIssue::UrlSchemeNotAllowed)
    } else {
        match u.host {
            Some(h) => host_outcome(h, ipv4_of(u.host_ipv4)),
            None => Ok(()),
        }
    }
}

/// What `validate_url` decides for a text.
pub open spec fn url_outcome(s: Seq<char>) -> Result<(), ValidationIssue> {
    if s.len() == 0 {
        Err(ValidationIssue::UrlEmpty)
    } else if byte_len(s) > 2048 {
        Err(ValidationIssue::UrlTooLong)
    } else {
        match url_parse(s) {
            None => Err(ValidationIssue::UrlInvalidFormat),
            Some(u) => parsed_url_outcome(u),
        }
    }
}

/// Checks the scheme and host of a parsed URL.
pub fn check_parsed_url(url: ParsedUrl) -> (r: Result<ParsedUrl, ValidationError>)
    ensures
        outcome(r) == parsed_url_outcome(url@),
        r matches Ok(u) ==> u@ == url@,
{
    if !text_eq(url.scheme.as_str(), "http") && !text_eq(url.scheme.as_str(), "https") {
        return Err(ValidationError::UrlSchemeNotAllowed);
    }
    match &url.host {
        Some(h) => {
            let ip = match url.host_ipv4 {
                Some((a, b, c, d)) => Some(IpAddress::V4(a, b, c, d)),
                None => None,
            };
            match check_host(h.as_str(), ip) {
                Ok(()) => {},
                Err(e) => {
                    return Err(e);
                },
            }
        },
        None => {},
    }
    Ok(url)
}

/// Hosts that repositories may not come from.
pub open spec fn blocked_repository_hosts() -> Seq<Seq<char>> {
    seq!["malware.com"@, "phishing.net"@]
}

/// What the repository checks add for a URL that passed the URL checks.
pub open spec fn repository_checks(u: UrlParts) -> Result<(), ValidationIssue> {
    match u.host {
        Some(h) => if blocked_repository_hosts().contains(h) {
            Err(ValidationIssue::RepositoryHostBlocked(h))
        } else if u.scheme != "https"@ && u.scheme != "http"@ {
            Err(ValidationIssue::RepositorySchemeNotAllowed)
        } else {
            Ok(())
        },
        None => if u.scheme != "https"@ && u.scheme != "http"@ {
            Err(ValidationIssue::RepositorySchemeNotAllowed)
        } else {
            Ok(())
        },
    }
}

/// What `validate_repository_url` decides for a text.
pub open spec fn repository_url_outcome(s: Seq<char>) -> Result<(), ValidationIssue> {
    match url_outcome(s) {
        Err(e) => Err(e),
        Ok(()) => repository_checks(url_parse(s).unwrap()),
    }
}

/// The repository checks on a URL that passed the URL checks.
pub fn check_repository_url(url: ParsedUrl) -> (r: Result<ParsedUrl, ValidationError>)
    ensures
        outcome(r) == repository_checks(url@),
        r matches Ok(u) ==> u@ == url@,
{
    match &url.host {
        Some(h) => {
            let blocked: Vec<&str> = vec!["malware.com", "phishing.net"];
            let hv = chars_of(h.as_str());
            if list_contains(&blocked, &hv) {
                proof {
                    assert(blocked_repository_hosts().contains(h@)) by {
                        let k = choose|k: int| 0 <= k < blocked@.len() && blocked@[k]@ == hv@;
                        assert(blocked_repository_hosts()[k] == h@);
                    }
                }
                return Err(ValidationError::RepositoryHostBlocked(h.clone()));
            }
            proof {
                if blocked_repository_hosts().contains(h@) {
                    let k = choose|k: int| 0 <= k < blocked_repository_hosts().len() && blocked_repository_hosts()[k] == h@;
                    assert(blocked@[k]@ == hv@);
                }
            }
        },
        None => {},
    }
    if !text_eq(url.scheme.as_str(), "https") && !text_eq(url.scheme.as_str(), "http") {
        return Err(ValidationError::RepositorySchemeNotAllowed);
    }
    Ok(url)
}

/// Directories under which validated paths must lie.
pub open spec fn allowed_path_prefixes() -> Seq<Seq<char>> {
    seq!["/tmp/"@, "/var/tmp/"@, "/home/"@, "/opt/"@, "/usr/local/"@, "/var/cache/"@]
}

/// What `validate_file_path` decides, given what resolving the path gave.
pub open spec fn path_outcome(s: Seq<char>, resolved: Option<Seq<char>>) -> Result<(), ValidationIssue> {
    if s.len() == 0 {
        Err(ValidationIssue::PathEmpty)
    } else if byte_len(s) > 4096 {
        Err(ValidationIssue::PathTooLong)
    } else if s.contains('\0') {
        Err(ValidationIssue::PathNullBytes)
    } else if has_sub(s, "../"@) || has_sub(s, "..\\"@) {
        Err(ValidationIssue::PathTraversal)
    } else {
        match resolved {
            None => Err(ValidationIssue::PathUnresolvable),
            Some(c) => if exists|i: int| 0 <= i < allowed_path_prefixes().len() && has_prefix(c, #[trigger] allowed_path_prefixes()[i]) {
                Ok(())
            } else {
                Err(ValidationIssue::PathOutsideAllowed)
            },
        }
    }
}

/// What the argument check finds wrong with one argument, if anything.
pub open spec fn arg_issue(a: Seq<char>) -> Option<ValidationIssue> {
    if a.contains(';') || a.contains('|') || a.contains('&') || a.contains('`') {
        Some(ValidationIssue::ArgumentDangerousCharacters(a))
    } else if has_sub(a, "$("@) || has_sub(a, "${"@) || has_sub(a, "\\`"@) {
        Some(ValidationIssue::ArgumentCommandSubstitution(a))
    } else if a.contains('\0') {
        Some(ValidationIssue::ArgumentNullBytes(a))
    } else if byte_len(a) > 1024 {
        Some(ValidationIssue::ArgumentTooLong(a))
    } else {
        None
    }
}

/// What `validate_command_args` decides for the arguments from index `k` on:
/// the issue of the first argument that has one.
pub open spec fn args_outcome(args: Seq<&str>, k: int) -> Result<(), ValidationIssue>
    decreases args.len() - k,
{
    if k < 0 || k >= args.len() {
        Ok(())
    } else {
        match arg_issue(args[k]@) {
            Some(e) => Err(e),
            None => args_outcome(args, k + 1),
        }
    }
}

/// What `validate_version_string` decides.
pub open spec fn version_outcome(s: Seq<char>) -> Result<(), ValidationIssue> {
    if s.len() == 0 {
        Err(ValidationIssue::VersionEmpty)
    } else if byte_len(s) > 64 {
        Err(ValidationIssue::VersionTooLong)
    } else if !name_text(s) {
        Err(ValidationIssue::VersionInvalidCharacters)
    } else {
        Ok(())
    }
}

/// What `validate_env_var` decides.
pub open spec fn env_var_outcome(name: Seq<char>, value: Seq<char>) -> Result<(), ValidationIssue> {
    if name.len() == 0 || byte_len(name) > 128 {
        Err(ValidationIssue::EnvNameLength)
    } else if !env_name_text(name) {
        Err(ValidationIssue::EnvNameFormat)
    } else if byte_len(value) > 4096 {
        Err(ValidationIssue::EnvValueTooLong)
    } else if value.contains('\0') || has_sub(value, "$("@) || has_sub(value, "${"@) {
        Err(ValidationIssue::EnvValueDangerous)
    } else {
        Ok(())
    }
}

/// What `validate_checksum` decides.
pub open spec fn checksum_outcome(s: Seq<char>) -> Result<(), ValidationIssue> {
    if s.len() == 0 {
        Err(ValidationIssue::ChecksumEmpty)
    } else if !hex_text(s) {
        Err(ValidationIssue::ChecksumInvalidCharacters)
    } else if byte_len(s) == 32 || byte_len(s) == 40 || byte_len(s) == 64 || byte_len(s) == 128 {
        Ok(())
    } else {
        Err(ValidationIssue::ChecksumInvalidLength)
    }
}

/// The package managers that box types may name.
pub open spec fn valid_box_types() -> Seq<Seq<char>> {
    seq![
        "apt"@, "dnf"@, "pacman"@, "snap"@, "flatpak"@, "appimage"@, "winget"@, "chocolatey"@,
        "scoop"@, "homebrew"@, "mas"@,
    ]
}

/// What `validate_box_type` decides.
pub open spec fn box_type_outcome(s: Seq<char>) -> Result<(), ValidationIssue> {
    if s.len() == 0 {
        Err(ValidationIssue::BoxTypeEmpty)
    } else if !valid_box_types().contains(s) {
        Err(ValidationIssue::BoxTypeInvalid(s))
    } else {
        Ok(())
    }
}

/// Shell metacharacters that no safe input holds, in the order checked.
pub open spec fn shell_dangerous_chars() -> Seq<char> {
    seq![
        '&', '|', ';', '`', '$', '(', ')', '{', '}', '<', '>', '\'', '"', '\\', '\n', '\r', '\t',
        '\0', '!', '?', '*', '[', ']', '~', '#',
    ]
}

/// Injection patterns that no safe input holds (in lower case), in the
/// order checked.
pub open spec fn shell_dangerous_patterns() -> Seq<&'static str> {
    seq![
        "&&", "||", ";;", "$(", "${", "`", "..", "/etc/", "/bin/", "/usr/bin/", "passwd", "shadow",
        "/dev/", "/proc/", "/sys/", "rm -rf", "dd if=", "curl", "wget", "nc ", "netcat", "telnet",
        "ssh ", "ftp ", "python", "perl", "ruby", "php", "bash", "sh ", "zsh", "csh",
    ]
}

/// The first character of `list`, from index `k` on, that occurs in `s`.
pub open spec fn first_char_hit(list: Seq<char>, s: Seq<char>, k: int) -> Option<char>
    decreases list.len() - k,
{
    if k < 0 || k >= list.len() {
        None
    } else if s.contains(list[k]) {
        Some(list[k])
    } else {
        first_char_hit(list, s, k + 1)
    }
}

/// The first text of `list`, from index `k` on, that occurs in `s`.
pub open spec fn first_pattern_hit(list: Seq<&'static str>, s: Seq<char>, k: int) -> Option<Seq<char>>
    decreases list.len() - k,
{
    if k < 0 || k >= list.len() {
        None
    } else if has_sub(s, list[k]@) {
        Some(list[k]@)
    } else {
        first_pattern_hit(list, s, k + 1)
    }
}

/// What `validate_shell_safe` decides for an input, given its lower-case form.
pub open spec fn shell_safe_outcome(s: Seq<char>, lower: Seq<char>) -> Result<(), ValidationIssue> {
    if s.len() == 0 {
        Err(ValidationIssue::InputEmpty)
    } else if byte_len(s) > 1024 {
        Err(ValidationIssue::InputTooLong)
    } else {
        match first_char_hit(shell_dangerous_chars(), s, 0) {
            Some(c) => Err(ValidationIssue::DangerousCharacter(c)),
            None => match first_pattern_hit(shell_dangerous_patterns(), lower, 0) {
                Some(p) => Err(ValidationIssue::DangerousPattern(p)),
                None => Ok(()),
            },
        }
    }
}

} // verus!
