//! The checks that a secure installation or search makes of its request
//! before anything is run.
use vstd::prelude::*;
use crate::advanced_resolver::{requirement_text, semver_req_text};
use crate::database::InstallStatus;
use crate::error_handling::OmniError;
use crate::input_validation::{box_type_outcome, outcome, package_name_outcome, InputValidator, ValidationError, ValidationIssue};
use crate::search::SearchResult;
use crate::text::{byte_count, byte_len, chars_of, owned, texts};

verus! {

/// The outcome of checking each package name in turn: the first refusal,
/// if any.
pub open spec fn names_outcome(ps: Seq<Seq<char>>) -> Result<(), ValidationIssue>
    decreases ps.len(),
{
    if ps.len() == 0 {
        Ok(())
    } else {
        match package_name_outcome(ps[0]) {
            Err(e) => Err(e),
            Ok(_) => names_outcome(ps.drop_first()),
        }
    }
}

/// The outcome of checking an installation request: its package names in
/// turn, then the box named, if one is.
pub open spec fn install_request_outcome(ps: Seq<Seq<char>>, box_type: Option<Seq<char>>) -> Result<(), ValidationIssue> {
    match names_outcome(ps) {
        Err(e) => Err(e),
        Ok(_) => match box_type {
            Some(b) => box_type_outcome(b),
            None => Ok(()),
        },
    }
}

/// Check an installation request: every package name, then the box type.
pub fn validate_install_request(packages: &Vec<String>, box_type: Option<&str>) -> (r: Result<(), ValidationError>)
    ensures
        outcome(r) == install_request_outcome(
            Seq::new(packages@.len(), |i: int| packages@[i]@),
            match box_type { Some(b) => Some(b@), None => None },
        ),
{
    let ghost ps = Seq::new(packages@.len(), |i: int| packages@[i]@);
    let mut i: usize = 0;
    assert(ps.skip(0) =~= ps);
    while i < packages.len()
        invariant
            i <= packages@.len(),
            ps == Seq::new(packages@.len(), |k: int| packages@[k]@),
            names_outcome(ps) == names_outcome(ps.skip(i as int)),
        decreases packages.len() - i,
    {
        assert(ps.skip(i as int)[0] == packages@[i as int]@);
        let checked = InputValidator::validate_package_name(packages[i].as_str());
        if checked.is_err() {
            return checked;
        }
        assert(ps.skip(i as int).drop_first() =~= ps.skip(i + 1));
        i = i + 1;
    }
    assert(ps.skip(i as int).len() == 0);
    match box_type {
        Some(b) => InputValidator::validate_box_type(b),
        None => Ok(()),
    }
}

/// What `char::is_alphanumeric` says of a character.
pub uninterp spec fn unicode_alphanumeric(c: char) -> bool;

/// `char::is_alphanumeric`: whether the character is alphabetic or
/// numeric; ASCII letters and digits are. The result is named by
/// `unicode_alphanumeric`.
#[verifier::external_body]
fn is_alphanumeric_char(c: char) -> (r: bool)
    ensures
        r == unicode_alphanumeric(c),
        ('0' <= c <= '9' || 'a' <= c <= 'z' || 'A' <= c <= 'Z') ==> r,
{
    c.is_alphanumeric()
}

/// An ASCII letter or digit.
pub open spec fn ascii_letter_or_digit(c: char) -> bool {
    ('0' <= c && c <= '9') || ('a' <= c && c <= 'z') || ('A' <= c && c <= 'Z')
}

/// A character a search query may hold: a letter or a digit, or one of
/// space, `-`, `.`, `_` and `+`. Among ASCII characters the letters and
/// digits are the ASCII ones (where `char::is_alphanumeric` agrees); beyond
/// ASCII they are what `char::is_alphanumeric` says.
pub open spec fn query_char_ok(c: char) -> bool {
    if c <= '\u{7f}' {
        ascii_letter_or_digit(c) || c == ' ' || c == '-' || c == '.' || c == '_' || c == '+'
    } else {
        unicode_alphanumeric(c)
    }
}

/// Whether a search query may hold the character.
fn query_char_allowed(c: char) -> (r: bool)
    ensures
        r == query_char_ok(c),
{
    if c <= '\u{7f}' {
        ('0' <= c && c <= '9') || ('a' <= c && c <= 'z') || ('A' <= c && c <= 'Z') || c == ' ' || c == '-'
            || c == '.' || c == '_' || c == '+'
    } else {
        is_alphanumeric_char(c)
    }
}

/// What checking a search query finds wrong with it, if anything: its
/// length (it must be 1 to 255 bytes long), or a character it may not hold.
pub open spec fn query_problem(q: Seq<char>) -> Option<Seq<char>> {
    if q.len() == 0 || byte_len(q) > 255 {
        Some("Search query must be 1-255 characters"@)
    } else if exists|i: int| 0 <= i < q.len() && !query_char_ok(#[trigger] q[i]) {
        Some("Query contains invalid characters"@)
    } else {
        None
    }
}

/// Search securely: the query is checked, and refused (as a validation
/// error of the field `query`) where it is empty, longer than 255 bytes or
/// holds a character other than letters, digits and ` -._+`. Nothing is
/// searched yet: an accepted query finds nothing.
pub fn secure_search(query: &str, box_type: Option<&str>, limit: Option<usize>) -> (r: Result<Vec<SearchResult>, OmniError>)
    ensures
        match r {
            Ok(v) => query_problem(query@) is None && v@.len() == 0,
            Err(e) => query_problem(query@) matches Some(m) && e matches OmniError::ValidationError { field, message }
                && field@ == "query"@ && message@ == m,
        },
{
    if query.is_empty() || byte_count(query) > 255 {
        return Err(OmniError::ValidationError {
            field: owned("query"),
            message: owned("Search query must be 1-255 characters"),
        });
    }
    let qv = chars_of(query);
    let mut i: usize = 0;
    while i < qv.len()
        invariant
            i <= qv@.len(),
            qv@ == query@,
            query@.len() > 0,
            byte_len(query@) <= 255,
            forall|k: int| 0 <= k < i ==> query_char_ok(#[trigger] qv@[k]),
        decreases qv.len() - i,
    {
        let c = qv[i];
        let ok = query_char_allowed(c);
        if !ok {
            assert(!query_char_ok(qv@[i as int]));
            return Err(OmniError::ValidationError {
                field: owned("query"),
                message: owned("Query contains invalid characters"),
            });
        }
        i = i + 1;
    }
    Ok(Vec::new())
}


/// The security warnings about how the program runs: one where it runs as
/// root.
pub fn check_security_warnings(is_root: bool) -> (r: Vec<String>)
    ensures
        texts(r@) == if is_root {
            seq!["Running as root user - consider using privilege dropping"@]
        } else {
            Seq::<Seq<char>>::empty()
        },
{
    let mut r: Vec<String> = Vec::new();
    if is_root {
        r.push(owned("Running as root user - consider using privilege dropping"));
    }
    assert(texts(r@) =~= if is_root {
        seq!["Running as root user - consider using privilege dropping"@]
    } else {
        Seq::<Seq<char>>::empty()
    });
    r
}

/// The state of the system as the secure brain reports it.
#[derive(Debug, Clone)]
pub struct SystemStatus {
    pub total_packages: usize,
    pub failed_packages: usize,
    pub pending_updates: usize,
    pub last_update: Option<i64>,
    pub security_warnings: Vec<String>,
    pub storage_usage: Option<u64>,
}

/// How many installations failed.
pub open spec fn failures(s: Seq<InstallStatus>) -> nat
    decreases s.len(),
{
    if s.len() == 0 {
        0
    } else {
        failures(s.drop_last()) + if s.last() == InstallStatus::Failed {
            1nat
        } else {
            0nat
        }
    }
}

/// The status of the system from the statuses of the installations
/// recorded and whether the program runs as root: how many packages are
/// recorded and how many of them failed, with the security warnings;
/// nothing is known of updates, the last update or the storage used.
pub fn get_system_status(statuses: &Vec<InstallStatus>, is_root: bool) -> (r: SystemStatus)
    ensures
        r.total_packages == statuses@.len(),
        r.failed_packages == failures(statuses@),
        r.pending_updates == 0,
        r.last_update is None,
        r.storage_usage is None,
        texts(r.security_warnings@) == if is_root {
            seq!["Running as root user - consider using privilege dropping"@]
        } else {
            Seq::<Seq<char>>::empty()
        },
{
    let mut failed: usize = 0;
    let mut i: usize = 0;
    while i < statuses.len()
        invariant
            i <= statuses@.len(),
            failed == failures(statuses@.take(i as int)),
            failed <= i,
        decreases statuses.len() - i,
    {
        assert(statuses@.take(i + 1).drop_last() =~= statuses@.take(i as int));
        if statuses[i] == InstallStatus::Failed {
            failed = failed + 1;
        }
        i = i + 1;
    }
    assert(statuses@.take(statuses@.len() as int) =~= statuses@);
    SystemStatus {
        total_packages: statuses.len(),
        failed_packages: failed,
        pending_updates: 0,
        last_update: None,
        security_warnings: check_security_warnings(is_root),
        storage_usage: None,
    }
}

/// The requirement kept for a package: the one given where `semver` reads
/// it, else any version.
pub open spec fn kept_requirement(req: Seq<char>) -> Seq<char> {
    if semver_req_text(req) is Some {
        req
    } else {
        "*"@
    }
}

/// The version requirements given for packages, each kept where `semver`
/// reads it and replaced by `*` (any version) where it does not; none
/// where none are given.
pub fn parse_version_constraints(constraints: Option<Vec<(String, String)>>) -> (r: Vec<(String, String)>)
    ensures
        match constraints {
            None => r@.len() == 0,
            Some(cs) => r@.len() == cs@.len() && forall|i: int| 0 <= i < cs@.len() ==> (#[trigger] r@[i]).0@ == cs@[i].0@
                && r@[i].1@ == kept_requirement(cs@[i].1@),
        },
{
    let mut r: Vec<(String, String)> = Vec::new();
    match constraints {
        None => r,
        Some(cs) => {
            let mut i: usize = 0;
            while i < cs.len()
                invariant
                    i <= cs@.len(),
                    r@.len() == i,
                    forall|k: int| 0 <= k < i ==> (#[trigger] r@[k]).0@ == cs@[k].0@ && r@[k].1@ == kept_requirement(cs@[k].1@),
                decreases cs.len() - i,
            {
                let req = match requirement_text(cs[i].1.as_str()) {
                    Some(_) => cs[i].1.clone(),
                    None => owned("*"),
                };
                r.push((cs[i].0.clone(), req));
                i = i + 1;
            }
            r
        },
    }
}

} // verus!
