//! What the interactive prompts decide: the errors shown to the user, and
//! how a user's choice is read.
use vstd::prelude::*;
use crate::resolver::{ResolutionPlan, ResolvedPackage};
use crate::text::{concat2, concat3, owned, texts};

verus! {

/// The answer to an installation plan.
#[derive(Debug, Clone)]
pub struct InstallConfirmation {
    pub proceed: bool,
    pub selected_packages: Vec<String>,
    pub skip_verification: bool,
}

/// What to do about a conflict.
#[derive(Debug, Clone, Copy, PartialEq, Eq, Structural)]
pub enum ConflictAction {
    Abort,
    Force,
    SelectAlternative,
    Skip,
}

/// The answer to a conflict.
#[derive(Debug, Clone)]
pub struct ConflictResolution {
    pub action: ConflictAction,
    pub selected_option: Option<String>,
}

impl InstallConfirmation {
    /// The answer to an empty plan: nothing to do.
    pub fn nothing() -> (r: Self)
        ensures
            !r.proceed,
            r.selected_packages@.len() == 0,
            !r.skip_verification,
    {
        InstallConfirmation { proceed: false, selected_packages: Vec::new(), skip_verification: false }
    }
}

/// A package has an optional dependency.
pub open spec fn has_optional(p: ResolvedPackage) -> bool {
    exists|j: int| 0 <= j < p.dependencies@.len() && (#[trigger] p.dependencies@[j]).optional
}

/// The names of the packages without an optional dependency, in order.
pub open spec fn required_names(ps: Seq<ResolvedPackage>) -> Seq<Seq<char>>
    decreases ps.len(),
{
    if ps.len() == 0 {
        Seq::empty()
    } else {
        let r = required_names(ps.drop_last());
        if has_optional(ps.last()) {
            r
        } else {
            r.push(ps.last().name@)
        }
    }
}

/// The names of the packages with an optional dependency, in order: the
/// list from which the user picks.
pub open spec fn optional_names(ps: Seq<ResolvedPackage>) -> Seq<Seq<char>>
    decreases ps.len(),
{
    if ps.len() == 0 {
        Seq::empty()
    } else {
        let r = optional_names(ps.drop_last());
        if has_optional(ps.last()) {
            r.push(ps.last().name@)
        } else {
            r
        }
    }
}

/// Whether the installation goes ahead: with conflicts, only when the user
/// chose to force it (the second option) and confirmed; without, when the
/// user confirmed.
pub open spec fn goes_ahead(has_conflicts: bool, conflict_choice: Option<usize>, confirmed: bool) -> bool {
    if has_conflicts {
        conflict_choice == Some(1usize) && confirmed
    } else {
        confirmed
    }
}

/// The marker answered when the user asks to see alternatives.
pub open spec fn show_alternatives_marker() -> Seq<char> {
    "__show_alternatives__"@
}

/// Whether a package has an optional dependency.
fn package_has_optional(p: &ResolvedPackage) -> (r: bool)
    ensures
        r == has_optional(*p),
{
    let mut j: usize = 0;
    while j < p.dependencies.len()
        invariant
            j <= p.dependencies@.len(),
            forall|k: int| 0 <= k < j ==> !(#[trigger] p.dependencies@[k]).optional,
        decreases p.dependencies.len() - j,
    {
        if p.dependencies[j].optional {
            return true;
        }
        j = j + 1;
    }
    false
}

/// The answer to an installation plan, from the user's answers: the choice
/// among abort, force and alternatives where the plan has conflicts, the
/// confirmation asked for (to force, or to proceed), and the positions of
/// the optional dependencies picked in `optional_names`. An empty plan
/// gives nothing to do; the third conflict choice asks for alternatives;
/// otherwise, when the installation goes ahead, the packages without an
/// optional dependency are selected, in order, followed by those picked.
pub fn confirmation_of(
    plan: &ResolutionPlan,
    conflict_choice: Option<usize>,
    confirmed: bool,
    optional_chosen: &Vec<usize>,
) -> (r: InstallConfirmation)
    requires
        forall|k: int| 0 <= k < optional_chosen@.len() ==> (#[trigger] optional_chosen@[k]) < optional_names(
            plan.packages@,
        ).len(),
    ensures
        !r.skip_verification,
        plan.packages@.len() == 0 ==> !r.proceed && r.selected_packages@.len() == 0,
        plan.packages@.len() > 0 && plan.conflicts@.len() > 0 && conflict_choice == Some(2usize) ==> !r.proceed
            && texts(r.selected_packages@) == seq![show_alternatives_marker()],
        plan.packages@.len() > 0 && !(plan.conflicts@.len() > 0 && conflict_choice == Some(2usize)) ==> {
            let go = goes_ahead(plan.conflicts@.len() > 0, conflict_choice, confirmed);
            &&& r.proceed == go
            &&& texts(r.selected_packages@) == if go {
                required_names(plan.packages@) + Seq::new(
                    optional_chosen@.len(),
                    |k: int| optional_names(plan.packages@)[optional_chosen@[k] as int],
                )
            } else {
                Seq::empty()
            }
        },
{
    if plan.packages.len() == 0 {
        return InstallConfirmation::nothing();
    }
    let has_conflicts = plan.conflicts.len() > 0;
    if has_conflicts {
        if let Some(c) = conflict_choice {
            if c == 2 {
                let mut v: Vec<String> = Vec::new();
                v.push(owned("__show_alternatives__"));
                assert(texts(v@) =~= seq![show_alternatives_marker()]);
                return InstallConfirmation { proceed: false, selected_packages: v, skip_verification: false };
            }
        }
    }
    let go = if has_conflicts {
        match conflict_choice {
            Some(c) => c == 1 && confirmed,
            None => false,
        }
    } else {
        confirmed
    };
    if !go {
        let r = InstallConfirmation::nothing();
        assert(texts(r.selected_packages@) =~= Seq::<Seq<char>>::empty());
        return r;
    }
    let ghost ps = plan.packages@;
    let mut selected: Vec<String> = Vec::new();
    let mut optional: Vec<String> = Vec::new();
    let mut i: usize = 0;
    while i < plan.packages.len()
        invariant
            i <= ps.len(),
            ps == plan.packages@,
            texts(selected@) == required_names(ps.take(i as int)),
            texts(optional@) == optional_names(ps.take(i as int)),
        decreases plan.packages.len() - i,
    {
        assert(ps.take(i + 1).drop_last() =~= ps.take(i as int));
        let opt = package_has_optional(&plan.packages[i]);
        let name = plan.packages[i].name.clone();
        if opt {
            optional.push(name);
            assert(texts(optional@) =~= optional_names(ps.take(i as int)).push(ps[i as int].name@));
        } else {
            selected.push(name);
            assert(texts(selected@) =~= required_names(ps.take(i as int)).push(ps[i as int].name@));
        }
        i = i + 1;
    }
    assert(ps.take(ps.len() as int) =~= ps);
    let ghost req = texts(selected@);
    let mut k: usize = 0;
    while k < optional_chosen.len()
        invariant
            k <= optional_chosen@.len(),
            texts(optional@) == optional_names(ps),
            ps == plan.packages@,
            forall|m: int| 0 <= m < optional_chosen@.len() ==> (#[trigger] optional_chosen@[m]) < optional_names(ps).len(),
            texts(selected@) == req + Seq::new(k as nat, |m: int| optional_names(ps)[optional_chosen@[m] as int]),
        decreases optional_chosen.len() - k,
    {
        let idx = optional_chosen[k];
        assert(texts(optional@)[idx as int] == optional@[idx as int]@);
        let name = optional[idx].clone();
        let ghost before = texts(selected@);
        assert(name@ == optional_names(ps)[optional_chosen@[k as int] as int]);
        selected.push(name);
        assert(texts(selected@) =~= before.push(name@));
        assert(texts(selected@) =~= req + Seq::new((k + 1) as nat, |m: int| optional_names(ps)[optional_chosen@[m] as int]));
        k = k + 1;
    }
    InstallConfirmation { proceed: true, selected_packages: selected, skip_verification: false }
}

/// An error as the interactive prompts present it.
#[derive(Debug, Clone)]
pub enum OmniError {
    PackageNotFound { package: String },
    DependencyResolutionFailed { reason: String },
    SecurityVerificationFailed { details: String },
    InstallationFailed { package: String, reason: String },
    NetworkError { details: String },
    PermissionDenied { operation: String },
    ConfigurationError { details: String },
    DatabaseError { details: String },
    UserCancelled,
    UnsupportedOperation { operation: String, box_type: String },
}

/// Whether trying again may help: for network, installation and
/// dependency resolution failures.
pub open spec fn recoverable(e: OmniError) -> bool {
    match e {
        OmniError::NetworkError { .. } => true,
        OmniError::InstallationFailed { .. } => true,
        OmniError::DependencyResolutionFailed { .. } => true,
        _ => false,
    }
}

/// The advice given with each kind of error.
pub open spec fn advice(e: OmniError) -> Seq<char> {
    match e {
        OmniError::PackageNotFound { .. } => "Try searching for similar package names"@,
        OmniError::DependencyResolutionFailed { .. } => "Check for conflicting packages or try manual installation"@,
        OmniError::SecurityVerificationFailed { .. } => "Verify package source or use --allow-untrusted flag"@,
        OmniError::InstallationFailed { .. } => "Check system requirements and available space"@,
        OmniError::NetworkError { .. } => "Check internet connection and try again"@,
        OmniError::PermissionDenied { .. } => "Run with appropriate privileges (sudo)"@,
        OmniError::ConfigurationError { .. } => "Check configuration file syntax"@,
        OmniError::DatabaseError { .. } => "Try clearing cache or rebuilding database"@,
        OmniError::UserCancelled => "Operation was cancelled"@,
        OmniError::UnsupportedOperation { .. } => "Use a different package manager"@,
    }
}

/// The text of an error.
pub open spec fn error_text(e: OmniError) -> Seq<char> {
    match e {
        OmniError::PackageNotFound { package } => "Package not found: "@ + package@,
        OmniError::DependencyResolutionFailed { reason } => "Dependency resolution failed: "@ + reason@,
        OmniError::SecurityVerificationFailed { details } => "Security verification failed: "@ + details@,
        OmniError::InstallationFailed { package, reason } => "Installation failed for "@ + package@ + ": "@ + reason@,
        OmniError::NetworkError { details } => "Network error: "@ + details@,
        OmniError::PermissionDenied { operation } => "Permission denied: "@ + operation@,
        OmniError::ConfigurationError { details } => "Configuration error: "@ + details@,
        OmniError::DatabaseError { details } => "Database error: "@ + details@,
        OmniError::UserCancelled => "User cancelled operation"@,
        OmniError::UnsupportedOperation { operation, box_type } => "Unsupported operation: "@ + operation@ + " for "@ + box_type@,
    }
}

impl OmniError {
    /// Whether trying again may help.
    pub fn is_recoverable(&self) -> (r: bool)
        ensures
            r == recoverable(*self),
    {
        match self {
            OmniError::NetworkError { .. } => true,
            OmniError::InstallationFailed { .. } => true,
            OmniError::DependencyResolutionFailed { .. } => true,
            OmniError::PackageNotFound { .. } => false,
            OmniError::SecurityVerificationFailed { .. } => false,
            OmniError::PermissionDenied { .. } => false,
            OmniError::ConfigurationError { .. } => false,
            OmniError::DatabaseError { .. } => false,
            OmniError::UserCancelled => false,
            OmniError::UnsupportedOperation { .. } => false,
        }
    }

    /// The advice given with the error.
    pub fn suggested_action(&self) -> (r: &'static str)
        ensures
            r@ == advice(*self),
    {
        match self {
            OmniError::PackageNotFound { .. } => "Try searching for similar package names",
            OmniError::DependencyResolutionFailed { .. } => "Check for conflicting packages or try manual installation",
            OmniError::SecurityVerificationFailed { .. } => "Verify package source or use --allow-untrusted flag",
            OmniError::InstallationFailed { .. } => "Check system requirements and available space",
            OmniError::NetworkError { .. } => "Check internet connection and try again",
            OmniError::PermissionDenied { .. } => "Run with appropriate privileges (sudo)",
            OmniError::ConfigurationError { .. } => "Check configuration file syntax",
            OmniError::DatabaseError { .. } => "Try clearing cache or rebuilding database",
            OmniError::UserCancelled => "Operation was cancelled",
            OmniError::UnsupportedOperation { .. } => "Use a different package manager",
        }
    }

    /// The text of the error.
    pub fn message(&self) -> (r: String)
        ensures
            r@ == error_text(*self),
    {
        match self {
            OmniError::PackageNotFound { package } => concat2("Package not found: ", package.as_str()),
            OmniError::DependencyResolutionFailed { reason } => concat2("Dependency resolution failed: ", reason.as_str()),
            OmniError::SecurityVerificationFailed { details } => concat2("Security verification failed: ", details.as_str()),
            OmniError::InstallationFailed { package, reason } => {
                let mut r = concat3("Installation failed for ", package.as_str(), ": ");
                crate::text::append_str(&mut r, reason.as_str());
                r
            },
            OmniError::NetworkError { details } => concat2("Network error: ", details.as_str()),
            OmniError::PermissionDenied { operation } => concat2("Permission denied: ", operation.as_str()),
            OmniError::ConfigurationError { details } => concat2("Configuration error: ", details.as_str()),
            OmniError::DatabaseError { details } => concat2("Database error: ", details.as_str()),
            OmniError::UserCancelled => owned("User cancelled operation"),
            OmniError::UnsupportedOperation { operation, box_type } => {
                let mut r = concat3("Unsupported operation: ", operation.as_str(), " for ");
                crate::text::append_str(&mut r, box_type.as_str());
                r
            },
        }
    }
}

/// What the user's choice after a recoverable error means: the first
/// option retries, the second skips, any other aborts.
pub fn recovery_choice(selection: usize) -> (r: Result<bool, String>)
    ensures
        selection == 0 ==> r == Ok::<bool, String>(true),
        selection == 1 ==> r == Ok::<bool, String>(false),
        selection > 1 ==> (r matches Err(e) && e@ == "Operation aborted by user"@),
{
    if selection == 0 {
        Ok(true)
    } else if selection == 1 {
        Ok(false)
    } else {
        Err(owned("Operation aborted by user"))
    }
}

/// The package manager chosen without asking: none where there is none,
/// the only one where there is one; `None` means the user must choose.
pub fn preselected_manager(available: &Vec<String>) -> (r: Option<Option<String>>)
    ensures
        available@.len() == 0 ==> r == Some(None::<String>),
        available@.len() == 1 ==> (r matches Some(Some(m)) && m@ == available@[0]@),
        available@.len() > 1 ==> r is None,
{
    if available.len() == 0 {
        Some(None)
    } else if available.len() == 1 {
        Some(Some(available[0].clone()))
    } else {
        None
    }
}

} // verus!
