//! The decisions taken when installing and removing software: which box
//! to use, which command to run and how, and what the answers mean.
use vstd::prelude::*;
use crate::database::InstallStatus;
use crate::distro::{strs, present_names};
use crate::input_validation::{
    box_type_outcome, outcome, package_name_outcome, InputValidator, ValidationError,
};
use crate::manifest::OmniApp;
use crate::text::{
    chars_of, char_views, concat2, concat3, has_prefix, lines, lines_of, list_contains, owned,
    split_ws, string_from_chars, text_eq, texts, to_lowercase, trim, trimmed, unicode_lowercase,
    words,
};

verus! {

/// An installation may go on: the package name is valid, and so is the box
/// where one is asked for.
pub fn install_preflight(app: &str, box_type: Option<&str>) -> (r: Result<(), ValidationError>)
    ensures
        outcome(r) == match package_name_outcome(app@) {
            Err(e) => Err(e),
            Ok(_) => match box_type {
                Some(b) => box_type_outcome(b@),
                None => Ok(()),
            },
        },
{
    InputValidator::validate_package_name(app)?;
    match box_type {
        Some(b) => InputValidator::validate_box_type(b),
        None => Ok(()),
    }
}

/// How a command is run: confined in a sandbox, or through `sudo`.
#[derive(Debug, Clone, Copy, PartialEq, Eq, Structural)]
pub enum Runner {
    Sandbox,
    Sudo,
}

/// A command to run, and how.
#[derive(Debug)]
pub struct RunPlan {
    pub program: String,
    pub args: Vec<String>,
    pub runner: Runner,
}

/// The arguments that install `app` with a box.
pub open spec fn install_args_of(box_type: Seq<char>, app: Seq<char>) -> Seq<Seq<char>> {
    if box_type == "pacman"@ {
        seq!["-S"@, "--noconfirm"@, app]
    } else if box_type == "snap"@ {
        seq!["install"@, app]
    } else {
        seq!["install"@, "-y"@, app]
    }
}

/// How `app` is installed securely with `box_type` when its command is
/// `available` (or not), given whether the user is root and whether `sudo`
/// may be used: the program, its arguments and its runner, or the refusal.
pub open spec fn secure_install_of(
    box_type: Seq<char>,
    app: Seq<char>,
    available: bool,
    is_root: bool,
    can_sudo: bool,
) -> Result<(Seq<char>, Seq<Seq<char>>, Runner), Seq<char>> {
    let privileged = box_type == "apt"@ || box_type == "dnf"@ || box_type == "pacman"@;
    let known = privileged || box_type == "snap"@ || box_type == "flatpak"@;
    if !known || !available {
        Err("Box type '"@ + box_type + "' not available or not supported"@)
    } else if privileged && !is_root && !can_sudo {
        Err("sudo access required for "@ + box_type + " installation"@)
    } else if box_type == "flatpak"@ {
        Ok((box_type, install_args_of(box_type, app), Runner::Sandbox))
    } else {
        Ok((box_type, install_args_of(box_type, app), if is_root { Runner::Sandbox } else { Runner::Sudo }))
    }
}

/// The command line a package manager accepts for installing `app`
/// without asking: `install -y app` for apt, dnf and flatpak, `-S
/// --noconfirm app` for pacman, and `install app` for snap, which takes no
/// `-y`.
pub open spec fn accepted_install_line(box_type: Seq<char>, app: Seq<char>, args: Seq<Seq<char>>) -> bool {
    &&& (box_type == "apt"@ || box_type == "dnf"@ || box_type == "flatpak"@) ==> args == seq!["install"@, "-y"@, app]
    &&& box_type == "pacman"@ ==> args == seq!["-S"@, "--noconfirm"@, app]
    &&& box_type == "snap"@ ==> args == seq!["install"@, app]
}

/// A secure installation runs the chosen manager itself, with the command
/// line that manager accepts for installing the package; flatpak, and
/// every manager for root, runs in the sandbox, the others through sudo.
/// It is planned exactly when the manager is one of apt, dnf, pacman, snap
/// and flatpak, its command is available, and (for apt, dnf and pacman)
/// the user is root or may use sudo.
pub proof fn law_install_runs_accepted_command(
    box_type: Seq<char>,
    app: Seq<char>,
    available: bool,
    is_root: bool,
    can_sudo: bool,
)
    ensures
        ({
            let needs_root = box_type == "apt"@ || box_type == "dnf"@ || box_type == "pacman"@;
            let supported = needs_root || box_type == "snap"@ || box_type == "flatpak"@;
            (secure_install_of(box_type, app, available, is_root, can_sudo) is Ok) <==> (supported && available && (
            needs_root ==> is_root || can_sudo))
        }),
        secure_install_of(box_type, app, available, is_root, can_sudo) matches Ok((program, args, runner)) ==> {
            &&& program == box_type
            &&& accepted_install_line(box_type, app, args)
            &&& runner == if box_type == "flatpak"@ || is_root { Runner::Sandbox } else { Runner::Sudo }
        },
{
    reveal_strlit("apt");
    reveal_strlit("dnf");
    reveal_strlit("pacman");
    reveal_strlit("snap");
    reveal_strlit("flatpak");
    let args = install_args_of(box_type, app);
    if box_type == "apt"@ || box_type == "dnf"@ || box_type == "flatpak"@ {
        assert(args =~= seq!["install"@, "-y"@, app]);
    }
    if box_type == "pacman"@ {
        assert(args =~= seq!["-S"@, "--noconfirm"@, app]);
    }
    if box_type == "snap"@ {
        assert("snap"@.len() == 4 && "pacman"@.len() == 6);
        assert(box_type != "pacman"@);
        assert(args =~= seq!["install"@, app]);
    }
    assert(accepted_install_line(box_type, app, args));
}

/// The command that installs `app` securely with `box_type`.
pub fn secure_install_plan(box_type: &str, app: &str, available: bool, is_root: bool, can_sudo: bool) -> (r: Result<RunPlan, String>)
    ensures
        match r {
            Ok(p) => secure_install_of(box_type@, app@, available, is_root, can_sudo)
                == Ok::<(Seq<char>, Seq<Seq<char>>, Runner), Seq<char>>((p.program@, texts(p.args@), p.runner)),
            Err(e) => secure_install_of(box_type@, app@, available, is_root, can_sudo)
                == Err::<(Seq<char>, Seq<Seq<char>>, Runner), Seq<char>>(e@),
        },
        r matches Ok(p) ==> p.program@ == box_type@ && accepted_install_line(box_type@, app@, texts(p.args@)),
{
    proof {
        law_install_runs_accepted_command(box_type@, app@, available, is_root, can_sudo);
    }
    let privileged = text_eq(box_type, "apt") || text_eq(box_type, "dnf") || text_eq(box_type, "pacman");
    let known = privileged || text_eq(box_type, "snap") || text_eq(box_type, "flatpak");
    if !known || !available {
        return Err(concat3("Box type '", box_type, "' not available or not supported"));
    }
    if privileged && !is_root && !can_sudo {
        return Err(concat3("sudo access required for ", box_type, " installation"));
    }
    let args: Vec<String> = if text_eq(box_type, "pacman") {
        vec![owned("-S"), owned("--noconfirm"), owned(app)]
    } else if text_eq(box_type, "snap") {
        vec![owned("install"), owned(app)]
    } else {
        vec![owned("install"), owned("-y"), owned(app)]
    };
    assert(texts(args@) =~= install_args_of(box_type@, app@));
    let runner = if text_eq(box_type, "flatpak") {
        Runner::Sandbox
    } else if is_root {
        Runner::Sandbox
    } else {
        Runner::Sudo
    };
    Ok(RunPlan { program: owned(box_type), args, runner })
}

/// The command that asks a box for the installed version of `app`.
pub open spec fn version_query_of(box_type: Seq<char>, app: Seq<char>) -> Option<(Seq<char>, Seq<Seq<char>>)> {
    if box_type == "apt"@ {
        Some(("dpkg-query"@, seq!["-W"@, "-f=${Version}"@, app]))
    } else if box_type == "dnf"@ {
        Some(("rpm"@, seq!["-q"@, "--qf"@, "%{VERSION}"@, app]))
    } else if box_type == "snap"@ {
        Some(("snap"@, seq!["list"@, app]))
    } else {
        None
    }
}

/// The command that asks a box for the installed version of `app`, for the
/// boxes that can tell.
pub fn version_query(box_type: &str, app: &str) -> (r: Option<(String, Vec<String>)>)
    ensures
        match r {
            Some(q) => version_query_of(box_type@, app@) == Some((q.0@, texts(q.1@))),
            None => version_query_of(box_type@, app@) is None,
        },
{
    if text_eq(box_type, "apt") {
        let a = vec![owned("-W"), owned("-f=${Version}"), owned(app)];
        assert(texts(a@) =~= seq!["-W"@, "-f=${Version}"@, app@]);
        Some((owned("dpkg-query"), a))
    } else if text_eq(box_type, "dnf") {
        let a = vec![owned("-q"), owned("--qf"), owned("%{VERSION}"), owned(app)];
        assert(texts(a@) =~= seq!["-q"@, "--qf"@, "%{VERSION}"@, app@]);
        Some((owned("rpm"), a))
    } else if text_eq(box_type, "snap") {
        let a = vec![owned("list"), owned(app)];
        assert(texts(a@) =~= seq!["list"@, app@]);
        Some((owned("snap"), a))
    } else {
        None
    }
}

/// The installed version that a box's answer tells (`None` where the
/// question could not be asked): for apt and dnf the trimmed answer, for
/// snap the second word of the second line; otherwise `unknown`.
pub open spec fn version_of_answer(box_type: Seq<char>, answer: Option<Seq<char>>) -> Seq<char> {
    match answer {
        Some(out) => if (box_type == "apt"@ || box_type == "dnf"@) && trim(out).len() > 0 {
            trim(out)
        } else if box_type == "snap"@ && lines(out).len() > 1 && words(lines(out)[1]).len() > 1 {
            words(lines(out)[1])[1]
        } else {
            "unknown"@
        },
        None => "unknown"@,
    }
}

/// The installed version that a box's answer tells.
pub fn installed_version(box_type: &str, answer: Option<&str>) -> (r: String)
    ensures
        r@ == version_of_answer(box_type@, match answer { Some(a) => Some(a@), None => None }),
{
    match answer {
        None => owned("unknown"),
        Some(out) => {
            if text_eq(box_type, "apt") || text_eq(box_type, "dnf") {
                let v = chars_of(out);
                let t = trimmed(&v);
                if t.len() > 0 {
                    return string_from_chars(&t);
                }
            }
            if text_eq(box_type, "snap") {
                let ls = lines_of(out);
                if ls.len() > 1 {
                    let ws = split_ws(&ls[1]);
                    assert(char_views(ws@) == words(lines(out@)[1]));
                    if ws.len() > 1 {
                        assert(ws@[1]@ == char_views(ws@)[1]);
                        return string_from_chars(&ws[1]);
                    }
                }
            }
            owned("unknown")
        },
    }
}

/// The boxes tried, in order, when no box is named for an installation.
pub open spec fn auto_install_order() -> Seq<Seq<char>> {
    seq!["apt"@, "dnf"@, "pacman"@, "snap"@, "flatpak"@]
}

/// The first name of `order` that is among `found`.
pub open spec fn first_found(order: Seq<Seq<char>>, found: Seq<Seq<char>>) -> Option<Seq<char>>
    decreases order.len(),
{
    if order.len() == 0 {
        None
    } else if found.contains(order[0]) {
        Some(order[0])
    } else {
        first_found(order.drop_first(), found)
    }
}

/// Whether `name` is among the found commands.
fn is_found(found: &Vec<&str>, name: &str) -> (r: bool)
    ensures
        r == strs(found@).contains(name@),
{
    let v = chars_of(name);
    let r = list_contains(found, &v);
    proof {
        if r {
            let k = choose|k: int| 0 <= k < found@.len() && found@[k]@ == v@;
            assert(strs(found@)[k] == name@);
        }
        if strs(found@).contains(name@) {
            let k = choose|k: int| 0 <= k < strs(found@).len() && strs(found@)[k] == name@;
            assert(found@[k]@ == v@);
        }
    }
    r
}

/// The box used when none is named: the first of apt, dnf, pacman, snap and
/// flatpak whose command was found.
pub fn auto_install_choice(found: &Vec<&str>) -> (r: Option<&'static str>)
    ensures
        match r {
            Some(b) => first_found(auto_install_order(), strs(found@)) == Some(b@),
            None => first_found(auto_install_order(), strs(found@)) is None,
        },
{
    let ghost o = auto_install_order();
    let ghost f = strs(found@);
    assert(o.drop_first() =~= seq!["dnf"@, "pacman"@, "snap"@, "flatpak"@]);
    assert(o.drop_first().drop_first() =~= seq!["pacman"@, "snap"@, "flatpak"@]);
    assert(o.drop_first().drop_first().drop_first() =~= seq!["snap"@, "flatpak"@]);
    assert(o.drop_first().drop_first().drop_first().drop_first() =~= seq!["flatpak"@]);
    assert(o.drop_first().drop_first().drop_first().drop_first().drop_first() =~= Seq::<Seq<char>>::empty());
    proof {
        reveal_with_fuel(first_found, 6);
    }
    if is_found(found, "apt") {
        Some("apt")
    } else if is_found(found, "dnf") {
        Some("dnf")
    } else if is_found(found, "pacman") {
        Some("pacman")
    } else if is_found(found, "snap") {
        Some("snap")
    } else if is_found(found, "flatpak") {
        Some("flatpak")
    } else {
        None
    }
}

/// How a package is removed with a named box.
#[derive(Debug)]
pub enum RemovalPlan {
    /// Run the command; where it fails, report `failure`.
    Command { program: String, args: Vec<String>, failure: String },
    /// Let the snap box remove it.
    SnapBox,
    /// Remove the AppImage of that name.
    AppImage,
}

/// The removal arguments of the boxes removed by a plain command.
pub open spec fn removal_args_of(box_type: Seq<char>, app: Seq<char>) -> Seq<Seq<char>> {
    if box_type == "pacman"@ {
        seq!["-Rs"@, "--noconfirm"@, app]
    } else if box_type == "flatpak"@ {
        seq!["uninstall"@, "-y"@, app]
    } else {
        seq!["remove"@, "-y"@, app]
    }
}

/// The plan of a removal, as plain values: `0` for a command (with its
/// arguments and failure message), `1` for the snap box, `2` for AppImage.
pub open spec fn removal_of(box_type: Seq<char>, app: Seq<char>, available: bool) -> Result<(int, Seq<Seq<char>>, Seq<char>), Seq<char>> {
    let by_command = box_type == "apt"@ || box_type == "dnf"@ || box_type == "pacman"@ || box_type == "flatpak"@;
    if by_command && available {
        Ok((0, removal_args_of(box_type, app), "Failed to remove package via "@ + box_type))
    } else if box_type == "snap"@ && available {
        Ok((1, Seq::empty(), Seq::empty()))
    } else if box_type == "appimage"@ {
        Ok((2, Seq::empty(), Seq::empty()))
    } else {
        Err("Box type '"@ + box_type + "' not available or not supported"@)
    }
}

/// The plan of a removal as plain values.
pub open spec fn removal_plan_view(p: RemovalPlan) -> (int, Seq<Seq<char>>, Seq<char>) {
    match p {
        RemovalPlan::Command { program: _, args, failure } => (0, texts(args@), failure@),
        RemovalPlan::SnapBox => (1, Seq::empty(), Seq::empty()),
        RemovalPlan::AppImage => (2, Seq::empty(), Seq::empty()),
    }
}

/// How `app` is removed with `box_type`, whose command is `available` (or not).
pub fn removal_plan(box_type: &str, app: &str, available: bool) -> (r: Result<RemovalPlan, String>)
    ensures
        match r {
            Ok(p) => removal_of(box_type@, app@, available)
                == Ok::<(int, Seq<Seq<char>>, Seq<char>), Seq<char>>(removal_plan_view(p))
                && (p matches RemovalPlan::Command { program, .. } ==> program@ == box_type@),
            Err(e) => removal_of(box_type@, app@, available)
                == Err::<(int, Seq<Seq<char>>, Seq<char>), Seq<char>>(e@),
        },
{
    let by_command = text_eq(box_type, "apt") || text_eq(box_type, "dnf") || text_eq(box_type, "pacman")
        || text_eq(box_type, "flatpak");
    if by_command && available {
        let args: Vec<String> = if text_eq(box_type, "pacman") {
            vec![owned("-Rs"), owned("--noconfirm"), owned(app)]
        } else if text_eq(box_type, "flatpak") {
            vec![owned("uninstall"), owned("-y"), owned(app)]
        } else {
            vec![owned("remove"), owned("-y"), owned(app)]
        };
        assert(texts(args@) =~= removal_args_of(box_type@, app@));
        Ok(RemovalPlan::Command {
            program: owned(box_type),
            args,
            failure: concat2("Failed to remove package via ", box_type),
        })
    } else if text_eq(box_type, "snap") && available {
        Ok(RemovalPlan::SnapBox)
    } else if text_eq(box_type, "appimage") {
        Ok(RemovalPlan::AppImage)
    } else {
        Err(concat3("Box type '", box_type, "' not available or not supported"))
    }
}

/// The boxes tried, in order, to remove a package of unknown origin.
pub open spec fn removal_candidates_of(found: Seq<Seq<char>>) -> Seq<Seq<char>> {
    present_names(
        seq![("apt"@, "apt"@), ("dnf"@, "dnf"@), ("pacman"@, "pacman"@), ("snap"@, "snap"@), ("flatpak"@, "flatpak"@)],
        found,
    ) + seq!["appimage"@]
}

/// The boxes to try, in order, to remove a package of unknown origin: those
/// of apt, dnf, pacman, snap and flatpak whose command was found, then
/// AppImage.
pub fn removal_candidates(found: &Vec<&str>) -> (r: Vec<&'static str>)
    ensures
        strs(r@) == removal_candidates_of(strs(found@)),
{
    let order: Vec<&'static str> = vec!["apt", "dnf", "pacman", "snap", "flatpak"];
    let ghost pairs = seq![("apt"@, "apt"@), ("dnf"@, "dnf"@), ("pacman"@, "pacman"@), ("snap"@, "snap"@), ("flatpak"@, "flatpak"@)];
    let ghost f = strs(found@);
    let mut r: Vec<&'static str> = Vec::new();
    let mut i: usize = 0;
    while i < order.len()
        invariant
            order@.len() == 5,
            i <= 5,
            f == strs(found@),
            pairs.len() == 5,
            forall|k: int| 0 <= k < 5 ==> #[trigger] pairs[k] == (order@[k]@, order@[k]@),
            strs(r@) == present_names(pairs.take(i as int), f),
        decreases 5 - i,
    {
        let name = order[i];
        let ghost pre = pairs.take(i as int);
        let ghost next = pairs.take(i + 1);
        assert(next.drop_last() =~= pre);
        assert(next.last() == (name@, name@));
        if is_found(found, name) {
            let ghost before = r@;
            r.push(name);
            assert(strs(r@) =~= strs(before).push(name@));
        }
        i = i + 1;
    }
    assert(pairs.take(5) =~= pairs);
    let ghost before = strs(r@);
    r.push("appimage");
    assert(strs(r@) =~= before + seq!["appimage"@]);
    r
}

/// The first step for an application of a manifest.
#[derive(Debug)]
pub enum ManifestAction {
    /// Install `package` with the box `manager`.
    WithBox { manager: String, package: String },
    /// Fetch the AppImage at `url` and install it under `name`.
    AppImage { url: String, name: String },
    /// The application's box cannot be used.
    Unhandled,
}

/// The boxes through which a manifest installs directly.
pub open spec fn manifest_boxes() -> Seq<Seq<char>> {
    seq!["apt"@, "pacman"@, "dnf"@, "flatpak"@, "snap"@]
}

/// The first step for an application: its own box where that box's command
/// is `available` (flatpak installs the source reference where there is
/// one), AppImage where a source URL is given; otherwise unhandled.
pub open spec fn manifest_action_of(box_type: Seq<char>, name: Seq<char>, source: Option<Seq<char>>, available: bool) -> (int, Seq<char>, Seq<char>) {
    if manifest_boxes().contains(box_type) && available {
        (0, box_type, if box_type == "flatpak"@ {
            match source {
                Some(s) => s,
                None => name,
            }
        } else {
            name
        })
    } else if box_type == "appimage"@ && source is Some {
        (1, source->0, name)
    } else {
        (2, Seq::empty(), Seq::empty())
    }
}

/// A manifest step as plain values.
pub open spec fn manifest_action_view(a: ManifestAction) -> (int, Seq<char>, Seq<char>) {
    match a {
        ManifestAction::WithBox { manager, package } => (0, manager@, package@),
        ManifestAction::AppImage { url, name } => (1, url@, name@),
        ManifestAction::Unhandled => (2, Seq::empty(), Seq::empty()),
    }
}

/// The first step for an application of a manifest, where `available` tells
/// whether the command of its box was found.
pub fn manifest_action(app: &OmniApp, available: bool) -> (r: ManifestAction)
    ensures
        manifest_action_view(r) == manifest_action_of(
            app.box_type@,
            app.name@,
            match app.source { Some(s) => Some(s@), None => None },
            available,
        ),
{
    let b = app.box_type.as_str();
    let listed = text_eq(b, "apt") || text_eq(b, "pacman") || text_eq(b, "dnf") || text_eq(b, "flatpak")
        || text_eq(b, "snap");
    proof {
        let m = manifest_boxes();
        if m.contains(b@) {
            let k = choose|k: int| 0 <= k < m.len() && m[k] == b@;
            assert(k == 0 || k == 1 || k == 2 || k == 3 || k == 4);
        }
        if listed {
            if b@ == "apt"@ { assert(m[0] == b@); }
            if b@ == "pacman"@ { assert(m[1] == b@); }
            if b@ == "dnf"@ { assert(m[2] == b@); }
            if b@ == "flatpak"@ { assert(m[3] == b@); }
            if b@ == "snap"@ { assert(m[4] == b@); }
        }
    }
    if listed && available {
        let package = if text_eq(b, "flatpak") {
            match &app.source {
                Some(s) => s.clone(),
                None => app.name.clone(),
            }
        } else {
            app.name.clone()
        };
        ManifestAction::WithBox { manager: app.box_type.clone(), package }
    } else if text_eq(b, "appimage") {
        match &app.source {
            Some(url) => ManifestAction::AppImage { url: url.clone(), name: app.name.clone() },
            None => ManifestAction::Unhandled,
        }
    } else {
        ManifestAction::Unhandled
    }
}

/// What follows when an application of a manifest could not be installed
/// with its own box.
#[derive(Debug)]
pub enum FallbackAction {
    /// Install with the native box `manager`.
    WithBox { manager: String },
    /// The native box is not one a manifest falls back to, or not there.
    Unsupported { native: String },
    /// The manifest does not fall back.
    Disabled,
}

/// The fallback as plain values: `0` with the box, `1` unsupported with the
/// native box's name, `2` disabled.
pub open spec fn fallback_of(enabled: bool, native: Seq<char>, available: bool) -> (int, Seq<char>) {
    if !enabled {
        (2, Seq::empty())
    } else if (native == "apt"@ || native == "pacman"@ || native == "dnf"@) && available {
        (0, native)
    } else {
        (1, native)
    }
}

/// A fallback as plain values.
pub open spec fn fallback_view(a: FallbackAction) -> (int, Seq<char>) {
    match a {
        FallbackAction::WithBox { manager } => (0, manager@),
        FallbackAction::Unsupported { native } => (1, native@),
        FallbackAction::Disabled => (2, Seq::empty()),
    }
}

/// What follows a failed step, given whether the manifest falls back, the
/// native box of the system, and whether that box's command was found.
pub fn manifest_fallback(enabled: bool, native: &str, available: bool) -> (r: FallbackAction)
    ensures
        fallback_view(r) == fallback_of(enabled, native@, available),
{
    if !enabled {
        FallbackAction::Disabled
    } else if (text_eq(native, "apt") || text_eq(native, "pacman") || text_eq(native, "dnf")) && available {
        FallbackAction::WithBox { manager: owned(native) }
    } else {
        FallbackAction::Unsupported { native: owned(native) }
    }
}

/// The user agreed: the answer, trimmed and lowercased, starts with `y`.
pub open spec fn agrees(answer: Seq<char>) -> bool {
    has_prefix(unicode_lowercase(trim(answer)), "y"@)
}

/// Whether the user's answer to a yes/no question is yes.
pub fn confirms(answer: &str) -> (r: bool)
    ensures
        r == agrees(answer@),
{
    let v = chars_of(answer);
    let t = string_from_chars(&trimmed(&v));
    let lower = to_lowercase(t.as_str());
    let lv = chars_of(lower.as_str());
    let y = chars_of("y");
    crate::text::occurs_at_exec(&lv, &y, 0)
}

/// The drivers for the servers of a vendor, named case-insensitively; a
/// generic set for other vendors.
pub open spec fn vendor_drivers_of(vendor_lower: Seq<char>) -> Seq<Seq<char>> {
    if vendor_lower == "dell"@ {
        seq!["dell-smbios"@, "dcdbas"@, "dell-wmi"@]
    } else if vendor_lower == "hp"@ || vendor_lower == "hewlett-packard"@ {
        seq!["hpilo"@, "hp-wmi"@, "hp-health"@]
    } else if vendor_lower == "supermicro"@ {
        seq!["ipmi_si"@, "ipmi_devintf"@, "supermicro-bmc"@]
    } else if vendor_lower == "lenovo"@ {
        seq!["thinkpad-acpi"@, "lenovo-wmi"@]
    } else if vendor_lower == "cisco"@ || vendor_lower == "ucs"@ {
        seq!["cisco-ucs"@, "cisco-enic"@]
    } else {
        seq!["ipmi_si"@, "ipmi_devintf"@, "firmware-misc-nonfree"@]
    }
}

/// The drivers for the servers of `vendor`.
pub fn vendor_drivers(vendor: &str) -> (r: Vec<&'static str>)
    ensures
        strs(r@) == vendor_drivers_of(unicode_lowercase(vendor@)),
{
    let l = to_lowercase(vendor);
    let v = l.as_str();
    let r: Vec<&'static str> = if text_eq(v, "dell") {
        vec!["dell-smbios", "dcdbas", "dell-wmi"]
    } else if text_eq(v, "hp") || text_eq(v, "hewlett-packard") {
        vec!["hpilo", "hp-wmi", "hp-health"]
    } else if text_eq(v, "supermicro") {
        vec!["ipmi_si", "ipmi_devintf", "supermicro-bmc"]
    } else if text_eq(v, "lenovo") {
        vec!["thinkpad-acpi", "lenovo-wmi"]
    } else if text_eq(v, "cisco") || text_eq(v, "ucs") {
        vec!["cisco-ucs", "cisco-enic"]
    } else {
        vec!["ipmi_si", "ipmi_devintf", "firmware-misc-nonfree"]
    };
    assert(strs(r@) =~= vendor_drivers_of(unicode_lowercase(vendor@)));
    r
}

/// What undoing the last recorded operation does.
#[derive(Debug, Clone, Copy, PartialEq, Eq, Structural)]
pub enum UndoAction {
    /// Remove what was installed.
    Remove,
    /// Install again what was removed.
    Reinstall,
}

/// The name of a status as debugging output writes it.
pub open spec fn status_debug_name(s: InstallStatus) -> Seq<char> {
    match s {
        InstallStatus::Success => "Success"@,
        InstallStatus::Failed => "Failed"@,
        InstallStatus::Removed => "Removed"@,
        InstallStatus::Updated => "Updated"@,
    }
}

/// What undoing an operation that ended with `status` does: an installation
/// is removed, a removal reinstalled; nothing else can be undone.
pub fn undo_action(status: InstallStatus) -> (r: Result<UndoAction, String>)
    ensures
        status == InstallStatus::Success ==> r == Ok::<UndoAction, String>(UndoAction::Remove),
        status == InstallStatus::Removed ==> r == Ok::<UndoAction, String>(UndoAction::Reinstall),
        (status == InstallStatus::Failed || status == InstallStatus::Updated) ==> (r matches Err(e)
            && e@ == "Cannot undo operation with status: "@ + status_debug_name(status)),
{
    match status {
        InstallStatus::Success => Ok(UndoAction::Remove),
        InstallStatus::Removed => Ok(UndoAction::Reinstall),
        InstallStatus::Failed => Err(concat2("Cannot undo operation with status: ", "Failed")),
        InstallStatus::Updated => Err(concat2("Cannot undo operation with status: ", "Updated")),
    }
}

} // verus!
