//! Package repositories: which manager a repository is added to or removed
//! from, the steps that do it, and how the configured repositories are
//! listed.
use vstd::prelude::*;
use crate::text::{
    chars_of, concat2, has_prefix, has_suffix, lines, lines_of, occurs_at_exec, owned, owned_all, string_from_chars,
    texts,
};
use crate::boxes::after_header;

verus! {

/// One step of changing the repositories.
pub enum RepoStep {
    /// Run a program, through `sudo` where `sudo` is set.
    Run { program: String, args: Vec<String>, sudo: bool },
    /// Write a file.
    WriteFile { path: String, contents: String },
}

/// A step as plain values: a program run (its name, arguments and whether
/// through `sudo`), or a file written (its path and contents).
pub enum StepView {
    Run(Seq<char>, Seq<Seq<char>>, bool),
    WriteFile(Seq<char>, Seq<char>),
}

/// A step as plain values.
pub open spec fn step_view(s: RepoStep) -> StepView {
    match s {
        RepoStep::Run { program, args, sudo } => StepView::Run(program@, texts(args@), sudo),
        RepoStep::WriteFile { path, contents } => StepView::WriteFile(path@, contents@),
    }
}

/// Steps as plain values.
pub open spec fn step_views(v: Seq<RepoStep>) -> Seq<StepView> {
    Seq::new(v.len(), |i: int| step_view(v[i]))
}

/// Which managers are at hand.
pub struct Managers {
    pub apt: bool,
    pub dnf: bool,
    pub pacman: bool,
    pub flatpak: bool,
    pub add_apt_repository: bool,
}

/// The file that an added APT source is written to.
pub open spec fn apt_source_file() -> Seq<char> {
    "/etc/apt/sources.list.d/omni-added-repo.list"@
}

/// The steps that add a repository, or why it cannot be added: a PPA
/// (named `ppa:...` or typed `ppa`) with `add-apt-repository` and a
/// refresh; a `deb` source (or typed `deb`), where APT is at hand, written
/// to its own list after its key (if any) is added, then a refresh; a
/// `.repo` (or typed `rpm`), where DNF is at hand, with its config manager;
/// an Arch repository (typed `arch`), where pacman is at hand, cannot be
/// added; a Flatpak remote (typed `flatpak`), where Flatpak is at hand.
pub open spec fn add_steps(
    repository: Seq<char>,
    repo_type: Option<Seq<char>>,
    key_url: Option<Seq<char>>,
    m: Managers,
) -> Result<Seq<StepView>, Seq<char>> {
    let typed = |t: Seq<char>| repo_type == Some(t);
    let refresh = StepView::Run("apt"@, seq!["update"@], true);
    if has_prefix(repository, "ppa:"@) || typed("ppa"@) {
        Ok(seq![StepView::Run("add-apt-repository"@, seq!["-y"@, repository], true), refresh])
    } else if m.apt && (crate::text::has_sub(repository, "deb "@) || typed("deb"@)) {
        let write = StepView::WriteFile(apt_source_file(), repository + "\n"@);
        match key_url {
            Some(k) => Ok(seq![
                StepView::Run("bash"@, seq!["-c"@, "wget -qO - "@ + k + " | apt-key add -"@], true),
                write,
                refresh,
            ]),
            None => Ok(seq![write, refresh]),
        }
    } else if m.dnf && (has_suffix(repository, ".repo"@) || typed("rpm"@)) {
        Ok(seq![StepView::Run("dnf"@, seq!["config-manager"@, "--add-repo"@, repository], true)])
    } else if m.pacman && typed("arch"@) {
        Err("Pacman repository addition not implemented - requires manual configuration"@)
    } else if m.flatpak && typed("flatpak"@) {
        Ok(seq![StepView::Run("flatpak"@, seq!["remote-add"@, "--if-not-exists"@, "omni-added-repo"@, repository], false)])
    } else {
        Err("Unsupported repository type or package manager not available"@)
    }
}

/// The steps that remove a repository, or why it cannot be removed: a PPA,
/// where `add-apt-repository` is at hand, with it; otherwise, by the first
/// manager at hand among APT (which cannot remove sources), DNF (which
/// disables the repository) and Flatpak (which deletes the remote).
pub open spec fn remove_steps(repository: Seq<char>, m: Managers) -> Result<Seq<StepView>, Seq<char>> {
    if has_prefix(repository, "ppa:"@) && m.add_apt_repository {
        Ok(seq![StepView::Run("add-apt-repository"@, seq!["-y"@, "-r"@, repository], true)])
    } else if m.apt {
        Err("APT repository removal not fully implemented"@)
    } else if m.dnf {
        Ok(seq![StepView::Run("dnf"@, seq!["config-manager"@, "--set-disabled"@, repository], true)])
    } else if m.flatpak {
        Ok(seq![StepView::Run("flatpak"@, seq!["remote-delete"@, repository], false)])
    } else {
        Err("Repository not found or package manager not available"@)
    }
}

/// A step that runs a program.
fn run_step(program: &str, args: Vec<&str>, sudo: bool) -> (r: RepoStep)
    ensures
        step_view(r) == StepView::Run(program@, Seq::new(args@.len(), |i: int| args@[i]@), sudo),
{
    RepoStep::Run { program: owned(program), args: owned_all(&args), sudo }
}

/// The step that refreshes APT's package lists.
fn apt_refresh() -> (r: RepoStep)
    ensures
        step_view(r) == StepView::Run("apt"@, seq!["update"@], true),
{
    let a: Vec<&str> = vec!["update"];
    let ghost av = a@;
    let r = run_step("apt", a, true);
    assert(Seq::new(av.len(), |i: int| av[i]@) =~= seq!["update"@]);
    r
}

/// Whether `s` starts with the text `p`.
fn starts(s: &str, p: &str) -> (r: bool)
    ensures
        r == has_prefix(s@, p@),
{
    occurs_at_exec(&chars_of(s), &chars_of(p), 0)
}

/// Whether `s` ends with the text `p`.
fn ends(s: &str, p: &str) -> (r: bool)
    ensures
        r == has_suffix(s@, p@),
{
    let sv = chars_of(s);
    let pv = chars_of(p);
    if pv.len() > sv.len() {
        return false;
    }
    occurs_at_exec(&sv, &pv, sv.len() - pv.len())
}

/// Whether an optional text is `t`.
fn is_type(o: Option<&str>, t: &str) -> (r: bool)
    ensures
        r == (match o { Some(s) => Some(s@), None => None } == Some(t@)),
{
    match o {
        Some(s) => crate::text::text_eq(s, t),
        None => false,
    }
}

/// Two steps, as a list.
fn steps2(a: RepoStep, b: RepoStep) -> (r: Vec<RepoStep>)
    ensures
        step_views(r@) == seq![step_view(a), step_view(b)],
{
    let r = vec![a, b];
    assert(step_views(r@) =~= seq![step_view(a), step_view(b)]);
    r
}

/// One step, as a list.
fn steps1(a: RepoStep) -> (r: Vec<RepoStep>)
    ensures
        step_views(r@) == seq![step_view(a)],
{
    let r = vec![a];
    assert(step_views(r@) =~= seq![step_view(a)]);
    r
}

/// The steps that add a repository, as `add_steps` describes them.
pub fn add_repository(
    repository: &str,
    repo_type: Option<&str>,
    key_url: Option<&str>,
    managers: &Managers,
) -> (r: Result<Vec<RepoStep>, String>)
    ensures
        match r {
            Ok(v) => add_steps(repository@, match repo_type { Some(t) => Some(t@), None => None },
                match key_url { Some(k) => Some(k@), None => None }, *managers) == Ok::<Seq<StepView>, Seq<char>>(step_views(v@)),
            Err(e) => add_steps(repository@, match repo_type { Some(t) => Some(t@), None => None },
                match key_url { Some(k) => Some(k@), None => None }, *managers) == Err::<Seq<StepView>, Seq<char>>(e@),
        },
{
    if starts(repository, "ppa:") || is_type(repo_type, "ppa") {
        let a: Vec<&str> = vec!["-y", repository];
        let ghost av = a@;
        let add = run_step("add-apt-repository", a, true);
        assert(Seq::new(av.len(), |i: int| av[i]@) =~= seq!["-y"@, repository@]);
        Ok(steps2(add, apt_refresh()))
    } else if managers.apt && (crate::text::str_contains(repository, "deb ") || is_type(repo_type, "deb")) {
        let write = RepoStep::WriteFile {
            path: owned("/etc/apt/sources.list.d/omni-added-repo.list"),
            contents: concat2(repository, "\n"),
        };
        match key_url {
            Some(k) => {
                let command = crate::text::concat3("wget -qO - ", k, " | apt-key add -");
                let a: Vec<&str> = vec!["-c", command.as_str()];
                let ghost av = a@;
                let key = run_step("bash", a, true);
                assert(Seq::new(av.len(), |i: int| av[i]@) =~= seq!["-c"@, "wget -qO - "@ + k@ + " | apt-key add -"@]);
                let r = vec![key, write, apt_refresh()];
                assert(step_views(r@) =~= seq![step_view(r@[0]), step_view(r@[1]), step_view(r@[2])]);
                Ok(r)
            },
            None => Ok(steps2(write, apt_refresh())),
        }
    } else if managers.dnf && (ends(repository, ".repo") || is_type(repo_type, "rpm")) {
        let a: Vec<&str> = vec!["config-manager", "--add-repo", repository];
        let ghost av = a@;
        let step = run_step("dnf", a, true);
        assert(Seq::new(av.len(), |i: int| av[i]@) =~= seq!["config-manager"@, "--add-repo"@, repository@]);
        Ok(steps1(step))
    } else if managers.pacman && is_type(repo_type, "arch") {
        Err(owned("Pacman repository addition not implemented - requires manual configuration"))
    } else if managers.flatpak && is_type(repo_type, "flatpak") {
        let a: Vec<&str> = vec!["remote-add", "--if-not-exists", "omni-added-repo", repository];
        let ghost av = a@;
        let step = run_step("flatpak", a, false);
        assert(Seq::new(av.len(), |i: int| av[i]@) =~= seq!["remote-add"@, "--if-not-exists"@, "omni-added-repo"@, repository@]);
        Ok(steps1(step))
    } else {
        Err(owned("Unsupported repository type or package manager not available"))
    }
}

/// The steps that remove a repository, as `remove_steps` describes them.
pub fn remove_repository(repository: &str, managers: &Managers) -> (r: Result<Vec<RepoStep>, String>)
    ensures
        match r {
            Ok(v) => remove_steps(repository@, *managers) == Ok::<Seq<StepView>, Seq<char>>(step_views(v@)),
            Err(e) => remove_steps(repository@, *managers) == Err::<Seq<StepView>, Seq<char>>(e@),
        },
{
    if starts(repository, "ppa:") && managers.add_apt_repository {
        let a: Vec<&str> = vec!["-y", "-r", repository];
        let ghost av = a@;
        let step = run_step("add-apt-repository", a, true);
        assert(Seq::new(av.len(), |i: int| av[i]@) =~= seq!["-y"@, "-r"@, repository@]);
        Ok(steps1(step))
    } else if managers.apt {
        Err(owned("APT repository removal not fully implemented"))
    } else if managers.dnf {
        let a: Vec<&str> = vec!["config-manager", "--set-disabled", repository];
        let ghost av = a@;
        let step = run_step("dnf", a, true);
        assert(Seq::new(av.len(), |i: int| av[i]@) =~= seq!["config-manager"@, "--set-disabled"@, repository@]);
        Ok(steps1(step))
    } else if managers.flatpak {
        let a: Vec<&str> = vec!["remote-delete", repository];
        let ghost av = a@;
        let step = run_step("flatpak", a, false);
        assert(Seq::new(av.len(), |i: int| av[i]@) =~= seq!["remote-delete"@, repository@]);
        Ok(steps1(step))
    } else {
        Err(owned("Repository not found or package manager not available"))
    }
}

/// Each line of `ls` that `keep` keeps, after `prefix`.
pub open spec fn labelled(ls: Seq<Seq<char>>, prefix: Seq<char>, keep: spec_fn(Seq<char>) -> bool) -> Seq<Seq<char>>
    decreases ls.len(),
{
    if ls.len() == 0 {
        Seq::empty()
    } else {
        labelled(ls.drop_last(), prefix, keep) + if keep(ls.last()) {
            seq![prefix + ls.last()]
        } else {
            Seq::empty()
        }
    }
}

/// Which of the lines a listing keeps.
#[derive(PartialEq, Eq, Structural, Clone, Copy, Debug)]
pub enum RepoListing {
    /// An APT source list: the `deb ` lines.
    AptSources,
    /// `dnf repolist --enabled`, after its header: the lines not empty.
    Dnf,
    /// `flatpak remotes`: every line.
    Flatpak,
}

/// Whether a listing keeps a line.
pub open spec fn keeps(k: RepoListing, l: Seq<char>) -> bool {
    match k {
        RepoListing::AptSources => has_prefix(l, "deb "@) && !has_prefix(l, "#"@),
        RepoListing::Dnf => l.len() > 0,
        RepoListing::Flatpak => true,
    }
}

/// The label a listing puts before each repository.
pub open spec fn listing_label(k: RepoListing) -> Seq<char> {
    match k {
        RepoListing::AptSources => "apt: "@,
        RepoListing::Dnf => "dnf: "@,
        RepoListing::Flatpak => "flatpak: "@,
    }
}

/// The lines a listing reads.
pub open spec fn listing_lines(k: RepoListing, text: Seq<char>) -> Seq<Seq<char>> {
    match k {
        RepoListing::Dnf => after_header(lines(text)),
        _ => lines(text),
    }
}

/// The repositories that a source list or a manager's answer lists, each
/// labelled with its manager.
pub fn listed_repositories(k: RepoListing, text: &str) -> (r: Vec<String>)
    ensures
        texts(r@) == labelled(listing_lines(k, text@), listing_label(k), |l: Seq<char>| keeps(k, l)),
{
    let ls = lines_of(text);
    let ghost all = listing_lines(k, text@);
    let ghost f = |l: Seq<char>| keeps(k, l);
    let ghost label = listing_label(k);
    let start: usize = match k {
        RepoListing::Dnf => 1,
        _ => 0,
    };
    let mut r: Vec<String> = Vec::new();
    if ls.len() <= start {
        assert(all =~= Seq::<Seq<char>>::empty());
        assert(texts(r@) =~= labelled(all, label, f));
        return r;
    }
    assert(all =~= lines(text@).skip(start as int));
    assert(texts(r@) =~= labelled(all.take(0), label, f));
    let lab = match k {
        RepoListing::AptSources => "apt: ",
        RepoListing::Dnf => "dnf: ",
        RepoListing::Flatpak => "flatpak: ",
    };
    let mut i: usize = start;
    while i < ls.len()
        invariant
            start <= i <= ls@.len(),
            ls@.len() == lines(text@).len(),
            all == lines(text@).skip(start as int),
            lab@ == label,
            label == listing_label(k),
            f == (|l: Seq<char>| keeps(k, l)),
            forall|j: int| 0 <= j < ls@.len() ==> #[trigger] ls@[j]@ == lines(text@)[j],
            texts(r@) == labelled(all.take(i - start), label, f),
        decreases ls.len() - i,
    {
        assert(all.take(i - start + 1).drop_last() =~= all.take(i - start));
        assert(all.take(i - start + 1).last() == ls@[i as int]@);
        let line = string_from_chars(&ls[i]);
        let keep = match k {
            RepoListing::AptSources => starts(line.as_str(), "deb ") && !starts(line.as_str(), "#"),
            RepoListing::Dnf => ls[i].len() > 0,
            RepoListing::Flatpak => true,
        };
        let ghost before = texts(r@);
        if keep {
            let x = concat2(lab, line.as_str());
            r.push(x);
            assert(texts(r@) =~= before + seq![label + ls@[i as int]@]);
        } else {
            assert(texts(r@) =~= before + Seq::<Seq<char>>::empty());
        }
        i = i + 1;
    }
    assert(all.take(ls@.len() - start) =~= all);
    r
}

} // verus!
