//! Dependency resolution through the package managers: how their answers
//! about dependencies, versions and sizes are read, which manager serves a
//! package, and the breadth-first walk over dependencies that makes a plan.
use vstd::prelude::*;
use crate::box_ops::{copy_chars, same_chars, starts, word_at};
use crate::config::{all_digits, digits_value, lemma_digits_value_grows};
use crate::search::SearchResult;
use crate::text::{
    before_first, before_first_exec, char_views, chars_of, contains_seq, first_word, first_word_exec, has_prefix,
    has_sub, lines, lines_of, owned, concat4, text_eq, second_piece, second_piece_exec, slice_chars, split_ws, string_from_chars, texts,
    trim, trimmed, words,
};

verus! {

/// A dependency of a package, as a manager reports it.
#[derive(Debug, Clone)]
pub struct Dependency {
    pub name: String,
    pub version_req: Option<String>,
    pub box_type: String,
    pub optional: bool,
    pub conflicts: Vec<String>,
    pub provides: Vec<String>,
}

/// An optional text as plain characters.
pub open spec fn opt_text(o: Option<String>) -> Option<Seq<char>> {
    match o {
        Some(t) => Some(t@),
        None => None,
    }
}

/// A dependency as plain values: its name, version requirement, manager,
/// whether it is optional, the packages it conflicts with and the names it
/// provides.
pub open spec fn dep_view(d: Dependency) -> (Seq<char>, Option<Seq<char>>, Seq<char>, bool, Seq<Seq<char>>, Seq<Seq<char>>) {
    (d.name@, opt_text(d.version_req), d.box_type@, d.optional, texts(d.conflicts@), texts(d.provides@))
}

/// Dependencies as plain values.
pub open spec fn dep_views(ds: Seq<Dependency>) -> Seq<(Seq<char>, Option<Seq<char>>, Seq<char>, bool, Seq<Seq<char>>, Seq<Seq<char>>)> {
    ds.map_values(|d: Dependency| dep_view(d))
}

/// A dependency known only by name, manager and whether it is optional.
pub open spec fn plain_dep(name: Seq<char>, box_type: Seq<char>, optional: bool) -> (Seq<char>, Option<Seq<char>>, Seq<char>, bool, Seq<Seq<char>>, Seq<Seq<char>>) {
    (name, None, box_type, optional, Seq::empty(), Seq::empty())
}

/// A dependency known only by name, manager and whether it is optional.
fn plain_dependency(name: String, box_type: &str, optional: bool) -> (r: Dependency)
    ensures
        dep_view(r) == plain_dep(name@, box_type@, optional),
{
    let r = Dependency {
        name,
        version_req: None,
        box_type: owned(box_type),
        optional,
        conflicts: Vec::new(),
        provides: Vec::new(),
    };
    assert(texts(r.conflicts@) =~= Seq::<Seq<char>>::empty());
    assert(texts(r.provides@) =~= Seq::<Seq<char>>::empty());
    r
}

/// The first word of `s`, or nothing.
pub open spec fn word_or_empty(s: Seq<char>) -> Seq<char> {
    match first_word(s) {
        Some(w) => w,
        None => Seq::empty(),
    }
}

/// The first word of `s`, or nothing.
fn word_or_empty_exec(s: &Vec<char>) -> (r: Vec<char>)
    ensures
        r@ == word_or_empty(s@),
{
    match first_word_exec(s) {
        Some(w) => w,
        None => Vec::new(),
    }
}

/// The trimmed rest of `t` after its first `n` characters.
pub open spec fn rest_after(t: Seq<char>, n: nat) -> Seq<char> {
    trim(t.skip(n as int))
}

/// The trimmed rest of `t` after the text `p`, which it begins with.
fn rest_after_exec(t: &Vec<char>, p: &str) -> (r: Vec<char>)
    requires
        has_prefix(t@, p@),
    ensures
        r@ == rest_after(t@, p@.len()),
{
    let pv = chars_of(p);
    let rest = slice_chars(t, pv.len(), t.len());
    assert(rest@ =~= t@.skip(p@.len() as int));
    trimmed(&rest)
}

/// A dependency with one more conflicting package.
pub open spec fn with_conflict(
    d: (Seq<char>, Option<Seq<char>>, Seq<char>, bool, Seq<Seq<char>>, Seq<Seq<char>>),
    c: Seq<char>,
) -> (Seq<char>, Option<Seq<char>>, Seq<char>, bool, Seq<Seq<char>>, Seq<Seq<char>>) {
    (d.0, d.1, d.2, d.3, d.4.push(c), d.5)
}

/// What one line of `apt depends` adds: a `Depends:` line the dependency
/// it names first, a `Recommends:` line an optional one, and a
/// `Conflicts:` line the package it names first to the conflicts of the
/// dependency read last.
pub open spec fn apt_line(
    deps: Seq<(Seq<char>, Option<Seq<char>>, Seq<char>, bool, Seq<Seq<char>>, Seq<Seq<char>>)>,
    l: Seq<char>,
) -> Seq<(Seq<char>, Option<Seq<char>>, Seq<char>, bool, Seq<Seq<char>>, Seq<Seq<char>>)> {
    let t = trim(l);
    if has_prefix(t, "Depends:"@) {
        let part = rest_after(t, "Depends:"@.len());
        if part.len() > 0 {
            deps.push(plain_dep(word_or_empty(part), "apt"@, false))
        } else {
            deps
        }
    } else if has_prefix(t, "Recommends:"@) {
        let part = rest_after(t, "Recommends:"@.len());
        if part.len() > 0 {
            deps.push(plain_dep(word_or_empty(part), "apt"@, true))
        } else {
            deps
        }
    } else if has_prefix(t, "Conflicts:"@) {
        let part = rest_after(t, "Conflicts:"@.len());
        if part.len() > 0 && deps.len() > 0 {
            deps.update(deps.len() - 1, with_conflict(deps.last(), word_or_empty(part)))
        } else {
            deps
        }
    } else {
        deps
    }
}

/// The dependencies that the lines of `apt depends` give.
pub open spec fn apt_deps(ls: Seq<Seq<char>>) -> Seq<(Seq<char>, Option<Seq<char>>, Seq<char>, bool, Seq<Seq<char>>, Seq<Seq<char>>)>
    decreases ls.len(),
{
    if ls.len() == 0 {
        Seq::empty()
    } else {
        apt_line(apt_deps(ls.drop_last()), ls.last())
    }
}

/// Adds a dependency known by name.
fn push_plain(deps: &mut Vec<Dependency>, name: &Vec<char>, box_type: &str, optional: bool)
    ensures
        dep_views(final(deps)@) == dep_views(old(deps)@).push(plain_dep(name@, box_type@, optional)),
{
    let d = plain_dependency(string_from_chars(name), box_type, optional);
    let ghost before = dep_views(deps@);
    deps.push(d);
    assert(dep_views(deps@) =~= before.push(dep_view(d)));
}

/// Reads one line of `apt depends`.
fn apt_step(deps: &mut Vec<Dependency>, l: &Vec<char>)
    ensures
        dep_views(final(deps)@) == apt_line(dep_views(old(deps)@), l@),
{
    let t = trimmed(l);
    if starts(&t, "Depends:") {
        let part = rest_after_exec(&t, "Depends:");
        if part.len() > 0 {
            push_plain(deps, &word_or_empty_exec(&part), "apt", false);
        }
    } else if starts(&t, "Recommends:") {
        let part = rest_after_exec(&t, "Recommends:");
        if part.len() > 0 {
            push_plain(deps, &word_or_empty_exec(&part), "apt", true);
        }
    } else if starts(&t, "Conflicts:") {
        let part = rest_after_exec(&t, "Conflicts:");
        if part.len() > 0 && deps.len() > 0 {
            let ghost before = dep_views(deps@);
            let w = string_from_chars(&word_or_empty_exec(&part));
            let mut last = deps.pop().unwrap();
            assert(dep_view(last) == before.last());
            let ghost lc = texts(last.conflicts@);
            let ghost wv = w@;
            last.conflicts.push(w);
            assert(texts(last.conflicts@) =~= lc.push(wv));
            let ghost lv = dep_view(last);
            deps.push(last);
            assert(dep_views(deps@) =~= before.update(before.len() - 1, with_conflict(before.last(), wv)));
        }
    }
}

/// The dependencies that the answer of `apt depends` gives.
pub fn apt_dependencies(stdout: &str) -> (r: Vec<Dependency>)
    ensures
        dep_views(r@) == apt_deps(lines(stdout@)),
{
    let ls = lines_of(stdout);
    let ghost all = lines(stdout@);
    let mut deps: Vec<Dependency> = Vec::new();
    let mut i: usize = 0;
    assert(dep_views(deps@) =~= apt_deps(all.take(0)));
    while i < ls.len()
        invariant
            i <= ls@.len(),
            ls@.len() == all.len(),
            all == lines(stdout@),
            forall|k: int| 0 <= k < ls@.len() ==> #[trigger] ls@[k]@ == all[k],
            dep_views(deps@) == apt_deps(all.take(i as int)),
        decreases ls.len() - i,
    {
        assert(all.take(i + 1).drop_last() =~= all.take(i as int));
        assert(all.take(i + 1).last() == ls@[i as int]@);
        apt_step(&mut deps, &ls[i]);
        i = i + 1;
    }
    assert(all.take(ls@.len() as int) =~= all);
    deps
}

/// The dependency that a line of `dnf repoquery --requires` names: the
/// trimmed line, unless it is blank, a file path, a capability in
/// brackets or an `rpmlib` requirement.
pub open spec fn dnf_name(l: Seq<char>) -> Option<Seq<char>> {
    let t = trim(l);
    if t.len() > 0 && !has_prefix(t, "/"@) && !has_sub(t, "("@) && !has_prefix(t, "rpmlib"@) {
        Some(t)
    } else {
        None
    }
}

/// The dependencies that the lines of `dnf repoquery --requires` give.
pub open spec fn dnf_deps(ls: Seq<Seq<char>>) -> Seq<(Seq<char>, Option<Seq<char>>, Seq<char>, bool, Seq<Seq<char>>, Seq<Seq<char>>)>
    decreases ls.len(),
{
    if ls.len() == 0 {
        Seq::empty()
    } else {
        dnf_deps(ls.drop_last()) + match dnf_name(ls.last()) {
            Some(t) => seq![plain_dep(t, "dnf"@, false)],
            None => Seq::empty(),
        }
    }
}

/// The dependencies that the answer of `dnf repoquery --requires` gives.
pub fn dnf_dependencies(stdout: &str) -> (r: Vec<Dependency>)
    ensures
        dep_views(r@) == dnf_deps(lines(stdout@)),
{
    let ls = lines_of(stdout);
    let ghost all = lines(stdout@);
    let mut deps: Vec<Dependency> = Vec::new();
    let mut i: usize = 0;
    assert(dep_views(deps@) =~= dnf_deps(all.take(0)));
    while i < ls.len()
        invariant
            i <= ls@.len(),
            ls@.len() == all.len(),
            all == lines(stdout@),
            forall|k: int| 0 <= k < ls@.len() ==> #[trigger] ls@[k]@ == all[k],
            dep_views(deps@) == dnf_deps(all.take(i as int)),
        decreases ls.len() - i,
    {
        assert(all.take(i + 1).drop_last() =~= all.take(i as int));
        assert(all.take(i + 1).last() == ls@[i as int]@);
        let ghost before = dep_views(deps@);
        let t = trimmed(&ls[i]);
        if t.len() > 0 && !starts(&t, "/") && !contains_seq(&t, &chars_of("(")) && !starts(&t, "rpmlib") {
            push_plain(&mut deps, &t, "dnf", false);
        } else {
            assert(before + Seq::empty() =~= before);
        }
        i = i + 1;
    }
    assert(all.take(ls@.len() as int) =~= all);
    deps
}

/// The trimmed text between the first and second colons of `l` (empty
/// where `l` has no colon).
pub open spec fn field_value(l: Seq<char>) -> Seq<char> {
    trim(
        match second_piece(l, ":"@) {
            Some(p) => p,
            None => Seq::empty(),
        },
    )
}

/// The trimmed text between the first and second colons of `l`.
fn field_value_exec(l: &Vec<char>) -> (r: Vec<char>)
    ensures
        r@ == field_value(l@),
{
    match second_piece_exec(l, &chars_of(":")) {
        Some(p) => trimmed(&p),
        None => trimmed(&Vec::new()),
    }
}

/// The dependencies named by the words of a field of `pacman -Si`; an
/// optional one is named by its word up to a colon.
pub open spec fn pacman_names(ws: Seq<Seq<char>>, optional: bool) -> Seq<(Seq<char>, Option<Seq<char>>, Seq<char>, bool, Seq<Seq<char>>, Seq<Seq<char>>)> {
    Seq::new(
        ws.len(),
        |i: int|
            plain_dep(
                if optional {
                    before_first(ws[i], ":"@)
                } else {
                    ws[i]
                },
                "pacman"@,
                optional,
            ),
    )
}

/// The dependencies a field line of `pacman -Si` gives: none where the
/// field reads `None`.
pub open spec fn pacman_field(l: Seq<char>, optional: bool) -> Seq<(Seq<char>, Option<Seq<char>>, Seq<char>, bool, Seq<Seq<char>>, Seq<Seq<char>>)> {
    if field_value(l) == "None"@ {
        Seq::empty()
    } else {
        pacman_names(words(field_value(l)), optional)
    }
}

/// The dependencies that the lines of `pacman -Si` give: those of every
/// `Depends On` line, then those of the first `Optional Deps` line, where
/// reading stops.
pub open spec fn pacman_deps(ls: Seq<Seq<char>>) -> Seq<(Seq<char>, Option<Seq<char>>, Seq<char>, bool, Seq<Seq<char>>, Seq<Seq<char>>)>
    decreases ls.len(),
{
    if ls.len() == 0 {
        Seq::empty()
    } else if has_prefix(ls[0], "Depends On"@) {
        pacman_field(ls[0], false) + pacman_deps(ls.drop_first())
    } else if has_prefix(ls[0], "Optional Deps"@) {
        pacman_field(ls[0], true)
    } else {
        pacman_deps(ls.drop_first())
    }
}

/// Adds the dependencies of a field line of `pacman -Si`.
fn pacman_field_exec(deps: &mut Vec<Dependency>, l: &Vec<char>, optional: bool)
    ensures
        dep_views(final(deps)@) == dep_views(old(deps)@) + pacman_field(l@, optional),
{
    let v = field_value_exec(l);
    let ghost start = dep_views(deps@);
    if same_chars(&v, &chars_of("None")) {
        assert(start + Seq::empty() =~= start);
        return;
    }
    let ws = split_ws(&v);
    let ghost wv = char_views(ws@);
    let ghost all = pacman_names(wv, optional);
    let colon = chars_of(":");
    let mut k: usize = 0;
    assert(start + all.take(0) =~= start);
    while k < ws.len()
        invariant
            k <= ws@.len(),
            wv == char_views(ws@),
            wv.len() == ws@.len(),
            all == pacman_names(wv, optional),
            colon@ == ":"@,
            dep_views(deps@) == start + all.take(k as int),
        decreases ws.len() - k,
    {
        let w = word_at(&ws, k);
        let name = if optional {
            before_first_exec(&w, &colon)
        } else {
            w
        };
        push_plain(deps, &name, "pacman", optional);
        assert(all.take(k + 1) =~= all.take(k as int).push(all[k as int]));
        k = k + 1;
    }
    assert(all.take(ws@.len() as int) =~= all);
}

/// The dependencies that the answer of `pacman -Si` gives.
pub fn pacman_dependencies(stdout: &str) -> (r: Vec<Dependency>)
    ensures
        dep_views(r@) == pacman_deps(lines(stdout@)),
{
    let ls = lines_of(stdout);
    let ghost all = lines(stdout@);
    let mut deps: Vec<Dependency> = Vec::new();
    let mut i: usize = 0;
    assert(all.skip(0) =~= all);
    assert(dep_views(deps@) + pacman_deps(all) =~= pacman_deps(all));
    while i < ls.len()
        invariant
            i <= ls@.len(),
            ls@.len() == all.len(),
            all == lines(stdout@),
            forall|k: int| 0 <= k < ls@.len() ==> #[trigger] ls@[k]@ == all[k],
            pacman_deps(all) == dep_views(deps@) + pacman_deps(all.skip(i as int)),
        decreases ls.len() - i,
    {
        let ghost rest = all.skip(i as int);
        assert(rest[0] == ls@[i as int]@);
        assert(rest.drop_first() =~= all.skip(i + 1));
        let ghost before = dep_views(deps@);
        if starts(&ls[i], "Depends On") {
            pacman_field_exec(&mut deps, &ls[i], false);
            assert(before + (pacman_field(rest[0], false) + pacman_deps(rest.drop_first())) =~= dep_views(deps@)
                + pacman_deps(all.skip(i + 1)));
        } else if starts(&ls[i], "Optional Deps") {
            pacman_field_exec(&mut deps, &ls[i], true);
            return deps;
        }
        i = i + 1;
    }
    assert(all.skip(i as int) =~= Seq::<Seq<char>>::empty());
    assert(dep_views(deps@) + Seq::empty() =~= dep_views(deps@));
    deps
}

/// The dependency that the answer of `flatpak info --show-runtime` gives:
/// the runtime it names, where it names one.
pub open spec fn flatpak_deps(out: Seq<char>) -> Seq<(Seq<char>, Option<Seq<char>>, Seq<char>, bool, Seq<Seq<char>>, Seq<Seq<char>>)> {
    if trim(out).len() > 0 {
        seq![plain_dep(trim(out), "flatpak"@, false)]
    } else {
        Seq::empty()
    }
}

/// The dependency that the answer of `flatpak info --show-runtime` gives.
pub fn flatpak_dependencies(stdout: &str) -> (r: Vec<Dependency>)
    ensures
        dep_views(r@) == flatpak_deps(stdout@),
{
    let t = trimmed(&chars_of(stdout));
    let mut deps: Vec<Dependency> = Vec::new();
    if t.len() > 0 {
        push_plain(&mut deps, &t, "flatpak", false);
    } else {
        assert(dep_views(deps@) =~= flatpak_deps(stdout@));
    }
    deps
}


/// A manager whose answers give dependencies.
#[derive(Debug, Clone, Copy, PartialEq, Eq, Structural)]
pub enum DependencySource {
    Apt,
    Dnf,
    Pacman,
    Flatpak,
}

/// The dependencies that a manager's answer gives: none where its command
/// failed.
pub open spec fn answer_dependencies(
    source: DependencySource,
    success: bool,
    out: Seq<char>,
) -> Seq<(Seq<char>, Option<Seq<char>>, Seq<char>, bool, Seq<Seq<char>>, Seq<Seq<char>>)> {
    if !success {
        Seq::empty()
    } else {
        match source {
            DependencySource::Apt => apt_deps(lines(out)),
            DependencySource::Dnf => dnf_deps(lines(out)),
            DependencySource::Pacman => pacman_deps(lines(out)),
            DependencySource::Flatpak => flatpak_deps(out),
        }
    }
}

/// The dependencies that a manager's answer gives.
pub fn parse_dependencies(source: DependencySource, success: bool, stdout: &str) -> (r: Vec<Dependency>)
    ensures
        dep_views(r@) == answer_dependencies(source, success, stdout@),
{
    if !success {
        let r: Vec<Dependency> = Vec::new();
        assert(dep_views(r@) =~= Seq::empty());
        return r;
    }
    match source {
        DependencySource::Apt => apt_dependencies(stdout),
        DependencySource::Dnf => dnf_dependencies(stdout),
        DependencySource::Pacman => pacman_dependencies(stdout),
        DependencySource::Flatpak => flatpak_dependencies(stdout),
    }
}

/// Which managers are asked for the dependencies of a package.
#[derive(Debug, Clone, Copy, PartialEq, Eq, Structural)]
pub enum DependencyQuery {
    /// The one manager named.
    Single(DependencySource),
    /// None: the package is a snap, which carries what it needs.
    Nothing,
    /// Every manager there is, their answers merged by name.
    Every,
}

/// Which managers are asked for the dependencies of a package of the
/// given manager (any, where none is given or the name is unknown).
pub open spec fn query_of(box_type: Option<Seq<char>>) -> DependencyQuery {
    match box_type {
        Some(b) => if b == "apt"@ {
            DependencyQuery::Single(DependencySource::Apt)
        } else if b == "dnf"@ {
            DependencyQuery::Single(DependencySource::Dnf)
        } else if b == "pacman"@ {
            DependencyQuery::Single(DependencySource::Pacman)
        } else if b == "snap"@ {
            DependencyQuery::Nothing
        } else if b == "flatpak"@ {
            DependencyQuery::Single(DependencySource::Flatpak)
        } else {
            DependencyQuery::Every
        },
        None => DependencyQuery::Every,
    }
}

/// Which managers are asked for the dependencies of a package.
pub fn dependency_query(box_type: Option<&str>) -> (r: DependencyQuery)
    ensures
        r == query_of(
            match box_type {
                Some(b) => Some(b@),
                None => None,
            },
        ),
{
    match box_type {
        Some(b) => if text_eq(b, "apt") {
            DependencyQuery::Single(DependencySource::Apt)
        } else if text_eq(b, "dnf") {
            DependencyQuery::Single(DependencySource::Dnf)
        } else if text_eq(b, "pacman") {
            DependencyQuery::Single(DependencySource::Pacman)
        } else if text_eq(b, "snap") {
            DependencyQuery::Nothing
        } else if text_eq(b, "flatpak") {
            DependencyQuery::Single(DependencySource::Flatpak)
        } else {
            DependencyQuery::Every
        },
        None => DependencyQuery::Every,
    }
}

/// A copy of some strings.
fn copy_texts(v: &Vec<String>) -> (r: Vec<String>)
    ensures
        texts(r@) == texts(v@),
{
    let mut r: Vec<String> = Vec::new();
    let mut i: usize = 0;
    while i < v.len()
        invariant
            i <= v@.len(),
            r@.len() == i,
            forall|k: int| 0 <= k < i ==> #[trigger] r@[k]@ == v@[k]@,
        decreases v.len() - i,
    {
        r.push(v[i].clone());
        i = i + 1;
    }
    assert(texts(r@) =~= texts(v@));
    r
}

/// A copy of a dependency.
pub fn copy_dependency(d: &Dependency) -> (r: Dependency)
    ensures
        dep_view(r) == dep_view(*d),
{
    Dependency {
        name: d.name.clone(),
        version_req: match &d.version_req {
            Some(v) => Some(v.clone()),
            None => None,
        },
        box_type: d.box_type.clone(),
        optional: d.optional,
        conflicts: copy_texts(&d.conflicts),
        provides: copy_texts(&d.provides),
    }
}

/// The names of some dependencies.
pub open spec fn dep_names(ds: Seq<(Seq<char>, Option<Seq<char>>, Seq<char>, bool, Seq<Seq<char>>, Seq<Seq<char>>)>) -> Seq<Seq<char>> {
    ds.map_values(|d: (Seq<char>, Option<Seq<char>>, Seq<char>, bool, Seq<Seq<char>>, Seq<Seq<char>>)| d.0)
}

/// The first dependency of each name, in the order of first appearance.
pub open spec fn unique_deps(ds: Seq<(Seq<char>, Option<Seq<char>>, Seq<char>, bool, Seq<Seq<char>>, Seq<Seq<char>>)>) -> Seq<(Seq<char>, Option<Seq<char>>, Seq<char>, bool, Seq<Seq<char>>, Seq<Seq<char>>)>
    decreases ds.len(),
{
    if ds.len() == 0 {
        Seq::empty()
    } else {
        let prev = unique_deps(ds.drop_last());
        if dep_names(prev).contains(ds.last().0) {
            prev
        } else {
            prev.push(ds.last())
        }
    }
}

/// The answers of several managers merged: the first dependency of each
/// name, in the order of first appearance.
pub fn merge_dependencies(all: &Vec<Dependency>) -> (r: Vec<Dependency>)
    ensures
        dep_views(r@) == unique_deps(dep_views(all@)),
{
    let ghost av = dep_views(all@);
    let mut r: Vec<Dependency> = Vec::new();
    let mut i: usize = 0;
    assert(dep_views(r@) =~= unique_deps(av.take(0)));
    while i < all.len()
        invariant
            i <= all@.len(),
            av == dep_views(all@),
            dep_views(r@) == unique_deps(av.take(i as int)),
        decreases all.len() - i,
    {
        assert(av.take(i + 1).drop_last() =~= av.take(i as int));
        assert(av.take(i + 1).last() == dep_view(all@[i as int]));
        let ghost rv = dep_views(r@);
        let mut found = false;
        let mut j: usize = 0;
        while j < r.len()
            invariant
                j <= r@.len(),
                i < all@.len(),
                rv == dep_views(r@),
                found ==> dep_names(rv).contains(all@[i as int].name@),
                !found ==> forall|t: int| 0 <= t < j ==> dep_names(rv)[t] != all@[i as int].name@,
            decreases r.len() - j,
        {
            assert(dep_names(rv)[j as int] == r@[j as int].name@);
            if text_eq(r[j].name.as_str(), all[i].name.as_str()) {
                found = true;
            }
            j = j + 1;
        }
        if !found {
            let d = copy_dependency(&all[i]);
            r.push(d);
            assert(dep_views(r@) =~= rv.push(dep_view(d)));
        }
        i = i + 1;
    }
    assert(av.take(all@.len() as int) =~= av);
    r
}

/// The lines that report the conflicts of a package's dependencies with
/// installed packages: one for each conflicting package named by a
/// dependency that is installed.
pub open spec fn conflicts_with_installed(
    p: Seq<char>,
    names: Seq<Seq<char>>,
    installed: Seq<Seq<char>>,
) -> Seq<Seq<char>>
    decreases names.len(),
{
    if names.len() == 0 {
        Seq::empty()
    } else {
        conflicts_with_installed(p, names.drop_last(), installed) + if installed.contains(names.last()) {
            seq!["Package "@ + p + " conflicts with installed package "@ + names.last()]
        } else {
            Seq::empty()
        }
    }
}

/// All conflicting packages named by some dependencies, in order.
pub open spec fn all_conflicts(ds: Seq<(Seq<char>, Option<Seq<char>>, Seq<char>, bool, Seq<Seq<char>>, Seq<Seq<char>>)>) -> Seq<Seq<char>>
    decreases ds.len(),
{
    if ds.len() == 0 {
        Seq::empty()
    } else {
        all_conflicts(ds.drop_last()) + ds.last().4
    }
}

/// Whether the text `x` is among `v`.
fn among(v: &Vec<String>, x: &str) -> (r: bool)
    ensures
        r == texts(v@).contains(x@),
{
    let mut i: usize = 0;
    while i < v.len()
        invariant
            i <= v@.len(),
            forall|k: int| 0 <= k < i ==> texts(v@)[k] != x@,
        decreases v.len() - i,
    {
        if text_eq(v[i].as_str(), x) {
            assert(texts(v@)[i as int] == x@);
            return true;
        }
        i = i + 1;
    }
    false
}

/// The conflicts of a package's dependencies with the installed packages.
pub fn check_conflicts(package_name: &str, dependencies: &Vec<Dependency>, installed: &Vec<String>) -> (r: Vec<String>)
    ensures
        texts(r@) == conflicts_with_installed(package_name@, all_conflicts(dep_views(dependencies@)), texts(installed@)),
{
    let ghost dv = dep_views(dependencies@);
    let mut r: Vec<String> = Vec::new();
    let mut i: usize = 0;
    assert(texts(r@) =~= conflicts_with_installed(package_name@, all_conflicts(dv.take(0)), texts(installed@)));
    while i < dependencies.len()
        invariant
            i <= dependencies@.len(),
            dv == dep_views(dependencies@),
            texts(r@) == conflicts_with_installed(package_name@, all_conflicts(dv.take(i as int)), texts(installed@)),
        decreases dependencies.len() - i,
    {
        assert(dv.take(i + 1).drop_last() =~= dv.take(i as int));
        let ghost prefix = all_conflicts(dv.take(i as int));
        let cs = &dependencies[i].conflicts;
        let ghost cv = texts(cs@);
        assert(dv.take(i + 1).last().4 == cv);
        let mut k: usize = 0;
        assert(prefix + cv.take(0) =~= prefix);
        while k < cs.len()
            invariant
                k <= cs@.len(),
                cv == texts(cs@),
                texts(r@) == conflicts_with_installed(package_name@, prefix + cv.take(k as int), texts(installed@)),
            decreases cs.len() - k,
        {
            let ghost before = texts(r@);
            assert((prefix + cv.take(k + 1)).drop_last() =~= prefix + cv.take(k as int));
            assert((prefix + cv.take(k + 1)).last() == cs@[k as int]@);
            if among(installed, cs[k].as_str()) {
                let line = concat4("Package ", package_name, " conflicts with installed package ", cs[k].as_str());
                r.push(line);
                assert(texts(r@) =~= before.push(line@));
            } else {
                assert(before + Seq::empty() =~= before);
            }
            k = k + 1;
        }
        assert(cv.take(cs@.len() as int) =~= cv);
        i = i + 1;
    }
    assert(dv.take(dependencies@.len() as int) =~= dv);
    r
}


/// A manager whose answers give the version of a package.
#[derive(Debug, Clone, Copy, PartialEq, Eq, Structural)]
pub enum VersionSource {
    Apt,
    Dnf,
    Pacman,
    Snap,
    Flatpak,
}

/// The manager asked for the version of a package of the named manager.
pub open spec fn version_source_of(box_type: Seq<char>) -> Option<VersionSource> {
    if box_type == "apt"@ {
        Some(VersionSource::Apt)
    } else if box_type == "dnf"@ {
        Some(VersionSource::Dnf)
    } else if box_type == "pacman"@ {
        Some(VersionSource::Pacman)
    } else if box_type == "snap"@ {
        Some(VersionSource::Snap)
    } else if box_type == "flatpak"@ {
        Some(VersionSource::Flatpak)
    } else {
        None
    }
}

/// The manager asked for the version of a package of the named manager:
/// none for a manager not known here.
pub fn version_source(box_type: &str) -> (r: Option<VersionSource>)
    ensures
        r == version_source_of(box_type@),
{
    if text_eq(box_type, "apt") {
        Some(VersionSource::Apt)
    } else if text_eq(box_type, "dnf") {
        Some(VersionSource::Dnf)
    } else if text_eq(box_type, "pacman") {
        Some(VersionSource::Pacman)
    } else if text_eq(box_type, "snap") {
        Some(VersionSource::Snap)
    } else if text_eq(box_type, "flatpak") {
        Some(VersionSource::Flatpak)
    } else {
        None
    }
}

/// The version that one line of a manager's answer gives: the candidate
/// of `apt policy` (unless it is `(none)`), the `Version` field of `dnf
/// info`, `pacman -Si` and `flatpak info`, the second word of the
/// `tracking:` line of `snap info`.
pub open spec fn answer_line_version(source: VersionSource, l: Seq<char>) -> Option<Seq<char>> {
    match source {
        VersionSource::Apt => if has_prefix(trim(l), "Candidate:"@) && field_value(l) != "(none)"@ {
            Some(field_value(l))
        } else {
            None
        },
        VersionSource::Dnf => if has_prefix(l, "Version"@) {
            Some(field_value(l))
        } else {
            None
        },
        VersionSource::Pacman => if has_prefix(l, "Version"@) {
            Some(field_value(l))
        } else {
            None
        },
        VersionSource::Snap => if has_prefix(l, "tracking:"@) {
            Some(
                if words(l).len() >= 2 {
                    words(l)[1]
                } else {
                    Seq::empty()
                },
            )
        } else {
            None
        },
        VersionSource::Flatpak => if has_prefix(l, "Version:"@) {
            Some(field_value(l))
        } else {
            None
        },
    }
}

/// The version that the first line giving one gives.
pub open spec fn first_line_version(source: VersionSource, ls: Seq<Seq<char>>) -> Option<Seq<char>>
    decreases ls.len(),
{
    if ls.len() == 0 {
        None
    } else {
        match answer_line_version(source, ls[0]) {
            Some(v) => Some(v),
            None => first_line_version(source, ls.drop_first()),
        }
    }
}

/// The version given where an answer names none: `latest` for snaps and
/// flatpaks, `unknown` otherwise.
pub open spec fn default_version(source: VersionSource) -> Seq<char> {
    match source {
        VersionSource::Snap => "latest"@,
        VersionSource::Flatpak => "latest"@,
        _ => "unknown"@,
    }
}

/// The version of a package of the named manager, from the manager's
/// answer (`None` where its command could not be run; otherwise whether
/// it succeeded, and what it printed).
pub open spec fn version_from(box_type: Seq<char>, answer: Option<(bool, Seq<char>)>) -> Seq<char> {
    match version_source_of(box_type) {
        None => "unknown"@,
        Some(source) => match answer {
            None => "unknown"@,
            Some(a) => if a.0 {
                match first_line_version(source, lines(a.1)) {
                    Some(v) => v,
                    None => default_version(source),
                }
            } else {
                default_version(source)
            },
        },
    }
}

/// The version that one line gives.
fn answer_line_version_exec(source: VersionSource, l: &Vec<char>) -> (r: Option<Vec<char>>)
    ensures
        match r {
            Some(v) => answer_line_version(source, l@) == Some(v@),
            None => answer_line_version(source, l@) is None,
        },
{
    match source {
        VersionSource::Apt => {
            let t = trimmed(l);
            if starts(&t, "Candidate:") {
                let v = field_value_exec(l);
                if !same_chars(&v, &chars_of("(none)")) {
                    return Some(v);
                }
            }
            None
        },
        VersionSource::Dnf | VersionSource::Pacman => {
            if starts(l, "Version") {
                Some(field_value_exec(l))
            } else {
                None
            }
        },
        VersionSource::Snap => {
            if starts(l, "tracking:") {
                let ws = split_ws(l);
                assert(char_views(ws@).len() == ws@.len());
                if ws.len() >= 2 {
                    Some(word_at(&ws, 1))
                } else {
                    Some(Vec::new())
                }
            } else {
                None
            }
        },
        VersionSource::Flatpak => {
            if starts(l, "Version:") {
                Some(field_value_exec(l))
            } else {
                None
            }
        },
    }
}

/// The version of a package of the named manager, from the manager's
/// answer (`None` where its command could not be run).
pub fn package_version(box_type: &str, answer: Option<(bool, &str)>) -> (r: String)
    ensures
        r@ == version_from(
            box_type@,
            match answer {
                Some(a) => Some((a.0, a.1@)),
                None => None,
            },
        ),
{
    let source = match version_source(box_type) {
        Some(s) => s,
        None => return owned("unknown"),
    };
    let (ok, out) = match answer {
        Some(a) => a,
        None => return owned("unknown"),
    };
    let fallback = match source {
        VersionSource::Snap | VersionSource::Flatpak => owned("latest"),
        _ => owned("unknown"),
    };
    if !ok {
        return fallback;
    }
    let ls = lines_of(out);
    let ghost all = lines(out@);
    let mut i: usize = 0;
    assert(all.skip(0) =~= all);
    while i < ls.len()
        invariant
            i <= ls@.len(),
            ls@.len() == all.len(),
            all == lines(out@),
            forall|k: int| 0 <= k < ls@.len() ==> #[trigger] ls@[k]@ == all[k],
            first_line_version(source, all) == first_line_version(source, all.skip(i as int)),
            version_source_of(box_type@) == Some(source),
            answer == Some((ok, out)),
            ok,
        decreases ls.len() - i,
    {
        assert(all.skip(i as int)[0] == ls@[i as int]@);
        match answer_line_version_exec(source, &ls[i]) {
            Some(v) => {
                assert(first_line_version(source, all.skip(i as int)) == Some(v@));
                return string_from_chars(&v);
            },
            None => {},
        }
        assert(all.skip(i as int).drop_first() =~= all.skip(i + 1));
        i = i + 1;
    }
    assert(all.skip(i as int).len() == 0);
    fallback
}

/// What `str::parse::<u64>` gives: an optional `+`, then one or more
/// decimal digits whose value fits.
pub open spec fn parse_u64(s: Seq<char>) -> Option<u64> {
    let d = if s.len() > 0 && s[0] == '+' { s.drop_first() } else { s };
    if d.len() > 0 && all_digits(d) && digits_value(d) <= u64::MAX {
        Some(digits_value(d) as u64)
    } else {
        None
    }
}

/// Parses an unsigned number.
fn parse_u64_exec(v: &Vec<char>) -> (r: Option<u64>)
    ensures
        r == parse_u64(v@),
{
    let start: usize = if v.len() > 0 && v[0] == '+' { 1 } else { 0 };
    let ghost d = if v@.len() > 0 && v@[0] == '+' { v@.drop_first() } else { v@ };
    assert(d =~= v@.subrange(start as int, v@.len() as int));
    if start >= v.len() {
        return None;
    }
    let mut acc: u64 = 0;
    let mut i: usize = start;
    while i < v.len()
        invariant
            start <= i <= v@.len(),
            d =~= v@.subrange(start as int, v@.len() as int),
            d == (if v@.len() > 0 && v@[0] == '+' { v@.drop_first() } else { v@ }),
            d.len() > 0,
            forall|j: int| 0 <= j < i - start ==> '0' <= #[trigger] d[j] && d[j] <= '9',
            acc == digits_value(d.take(i - start)),
        decreases v.len() - i,
    {
        let c = v[i];
        if c < '0' || c > '9' {
            assert(d[i - start] == c);
            return None;
        }
        let digit = (c as u32 - '0' as u32) as u64;
        assert(d.take(i - start + 1).drop_last() =~= d.take(i - start));
        assert(d.take(i - start + 1).last() == c);
        match acc.checked_mul(10) {
            None => {
                proof {
                    if all_digits(d) {
                        lemma_digits_value_grows(d, i - start + 1);
                    }
                }
                return None;
            },
            Some(m) => match m.checked_add(digit) {
                None => {
                    proof {
                        if all_digits(d) {
                            lemma_digits_value_grows(d, i - start + 1);
                        }
                    }
                    return None;
                },
                Some(n) => {
                    acc = n;
                },
            },
        }
        i = i + 1;
    }
    assert(d.take(d.len() as int) =~= d);
    Some(acc)
}

/// The size in bytes that the first `Size:` line of `apt show` giving a
/// number gives.
pub open spec fn first_apt_size(ls: Seq<Seq<char>>) -> Option<u64>
    decreases ls.len(),
{
    if ls.len() == 0 {
        None
    } else {
        match if has_prefix(ls[0], "Size:"@) {
            parse_u64(field_value(ls[0]))
        } else {
            None
        } {
            Some(n) => Some(n),
            None => first_apt_size(ls.drop_first()),
        }
    }
}

/// The size in bytes of a package that the answer of `apt show` gives: 0
/// where the command failed or no size line reads as a number.
pub open spec fn apt_size_of(success: bool, out: Seq<char>) -> u64 {
    if success {
        match first_apt_size(lines(out)) {
            Some(n) => n,
            None => 0,
        }
    } else {
        0
    }
}

/// The size in bytes of a package that the answer of `apt show` gives.
pub fn apt_size(success: bool, stdout: &str) -> (r: u64)
    ensures
        r == apt_size_of(success, stdout@),
{
    if !success {
        return 0;
    }
    let ls = lines_of(stdout);
    let ghost all = lines(stdout@);
    let mut i: usize = 0;
    assert(all.skip(0) =~= all);
    while i < ls.len()
        invariant
            i <= ls@.len(),
            success,
            ls@.len() == all.len(),
            all == lines(stdout@),
            forall|k: int| 0 <= k < ls@.len() ==> #[trigger] ls@[k]@ == all[k],
            first_apt_size(all) == first_apt_size(all.skip(i as int)),
        decreases ls.len() - i,
    {
        assert(all.skip(i as int)[0] == ls@[i as int]@);
        if starts(&ls[i], "Size:") {
            match parse_u64_exec(&field_value_exec(&ls[i])) {
                Some(n) => return n,
                None => {},
            }
        }
        assert(all.skip(i as int).drop_first() =~= all.skip(i + 1));
        i = i + 1;
    }
    assert(all.skip(i as int).len() == 0);
    0
}

/// How the size of a package of a manager is learnt.
#[derive(Debug, Clone, Copy, PartialEq, Eq, Structural)]
pub enum SizeQuery {
    /// From `apt show`.
    Apt,
    /// From `dnf info`.
    Dnf,
    /// From `pacman -Si`.
    Pacman,
    /// Not at all: the size counts as 0.
    Unknown,
}

/// How the size of a package of the named manager is learnt.
pub open spec fn size_query_of(box_type: Seq<char>) -> SizeQuery {
    if box_type == "apt"@ {
        SizeQuery::Apt
    } else if box_type == "dnf"@ {
        SizeQuery::Dnf
    } else if box_type == "pacman"@ {
        SizeQuery::Pacman
    } else {
        SizeQuery::Unknown
    }
}

/// How the size of a package of the named manager is learnt.
pub fn size_query(box_type: &str) -> (r: SizeQuery)
    ensures
        r == size_query_of(box_type@),
{
    if text_eq(box_type, "apt") {
        SizeQuery::Apt
    } else if text_eq(box_type, "dnf") {
        SizeQuery::Dnf
    } else if text_eq(box_type, "pacman") {
        SizeQuery::Pacman
    } else {
        SizeQuery::Unknown
    }
}

/// The sum of the sizes that are known.
pub open spec fn known_sum(sizes: Seq<Option<u64>>) -> nat
    decreases sizes.len(),
{
    if sizes.len() == 0 {
        0
    } else {
        known_sum(sizes.drop_last()) + match sizes.last() {
            Some(n) => n as nat,
            None => 0,
        }
    }
}

/// A prefix sums to no more than the whole.
proof fn lemma_known_sum_prefix(sizes: Seq<Option<u64>>, k: int)
    requires
        0 <= k <= sizes.len(),
    ensures
        known_sum(sizes.take(k)) <= known_sum(sizes),
    decreases sizes.len() - k,
{
    if k < sizes.len() {
        lemma_known_sum_prefix(sizes, k + 1);
        assert(sizes.take(k + 1).drop_last() =~= sizes.take(k));
    } else {
        assert(sizes.take(k) =~= sizes);
    }
}

/// The total download size of some packages, from the size learnt for
/// each (`None` where it could not be asked): the sum of those learnt, or
/// none where none was.
pub fn total_size(sizes: &Vec<Option<u64>>) -> (r: Option<u64>)
    requires
        known_sum(sizes@) <= u64::MAX,
    ensures
        r == if exists|i: int| 0 <= i < sizes@.len() && sizes@[i] is Some {
            Some(known_sum(sizes@) as u64)
        } else {
            None
        },
{
    let mut total: u64 = 0;
    let mut found = false;
    let mut i: usize = 0;
    while i < sizes.len()
        invariant
            i <= sizes@.len(),
            known_sum(sizes@) <= u64::MAX,
            total == known_sum(sizes@.take(i as int)),
            found <==> exists|j: int| 0 <= j < i && sizes@[j] is Some,
        decreases sizes.len() - i,
    {
        assert(sizes@.take(i + 1).drop_last() =~= sizes@.take(i as int));
        proof {
            lemma_known_sum_prefix(sizes@, i + 1);
        }
        match sizes[i] {
            Some(n) => {
                total = total + n;
                found = true;
            },
            None => {},
        }
        i = i + 1;
    }
    assert(sizes@.take(sizes@.len() as int) =~= sizes@);
    if found {
        Some(total)
    } else {
        None
    }
}

/// The managers of the search results named exactly as the package, in
/// order.
pub open spec fn exact_boxes(rs: Seq<SearchResult>, p: Seq<char>) -> Seq<Seq<char>>
    decreases rs.len(),
{
    if rs.len() == 0 {
        Seq::empty()
    } else {
        exact_boxes(rs.drop_last(), p) + if rs.last().name@ == p {
            seq![rs.last().box_type@]
        } else {
            Seq::empty()
        }
    }
}

/// The manager chosen for a package from the managers of the exact
/// matches: the first of apt, dnf, pacman, flatpak, snap and AppImage
/// among them, else the first match's; the given default where nothing
/// matches exactly.
pub open spec fn best_box(exact: Seq<Seq<char>>, fallback: Seq<char>) -> Seq<char> {
    if exact.len() == 0 {
        fallback
    } else if exact.contains("apt"@) {
        "apt"@
    } else if exact.contains("dnf"@) {
        "dnf"@
    } else if exact.contains("pacman"@) {
        "pacman"@
    } else if exact.contains("flatpak"@) {
        "flatpak"@
    } else if exact.contains("snap"@) {
        "snap"@
    } else if exact.contains("appimage"@) {
        "appimage"@
    } else {
        exact[0]
    }
}

/// The place of a manager in the preference order for installing a
/// package found by several: apt, then dnf, pacman, flatpak, snap and
/// AppImage; any other manager after these.
pub open spec fn box_preference(b: Seq<char>) -> nat {
    if b == "apt"@ {
        0
    } else if b == "dnf"@ {
        1
    } else if b == "pacman"@ {
        2
    } else if b == "flatpak"@ {
        3
    } else if b == "snap"@ {
        4
    } else if b == "appimage"@ {
        5
    } else {
        6
    }
}

/// A manager is among those of the exact matches exactly when some search
/// result named exactly as the package comes from it.
proof fn lemma_exact_boxes_contains(rs: Seq<SearchResult>, p: Seq<char>, b: Seq<char>)
    ensures
        exact_boxes(rs, p).contains(b) <==> exists|i: int| 0 <= i < rs.len() && (#[trigger] rs[i]).name@ == p && rs[i].box_type@ == b,
        exact_boxes(rs, p).len() == 0 <==> forall|i: int| 0 <= i < rs.len() ==> (#[trigger] rs[i]).name@ != p,
    decreases rs.len(),
{
    if rs.len() > 0 {
        let d = rs.drop_last();
        lemma_exact_boxes_contains(d, p, b);
        let tail: Seq<Seq<char>> = if rs.last().name@ == p { seq![rs.last().box_type@] } else { Seq::empty() };
        let e = exact_boxes(d, p) + tail;
        assert(exact_boxes(rs, p) == e);
        if exact_boxes(rs, p).contains(b) {
            let k = choose|k: int| 0 <= k < e.len() && e[k] == b;
            if k < exact_boxes(d, p).len() {
                assert(exact_boxes(d, p)[k] == b);
                assert(exact_boxes(d, p).contains(b));
                let i = choose|i: int| 0 <= i < d.len() && (#[trigger] d[i]).name@ == p && d[i].box_type@ == b;
                assert(rs[i] == d[i]);
            } else {
                assert(rs[rs.len() - 1] == rs.last());
            }
        }
        if exists|i: int| 0 <= i < rs.len() && (#[trigger] rs[i]).name@ == p && rs[i].box_type@ == b {
            let i = choose|i: int| 0 <= i < rs.len() && (#[trigger] rs[i]).name@ == p && rs[i].box_type@ == b;
            if i < d.len() {
                assert(d[i] == rs[i]);
                assert(exact_boxes(d, p).contains(b));
                let k = choose|k: int| 0 <= k < exact_boxes(d, p).len() && exact_boxes(d, p)[k] == b;
                assert(e[k] == b);
            } else {
                assert(e[e.len() - 1] == b);
            }
        }
        if forall|i: int| 0 <= i < rs.len() ==> (#[trigger] rs[i]).name@ != p {
            assert forall|i: int| 0 <= i < d.len() implies (#[trigger] d[i]).name@ != p by {
                assert(d[i] == rs[i]);
            }
        }
        if exact_boxes(rs, p).len() == 0 {
            assert forall|i: int| 0 <= i < rs.len() implies (#[trigger] rs[i]).name@ != p by {
                if i < d.len() {
                    assert(d[i] == rs[i]);
                } else {
                    assert(rs[i] == rs.last());
                }
            }
        }
    }
}

/// The first manager among the exact matches is that of the first search
/// result named exactly as the package.
proof fn lemma_exact_boxes_first(rs: Seq<SearchResult>, p: Seq<char>)
    requires
        exact_boxes(rs, p).len() > 0,
    ensures
        exists|i: int| 0 <= i < rs.len() && (#[trigger] rs[i]).name@ == p && exact_boxes(rs, p)[0] == rs[i].box_type@
            && forall|j: int| 0 <= j < i ==> (#[trigger] rs[j]).name@ != p,
    decreases rs.len(),
{
    let d = rs.drop_last();
    let tail: Seq<Seq<char>> = if rs.last().name@ == p { seq![rs.last().box_type@] } else { Seq::empty() };
    assert(exact_boxes(rs, p) == exact_boxes(d, p) + tail);
    if exact_boxes(d, p).len() > 0 {
        lemma_exact_boxes_first(d, p);
        let i = choose|i: int| 0 <= i < d.len() && (#[trigger] d[i]).name@ == p && exact_boxes(d, p)[0] == d[i].box_type@
            && forall|j: int| 0 <= j < i ==> (#[trigger] d[j]).name@ != p;
        assert(rs[i] == d[i]);
        assert forall|j: int| 0 <= j < i implies (#[trigger] rs[j]).name@ != p by {
            assert(rs[j] == d[j]);
        }
    } else {
        lemma_exact_boxes_contains(d, p, p);
        let i = rs.len() - 1;
        assert(rs[i] == rs.last());
        assert forall|j: int| 0 <= j < i implies (#[trigger] rs[j]).name@ != p by {
            assert(rs[j] == d[j]);
        }
    }
}

/// The manager chosen to install a package: with no result named exactly
/// as the package, the distribution's default; otherwise the manager of
/// one of the exact matches that comes first in the preference order
/// (apt, dnf, pacman, flatpak, snap, AppImage) among all of them.
pub proof fn law_best_box_prefers_in_order(results: Seq<SearchResult>, package: Seq<char>, fallback: Seq<char>)
    ensures
        ({
            let r = best_box(exact_boxes(results, package), fallback);
            &&& (forall|i: int| 0 <= i < results.len() ==> (#[trigger] results[i]).name@ != package) ==> r == fallback
            &&& (exists|i: int| 0 <= i < results.len() && (#[trigger] results[i]).name@ == package) ==> exists|j: int|
                0 <= j < results.len() && (#[trigger] results[j]).name@ == package && results[j].box_type@ == r
            &&& forall|i: int| 0 <= i < results.len() && (#[trigger] results[i]).name@ == package ==> box_preference(r)
                <= box_preference(results[i].box_type@)
            &&& box_preference(r) == 6 && (exists|i: int| 0 <= i < results.len() && (#[trigger] results[i]).name@ == package)
                ==> exists|i: int| 0 <= i < results.len() && (#[trigger] results[i]).name@ == package && r == results[i].box_type@
                && forall|j: int| 0 <= j < i ==> (#[trigger] results[j]).name@ != package
        }),
{
    reveal_strlit("apt");
    reveal_strlit("dnf");
    reveal_strlit("pacman");
    reveal_strlit("flatpak");
    reveal_strlit("snap");
    reveal_strlit("appimage");
    let e = exact_boxes(results, package);
    let r = best_box(e, fallback);
    lemma_exact_boxes_contains(results, package, r);
    lemma_exact_boxes_contains(results, package, "apt"@);
    lemma_exact_boxes_contains(results, package, "dnf"@);
    lemma_exact_boxes_contains(results, package, "pacman"@);
    lemma_exact_boxes_contains(results, package, "flatpak"@);
    lemma_exact_boxes_contains(results, package, "snap"@);
    lemma_exact_boxes_contains(results, package, "appimage"@);
    if e.len() > 0 {
        assert(e.contains(e[0]));
        lemma_exact_boxes_first(results, package);
    }
    assert forall|i: int| 0 <= i < results.len() && (#[trigger] results[i]).name@ == package implies box_preference(r)
        <= box_preference(results[i].box_type@) by {
        lemma_exact_boxes_contains(results, package, results[i].box_type@);
    }
}

/// The manager chosen for a package from the results of searching for it
/// everywhere, or the distribution's default manager where no result is
/// named exactly as the package.
pub fn select_best_box(package_name: &str, results: &Vec<SearchResult>, distro_default: &str) -> (r: String)
    ensures
        r@ == best_box(exact_boxes(results@, package_name@), distro_default@),
        (forall|i: int| 0 <= i < results@.len() ==> (#[trigger] results@[i]).name@ != package_name@) ==> r@
            == distro_default@,
        (exists|i: int| 0 <= i < results@.len() && (#[trigger] results@[i]).name@ == package_name@) ==> exists|j: int|
            0 <= j < results@.len() && (#[trigger] results@[j]).name@ == package_name@ && results@[j].box_type@ == r@,
        forall|i: int| 0 <= i < results@.len() && (#[trigger] results@[i]).name@ == package_name@ ==> box_preference(r@)
            <= box_preference(results@[i].box_type@),
        box_preference(r@) == 6 && (exists|i: int| 0 <= i < results@.len() && (#[trigger] results@[i]).name@
            == package_name@) ==> exists|i: int| 0 <= i < results@.len() && (#[trigger] results@[i]).name@ == package_name@
            && r@ == results@[i].box_type@ && forall|j: int| 0 <= j < i ==> (#[trigger] results@[j]).name@ != package_name@,
{
    proof {
        law_best_box_prefers_in_order(results@, package_name@, distro_default@);
    }
    let mut exact: Vec<String> = Vec::new();
    let mut i: usize = 0;
    assert(texts(exact@) =~= exact_boxes(results@.take(0), package_name@));
    while i < results.len()
        invariant
            i <= results@.len(),
            texts(exact@) == exact_boxes(results@.take(i as int), package_name@),
        decreases results.len() - i,
    {
        assert(results@.take(i + 1).drop_last() =~= results@.take(i as int));
        let ghost before = texts(exact@);
        if text_eq(results[i].name.as_str(), package_name) {
            exact.push(results[i].box_type.clone());
            assert(texts(exact@) =~= before + seq![results@[i as int].box_type@]);
        } else {
            assert(before + Seq::empty() =~= before);
        }
        i = i + 1;
    }
    assert(results@.take(results@.len() as int) =~= results@);
    if exact.len() == 0 {
        owned(distro_default)
    } else if among(&exact, "apt") {
        owned("apt")
    } else if among(&exact, "dnf") {
        owned("dnf")
    } else if among(&exact, "pacman") {
        owned("pacman")
    } else if among(&exact, "flatpak") {
        owned("flatpak")
    } else if among(&exact, "snap") {
        owned("snap")
    } else if among(&exact, "appimage") {
        owned("appimage")
    } else {
        exact[0].clone()
    }
}


/// A package resolved: the version and manager chosen for it, its
/// dependencies, and its place in the walk (its depth below the package
/// requested).
#[derive(Debug, Clone)]
pub struct ResolvedPackage {
    pub name: String,
    pub version: String,
    pub box_type: String,
    pub dependencies: Vec<Dependency>,
    pub source_url: Option<String>,
    pub install_order: usize,
}

/// A plan: the packages to install, deepest dependencies first, the
/// conflicts found with installed packages, warnings, and the total
/// download size where it is known.
#[derive(Debug, Clone)]
pub struct ResolutionPlan {
    pub packages: Vec<ResolvedPackage>,
    pub conflicts: Vec<String>,
    pub warnings: Vec<String>,
    pub total_size: Option<u64>,
}

/// A package waiting to be resolved: its name, the manager it is to come
/// from where one is set, and its depth below the package requested.
#[derive(Debug, Clone)]
pub struct Pending {
    pub name: String,
    pub box_type: Option<String>,
    pub depth: usize,
}

/// A waiting package as plain values.
pub open spec fn pending_view(p: Pending) -> (Seq<char>, Option<Seq<char>>, usize) {
    (p.name@, opt_text(p.box_type), p.depth)
}

/// Waiting packages as plain values.
pub open spec fn pending_views(q: Seq<Pending>) -> Seq<(Seq<char>, Option<Seq<char>>, usize)> {
    q.map_values(|p: Pending| pending_view(p))
}

/// A resolved package as plain values: name, version, manager,
/// dependencies, source and depth.
pub open spec fn resolved_view(p: ResolvedPackage) -> (Seq<char>, Seq<char>, Seq<char>, Seq<(Seq<char>, Option<Seq<char>>, Seq<char>, bool, Seq<Seq<char>>, Seq<Seq<char>>)>, Option<Seq<char>>, usize) {
    (p.name@, p.version@, p.box_type@, dep_views(p.dependencies@), opt_text(p.source_url), p.install_order)
}

/// Resolved packages as plain values.
pub open spec fn resolved_views(r: Seq<ResolvedPackage>) -> Seq<(Seq<char>, Seq<char>, Seq<char>, Seq<(Seq<char>, Option<Seq<char>>, Seq<char>, bool, Seq<Seq<char>>, Seq<Seq<char>>)>, Option<Seq<char>>, usize)> {
    r.map_values(|p: ResolvedPackage| resolved_view(p))
}

/// The names of resolved packages.
pub open spec fn package_names(r: Seq<ResolvedPackage>) -> Seq<Seq<char>> {
    r.map_values(|p: ResolvedPackage| p.name@)
}

/// `p` needs a package named `n`: one of its dependencies that is not
/// optional is so named.
pub open spec fn requires_dep(p: ResolvedPackage, n: Seq<char>) -> bool {
    exists|t: int| 0 <= t < p.dependencies@.len() && !p.dependencies@[t].optional && #[trigger] p.dependencies@[t].name@ == n
}

/// A package named `n` waits at or after position `h`.
pub open spec fn waits_from(q: Seq<Pending>, h: int, n: Seq<char>) -> bool {
    exists|i: int| h <= i < q.len() && #[trigger] q[i].name@ == n
}

/// The packages queued for the dependencies of a package at the given
/// depth: each one that is not optional and was not visited, with its
/// manager, in order.
pub open spec fn enqueued(
    ds: Seq<(Seq<char>, Option<Seq<char>>, Seq<char>, bool, Seq<Seq<char>>, Seq<Seq<char>>)>,
    visited: Seq<Seq<char>>,
    depth: usize,
) -> Seq<(Seq<char>, Option<Seq<char>>, usize)>
    decreases ds.len(),
{
    if ds.len() == 0 {
        Seq::empty()
    } else {
        enqueued(ds.drop_last(), visited, depth) + if !ds.last().3 && !visited.contains(ds.last().0) {
            seq![(ds.last().0, Some(ds.last().2), depth)]
        } else {
            Seq::empty()
        }
    }
}

/// The packages queued for some dependencies.
fn enqueue_exec(deps: &Vec<Dependency>, visited: &Vec<String>, depth: usize) -> (r: Vec<Pending>)
    ensures
        pending_views(r@) == enqueued(dep_views(deps@), texts(visited@), depth),
        forall|i: int| 0 <= i < r@.len() ==> (#[trigger] r@[i]).depth == depth && exists|t: int|
            0 <= t < deps@.len() && !deps@[t].optional && deps@[t].name@ == r@[i].name@,
        forall|t: int| 0 <= t < deps@.len() && !(#[trigger] deps@[t]).optional ==> texts(visited@).contains(deps@[t].name@)
            || exists|i: int| 0 <= i < r@.len() && r@[i].name@ == deps@[t].name@,
{
    let ghost dv = dep_views(deps@);
    let mut r: Vec<Pending> = Vec::new();
    let mut t: usize = 0;
    assert(pending_views(r@) =~= enqueued(dv.take(0), texts(visited@), depth));
    while t < deps.len()
        invariant
            t <= deps@.len(),
            dv == dep_views(deps@),
            pending_views(r@) == enqueued(dv.take(t as int), texts(visited@), depth),
            forall|i: int| 0 <= i < r@.len() ==> (#[trigger] r@[i]).depth == depth && exists|u: int|
                0 <= u < deps@.len() && !deps@[u].optional && deps@[u].name@ == r@[i].name@,
            forall|u: int| 0 <= u < t && !(#[trigger] deps@[u]).optional ==> texts(visited@).contains(deps@[u].name@)
                || exists|i: int| 0 <= i < r@.len() && r@[i].name@ == deps@[u].name@,
        decreases deps.len() - t,
    {
        assert(dv.take(t + 1).drop_last() =~= dv.take(t as int));
        assert(dv.take(t + 1).last() == dep_view(deps@[t as int]));
        let ghost before = pending_views(r@);
        let ghost rb = r@;
        let d = &deps[t];
        if !d.optional && !among(visited, d.name.as_str()) {
            let p = Pending { name: d.name.clone(), box_type: Some(d.box_type.clone()), depth };
            r.push(p);
            assert(pending_views(r@) =~= before + seq![pending_view(p)]);
            assert(r@[r@.len() - 1].name@ == deps@[t as int].name@);
        } else {
            assert(before + Seq::empty() =~= before);
        }
        proof {
            assert forall|u: int| 0 <= u < t + 1 && !(#[trigger] deps@[u]).optional implies texts(visited@).contains(
                deps@[u].name@,
            ) || exists|i: int| 0 <= i < r@.len() && r@[i].name@ == deps@[u].name@ by {
                if u < t && !texts(visited@).contains(deps@[u].name@) {
                    let i = choose|i: int| 0 <= i < rb.len() && rb[i].name@ == deps@[u].name@;
                    assert(r@[i] == rb[i]);
                }
                if u == t && !texts(visited@).contains(deps@[u].name@) {
                    assert(r@[r@.len() - 1].name@ == deps@[t as int].name@);
                }
            }
        }
        t = t + 1;
    }
    assert(dv.take(deps@.len() as int) =~= dv);
    r
}

/// The walk over the dependencies of a requested package, breadth first:
/// the packages waiting (`queue`, of which those before `head` were taken),
/// the names taken, the packages resolved, the conflicts found, and
/// whether the package taken last still waits for what was learnt of it.
#[derive(Debug, Clone)]
pub struct Resolution {
    pub queue: Vec<Pending>,
    pub head: usize,
    pub visited: Vec<String>,
    pub resolved: Vec<ResolvedPackage>,
    pub conflicts: Vec<String>,
    pub in_progress: bool,
}

impl Resolution {
    /// The package taken last, while it waits for what is learnt of it.
    pub open spec fn current(&self) -> Pending {
        self.queue@[self.head - 1]
    }

    /// What holds of the walk at every step: the requested package waits
    /// first; no name is taken twice; the names taken are those resolved
    /// and the current one; every waiting package before `head` was
    /// taken, and every name taken waited there; each package needed by a
    /// resolved one was taken or still waits; each waiting package but the
    /// first is needed by a resolved one; depths grow along the queue by
    /// at most one past the current package, never past a package's
    /// position, and the resolved packages are in the order of their
    /// depths, none deeper than a package still waiting.
    pub open spec fn wf(&self) -> bool {
        &&& 1 <= self.queue@.len()
        &&& self.head <= self.queue@.len()
        &&& self.in_progress ==> self.head >= 1
        &&& self.head == 0 ==> self.queue@.len() == 1 && self.visited@.len() == 0 && self.resolved@.len() == 0
        &&& texts(self.visited@).no_duplicates()
        &&& texts(self.visited@) == package_names(self.resolved@) + if self.in_progress {
            seq![self.current().name@]
        } else {
            Seq::empty()
        }
        &&& forall|i: int| 0 <= i < self.head ==> texts(self.visited@).contains(#[trigger] self.queue@[i].name@)
        &&& forall|v: int| 0 <= v < self.visited@.len() ==> exists|i: int|
            0 <= i < self.head && #[trigger] self.queue@[i].name@ == (#[trigger] self.visited@[v])@
        &&& forall|k: int, n: Seq<char>| 0 <= k < self.resolved@.len() && #[trigger] requires_dep(self.resolved@[k], n)
            ==> texts(self.visited@).contains(n) || waits_from(self.queue@, self.head as int, n)
        &&& forall|i: int| 1 <= i < self.queue@.len() ==> exists|k: int|
            0 <= k < self.resolved@.len() && #[trigger] requires_dep(self.resolved@[k], (#[trigger] self.queue@[i]).name@)
        &&& forall|i: int, j: int| 0 <= i < j < self.queue@.len() ==> self.queue@[i].depth <= self.queue@[j].depth
        &&& self.head >= 1 ==> forall|i: int| 0 <= i < self.queue@.len() ==> (#[trigger] self.queue@[i]).depth
            <= self.current().depth + 1
        &&& forall|i: int| 0 <= i < self.queue@.len() ==> (#[trigger] self.queue@[i]).depth <= i
        &&& forall|a: int, b: int| 0 <= a < b < self.resolved@.len() ==> self.resolved@[a].install_order
            <= self.resolved@[b].install_order
        &&& forall|k: int, i: int| 0 <= k < self.resolved@.len() && self.head <= i + 1 && i < self.queue@.len()
            ==> (#[trigger] self.resolved@[k]).install_order <= (#[trigger] self.queue@[i]).depth
    }

    /// The walk for a package, to come from the given manager where one
    /// is given: only the package waits.
    pub fn start(package_name: &str, box_type: Option<&str>) -> (r: Self)
        ensures
            r.wf(),
            pending_views(r.queue@) == seq![(
                package_name@,
                match box_type {
                    Some(b) => Some(b@),
                    None => None,
                },
                0usize,
            )],
            r.head == 0,
            !r.in_progress,
            r.visited@.len() == 0,
            r.resolved@.len() == 0,
            r.conflicts@.len() == 0,
    {
        let first = Pending {
            name: owned(package_name),
            box_type: match box_type {
                Some(b) => Some(owned(b)),
                None => None,
            },
            depth: 0,
        };
        let r = Resolution {
            queue: vec![first],
            head: 0,
            visited: Vec::new(),
            resolved: Vec::new(),
            conflicts: Vec::new(),
            in_progress: false,
        };
        assert(pending_views(r.queue@) =~= seq![pending_view(first)]);
        assert(texts(r.visited@) =~= Seq::<Seq<char>>::empty());
        assert(package_names(r.resolved@) =~= Seq::<Seq<char>>::empty());
        r
    }

    /// Takes the next package to resolve: the current one again while it
    /// waits for what is learnt of it; else the next waiting package whose
    /// name was not taken yet, which becomes current. `None` when no such
    /// package is left: the walk is done.
    pub fn next_package(&mut self) -> (r: Option<(String, Option<String>, usize)>)
        requires
            old(self).wf(),
        ensures
            final(self).wf(),
            final(self).queue == old(self).queue,
            final(self).resolved == old(self).resolved,
            final(self).conflicts == old(self).conflicts,
            old(self).in_progress ==> *final(self) == *old(self),
            match r {
                Some(x) => final(self).in_progress && (x.0@, opt_text(x.1), x.2) == pending_view(final(self).current())
                    && !texts(old(self).visited@).contains(x.0@) || old(self).in_progress,
                None => !final(self).in_progress && final(self).head == final(self).queue@.len(),
            },
    {
        if self.in_progress {
            let c = &self.queue[self.head - 1];
            return Some((c.name.clone(), c.box_type.clone(), c.depth));
        }
        let ghost v0 = texts(self.visited@);
        let ghost h0 = self.head;
        while self.head < self.queue.len()
            invariant
                self.wf(),
                !self.in_progress,
                self.queue == old(self).queue,
                self.resolved == old(self).resolved,
                self.conflicts == old(self).conflicts,
                self.visited == old(self).visited,
                texts(self.visited@) == v0,
                !old(self).in_progress,
            decreases self.queue.len() - self.head,
        {
            let h = self.head;
            if !among(&self.visited, self.queue[h].name.as_str()) {
                let name = self.queue[h].name.clone();
                let ghost vb = texts(self.visited@);
                let ghost sb = *self;
                self.visited.push(name);
                self.head = h + 1;
                self.in_progress = true;
                proof {
                    let vn = texts(self.visited@);
                    assert(vn =~= vb.push(self.queue@[h as int].name@));
                    assert(vn.no_duplicates()) by {
                        assert forall|a: int, b: int| 0 <= a < b < vn.len() implies vn[a] != vn[b] by {
                            if b == vn.len() - 1 {
                                assert(vb[a] == vn[a]);
                            }
                        }
                    }
                    assert(vn =~= package_names(self.resolved@) + seq![self.current().name@]);
                    assert forall|i: int| 0 <= i < self.head implies vn.contains(#[trigger] self.queue@[i].name@) by {
                        if i < h {
                            let w = choose|w: int| 0 <= w < vb.len() && vb[w] == self.queue@[i].name@;
                            assert(vn[w] == vb[w]);
                        } else {
                            assert(vn[vn.len() - 1] == self.queue@[h as int].name@);
                        }
                    }
                    assert forall|v: int| 0 <= v < self.visited@.len() implies exists|i: int|
                        0 <= i < self.head && #[trigger] self.queue@[i].name@ == (#[trigger] self.visited@[v])@ by {
                        if v < sb.visited@.len() {
                            assert(self.visited@[v] == sb.visited@[v]);
                            assert(exists|i: int| 0 <= i < sb.head && #[trigger] sb.queue@[i].name@ == (#[trigger] sb.visited@[v])@);
                        } else {
                            assert(self.queue@[h as int].name@ == self.visited@[v]@);
                        }
                    }
                    assert forall|k: int, n: Seq<char>| 0 <= k < self.resolved@.len() && #[trigger] requires_dep(self.resolved@[k], n)
                        implies vn.contains(n) || waits_from(self.queue@, self.head as int, n) by {
                        if !vb.contains(n) {
                            assert(waits_from(sb.queue@, h as int, n));
                            let i = choose|i: int| h <= i < sb.queue@.len() && #[trigger] sb.queue@[i].name@ == n;
                            if i == h {
                                assert(vn[vn.len() - 1] == n);
                            } else {
                                assert(self.queue@[i].name@ == n);
                            }
                        } else {
                            let w = choose|w: int| 0 <= w < vb.len() && vb[w] == n;
                            assert(vn[w] == n);
                        }
                    }
                    if h >= 1 {
                        assert(sb.queue@[h - 1].depth <= sb.queue@[h as int].depth);
                    }
                }
                return Some((self.queue[h].name.clone(), self.queue[h].box_type.clone(), self.queue[h].depth));
            }
            let ghost sb = *self;
            self.head = h + 1;
            proof {
                let vn = texts(self.visited@);
                assert(vn.contains(self.queue@[h as int].name@));
                assert forall|i: int| 0 <= i < self.head implies vn.contains(#[trigger] self.queue@[i].name@) by {
                    if i == h {
                        assert(vn.contains(self.queue@[h as int].name@));
                    }
                }
                assert forall|v: int| 0 <= v < self.visited@.len() implies exists|i: int|
                    0 <= i < self.head && #[trigger] self.queue@[i].name@ == (#[trigger] self.visited@[v])@ by {
                    assert(exists|i: int| 0 <= i < sb.head && #[trigger] sb.queue@[i].name@ == (#[trigger] sb.visited@[v])@);
                }
                assert forall|k: int, n: Seq<char>| 0 <= k < self.resolved@.len() && #[trigger] requires_dep(self.resolved@[k], n)
                    implies vn.contains(n) || waits_from(self.queue@, self.head as int, n) by {
                    if !vn.contains(n) {
                        assert(waits_from(sb.queue@, h as int, n));
                        let i = choose|i: int| h <= i < sb.queue@.len() && #[trigger] sb.queue@[i].name@ == n;
                        assert(i != h);
                        assert(self.queue@[i].name@ == n);
                    }
                }
                if h >= 1 {
                    assert(sb.queue@[h - 1].depth <= sb.queue@[h as int].depth);
                }
            }
        }
        None
    }

    /// Records what was learnt of the current package: the manager chosen
    /// for it where none was set (`chosen_box`), its dependencies, the
    /// names of the installed packages, and its version. It is resolved at
    /// its depth; the conflicts of its dependencies with the installed
    /// packages are added; and each of its dependencies that is not
    /// optional and whose name was not taken waits, one level deeper, to
    /// come from its own manager. Nothing changes where no package is
    /// current.
    #[verifier::rlimit(40)]
    pub fn record(&mut self, chosen_box: &str, dependencies: Vec<Dependency>, installed: &Vec<String>, version: String)
        requires
            old(self).wf(),
        ensures
            final(self).wf(),
            !old(self).in_progress ==> *final(self) == *old(self),
            old(self).in_progress ==> {
                &&& resolved_views(final(self).resolved@) == resolved_views(old(self).resolved@).push(
                    (
                        old(self).current().name@,
                        version@,
                        match old(self).current().box_type {
                            Some(b) => b@,
                            None => chosen_box@,
                        },
                        dep_views(dependencies@),
                        None,
                        old(self).current().depth,
                    ),
                )
                &&& texts(final(self).conflicts@) == texts(old(self).conflicts@) + conflicts_with_installed(
                    old(self).current().name@,
                    all_conflicts(dep_views(dependencies@)),
                    texts(installed@),
                )
                &&& pending_views(final(self).queue@) == pending_views(old(self).queue@) + enqueued(
                    dep_views(dependencies@),
                    texts(old(self).visited@),
                    (old(self).current().depth + 1) as usize,
                )
                &&& final(self).head == old(self).head
                &&& final(self).visited == old(self).visited
                &&& !final(self).in_progress
            },
    {
        if !self.in_progress {
            return;
        }
        let h = self.head - 1;
        let ghost cur = self.queue@[h as int];
        let name = self.queue[h].name.clone();
        let depth = self.queue[h].depth;
        assert(depth <= h);
        let box_type = match &self.queue[h].box_type {
            Some(b) => b.clone(),
            None => owned(chosen_box),
        };
        let mut found = check_conflicts(name.as_str(), &dependencies, installed);
        let ghost cb = texts(self.conflicts@);
        let ghost fv = texts(found@);
        self.conflicts.append(&mut found);
        assert(texts(self.conflicts@) =~= cb + fv);
        let mut added = enqueue_exec(&dependencies, &self.visited, depth + 1);
        let ghost qb = self.queue@;
        let ghost av = added@;
        let ghost pb = pending_views(qb);
        let ghost pa = pending_views(av);
        self.queue.append(&mut added);
        assert(pending_views(self.queue@) =~= pb + pa);
        let ghost dv = dep_views(dependencies@);
        let ghost deps = dependencies@;
        let pkg = ResolvedPackage { name, version, box_type, dependencies, source_url: None, install_order: depth };
        let ghost rb = self.resolved@;
        let ghost pv = resolved_view(pkg);
        self.resolved.push(pkg);
        self.in_progress = false;
        proof {
            let q = self.queue@;
            let r = self.resolved@;
            let n = qb.len();
            assert(resolved_views(r) =~= resolved_views(rb).push(pv));
            assert(package_names(r) =~= package_names(rb).push(cur.name@));
            assert(texts(self.visited@) =~= package_names(r) + Seq::<Seq<char>>::empty());
            assert(forall|i: int| 0 <= i < n ==> q[i] == qb[i]);
            assert(forall|i: int| 0 <= i < av.len() ==> q[n + i] == av[i]);
            assert(forall|k: int| 0 <= k < rb.len() ==> r[k] == rb[k]);
            assert(r[rb.len() as int].dependencies@ == deps);
            assert forall|i: int| 0 <= i < self.head implies texts(self.visited@).contains(#[trigger] q[i].name@) by {
                assert(q[i] == qb[i]);
            }
            assert forall|v: int| 0 <= v < self.visited@.len() implies exists|i: int|
                0 <= i < self.head && #[trigger] q[i].name@ == (#[trigger] self.visited@[v])@ by {
                let i = choose|i: int| 0 <= i < self.head && #[trigger] qb[i].name@ == self.visited@[v]@;
                assert(q[i] == qb[i]);
            }
            assert forall|k: int, nm: Seq<char>| 0 <= k < r.len() && #[trigger] requires_dep(r[k], nm) implies texts(
                self.visited@,
            ).contains(nm) || waits_from(q, self.head as int, nm) by {
                if k < rb.len() {
                    assert(r[k] == rb[k]);
                    if !texts(self.visited@).contains(nm) {
                        let i = choose|i: int| self.head <= i < qb.len() && #[trigger] qb[i].name@ == nm;
                        assert(q[i] == qb[i]);
                    }
                } else {
                    let t = choose|t: int| 0 <= t < r[k].dependencies@.len() && !r[k].dependencies@[t].optional
                        && #[trigger] r[k].dependencies@[t].name@ == nm;
                    assert(deps[t] == r[k].dependencies@[t]);
                    assert(!deps[t].optional);
                    if !texts(self.visited@).contains(nm) {
                        let i = choose|i: int| 0 <= i < av.len() && av[i].name@ == deps[t].name@;
                        assert(q[n + i] == av[i]);
                    }
                }
            }
            assert forall|i: int| 1 <= i < q.len() implies exists|k: int|
                0 <= k < r.len() && #[trigger] requires_dep(r[k], (#[trigger] q[i]).name@) by {
                if i < n {
                    assert(q[i] == qb[i]);
                    let k = choose|k: int| 0 <= k < rb.len() && #[trigger] requires_dep(rb[k], (#[trigger] qb[i]).name@);
                    assert(r[k] == rb[k]);
                } else {
                    assert(q[i] == av[i - n]);
                    let t = choose|t: int| 0 <= t < deps.len() && !deps[t].optional && deps[t].name@ == av[i - n].name@;
                    let last = rb.len() as int;
                    assert(r[last].dependencies@[t] == deps[t]);
                    assert(requires_dep(r[last], q[i].name@));
                }
            }
            assert forall|i: int, j: int| 0 <= i < j < q.len() implies q[i].depth <= q[j].depth by {
                if j < n {
                    assert(q[i] == qb[i] && q[j] == qb[j]);
                } else if i < n {
                    assert(q[i] == qb[i]);
                    assert(q[j] == av[j - n]);
                    assert(qb[i].depth <= cur.depth + 1);
                } else {
                    assert(q[i] == av[i - n] && q[j] == av[j - n]);
                }
            }
            assert(self.current() == cur);
            assert forall|i: int| 0 <= i < q.len() implies (#[trigger] q[i]).depth <= self.current().depth + 1 by {
                if i < n {
                    assert(q[i] == qb[i]);
                } else {
                    assert(q[i] == av[i - n]);
                }
            }
            assert forall|i: int| 0 <= i < q.len() implies (#[trigger] q[i]).depth <= i by {
                if i < n {
                    assert(q[i] == qb[i]);
                } else {
                    assert(q[i] == av[i - n]);
                }
            }
            assert forall|a: int, b: int| 0 <= a < b < r.len() implies r[a].install_order <= r[b].install_order by {
                if b < rb.len() {
                    assert(r[a] == rb[a] && r[b] == rb[b]);
                } else {
                    assert(r[a] == rb[a]);
                    assert(rb[a].install_order <= qb[h as int].depth);
                }
            }
            assert forall|k: int, i: int| 0 <= k < r.len() && self.head <= i + 1 && i < q.len() implies (#[trigger] r[k]).install_order
                <= (#[trigger] q[i]).depth by {
                if k < rb.len() {
                    assert(r[k] == rb[k]);
                    if i < n {
                        assert(q[i] == qb[i]);
                    } else {
                        assert(q[i] == av[i - n]);
                        assert(rb[k].install_order <= qb[h as int].depth);
                    }
                } else {
                    if i < n {
                        assert(q[i] == qb[i]);
                        assert(qb[h as int].depth <= qb[i].depth || i == h);
                    } else {
                        assert(q[i] == av[i - n]);
                    }
                }
            }
        }
    }

    /// The plan the walk has made: the resolved packages, the one resolved
    /// last first, so that deeper dependencies come first, with the
    /// conflicts found, no warnings and no size yet. Once the walk is done,
    /// the plan holds the requested package and each package once; every
    /// package that a package of the plan needs is in it; and each package
    /// of the plan is the requested one or needed by another of it.
    pub fn finish(self) -> (r: ResolutionPlan)
        requires
            self.wf(),
        ensures
            resolved_views(r.packages@) == resolved_views(self.resolved@).reverse(),
            texts(r.conflicts@) == texts(self.conflicts@),
            r.warnings@.len() == 0,
            r.total_size is None,
            forall|a: int, b: int| 0 <= a < b < r.packages@.len() ==> r.packages@[a].install_order
                >= r.packages@[b].install_order,
            self.head == self.queue@.len() && !self.in_progress ==> {
                &&& package_names(r.packages@).contains(self.queue@[0].name@)
                &&& package_names(r.packages@).no_duplicates()
                &&& forall|k: int, n: Seq<char>| 0 <= k < r.packages@.len() && #[trigger] requires_dep(r.packages@[k], n)
                    ==> package_names(r.packages@).contains(n)
                &&& forall|k: int| 0 <= k < r.packages@.len() ==> (#[trigger] r.packages@[k]).name@ == self.queue@[0].name@
                    || exists|j: int| 0 <= j < r.packages@.len() && requires_dep(r.packages@[j], r.packages@[k].name@)
            },
    {
        let ghost orig = self.resolved@;
        let ghost me = self;
        let len = self.resolved.len();
        let mut rest = self.resolved;
        let mut out: Vec<ResolvedPackage> = Vec::new();
        while rest.len() > 0
            invariant
                orig.len() == len,
                rest@.len() + out@.len() == len,
                rest@ == orig.take(rest@.len() as int),
                forall|i: int| 0 <= i < out@.len() ==> #[trigger] out@[i] == orig[len - 1 - i],
            decreases rest.len(),
        {
            let ghost rb = rest@;
            let x = rest.pop().unwrap();
            assert(x == orig[rest@.len() as int]);
            out.push(x);
            assert(rest@ =~= orig.take(rest@.len() as int));
        }
        let plan = ResolutionPlan { packages: out, conflicts: self.conflicts, warnings: Vec::new(), total_size: None };
        proof {
            let p = plan.packages@;
            assert(resolved_views(p) =~= resolved_views(orig).reverse());
            assert forall|a: int, b: int| 0 <= a < b < p.len() implies p[a].install_order >= p[b].install_order by {
                assert(p[a] == orig[len - 1 - a] && p[b] == orig[len - 1 - b]);
            }
            if me.head == me.queue@.len() && !me.in_progress {
                let names = package_names(p);
                let vis = texts(me.visited@);
                assert(vis == package_names(orig) + Seq::<Seq<char>>::empty());
                assert(vis =~= package_names(orig));
                assert(forall|i: int| 0 <= i < p.len() ==> #[trigger] names[i] == vis[len - 1 - i]);
                assert forall|x: Seq<char>| vis.contains(x) implies names.contains(x) by {
                    let w = choose|w: int| 0 <= w < vis.len() && vis[w] == x;
                    assert(names[len - 1 - w] == x);
                }
                assert(vis.contains(me.queue@[0].name@));
                assert forall|a: int, b: int| 0 <= a < b < names.len() implies names[a] != names[b] by {
                    assert(names[a] == vis[len - 1 - a] && names[b] == vis[len - 1 - b]);
                }
                assert forall|k: int, n: Seq<char>| 0 <= k < p.len() && #[trigger] requires_dep(p[k], n) implies names.contains(n) by {
                    assert(p[k] == orig[len - 1 - k]);
                    assert(requires_dep(me.resolved@[len - 1 - k], n));
                    assert(!waits_from(me.queue@, me.head as int, n));
                }
                assert forall|k: int| 0 <= k < p.len() implies (#[trigger] p[k]).name@ == me.queue@[0].name@ || exists|j: int|
                    0 <= j < p.len() && requires_dep(p[j], p[k].name@) by {
                    let m = len - 1 - k;
                    assert(p[k] == orig[m]);
                    assert(vis[m] == orig[m].name@);
                    assert(me.visited@[m]@ == vis[m]);
                    let i = choose|i: int| 0 <= i < me.head && #[trigger] me.queue@[i].name@ == (#[trigger] me.visited@[m])@;
                    if i != 0 {
                        let kk = choose|kk: int| 0 <= kk < orig.len() && #[trigger] requires_dep(orig[kk], (#[trigger] me.queue@[i]).name@);
                        assert(p[len - 1 - kk] == orig[kk]);
                        assert(requires_dep(p[len - 1 - kk], p[k].name@));
                    }
                }
            }
        }
        plan
    }
}


/// The command that asks a manager for the dependencies of a package.
pub open spec fn dependency_command_of(source: DependencySource, p: Seq<char>) -> (Seq<char>, Seq<Seq<char>>) {
    match source {
        DependencySource::Apt => ("apt"@, seq!["depends"@, p]),
        DependencySource::Dnf => ("dnf"@, seq!["repoquery"@, "--requires"@, p]),
        DependencySource::Pacman => ("pacman"@, seq!["-Si"@, p]),
        DependencySource::Flatpak => ("flatpak"@, seq!["info"@, "--show-runtime"@, p]),
    }
}

/// The command (program and arguments) that asks a manager for the
/// dependencies of a package.
pub fn dependency_command(source: DependencySource, package: &str) -> (r: (String, Vec<String>))
    ensures
        (r.0@, texts(r.1@)) == dependency_command_of(source, package@),
{
    let r = match source {
        DependencySource::Apt => (owned("apt"), vec![owned("depends"), owned(package)]),
        DependencySource::Dnf => (owned("dnf"), vec![owned("repoquery"), owned("--requires"), owned(package)]),
        DependencySource::Pacman => (owned("pacman"), vec![owned("-Si"), owned(package)]),
        DependencySource::Flatpak => (owned("flatpak"), vec![owned("info"), owned("--show-runtime"), owned(package)]),
    };
    assert(texts(r.1@) =~= dependency_command_of(source, package@).1);
    r
}

/// The command that asks a manager for the version of a package.
pub open spec fn version_command_of(source: VersionSource, p: Seq<char>) -> (Seq<char>, Seq<Seq<char>>) {
    match source {
        VersionSource::Apt => ("apt"@, seq!["policy"@, p]),
        VersionSource::Dnf => ("dnf"@, seq!["info"@, p]),
        VersionSource::Pacman => ("pacman"@, seq!["-Si"@, p]),
        VersionSource::Snap => ("snap"@, seq!["info"@, p]),
        VersionSource::Flatpak => ("flatpak"@, seq!["info"@, p]),
    }
}

/// The command (program and arguments) that asks a manager for the
/// version of a package.
pub fn version_command(source: VersionSource, package: &str) -> (r: (String, Vec<String>))
    ensures
        (r.0@, texts(r.1@)) == version_command_of(source, package@),
{
    let r = match source {
        VersionSource::Apt => (owned("apt"), vec![owned("policy"), owned(package)]),
        VersionSource::Dnf => (owned("dnf"), vec![owned("info"), owned(package)]),
        VersionSource::Pacman => (owned("pacman"), vec![owned("-Si"), owned(package)]),
        VersionSource::Snap => (owned("snap"), vec![owned("info"), owned(package)]),
        VersionSource::Flatpak => (owned("flatpak"), vec![owned("info"), owned(package)]),
    };
    assert(texts(r.1@) =~= version_command_of(source, package@).1);
    r
}

/// The command that asks a manager for the size of a package, where the
/// size is learnt from one.
pub open spec fn size_command_of(q: SizeQuery, p: Seq<char>) -> Option<(Seq<char>, Seq<Seq<char>>)> {
    match q {
        SizeQuery::Apt => Some(("apt"@, seq!["show"@, p])),
        SizeQuery::Dnf => Some(("dnf"@, seq!["info"@, p])),
        SizeQuery::Pacman => Some(("pacman"@, seq!["-Si"@, p])),
        SizeQuery::Unknown => None,
    }
}

/// The command (program and arguments) that asks a manager for the size
/// of a package, where the size is learnt from one.
pub fn size_command(q: SizeQuery, package: &str) -> (r: Option<(String, Vec<String>)>)
    ensures
        match r {
            Some(c) => size_command_of(q, package@) == Some((c.0@, texts(c.1@))),
            None => size_command_of(q, package@) is None,
        },
{
    match q {
        SizeQuery::Apt => {
            let r = (owned("apt"), vec![owned("show"), owned(package)]);
            assert(texts(r.1@) =~= seq!["show"@, package@]);
            Some(r)
        },
        SizeQuery::Dnf => {
            let r = (owned("dnf"), vec![owned("info"), owned(package)]);
            assert(texts(r.1@) =~= seq!["info"@, package@]);
            Some(r)
        },
        SizeQuery::Pacman => {
            let r = (owned("pacman"), vec![owned("-Si"), owned(package)]);
            assert(texts(r.1@) =~= seq!["-Si"@, package@]);
            Some(r)
        },
        SizeQuery::Unknown => None,
    }
}

} // verus!
