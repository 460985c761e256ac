//! What the package managers list: how the answers of their search and
//! list commands are read into package names.
use vstd::prelude::*;
use crate::boxes::{
    after_header, apt_search_line, apt_search_names, command_view, dpkg_installed, dpkg_packages, failure_view,
    first_word_line, installed_views, kept, kind_name, kind_name_exec, marks_remove_failure, nix_installed_names,
    nix_json_line, nix_json_names, nix_list_line, snap_names, BoxCommand, BoxKind, InstalledPackage,
};
use crate::error_handling::OmniError;
use crate::text::{
    before_first, before_first_exec, char_views, chars_of, concat2, contains_seq, owned, owned_all, has_prefix, has_sub, lines, lines_of,
    occurs_at_exec, second_piece, second_piece_exec, slice_chars, split_char, split_on_char, split_ws,
    string_from_chars, text_eq, texts, trim, trimmed, words,
};

verus! {

/// How the lines of one kind of answer are read.
#[derive(PartialEq, Eq, Structural, Clone, Copy, Debug)]
pub enum ListingRule {
    /// `dnf search`: lines with a dot that are not banners; the first word
    /// up to its first dot.
    DnfSearch,
    /// `dnf list installed`, after its header: lines of three words or more
    /// whose first has a dot; that word up to its first dot.
    DnfList,
    /// `pacman -Ss`: lines with a slash that are not indented descriptions;
    /// the part of the first word after its first slash (the whole word
    /// where it has none).
    PacmanSearch,
    /// `pacman -Q`: the first word of each line.
    FirstWord,
    /// `zypper search`: table rows starting `| `; the trimmed second column,
    /// unless empty or the heading `Name`.
    ZypperSearch,
    /// `zypper search --installed-only`: the same, for rows starting `i | `.
    ZypperList,
    /// `flatpak search`, after its header: the third word of lines of three
    /// words or more.
    FlatpakSearch,
    /// `flatpak list --app`, after its header: the second tab-separated
    /// field of lines that have one.
    FlatpakList,
    /// `brew search`: each trimmed line that is not empty and not a `==>`
    /// heading.
    BrewSearch,
    /// `brew list`: each trimmed line that is not empty.
    BrewList,
    /// `choco search`: lines with ` | ` that do not start `Chocolatey`; the
    /// trimmed text before the first ` | `.
    ChocoSearch,
    /// `choco list --local-only`: lines with a space that do not start
    /// `Chocolatey` nor report the count; their first word.
    ChocoList,
    /// `emerge --search`: lines starting `*  `; with every leading `*  `
    /// removed, the first word, after its first slash where it has one.
    EmergeSearch,
    /// `qlist -I` (or `emerge --list`): the trimmed line; where it has a
    /// slash, the part after the first slash up to its first hyphen.
    EmergeList,
    /// `winget search` and `winget list`, after two header lines: the first
    /// word of lines of two words or more.
    WingetNames,
    /// `scoop search`: lines with an opening parenthesis that do not start
    /// with a quote; the first word, after its first slash where it has one.
    ScoopSearch,
    /// `scoop list`: lines of two words or more that do not start
    /// `Installed` or `Name`; their first word.
    ScoopList,
}

/// How many header lines come before the listing.
pub open spec fn header_lines(rule: ListingRule) -> nat {
    match rule {
        ListingRule::DnfList | ListingRule::FlatpakSearch | ListingRule::FlatpakList => 1,
        ListingRule::WingetNames => 2,
        _ => 0,
    }
}

/// The lines after the first `n` (none where there are no more).
pub open spec fn skip_lines(ls: Seq<Seq<char>>, n: nat) -> Seq<Seq<char>> {
    if ls.len() <= n {
        Seq::empty()
    } else {
        ls.skip(n as int)
    }
}

/// `s` without every leading repetition of `p` (as `str::trim_start_matches`).
pub open spec fn strip_leading(s: Seq<char>, p: Seq<char>) -> Seq<char>
    decreases s.len(),
{
    if p.len() > 0 && has_prefix(s, p) {
        strip_leading(s.skip(p.len() as int), p)
    } else {
        s
    }
}

/// The part of `w` after its first slash, or `w` where it has none.
pub open spec fn after_slash(w: Seq<char>) -> Seq<char> {
    match second_piece(w, "/"@) {
        Some(x) => x,
        None => w,
    }
}

/// The second column of a table row split at ` | `, trimmed, unless empty
/// or the heading `Name`.
pub open spec fn table_name(l: Seq<char>) -> Option<Seq<char>> {
    match second_piece(l, " | "@) {
        Some(x) => if trim(x).len() > 0 && trim(x) != "Name"@ {
            Some(trim(x))
        } else {
            None
        },
        None => None,
    }
}

/// What a line gives under a rule.
pub open spec fn listing_pick(rule: ListingRule, l: Seq<char>) -> Option<Seq<char>> {
    let ws = words(l);
    match rule {
        ListingRule::DnfSearch => if has_sub(l, "."@) && !has_prefix(l, "="@) && !has_prefix(l, "Last metadata"@)
            && ws.len() > 0 {
            Some(before_first(ws[0], "."@))
        } else {
            None
        },
        ListingRule::DnfList => if ws.len() >= 3 && has_sub(ws[0], "."@) {
            Some(before_first(ws[0], "."@))
        } else {
            None
        },
        ListingRule::PacmanSearch => if !has_prefix(l, "    "@) && has_sub(l, "/"@) && ws.len() > 0 {
            Some(after_slash(ws[0]))
        } else {
            None
        },
        ListingRule::FirstWord => if ws.len() > 0 {
            Some(ws[0])
        } else {
            None
        },
        ListingRule::ZypperSearch => if has_prefix(l, "| "@) && has_sub(l, " | "@) {
            table_name(l)
        } else {
            None
        },
        ListingRule::ZypperList => if has_prefix(l, "i | "@) && has_sub(l, " | "@) {
            table_name(l)
        } else {
            None
        },
        ListingRule::FlatpakSearch => if ws.len() >= 3 {
            Some(ws[2])
        } else {
            None
        },
        ListingRule::FlatpakList => if split_char(l, '\t').len() >= 2 {
            Some(split_char(l, '\t')[1])
        } else {
            None
        },
        ListingRule::BrewSearch => if trim(l).len() > 0 && !has_prefix(trim(l), "==>"@) {
            Some(trim(l))
        } else {
            None
        },
        ListingRule::BrewList => if trim(l).len() > 0 {
            Some(trim(l))
        } else {
            None
        },
        ListingRule::ChocoSearch => if has_sub(l, " | "@) && !has_prefix(l, "Chocolatey"@) {
            Some(trim(before_first(l, " | "@)))
        } else {
            None
        },
        ListingRule::ChocoList => if has_sub(l, " "@) && !has_prefix(l, "Chocolatey"@) && !has_sub(
            l,
            "packages installed"@,
        ) && ws.len() > 0 {
            Some(ws[0])
        } else {
            None
        },
        ListingRule::EmergeSearch => if has_prefix(l, "*  "@) && words(strip_leading(l, "*  "@)).len() > 0 {
            Some(after_slash(words(strip_leading(l, "*  "@))[0]))
        } else {
            None
        },
        ListingRule::EmergeList => if has_sub(trim(l), "/"@) {
            Some(before_first(after_slash(trim(l)), "-"@))
        } else if trim(l).len() > 0 {
            Some(trim(l))
        } else {
            None
        },
        ListingRule::WingetNames => if ws.len() >= 2 {
            Some(ws[0])
        } else {
            None
        },
        ListingRule::ScoopSearch => if has_sub(l, "("@) && !has_prefix(l, "'"@) && ws.len() > 0 {
            Some(after_slash(ws[0]))
        } else {
            None
        },
        ListingRule::ScoopList => if ws.len() >= 2 && !has_prefix(l, "Installed"@) && !has_prefix(l, "Name"@) {
            Some(ws[0])
        } else {
            None
        },
    }
}

/// A copy of a vector of characters.
pub(crate) fn copy_chars(v: &Vec<char>) -> (r: Vec<char>)
    ensures
        r@ == v@,
{
    let r = slice_chars(v, 0, v.len());
    assert(r@ =~= v@);
    r
}

/// Whether `l` starts with the text `p`.
pub(crate) fn starts(l: &Vec<char>, p: &str) -> (r: bool)
    ensures
        r == has_prefix(l@, p@),
{
    occurs_at_exec(l, &chars_of(p), 0)
}

/// Whether `l` contains the text `p`.
fn mentions(l: &Vec<char>, p: &str) -> (r: bool)
    ensures
        r == has_sub(l@, p@),
{
    contains_seq(l, &chars_of(p))
}

/// `s` without every leading repetition of `p`.
fn strip_leading_exec(s: &Vec<char>, p: &str) -> (r: Vec<char>)
    ensures
        r@ == strip_leading(s@, p@),
{
    let pv = chars_of(p);
    let mut i: usize = 0;
    assert(s@.skip(0) =~= s@);
    if pv.len() == 0 {
        return copy_chars(s);
    }
    while occurs_at_exec(s, &pv, i)
        invariant
            pv@ == p@,
            pv@.len() > 0,
            i <= s@.len(),
            strip_leading(s@, p@) == strip_leading(s@.skip(i as int), p@),
        decreases s.len() - i,
    {
        assert(s@.skip(i as int).subrange(0, p@.len() as int) =~= s@.subrange(i as int, i + p@.len()));
        assert(s@.skip(i as int).skip(p@.len() as int) =~= s@.skip(i + p@.len()));
        i = i + pv.len();
    }
    let ghost rest = s@.skip(i as int);
    assert(!has_prefix(rest, p@)) by {
        if has_prefix(rest, p@) {
            assert(rest.subrange(0, p@.len() as int) =~= s@.subrange(i as int, i + p@.len()));
        }
    }
    let r = slice_chars(s, i, s.len());
    assert(r@ =~= rest);
    r
}

/// The part of `w` after its first slash, or `w` where it has none.
fn after_slash_exec(w: &Vec<char>) -> (r: Vec<char>)
    ensures
        r@ == after_slash(w@),
{
    match second_piece_exec(w, &chars_of("/")) {
        Some(x) => x,
        None => copy_chars(w),
    }
}

/// The second column of a table row, as `table_name` reads it.
fn table_name_exec(l: &Vec<char>) -> (r: Option<Vec<char>>)
    ensures
        match r { Some(v) => table_name(l@) == Some(v@), None => table_name(l@) is None },
{
    match second_piece_exec(l, &chars_of(" | ")) {
        Some(x) => {
            let t = trimmed(&x);
            let name = chars_of("Name");
            if t.len() > 0 && !(t.len() == name.len() && occurs_at_exec(&t, &name, 0)) {
                proof {
                    if t@ == "Name"@ {
                        assert(t@.subrange(0, name@.len() as int) =~= name@);
                    }
                }
                Some(t)
            } else {
                proof {
                    if t@.len() > 0 {
                        assert(t@.subrange(0, name@.len() as int) =~= t@);
                    }
                }
                None
            }
        },
        None => None,
    }
}

/// The word at position `k` of `ws`, where there is one.
pub(crate) fn word_at(ws: &Vec<Vec<char>>, k: usize) -> (r: Vec<char>)
    requires
        k < ws@.len(),
    ensures
        r@ == char_views(ws@)[k as int],
{
    copy_chars(&ws[k])
}

/// What a line gives under a rule.
pub fn listing_pick_exec(rule: ListingRule, l: &Vec<char>) -> (r: Option<Vec<char>>)
    ensures
        match r { Some(v) => listing_pick(rule, l@) == Some(v@), None => listing_pick(rule, l@) is None },
{
    let ws = split_ws(l);
    assert(char_views(ws@).len() == ws@.len());
    match rule {
        ListingRule::DnfSearch => {
            if mentions(l, ".") && !starts(l, "=") && !starts(l, "Last metadata") && ws.len() > 0 {
                Some(before_first_exec(&word_at(&ws, 0), &chars_of(".")))
            } else {
                None
            }
        },
        ListingRule::DnfList => {
            if ws.len() >= 3 && mentions(&word_at(&ws, 0), ".") {
                Some(before_first_exec(&word_at(&ws, 0), &chars_of(".")))
            } else {
                None
            }
        },
        ListingRule::PacmanSearch => {
            if !starts(l, "    ") && mentions(l, "/") && ws.len() > 0 {
                Some(after_slash_exec(&word_at(&ws, 0)))
            } else {
                None
            }
        },
        ListingRule::FirstWord => {
            if ws.len() > 0 {
                Some(word_at(&ws, 0))
            } else {
                None
            }
        },
        ListingRule::ZypperSearch => {
            if starts(l, "| ") && mentions(l, " | ") {
                table_name_exec(l)
            } else {
                None
            }
        },
        ListingRule::ZypperList => {
            if starts(l, "i | ") && mentions(l, " | ") {
                table_name_exec(l)
            } else {
                None
            }
        },
        ListingRule::FlatpakSearch => {
            if ws.len() >= 3 {
                Some(word_at(&ws, 2))
            } else {
                None
            }
        },
        ListingRule::FlatpakList => {
            let parts = split_on_char(l, '\t');
            if parts.len() >= 2 {
                Some(copy_chars(&parts[1]))
            } else {
                None
            }
        },
        ListingRule::BrewSearch => {
            let t = trimmed(l);
            if t.len() > 0 && !starts(&t, "==>") {
                Some(t)
            } else {
                None
            }
        },
        ListingRule::BrewList => {
            let t = trimmed(l);
            if t.len() > 0 {
                Some(t)
            } else {
                None
            }
        },
        ListingRule::ChocoSearch => {
            if mentions(l, " | ") && !starts(l, "Chocolatey") {
                Some(trimmed(&before_first_exec(l, &chars_of(" | "))))
            } else {
                None
            }
        },
        ListingRule::ChocoList => {
            if mentions(l, " ") && !starts(l, "Chocolatey") && !mentions(l, "packages installed") && ws.len() > 0 {
                Some(word_at(&ws, 0))
            } else {
                None
            }
        },
        ListingRule::EmergeSearch => {
            if starts(l, "*  ") {
                let rest = strip_leading_exec(l, "*  ");
                let rws = split_ws(&rest);
                assert(char_views(rws@).len() == rws@.len());
                if rws.len() > 0 {
                    Some(after_slash_exec(&word_at(&rws, 0)))
                } else {
                    None
                }
            } else {
                None
            }
        },
        ListingRule::EmergeList => {
            let t = trimmed(l);
            if mentions(&t, "/") {
                Some(before_first_exec(&after_slash_exec(&t), &chars_of("-")))
            } else if t.len() > 0 {
                Some(t)
            } else {
                None
            }
        },
        ListingRule::WingetNames => {
            if ws.len() >= 2 {
                Some(word_at(&ws, 0))
            } else {
                None
            }
        },
        ListingRule::ScoopSearch => {
            if mentions(l, "(") && !starts(l, "'") && ws.len() > 0 {
                Some(after_slash_exec(&word_at(&ws, 0)))
            } else {
                None
            }
        },
        ListingRule::ScoopList => {
            if ws.len() >= 2 && !starts(l, "Installed") && !starts(l, "Name") {
                Some(word_at(&ws, 0))
            } else {
                None
            }
        },
    }
}

/// The number of header lines before the listing.
fn header_lines_exec(rule: ListingRule) -> (r: usize)
    ensures
        r == header_lines(rule),
{
    match rule {
        ListingRule::DnfList | ListingRule::FlatpakSearch | ListingRule::FlatpakList => 1,
        ListingRule::WingetNames => 2,
        _ => 0,
    }
}

/// The names that an answer lists, read line by line under a rule after its
/// header lines.
pub fn listing_names(stdout: &str, rule: ListingRule) -> (r: Vec<String>)
    ensures
        texts(r@) == kept(skip_lines(lines(stdout@), header_lines(rule)), |l: Seq<char>| listing_pick(rule, l)),
{
    let ls = lines_of(stdout);
    let h = header_lines_exec(rule);
    let ghost f = |l: Seq<char>| listing_pick(rule, l);
    let ghost all = lines(stdout@);
    let ghost body = skip_lines(all, h as nat);
    let mut r: Vec<String> = Vec::new();
    if ls.len() <= h {
        assert(body =~= Seq::<Seq<char>>::empty());
        assert(texts(r@) =~= kept(body, f));
        return r;
    }
    assert(body =~= all.skip(h as int));
    assert(texts(r@) =~= kept(body.take(0), f));
    let mut i: usize = h;
    while i < ls.len()
        invariant
            h <= i <= ls@.len(),
            ls@.len() == all.len(),
            body == all.skip(h as int),
            f == (|l: Seq<char>| listing_pick(rule, l)),
            forall|k: int| 0 <= k < ls@.len() ==> #[trigger] ls@[k]@ == all[k],
            texts(r@) == kept(body.take(i - h), f),
        decreases ls.len() - i,
    {
        assert(body.take(i - h + 1).drop_last() =~= body.take(i - h));
        assert(body.take(i - h + 1).last() == ls@[i as int]@);
        let ghost before = texts(r@);
        match listing_pick_exec(rule, &ls[i]) {
            Some(v) => {
                r.push(string_from_chars(&v));
                assert(texts(r@) =~= before + seq![v@]);
            },
            None => {
                assert(texts(r@) =~= before + Seq::<Seq<char>>::empty());
            },
        }
        i = i + 1;
    }
    assert(body.take(ls@.len() - h) =~= body);
    r
}

/// The last position of `c` in `s`, if any (as `str::rfind`).
pub open spec fn last_index(s: Seq<char>, c: char) -> Option<int>
    decreases s.len(),
{
    if s.len() == 0 {
        None
    } else if s.last() == c {
        Some(s.len() - 1)
    } else {
        last_index(s.drop_last(), c)
    }
}

/// The text after the last hyphen of `s`, where it has one.
pub open spec fn after_last_dash(s: Seq<char>) -> Option<Seq<char>> {
    match last_index(s, '-') {
        Some(i) => Some(s.skip(i + 1)),
        None => None,
    }
}

/// The version that a word of `nix profile list` gives for `p`: the text
/// after its last hyphen, where the word mentions `p` and has a hyphen, and
/// that text is neither empty nor `p`.
pub open spec fn profile_word_version(w: Seq<char>, p: Seq<char>) -> Option<Seq<char>> {
    if has_sub(w, p) && has_sub(w, "-"@) {
        match after_last_dash(w) {
            Some(v) => if v.len() > 0 && v != p {
                Some(v)
            } else {
                None
            },
            None => None,
        }
    } else {
        None
    }
}

/// The first version that a word of `ws` gives.
pub open spec fn first_word_version(ws: Seq<Seq<char>>, p: Seq<char>) -> Option<Seq<char>>
    decreases ws.len(),
{
    if ws.len() == 0 {
        None
    } else {
        match profile_word_version(ws[0], p) {
            Some(v) => Some(v),
            None => first_word_version(ws.drop_first(), p),
        }
    }
}

/// How a manager's answer about one package gives its installed version.
#[derive(PartialEq, Eq, Structural, Clone, Copy, Debug)]
pub enum VersionRule {
    /// `pacman -Q <p>`: the second word of the answer.
    Pacman,
    /// `snap list <p>`: the second word of the first line whose first word
    /// is the package.
    Snap,
    /// `flatpak list --app --columns=name,version <p>`: the trimmed second
    /// tab-separated field of the first line that mentions the package and
    /// has one that is not empty.
    Flatpak,
    /// `qlist -I -v <p>`: the text after the last hyphen of the first line
    /// that mentions the package and has a non-empty one.
    Emerge,
    /// `winget list --exact --id <p>`: the third word of the first line
    /// that mentions the package, is not a heading or rule, and has three.
    Winget,
    /// `scoop list <p>`: the second word of the first line, not a heading
    /// or rule, whose first word is the package.
    Scoop,
    /// `nix-env -q <p>`: the text after the last hyphen of the first line
    /// that mentions the package, where it is neither empty nor the package.
    NixEnv,
    /// `nix profile list`: the same, taken from the first word that
    /// mentions the package and has a hyphen.
    NixProfile,
}

/// The version that one line gives under a rule.
pub open spec fn line_version(rule: VersionRule, p: Seq<char>, l: Seq<char>) -> Option<Seq<char>> {
    let ws = words(l);
    let fields = split_char(l, '\t');
    match rule {
        VersionRule::Pacman => None,
        VersionRule::Snap => if has_prefix(l, p) && ws.len() >= 2 && ws[0] == p {
            Some(ws[1])
        } else {
            None
        },
        VersionRule::Flatpak => if has_sub(l, p) && fields.len() >= 2 && trim(fields[1]).len() > 0 {
            Some(trim(fields[1]))
        } else {
            None
        },
        VersionRule::Emerge => if has_sub(l, p) {
            match after_last_dash(l) {
                Some(v) => if v.len() > 0 {
                    Some(v)
                } else {
                    None
                },
                None => None,
            }
        } else {
            None
        },
        VersionRule::Winget => if has_sub(l, p) && !has_prefix(l, "Name"@) && !has_prefix(l, "-"@) && ws.len() >= 3 {
            Some(ws[2])
        } else {
            None
        },
        VersionRule::Scoop => if has_sub(l, p) && !has_prefix(l, "Name"@) && !has_prefix(l, "-"@) && ws.len() >= 2
            && ws[0] == p {
            Some(ws[1])
        } else {
            None
        },
        VersionRule::NixEnv => if has_sub(l, p) {
            match after_last_dash(l) {
                Some(v) => if v.len() > 0 && v != p {
                    Some(v)
                } else {
                    None
                },
                None => None,
            }
        } else {
            None
        },
        VersionRule::NixProfile => if has_sub(l, p) {
            first_word_version(ws, p)
        } else {
            None
        },
    }
}

/// The version that the first line of `ls` that gives one gives.
pub open spec fn first_line_version(rule: VersionRule, p: Seq<char>, ls: Seq<Seq<char>>) -> Option<Seq<char>>
    decreases ls.len(),
{
    if ls.len() == 0 {
        None
    } else {
        match line_version(rule, p, ls[0]) {
            Some(v) => Some(v),
            None => first_line_version(rule, p, ls.drop_first()),
        }
    }
}

/// The installed version of `p` that a successful answer gives: none for
/// a blank answer.
pub open spec fn answer_version(rule: VersionRule, p: Seq<char>, stdout: Seq<char>) -> Option<Seq<char>> {
    if trim(stdout).len() == 0 {
        None
    } else {
        match rule {
            VersionRule::Pacman => if words(trim(stdout)).len() >= 2 {
                Some(words(trim(stdout))[1])
            } else {
                None
            },
            _ => first_line_version(rule, p, lines(stdout)),
        }
    }
}

/// The last position of `c` in `s`.
pub(crate) fn last_index_exec(s: &Vec<char>, c: char) -> (r: Option<usize>)
    ensures
        match r { Some(i) => last_index(s@, c) == Some(i as int), None => last_index(s@, c) is None },
{
    let mut n: usize = s.len();
    assert(s@.take(n as int) =~= s@);
    while n > 0
        invariant
            n <= s@.len(),
            last_index(s@, c) == last_index(s@.take(n as int), c),
        decreases n,
    {
        if s[n - 1] == c {
            return Some(n - 1);
        }
        assert(s@.take(n as int).drop_last() =~= s@.take(n - 1));
        n = n - 1;
    }
    None
}

/// The text after the last hyphen of `s`.
fn after_last_dash_exec(s: &Vec<char>) -> (r: Option<Vec<char>>)
    ensures
        match r { Some(v) => after_last_dash(s@) == Some(v@), None => after_last_dash(s@) is None },
{
    match last_index_exec(s, '-') {
        Some(i) => {
            proof {
                lemma_last_index_bound(s@, '-');
            }
            let n = s.len();
            assert(i < n);
            let start: usize = i + 1;
            let v = slice_chars(s, start, n);
            assert(v@ =~= s@.skip(i + 1));
            Some(v)
        },
        None => None,
    }
}

/// `last_index` gives a position within the text.
pub(crate) proof fn lemma_last_index_bound(s: Seq<char>, c: char)
    ensures
        last_index(s, c) matches Some(i) ==> 0 <= i < s.len(),
    decreases s.len(),
{
    if s.len() > 0 {
        lemma_last_index_bound(s.drop_last(), c);
    }
}

/// Whether two character vectors hold the same text.
pub(crate) fn same_chars(a: &Vec<char>, b: &Vec<char>) -> (r: bool)
    ensures
        r == (a@ == b@),
{
    if a.len() != b.len() {
        return false;
    }
    let r = occurs_at_exec(a, b, 0);
    proof {
        if r {
            assert(a@.subrange(0, b@.len() as int) =~= a@);
        }
        if a@ == b@ {
            assert(a@.subrange(0, b@.len() as int) =~= b@);
        }
    }
    r
}

/// The version that a word of `nix profile list` gives.
fn profile_word_version_exec(w: &Vec<char>, p: &Vec<char>) -> (r: Option<Vec<char>>)
    ensures
        match r { Some(v) => profile_word_version(w@, p@) == Some(v@), None => profile_word_version(w@, p@) is None },
{
    if contains_seq(w, p) && mentions(w, "-") {
        match after_last_dash_exec(w) {
            Some(v) => if v.len() > 0 && !same_chars(&v, p) {
                Some(v)
            } else {
                None
            },
            None => None,
        }
    } else {
        None
    }
}

/// The version that one line gives under a rule.
fn line_version_exec(rule: VersionRule, p: &Vec<char>, l: &Vec<char>) -> (r: Option<Vec<char>>)
    ensures
        match r { Some(v) => line_version(rule, p@, l@) == Some(v@), None => line_version(rule, p@, l@) is None },
{
    let ws = split_ws(l);
    assert(char_views(ws@).len() == ws@.len());
    match rule {
        VersionRule::Pacman => None,
        VersionRule::Snap => {
            if occurs_at_exec(l, p, 0) && ws.len() >= 2 && same_chars(&word_at(&ws, 0), p) {
                Some(word_at(&ws, 1))
            } else {
                None
            }
        },
        VersionRule::Flatpak => {
            let fields = split_on_char(l, '\t');
            if contains_seq(l, p) && fields.len() >= 2 {
                let t = trimmed(&fields[1]);
                if t.len() > 0 {
                    Some(t)
                } else {
                    None
                }
            } else {
                None
            }
        },
        VersionRule::Emerge => {
            if contains_seq(l, p) {
                match after_last_dash_exec(l) {
                    Some(v) => if v.len() > 0 {
                        Some(v)
                    } else {
                        None
                    },
                    None => None,
                }
            } else {
                None
            }
        },
        VersionRule::Winget => {
            if contains_seq(l, p) && !starts(l, "Name") && !starts(l, "-") && ws.len() >= 3 {
                Some(word_at(&ws, 2))
            } else {
                None
            }
        },
        VersionRule::Scoop => {
            if contains_seq(l, p) && !starts(l, "Name") && !starts(l, "-") && ws.len() >= 2 && same_chars(
                &word_at(&ws, 0),
                p,
            ) {
                Some(word_at(&ws, 1))
            } else {
                None
            }
        },
        VersionRule::NixEnv => {
            if contains_seq(l, p) {
                match after_last_dash_exec(l) {
                    Some(v) => if v.len() > 0 && !same_chars(&v, p) {
                        Some(v)
                    } else {
                        None
                    },
                    None => None,
                }
            } else {
                None
            }
        },
        VersionRule::NixProfile => {
            if contains_seq(l, p) {
                let ghost wv = char_views(ws@);
                let mut k: usize = 0;
                assert(wv.skip(0) =~= wv);
                while k < ws.len()
                    invariant
                        k <= ws@.len(),
                        rule == VersionRule::NixProfile,
                        has_sub(l@, p@),
                        wv == words(l@),
                        wv == char_views(ws@),
                        wv.len() == ws@.len(),
                        first_word_version(wv, p@) == first_word_version(wv.skip(k as int), p@),
                    decreases ws.len() - k,
                {
                    assert(wv.skip(k as int)[0] == ws@[k as int]@);
                    match profile_word_version_exec(&ws[k], p) {
                        Some(v) => {
                            assert(profile_word_version(wv.skip(k as int)[0], p@) == Some(v@));
                            assert(first_word_version(wv.skip(k as int), p@) == Some(v@));
                            return Some(v);
                        },
                        None => {},
                    }
                    assert(wv.skip(k as int).drop_first() =~= wv.skip(k + 1));
                    k = k + 1;
                }
                assert(wv.skip(k as int).len() == 0);
                None
            } else {
                None
            }
        },
    }
}

/// The installed version of `package` that a manager's answer gives: none
/// where the command failed (`exit_code` is not 0) or the answer is blank.
pub fn installed_version(rule: VersionRule, package: &str, exit_code: i32, stdout: &str) -> (r: Option<String>)
    ensures
        match r {
            Some(v) => exit_code == 0 && answer_version(rule, package@, stdout@) == Some(v@),
            None => exit_code != 0 || answer_version(rule, package@, stdout@) is None,
        },
{
    if exit_code != 0 {
        return None;
    }
    let out = chars_of(stdout);
    let t = trimmed(&out);
    if t.len() == 0 {
        return None;
    }
    let p = chars_of(package);
    match rule {
        VersionRule::Pacman => {
            let ws = split_ws(&t);
            assert(char_views(ws@).len() == ws@.len());
            if ws.len() >= 2 {
                Some(string_from_chars(&word_at(&ws, 1)))
            } else {
                None
            }
        },
        _ => {
            let ls = lines_of(stdout);
            let ghost all = lines(stdout@);
            let mut i: usize = 0;
            assert(all.skip(0) =~= all);
            while i < ls.len()
                invariant
                    i <= ls@.len(),
                    exit_code == 0,
                    trim(stdout@).len() > 0,
                    rule != VersionRule::Pacman,
                    p@ == package@,
                    all == lines(stdout@),
                    ls@.len() == all.len(),
                    forall|k: int| 0 <= k < ls@.len() ==> #[trigger] ls@[k]@ == all[k],
                    first_line_version(rule, p@, all) == first_line_version(rule, p@, all.skip(i as int)),
                decreases ls.len() - i,
            {
                assert(all.skip(i as int)[0] == ls@[i as int]@);
                match line_version_exec(rule, &p, &ls[i]) {
                    Some(v) => {
                        assert(line_version(rule, p@, all.skip(i as int)[0]) == Some(v@));
                        assert(first_line_version(rule, p@, all.skip(i as int)) == Some(v@));
                        assert(answer_version(rule, package@, stdout@) == first_line_version(rule, p@, all));
                        return Some(string_from_chars(&v));
                    },
                    None => {},
                }
                assert(all.skip(i as int).drop_first() =~= all.skip(i + 1));
                i = i + 1;
            }
            assert(all.skip(i as int).len() == 0);
            None
        },
    }
}

/// A command from its program, arguments, `sudo` need and time limit.
fn make_command(program: &str, args: Vec<&str>, requires_sudo: bool, timeout_secs: u64) -> (r: BoxCommand)
    ensures
        command_view(r) == (program@, Seq::new(args@.len(), |i: int| args@[i]@), requires_sudo, timeout_secs),
{
    BoxCommand { program: owned(program), args: owned_all(&args), requires_sudo, timeout_secs }
}

/// The command that searches a box's packages for `q`.
pub open spec fn search_of(k: BoxKind, q: Seq<char>) -> (Seq<char>, Seq<Seq<char>>, bool, u64) {
    match k {
        BoxKind::Apt => ("apt"@, seq!["search"@, q], false, 60),
        BoxKind::Dnf => ("dnf"@, seq!["search"@, q], false, 60),
        BoxKind::Pacman => ("pacman"@, seq!["-Ss"@, q], false, 60),
        BoxKind::Zypper => ("zypper"@, seq!["search"@, q], false, 60),
        BoxKind::Snap => ("snap"@, seq!["find"@, q], false, 120),
        BoxKind::Flatpak => ("flatpak"@, seq!["search"@, q], false, 120),
        BoxKind::Brew => ("brew"@, seq!["search"@, q], false, 60),
        BoxKind::Chocolatey => ("choco"@, seq!["search"@, q], false, 120),
        BoxKind::Emerge => ("emerge"@, seq!["--search"@, q], false, 60),
        BoxKind::Nix => ("nix"@, seq!["search"@, "nixpkgs"@, q, "--json"@], false, 60),
        BoxKind::Winget => ("winget"@, seq!["search"@, q], false, 60),
    }
}

/// The command that searches a box's packages for `q`.
pub fn search_command(k: BoxKind, q: &str) -> (r: BoxCommand)
    ensures
        command_view(r) == search_of(k, q@),
{
    let r = match k {
        BoxKind::Apt => make_command("apt", vec!["search", q], false, 60),
        BoxKind::Dnf => make_command("dnf", vec!["search", q], false, 60),
        BoxKind::Pacman => make_command("pacman", vec!["-Ss", q], false, 60),
        BoxKind::Zypper => make_command("zypper", vec!["search", q], false, 60),
        BoxKind::Snap => make_command("snap", vec!["find", q], false, 120),
        BoxKind::Flatpak => make_command("flatpak", vec!["search", q], false, 120),
        BoxKind::Brew => make_command("brew", vec!["search", q], false, 60),
        BoxKind::Chocolatey => make_command("choco", vec!["search", q], false, 120),
        BoxKind::Emerge => make_command("emerge", vec!["--search", q], false, 60),
        BoxKind::Nix => make_command("nix", vec!["search", "nixpkgs", q, "--json"], false, 60),
        BoxKind::Winget => make_command("winget", vec!["search", q], false, 60),
    };
    assert(command_view(r).1 =~= search_of(k, q@).1);
    r
}

/// The command that lists what a box has installed (for emerge, its first
/// try).
pub open spec fn list_of(k: BoxKind) -> (Seq<char>, Seq<Seq<char>>, bool, u64) {
    match k {
        BoxKind::Apt => ("dpkg-query"@, seq!["-W"@, "--showformat=${Package}\t${Version}\t${Status}\n"@], false, 60),
        BoxKind::Dnf => ("dnf"@, seq!["list"@, "installed"@], false, 60),
        BoxKind::Pacman => ("pacman"@, seq!["-Q"@], false, 60),
        BoxKind::Zypper => ("zypper"@, seq!["search"@, "--installed-only"@], false, 60),
        BoxKind::Snap => ("snap"@, seq!["list"@], false, 60),
        BoxKind::Flatpak => ("flatpak"@, seq!["list"@, "--app"@], false, 60),
        BoxKind::Brew => ("brew"@, seq!["list"@], false, 60),
        BoxKind::Chocolatey => ("choco"@, seq!["list"@, "--local-only"@], false, 60),
        BoxKind::Emerge => ("qlist"@, seq!["-I"@], false, 60),
        BoxKind::Nix => ("nix-env"@, seq!["-q"@], false, 60),
        BoxKind::Winget => ("winget"@, seq!["list"@], false, 60),
    }
}

/// The command that lists what a box has installed.
pub fn list_command(k: BoxKind) -> (r: BoxCommand)
    ensures
        command_view(r) == list_of(k),
{
    let r = match k {
        BoxKind::Apt => make_command("dpkg-query", vec!["-W", "--showformat=${Package}\t${Version}\t${Status}\n"], false, 60),
        BoxKind::Dnf => make_command("dnf", vec!["list", "installed"], false, 60),
        BoxKind::Pacman => make_command("pacman", vec!["-Q"], false, 60),
        BoxKind::Zypper => make_command("zypper", vec!["search", "--installed-only"], false, 60),
        BoxKind::Snap => make_command("snap", vec!["list"], false, 60),
        BoxKind::Flatpak => make_command("flatpak", vec!["list", "--app"], false, 60),
        BoxKind::Brew => make_command("brew", vec!["list"], false, 60),
        BoxKind::Chocolatey => make_command("choco", vec!["list", "--local-only"], false, 60),
        BoxKind::Emerge => make_command("qlist", vec!["-I"], false, 60),
        BoxKind::Nix => make_command("nix-env", vec!["-q"], false, 60),
        BoxKind::Winget => make_command("winget", vec!["list"], false, 60),
    };
    assert(command_view(r).1 =~= list_of(k).1);
    r
}

/// The command emerge lists with where `qlist` cannot be started.
pub fn emerge_list_fallback_command() -> (r: BoxCommand)
    ensures
        command_view(r) == ("emerge"@, seq!["--list"@], false, 60u64),
{
    let r = make_command("emerge", vec!["--list"], false, 60);
    assert(command_view(r).1 =~= seq!["--list"@]);
    r
}

/// The command that shows what a box knows of package `p` (for nix, its
/// first try).
pub open spec fn info_of(k: BoxKind, p: Seq<char>) -> (Seq<char>, Seq<Seq<char>>, bool, u64) {
    match k {
        BoxKind::Apt => ("apt"@, seq!["show"@, p], false, 30),
        BoxKind::Dnf => ("dnf"@, seq!["info"@, p], false, 30),
        BoxKind::Pacman => ("pacman"@, seq!["-Si"@, p], false, 30),
        BoxKind::Zypper => ("zypper"@, seq!["info"@, p], false, 30),
        BoxKind::Snap => ("snap"@, seq!["info"@, p], false, 60),
        BoxKind::Flatpak => ("flatpak"@, seq!["info"@, p], false, 60),
        BoxKind::Brew => ("brew"@, seq!["info"@, p], false, 30),
        BoxKind::Chocolatey => ("choco"@, seq!["info"@, p], false, 60),
        BoxKind::Emerge => ("emerge"@, seq!["--info"@, p], false, 30),
        BoxKind::Nix => ("nix"@, seq!["show-derivation"@, "nixpkgs#"@ + p], false, 30),
        BoxKind::Winget => ("winget"@, seq!["show"@, p], false, 30),
    }
}

/// The command that shows what a box knows of package `p`.
pub fn info_command(k: BoxKind, p: &str) -> (r: BoxCommand)
    ensures
        command_view(r) == info_of(k, p@),
{
    let r = match k {
        BoxKind::Apt => make_command("apt", vec!["show", p], false, 30),
        BoxKind::Dnf => make_command("dnf", vec!["info", p], false, 30),
        BoxKind::Pacman => make_command("pacman", vec!["-Si", p], false, 30),
        BoxKind::Zypper => make_command("zypper", vec!["info", p], false, 30),
        BoxKind::Snap => make_command("snap", vec!["info", p], false, 60),
        BoxKind::Flatpak => make_command("flatpak", vec!["info", p], false, 60),
        BoxKind::Brew => make_command("brew", vec!["info", p], false, 30),
        BoxKind::Chocolatey => make_command("choco", vec!["info", p], false, 60),
        BoxKind::Emerge => make_command("emerge", vec!["--info", p], false, 30),
        BoxKind::Nix => {
            let attr = concat2("nixpkgs#", p);
            make_command("nix", vec!["show-derivation", attr.as_str()], false, 30)
        },
        BoxKind::Winget => make_command("winget", vec!["show", p], false, 30),
    };
    assert(command_view(r).1 =~= info_of(k, p@).1);
    r
}

/// The command nix shows a package with where its first try fails.
pub fn nix_info_fallback_command(p: &str) -> (r: BoxCommand)
    ensures
        command_view(r) == ("nix-env"@, seq!["-qa"@, "--description"@, p@], false, 30u64),
{
    let r = make_command("nix-env", vec!["-qa", "--description", p], false, 30);
    assert(command_view(r).1 =~= seq!["-qa"@, "--description"@, p@]);
    r
}

/// The command that asks a box for the installed version of `p`, and how
/// its answer is read, for the boxes that can tell (for nix, its first try).
pub open spec fn version_of(k: BoxKind, p: Seq<char>) -> Option<((Seq<char>, Seq<Seq<char>>, bool, u64), VersionRule)> {
    match k {
        BoxKind::Pacman => Some((("pacman"@, seq!["-Q"@, p], false, 30), VersionRule::Pacman)),
        BoxKind::Snap => Some((("snap"@, seq!["list"@, p], false, 30), VersionRule::Snap)),
        BoxKind::Flatpak => Some((("flatpak"@, seq!["list"@, "--app"@, "--columns=name,version"@, p], false, 30), VersionRule::Flatpak)),
        BoxKind::Emerge => Some((("qlist"@, seq!["-I"@, "-v"@, p], false, 30), VersionRule::Emerge)),
        BoxKind::Nix => Some((("nix-env"@, seq!["-q"@, p], false, 30), VersionRule::NixEnv)),
        BoxKind::Winget => Some((("winget"@, seq!["list"@, "--exact"@, "--id"@, p], false, 30), VersionRule::Winget)),
        _ => None,
    }
}

/// The command that asks a box for the installed version of `p`, and how
/// its answer is read.
pub fn version_command(k: BoxKind, p: &str) -> (r: Option<(BoxCommand, VersionRule)>)
    ensures
        match r {
            Some((c, rule)) => version_of(k, p@) == Some((command_view(c), rule)),
            None => version_of(k, p@) is None,
        },
{
    let r = match k {
        BoxKind::Pacman => Some((make_command("pacman", vec!["-Q", p], false, 30), VersionRule::Pacman)),
        BoxKind::Snap => Some((make_command("snap", vec!["list", p], false, 30), VersionRule::Snap)),
        BoxKind::Flatpak => Some((make_command("flatpak", vec!["list", "--app", "--columns=name,version", p], false, 30), VersionRule::Flatpak)),
        BoxKind::Emerge => Some((make_command("qlist", vec!["-I", "-v", p], false, 30), VersionRule::Emerge)),
        BoxKind::Nix => Some((make_command("nix-env", vec!["-q", p], false, 30), VersionRule::NixEnv)),
        BoxKind::Winget => Some((make_command("winget", vec!["list", "--exact", "--id", p], false, 30), VersionRule::Winget)),
        _ => None,
    };
    assert(r is Some ==> command_view(r.unwrap().0).1 =~= version_of(k, p@).unwrap().0.1);
    r
}

/// The command nix asks with where `nix-env` tells no version.
pub fn nix_profile_version_command() -> (r: BoxCommand)
    ensures
        command_view(r) == ("nix"@, seq!["profile"@, "list"@], false, 30u64),
{
    let r = make_command("nix", vec!["profile", "list"], false, 30);
    assert(command_view(r).1 =~= seq!["profile"@, "list"@]);
    r
}

/// How a box updates: by installing the package anew, or by running
/// commands, of which only the last decides (the failure of those before
/// it is ignored).
pub enum UpdatePlan {
    InstallPackage,
    Run(Vec<BoxCommand>),
}

/// The commands that update package `pkg` (everything, for `None`) with a
/// box, or `None` where the box updates a package by installing it.
pub open spec fn update_steps(k: BoxKind, pkg: Option<Seq<char>>) -> Option<Seq<(Seq<char>, Seq<Seq<char>>, bool, u64)>> {
    match (k, pkg) {
        (BoxKind::Apt, Some(_)) => None,
        (BoxKind::Apt, None) => Some(seq![("apt"@, seq!["update"@], true, 300u64)]),
        (BoxKind::Dnf, Some(p)) => Some(seq![("dnf"@, seq!["upgrade"@, "-y"@, p], true, 1200u64)]),
        (BoxKind::Dnf, None) => Some(seq![("dnf"@, seq!["upgrade"@, "-y"@], true, 1200u64)]),
        (BoxKind::Pacman, Some(p)) => Some(seq![("pacman"@, seq!["-S"@, "--noconfirm"@, p], true, 600u64)]),
        (BoxKind::Pacman, None) => Some(seq![("pacman"@, seq!["-Syu"@, "--noconfirm"@], true, 1200u64)]),
        (BoxKind::Zypper, Some(p)) => Some(seq![("zypper"@, seq!["update"@, "-y"@, p], true, 600u64)]),
        (BoxKind::Zypper, None) => Some(seq![("zypper"@, seq!["update"@, "-y"@], true, 1200u64)]),
        (BoxKind::Snap, Some(p)) => Some(seq![("snap"@, seq!["refresh"@, p], true, 1800u64)]),
        (BoxKind::Snap, None) => Some(seq![("snap"@, seq!["refresh"@], true, 1800u64)]),
        (BoxKind::Flatpak, Some(p)) => Some(seq![("flatpak"@, seq!["update"@, "-y"@, p], false, 1800u64)]),
        (BoxKind::Flatpak, None) => Some(seq![("flatpak"@, seq!["update"@, "-y"@], false, 1800u64)]),
        (BoxKind::Brew, Some(p)) => Some(seq![("brew"@, seq!["update"@], false, 300u64), ("brew"@, seq!["upgrade"@, p], false, 1200u64)]),
        (BoxKind::Brew, None) => Some(seq![("brew"@, seq!["update"@], false, 300u64), ("brew"@, seq!["upgrade"@], false, 1200u64)]),
        (BoxKind::Chocolatey, Some(p)) => Some(seq![("choco"@, seq!["upgrade"@, p, "-y"@], true, 1800u64)]),
        (BoxKind::Chocolatey, None) => Some(seq![("choco"@, seq!["upgrade"@, "all"@, "-y"@], true, 1800u64)]),
        (BoxKind::Emerge, Some(p)) => Some(seq![("emerge"@, seq!["--update"@, "--ask"@, "n"@, p], true, 3600u64)]),
        (BoxKind::Emerge, None) => Some(seq![("emerge"@, seq!["--update"@, "--deep"@, "--newuse"@, "--ask"@, "n"@, "@world"@], true, 7200u64)]),
        (BoxKind::Nix, Some(_)) => None,
        (BoxKind::Nix, None) => Some(seq![("nix-channel"@, seq!["--update"@], false, 300u64), ("nix-env"@, seq!["-u"@], false, 1200u64)]),
        (BoxKind::Winget, Some(p)) => Some(seq![("winget"@, seq!["upgrade"@, p, "--accept-package-agreements"@, "--accept-source-agreements"@], false, 1200u64)]),
        (BoxKind::Winget, None) => Some(seq![("winget"@, seq!["upgrade"@, "--all"@, "--accept-package-agreements"@, "--accept-source-agreements"@], false, 1200u64)]),
    }
}

/// Some argument of some command of `cs` is `p`.
pub open spec fn names_argument(cs: Seq<(Seq<char>, Seq<Seq<char>>, bool, u64)>, p: Seq<char>) -> bool {
    exists|i: int, j: int| 0 <= i < cs.len() && 0 <= j < cs[i].1.len() && #[trigger] cs[i].1[j] == p
}

/// Updating a named package runs commands that name it: some argument is
/// the package, so that only it is upgraded. The commands are those of
/// the whole-system update, one for one the same programs with the same
/// need for administrator rights; apt and Nix alone update a named package
/// by installing it again.
pub proof fn law_update_names_package(k: BoxKind, p: Seq<char>)
    ensures
        (update_steps(k, Some(p)) is None) <==> (k == BoxKind::Apt || k == BoxKind::Nix),
        update_steps(k, Some(p)) matches Some(cs) ==> {
            &&& names_argument(cs, p)
            &&& update_steps(k, None) matches Some(all) && all.len() == cs.len() && forall|i: int|
                0 <= i < cs.len() ==> (#[trigger] cs[i]).0 == all[i].0 && cs[i].2 == all[i].2
        },
{
    match update_steps(k, Some(p)) {
        Some(cs) => {
            let i = cs.len() - 1;
            let j: int = match k {
                BoxKind::Chocolatey => 1,
                BoxKind::Winget => 1,
                _ => cs[i].1.len() - 1,
            };
            assert(cs[i].1[j] == p);
        },
        None => {},
    }
}

/// The views of a list of commands.
pub open spec fn command_views(cs: Seq<BoxCommand>) -> Seq<(Seq<char>, Seq<Seq<char>>, bool, u64)> {
    Seq::new(cs.len(), |i: int| command_view(cs[i]))
}

/// One command, as a list.
fn one(c: BoxCommand) -> (r: Vec<BoxCommand>)
    ensures
        command_views(r@) == seq![command_view(c)],
{
    let r = vec![c];
    assert(command_views(r@) =~= seq![command_view(c)]);
    r
}

/// Two commands, as a list.
fn two(a: BoxCommand, b: BoxCommand) -> (r: Vec<BoxCommand>)
    ensures
        command_views(r@) == seq![command_view(a), command_view(b)],
{
    let r = vec![a, b];
    assert(command_views(r@) =~= seq![command_view(a), command_view(b)]);
    r
}

/// How to update `package` (everything, for `None`) with a box.
pub fn update_plan(k: BoxKind, package: Option<&str>) -> (r: UpdatePlan)
    ensures
        match r {
            UpdatePlan::InstallPackage => update_steps(k, match package { Some(p) => Some(p@), None => None }) is None,
            UpdatePlan::Run(cs) => update_steps(k, match package { Some(p) => Some(p@), None => None }) == Some(command_views(cs@)),
        },
        match (package, r) {
            (Some(p), UpdatePlan::Run(cs)) => names_argument(command_views(cs@), p@),
            _ => true,
        },
{
    let r = update_commands(k, package);
    proof {
        if let Some(p) = package {
            law_update_names_package(k, p@);
        }
    }
    r
}

/// The update plan, as the table of each box's commands.
fn update_commands(k: BoxKind, package: Option<&str>) -> (r: UpdatePlan)
    ensures
        match r {
            UpdatePlan::InstallPackage => update_steps(k, match package { Some(p) => Some(p@), None => None }) is None,
            UpdatePlan::Run(cs) => update_steps(k, match package { Some(p) => Some(p@), None => None }) == Some(command_views(cs@)),
        },
{
    match (k, package) {
        (BoxKind::Apt, Some(_)) => UpdatePlan::InstallPackage,
        (BoxKind::Apt, None) => {
            let c = make_command("apt", vec!["update"], true, 300);
            assert(command_view(c).1 =~= seq!["update"@]);
            UpdatePlan::Run(one(c))
        },
        (BoxKind::Dnf, Some(p)) => {
            let c = make_command("dnf", vec!["upgrade", "-y", p], true, 1200);
            assert(command_view(c).1 =~= seq!["upgrade"@, "-y"@, p@]);
            UpdatePlan::Run(one(c))
        },
        (BoxKind::Dnf, None) => {
            let c = make_command("dnf", vec!["upgrade", "-y"], true, 1200);
            assert(command_view(c).1 =~= seq!["upgrade"@, "-y"@]);
            UpdatePlan::Run(one(c))
        },
        (BoxKind::Pacman, Some(p)) => {
            let c = make_command("pacman", vec!["-S", "--noconfirm", p], true, 600);
            assert(command_view(c).1 =~= seq!["-S"@, "--noconfirm"@, p@]);
            UpdatePlan::Run(one(c))
        },
        (BoxKind::Pacman, None) => {
            let c = make_command("pacman", vec!["-Syu", "--noconfirm"], true, 1200);
            assert(command_view(c).1 =~= seq!["-Syu"@, "--noconfirm"@]);
            UpdatePlan::Run(one(c))
        },
        (BoxKind::Zypper, Some(p)) => {
            let c = make_command("zypper", vec!["update", "-y", p], true, 600);
            assert(command_view(c).1 =~= seq!["update"@, "-y"@, p@]);
            UpdatePlan::Run(one(c))
        },
        (BoxKind::Zypper, None) => {
            let c = make_command("zypper", vec!["update", "-y"], true, 1200);
            assert(command_view(c).1 =~= seq!["update"@, "-y"@]);
            UpdatePlan::Run(one(c))
        },
        (BoxKind::Snap, Some(p)) => {
            let c = make_command("snap", vec!["refresh", p], true, 1800);
            assert(command_view(c).1 =~= seq!["refresh"@, p@]);
            UpdatePlan::Run(one(c))
        },
        (BoxKind::Snap, None) => {
            let c = make_command("snap", vec!["refresh"], true, 1800);
            assert(command_view(c).1 =~= seq!["refresh"@]);
            UpdatePlan::Run(one(c))
        },
        (BoxKind::Flatpak, Some(p)) => {
            let c = make_command("flatpak", vec!["update", "-y", p], false, 1800);
            assert(command_view(c).1 =~= seq!["update"@, "-y"@, p@]);
            UpdatePlan::Run(one(c))
        },
        (BoxKind::Flatpak, None) => {
            let c = make_command("flatpak", vec!["update", "-y"], false, 1800);
            assert(command_view(c).1 =~= seq!["update"@, "-y"@]);
            UpdatePlan::Run(one(c))
        },
        (BoxKind::Brew, Some(p)) => {
            let a = make_command("brew", vec!["update"], false, 300);
            assert(command_view(a).1 =~= seq!["update"@]);
            let b = make_command("brew", vec!["upgrade", p], false, 1200);
            assert(command_view(b).1 =~= seq!["upgrade"@, p@]);
            UpdatePlan::Run(two(a, b))
        },
        (BoxKind::Brew, None) => {
            let a = make_command("brew", vec!["update"], false, 300);
            assert(command_view(a).1 =~= seq!["update"@]);
            let b = make_command("brew", vec!["upgrade"], false, 1200);
            assert(command_view(b).1 =~= seq!["upgrade"@]);
            UpdatePlan::Run(two(a, b))
        },
        (BoxKind::Chocolatey, Some(p)) => {
            let c = make_command("choco", vec!["upgrade", p, "-y"], true, 1800);
            assert(command_view(c).1 =~= seq!["upgrade"@, p@, "-y"@]);
            UpdatePlan::Run(one(c))
        },
        (BoxKind::Chocolatey, None) => {
            let c = make_command("choco", vec!["upgrade", "all", "-y"], true, 1800);
            assert(command_view(c).1 =~= seq!["upgrade"@, "all"@, "-y"@]);
            UpdatePlan::Run(one(c))
        },
        (BoxKind::Emerge, Some(p)) => {
            let c = make_command("emerge", vec!["--update", "--ask", "n", p], true, 3600);
            assert(command_view(c).1 =~= seq!["--update"@, "--ask"@, "n"@, p@]);
            UpdatePlan::Run(one(c))
        },
        (BoxKind::Emerge, None) => {
            let c = make_command("emerge", vec!["--update", "--deep", "--newuse", "--ask", "n", "@world"], true, 7200);
            assert(command_view(c).1 =~= seq!["--update"@, "--deep"@, "--newuse"@, "--ask"@, "n"@, "@world"@]);
            UpdatePlan::Run(one(c))
        },
        (BoxKind::Nix, Some(_)) => UpdatePlan::InstallPackage,
        (BoxKind::Nix, None) => {
            let a = make_command("nix-channel", vec!["--update"], false, 300);
            assert(command_view(a).1 =~= seq!["--update"@]);
            let b = make_command("nix-env", vec!["-u"], false, 1200);
            assert(command_view(b).1 =~= seq!["-u"@]);
            UpdatePlan::Run(two(a, b))
        },
        (BoxKind::Winget, Some(p)) => {
            let c = make_command("winget", vec!["upgrade", p, "--accept-package-agreements", "--accept-source-agreements"], false, 1200);
            assert(command_view(c).1 =~= seq!["upgrade"@, p@, "--accept-package-agreements"@, "--accept-source-agreements"@]);
            UpdatePlan::Run(one(c))
        },
        (BoxKind::Winget, None) => {
            let c = make_command("winget", vec!["upgrade", "--all", "--accept-package-agreements", "--accept-source-agreements"], false, 1200);
            assert(command_view(c).1 =~= seq!["upgrade"@, "--all"@, "--accept-package-agreements"@, "--accept-source-agreements"@]);
            UpdatePlan::Run(one(c))
        },
    }
}

/// The rule that reads a box's search answer, for the boxes read by rule.
pub open spec fn search_rule(k: BoxKind) -> Option<ListingRule> {
    match k {
        BoxKind::Dnf => Some(ListingRule::DnfSearch),
        BoxKind::Pacman => Some(ListingRule::PacmanSearch),
        BoxKind::Zypper => Some(ListingRule::ZypperSearch),
        BoxKind::Flatpak => Some(ListingRule::FlatpakSearch),
        BoxKind::Brew => Some(ListingRule::BrewSearch),
        BoxKind::Chocolatey => Some(ListingRule::ChocoSearch),
        BoxKind::Emerge => Some(ListingRule::EmergeSearch),
        BoxKind::Winget => Some(ListingRule::WingetNames),
        _ => None,
    }
}

/// The rule that reads a box's list of installed packages, for the boxes
/// read by rule.
pub open spec fn list_rule(k: BoxKind) -> Option<ListingRule> {
    match k {
        BoxKind::Dnf => Some(ListingRule::DnfList),
        BoxKind::Pacman => Some(ListingRule::FirstWord),
        BoxKind::Zypper => Some(ListingRule::ZypperList),
        BoxKind::Flatpak => Some(ListingRule::FlatpakList),
        BoxKind::Brew => Some(ListingRule::BrewList),
        BoxKind::Chocolatey => Some(ListingRule::ChocoList),
        BoxKind::Emerge => Some(ListingRule::EmergeList),
        BoxKind::Winget => Some(ListingRule::WingetNames),
        _ => None,
    }
}

/// The names read from an answer under a rule.
pub open spec fn rule_names(rule: ListingRule, out: Seq<char>) -> Seq<Seq<char>> {
    kept(skip_lines(lines(out), header_lines(rule)), |l: Seq<char>| listing_pick(rule, l))
}

/// The package names that a box's search answer `out` lists.
pub open spec fn search_names_of(k: BoxKind, out: Seq<char>) -> Seq<Seq<char>> {
    match k {
        BoxKind::Apt => kept(lines(out), |l: Seq<char>| apt_search_line(l)),
        BoxKind::Snap => kept(after_header(lines(out)), |l: Seq<char>| first_word_line(l)),
        BoxKind::Nix => kept(lines(out), |l: Seq<char>| nix_json_line(l)),
        _ => rule_names(search_rule(k).unwrap(), out),
    }
}

/// The package names that a box's list answer `out` lists.
pub open spec fn installed_names_of(k: BoxKind, out: Seq<char>) -> Seq<Seq<char>> {
    match k {
        BoxKind::Apt => Seq::new(dpkg_packages(lines(out)).len(), |i: int| dpkg_packages(lines(out))[i].0),
        BoxKind::Snap => kept(after_header(lines(out)), |l: Seq<char>| first_word_line(l)),
        BoxKind::Nix => kept(lines(out), |l: Seq<char>| nix_list_line(l)),
        _ => rule_names(list_rule(k).unwrap(), out),
    }
}

/// The package names that a box's search answer lists.
pub fn search_names(k: BoxKind, stdout: &str) -> (r: Vec<String>)
    ensures
        texts(r@) == search_names_of(k, stdout@),
{
    match k {
        BoxKind::Apt => apt_search_names(stdout),
        BoxKind::Snap => snap_names(stdout),
        BoxKind::Nix => nix_json_names(stdout),
        BoxKind::Dnf => listing_names(stdout, ListingRule::DnfSearch),
        BoxKind::Pacman => listing_names(stdout, ListingRule::PacmanSearch),
        BoxKind::Zypper => listing_names(stdout, ListingRule::ZypperSearch),
        BoxKind::Flatpak => listing_names(stdout, ListingRule::FlatpakSearch),
        BoxKind::Brew => listing_names(stdout, ListingRule::BrewSearch),
        BoxKind::Chocolatey => listing_names(stdout, ListingRule::ChocoSearch),
        BoxKind::Emerge => listing_names(stdout, ListingRule::EmergeSearch),
        BoxKind::Winget => listing_names(stdout, ListingRule::WingetNames),
    }
}

/// The package names that a box's list answer lists.
pub fn installed_names(k: BoxKind, stdout: &str) -> (r: Vec<String>)
    ensures
        texts(r@) == installed_names_of(k, stdout@),
{
    match k {
        BoxKind::Apt => {
            let ps = dpkg_installed(stdout);
            let ghost d = dpkg_packages(lines(stdout@));
            let mut r: Vec<String> = Vec::new();
            let mut i: usize = 0;
            while i < ps.len()
                invariant
                    i <= ps@.len(),
                    installed_views(ps@) == d,
                    d == dpkg_packages(lines(stdout@)),
                    texts(r@) == Seq::new(i as nat, |j: int| d[j].0),
                decreases ps.len() - i,
            {
                assert(installed_views(ps@)[i as int] == (ps@[i as int].name@, ps@[i as int].version@));
                let ghost before = texts(r@);
                let x = ps[i].name.clone();
                assert(x@ == d[i as int].0);
                r.push(x);
                assert(texts(r@) =~= before.push(d[i as int].0));
                assert(texts(r@) =~= Seq::new((i + 1) as nat, |j: int| d[j].0));
                i = i + 1;
            }
            assert(installed_views(ps@).len() == ps@.len());
            r
        },
        BoxKind::Snap => snap_names(stdout),
        BoxKind::Nix => nix_installed_names(stdout),
        BoxKind::Dnf => listing_names(stdout, ListingRule::DnfList),
        BoxKind::Pacman => listing_names(stdout, ListingRule::FirstWord),
        BoxKind::Zypper => listing_names(stdout, ListingRule::ZypperList),
        BoxKind::Flatpak => listing_names(stdout, ListingRule::FlatpakList),
        BoxKind::Brew => listing_names(stdout, ListingRule::BrewList),
        BoxKind::Chocolatey => listing_names(stdout, ListingRule::ChocoList),
        BoxKind::Emerge => listing_names(stdout, ListingRule::EmergeList),
        BoxKind::Winget => listing_names(stdout, ListingRule::WingetNames),
    }
}

/// The failure that a failed update of `pkg` (everything, for `None`)
/// reports: the package (`cache` for apt's cache update, `world` for
/// emerge's, `all` for the others), the box, and the error output, worded
/// as an update failure by the boxes that word their failures.
pub open spec fn update_failure(k: BoxKind, pkg: Option<Seq<char>>, stderr: Seq<char>) -> (Seq<char>, Seq<char>, Seq<char>) {
    let package = match pkg {
        Some(p) => p,
        None => match k {
            BoxKind::Apt => "cache"@,
            BoxKind::Emerge => "world"@,
            _ => "all"@,
        },
    };
    let reason = if k == BoxKind::Apt && pkg is None {
        "Cache update failed: "@ + stderr
    } else if marks_remove_failure(k) {
        "Update failed: "@ + stderr
    } else {
        stderr
    };
    (package, kind_name(k), reason)
}

/// What the exit code and error output of an update's deciding command
/// mean.
pub fn update_outcome(k: BoxKind, package: Option<&str>, exit_code: i32, stderr: &str) -> (r: Result<(), OmniError>)
    ensures
        exit_code == 0 <==> r is Ok,
        r matches Err(e) ==> failure_view(e) == Some(update_failure(k, match package { Some(p) => Some(p@), None => None }, stderr@)),
{
    if exit_code == 0 {
        return Ok(());
    }
    let p = match package {
        Some(p) => owned(p),
        None => match k {
            BoxKind::Apt => owned("cache"),
            BoxKind::Emerge => owned("world"),
            _ => owned("all"),
        },
    };
    let reason = if k == BoxKind::Apt && package.is_none() {
        concat2("Cache update failed: ", stderr)
    } else {
        match k {
            BoxKind::Chocolatey | BoxKind::Flatpak | BoxKind::Snap => owned(stderr),
            _ => concat2("Update failed: ", stderr),
        }
    };
    Err(OmniError::InstallationFailed { package: p, box_type: owned(kind_name_exec(k)), reason })
}

/// What a failed listing of installed packages reports: an installation
/// failure of `list`, worded as a list failure by the boxes that word their
/// failures.
pub fn list_failure(k: BoxKind, stderr: &str) -> (r: OmniError)
    ensures
        failure_view(r) == Some((
            "list"@,
            kind_name(k),
            if marks_remove_failure(k) { "List failed: "@ + stderr@ } else { stderr@ },
        )),
{
    let reason = match k {
        BoxKind::Chocolatey | BoxKind::Flatpak | BoxKind::Snap => owned(stderr),
        _ => concat2("List failed: ", stderr),
    };
    OmniError::InstallationFailed { package: owned("list"), box_type: owned(kind_name_exec(k)), reason }
}

/// What a failed search reports: flatpak and chocolatey report an
/// installation failure of the query with the error output; the others
/// find nothing (`None`).
pub fn search_failure(k: BoxKind, query: &str, stderr: &str) -> (r: Option<OmniError>)
    ensures
        match r {
            Some(e) => (k == BoxKind::Flatpak || k == BoxKind::Chocolatey) && failure_view(e) == Some((query@, kind_name(k), stderr@)),
            None => k != BoxKind::Flatpak && k != BoxKind::Chocolatey,
        },
{
    match k {
        BoxKind::Flatpak | BoxKind::Chocolatey => Some(OmniError::InstallationFailed {
            package: owned(query),
            box_type: owned(kind_name_exec(k)),
            reason: owned(stderr),
        }),
        _ => None,
    }
}

/// What an information command's answer means: its output on success;
/// otherwise, for the boxes that pass on their error output, an
/// installation failure with it, and for the others, that the package was
/// not found.
pub fn info_outcome(k: BoxKind, package: &str, exit_code: i32, stdout: &str, stderr: &str) -> (r: Result<String, OmniError>)
    ensures
        match r {
            Ok(s) => exit_code == 0 && s@ == stdout@,
            Err(e) => exit_code != 0 && if marks_remove_failure(k) {
                e matches OmniError::PackageNotFound { package: p } && p@ == package@
            } else {
                failure_view(e) == Some((package@, kind_name(k), stderr@))
            },
        },
{
    if exit_code == 0 {
        Ok(owned(stdout))
    } else {
        match k {
            BoxKind::Chocolatey | BoxKind::Flatpak | BoxKind::Snap => Err(OmniError::InstallationFailed {
                package: owned(package),
                box_type: owned(kind_name_exec(k)),
                reason: owned(stderr),
            }),
            _ => Err(OmniError::PackageNotFound { package: owned(package) }),
        }
    }
}

/// The package that a line of `dnf list installed` describes: for a line of
/// three words or more whose first has a dot, that word up to its first dot
/// and the second word, its version.
pub open spec fn dnf_package(l: Seq<char>) -> Option<(Seq<char>, Seq<char>)> {
    let ws = words(l);
    if ws.len() >= 3 && has_sub(ws[0], "."@) {
        Some((before_first(ws[0], "."@), ws[1]))
    } else {
        None
    }
}

/// The package that a line of `dnf list installed` describes.
fn dnf_package_exec(l: &Vec<char>) -> (r: Option<InstalledPackage>)
    ensures
        match r {
            Some(p) => dnf_package(l@) == Some((p.name@, p.version@)) && p.description is None,
            None => dnf_package(l@) is None,
        },
{
    let ws = split_ws(l);
    assert(char_views(ws@).len() == ws@.len());
    if ws.len() >= 3 && mentions(&word_at(&ws, 0), ".") {
        let name = before_first_exec(&word_at(&ws, 0), &chars_of("."));
        let version = word_at(&ws, 1);
        Some(InstalledPackage { name: string_from_chars(&name), version: string_from_chars(&version), description: None })
    } else {
        None
    }
}

/// The packages that lines describe, in order.
pub open spec fn dnf_packages(ls: Seq<Seq<char>>) -> Seq<(Seq<char>, Seq<char>)>
    decreases ls.len(),
{
    if ls.len() == 0 {
        Seq::empty()
    } else {
        dnf_packages(ls.drop_last()) + match dnf_package(ls.last()) {
            Some(p) => seq![p],
            None => Seq::empty(),
        }
    }
}

/// The installed packages, with their versions, that `dnf list installed`
/// lists after its header (without descriptions).
pub fn dnf_installed(stdout: &str) -> (r: Vec<InstalledPackage>)
    ensures
        installed_views(r@) == dnf_packages(skip_lines(lines(stdout@), 1)),
        forall|k: int| 0 <= k < r@.len() ==> (#[trigger] r@[k]).description is None,
{
    let ls = lines_of(stdout);
    let ghost all = lines(stdout@);
    let ghost body = skip_lines(all, 1);
    let mut r: Vec<InstalledPackage> = Vec::new();
    if ls.len() <= 1 {
        assert(body =~= Seq::<Seq<char>>::empty());
        assert(installed_views(r@) =~= dnf_packages(body));
        return r;
    }
    assert(body =~= all.skip(1));
    assert(installed_views(r@) =~= dnf_packages(body.take(0)));
    let mut i: usize = 1;
    while i < ls.len()
        invariant
            1 <= i <= ls@.len(),
            ls@.len() == all.len(),
            body == all.skip(1),
            forall|k: int| 0 <= k < ls@.len() ==> #[trigger] ls@[k]@ == all[k],
            installed_views(r@) == dnf_packages(body.take(i - 1)),
            forall|k: int| 0 <= k < r@.len() ==> (#[trigger] r@[k]).description is None,
        decreases ls.len() - i,
    {
        assert(body.take(i as int).drop_last() =~= body.take(i - 1));
        assert(body.take(i as int).last() == ls@[i as int]@);
        let ghost before = installed_views(r@);
        match dnf_package_exec(&ls[i]) {
            Some(p) => {
                let ghost pv = (p.name@, p.version@);
                r.push(p);
                assert(installed_views(r@) =~= before + seq![pv]);
            },
            None => {
                assert(installed_views(r@) =~= before + Seq::<(Seq<char>, Seq<char>)>::empty());
            },
        }
        i = i + 1;
    }
    assert(body.take(ls@.len() - 1) =~= body);
    r
}

/// The box of a name, where the name is one's.
pub fn kind_of_name(name: &str) -> (r: Option<BoxKind>)
    ensures
        match r {
            Some(k) => kind_name(k) == name@,
            None => forall|k: BoxKind| kind_name(k) != name@,
        },
{
    let kinds = vec![
        BoxKind::Apt, BoxKind::Dnf, BoxKind::Pacman, BoxKind::Zypper, BoxKind::Snap, BoxKind::Flatpak,
        BoxKind::Brew, BoxKind::Chocolatey, BoxKind::Emerge, BoxKind::Nix, BoxKind::Winget,
    ];
    let mut i: usize = 0;
    while i < kinds.len()
        invariant
            i <= kinds@.len(),
            kinds@ == seq![
                BoxKind::Apt, BoxKind::Dnf, BoxKind::Pacman, BoxKind::Zypper, BoxKind::Snap, BoxKind::Flatpak,
                BoxKind::Brew, BoxKind::Chocolatey, BoxKind::Emerge, BoxKind::Nix, BoxKind::Winget,
            ],
            forall|j: int| 0 <= j < i ==> kind_name(#[trigger] kinds@[j]) != name@,
        decreases kinds.len() - i,
    {
        if text_eq(kind_name_exec(kinds[i]), name) {
            return Some(kinds[i]);
        }
        i = i + 1;
    }
    assert forall|k: BoxKind| kind_name(k) != name@ by {
        match k {
            BoxKind::Apt => assert(kind_name(kinds@[0]) != name@),
            BoxKind::Dnf => assert(kind_name(kinds@[1]) != name@),
            BoxKind::Pacman => assert(kind_name(kinds@[2]) != name@),
            BoxKind::Zypper => assert(kind_name(kinds@[3]) != name@),
            BoxKind::Snap => assert(kind_name(kinds@[4]) != name@),
            BoxKind::Flatpak => assert(kind_name(kinds@[5]) != name@),
            BoxKind::Brew => assert(kind_name(kinds@[6]) != name@),
            BoxKind::Chocolatey => assert(kind_name(kinds@[7]) != name@),
            BoxKind::Emerge => assert(kind_name(kinds@[8]) != name@),
            BoxKind::Nix => assert(kind_name(kinds@[9]) != name@),
            BoxKind::Winget => assert(kind_name(kinds@[10]) != name@),
        }
    }
    None
}

} // verus!
