//! Search across package managers: each manager's listing is parsed into
//! results, results of installed packages are marked, and everything is
//! merged into one list with one result per package name, installed
//! packages first and names in order.
use vstd::prelude::*;
use crate::input_validation::opt_text;
use crate::boxes::after_header;
use crate::text::{
    before_first, before_first_exec, chars_of, concat3, contains_seq, find_seq, first_occurrence, has_prefix,
    has_sub, lines, lines_of, occurs_at_exec, owned, second_piece, second_piece_exec, slice_chars, split_char,
    split_on_char, string_from_chars, string_from_range, text_eq, texts, trim, trimmed,
};
use crate::config::position_of;

verus! {

/// One package found by a search.
pub struct SearchResult {
    pub name: String,
    pub description: Option<String>,
    pub version: Option<String>,
    pub box_type: String,
    pub source: Option<String>,
    pub installed: bool,
}

/// The texts of a search result.
pub struct SearchEntry {
    pub name: Seq<char>,
    pub description: Option<Seq<char>>,
    pub version: Option<Seq<char>>,
    pub box_type: Seq<char>,
    pub source: Option<Seq<char>>,
    pub installed: bool,
}

impl View for SearchResult {
    type V = SearchEntry;

    open spec fn view(&self) -> SearchEntry {
        SearchEntry {
            name: self.name@,
            description: opt_text(self.description),
            version: opt_text(self.version),
            box_type: self.box_type@,
            source: opt_text(self.source),
            installed: self.installed,
        }
    }
}

/// The texts of each result of `v`, in order.
pub open spec fn entries(v: Seq<SearchResult>) -> Seq<SearchEntry> {
    Seq::new(v.len(), |i: int| v[i]@)
}

/// A copy of an optional text.
fn copy_text(o: &Option<String>) -> (r: Option<String>)
    ensures
        opt_text(r) == opt_text(*o),
{
    match o {
        Some(t) => Some(t.clone()),
        None => None,
    }
}

/// A copy of a search result.
fn copy_result(x: &SearchResult) -> (r: SearchResult)
    ensures
        r@ == x@,
{
    SearchResult {
        name: x.name.clone(),
        description: copy_text(&x.description),
        version: copy_text(&x.version),
        box_type: x.box_type.clone(),
        source: copy_text(&x.source),
        installed: x.installed,
    }
}

/// `a` comes before `b` in character order, which is also the order of
/// their UTF-8 bytes (the order of `String`).
pub open spec fn text_less(a: Seq<char>, b: Seq<char>) -> bool
    decreases a.len(),
{
    if a.len() == 0 {
        b.len() > 0
    } else if b.len() == 0 {
        false
    } else if a[0] != b[0] {
        (a[0] as u32) < (b[0] as u32)
    } else {
        text_less(a.drop_first(), b.drop_first())
    }
}

/// No text comes before itself, and of two texts at most one comes first.
pub proof fn lemma_text_less_asymmetric(a: Seq<char>, b: Seq<char>)
    ensures
        text_less(a, b) ==> !text_less(b, a),
    decreases a.len(),
{
    if a.len() > 0 && b.len() > 0 && a[0] == b[0] {
        lemma_text_less_asymmetric(a.drop_first(), b.drop_first());
    }
}

/// Character order is transitive.
pub proof fn lemma_text_less_transitive(a: Seq<char>, b: Seq<char>, c: Seq<char>)
    requires
        text_less(a, b),
        text_less(b, c),
    ensures
        text_less(a, c),
    decreases a.len(),
{
    if a.len() > 0 && b.len() > 0 && c.len() > 0 && a[0] == b[0] && b[0] == c[0] {
        lemma_text_less_transitive(a.drop_first(), b.drop_first(), c.drop_first());
    }
}

/// Of two different texts, one comes first.
pub proof fn lemma_text_less_total(a: Seq<char>, b: Seq<char>)
    requires
        a != b,
    ensures
        text_less(a, b) || text_less(b, a),
    decreases a.len(),
{
    if a.len() > 0 && b.len() > 0 && a[0] == b[0] {
        if a.drop_first() == b.drop_first() {
            assert(a =~= seq![a[0]] + a.drop_first());
            assert(b =~= seq![b[0]] + b.drop_first());
        }
        lemma_text_less_total(a.drop_first(), b.drop_first());
    } else if a.len() > 0 && b.len() > 0 {
        if (a[0] as u32) == (b[0] as u32) {
            vstd::utf8::char_u32_cast(a[0], a[0] as u32);
            vstd::utf8::char_u32_cast(b[0], b[0] as u32);
        }
    } else if a.len() == 0 && b.len() == 0 {
        assert(a =~= b);
    }
}

/// Texts that agree on their first `i` characters compare as what follows.
proof fn lemma_text_less_skip(a: Seq<char>, b: Seq<char>, i: int)
    requires
        0 <= i <= a.len(),
        i <= b.len(),
        a.take(i) =~= b.take(i),
    ensures
        text_less(a, b) == text_less(a.skip(i), b.skip(i)),
    decreases i,
{
    if i > 0 {
        assert(a[0] == a.take(i)[0]);
        assert(b[0] == b.take(i)[0]);
        assert(a.drop_first().take(i - 1) =~= b.drop_first().take(i - 1)) by {
            assert forall|k: int| 0 <= k < i - 1 implies a.drop_first()[k] == b.drop_first()[k] by {
                assert(a.take(i)[k + 1] == b.take(i)[k + 1]);
            }
        }
        lemma_text_less_skip(a.drop_first(), b.drop_first(), i - 1);
        assert(a.drop_first().skip(i - 1) =~= a.skip(i));
        assert(b.drop_first().skip(i - 1) =~= b.skip(i));
    } else {
        assert(a.skip(0) =~= a);
        assert(b.skip(0) =~= b);
    }
}

/// Whether `a` comes before `b` in character order.
pub fn text_less_exec(a: &str, b: &str) -> (r: bool)
    ensures
        r == text_less(a@, b@),
{
    let av = chars_of(a);
    let bv = chars_of(b);
    let mut i: usize = 0;
    while i < av.len() && i < bv.len() && av[i] == bv[i]
        invariant
            i <= av@.len(),
            i <= bv@.len(),
            av@.take(i as int) =~= bv@.take(i as int),
        decreases av.len() - i,
    {
        assert(av@.take(i + 1) =~= av@.take(i as int).push(av@[i as int]));
        assert(bv@.take(i + 1) =~= bv@.take(i as int).push(bv@[i as int]));
        i = i + 1;
    }
    proof {
        lemma_text_less_skip(av@, bv@, i as int);
    }
    let ghost sa = av@.skip(i as int);
    let ghost sb = bv@.skip(i as int);
    if i == av.len() {
        assert(sa.len() == 0);
        i < bv.len()
    } else if i == bv.len() {
        false
    } else {
        assert(sa[0] == av@[i as int]);
        assert(sb[0] == bv@[i as int]);
        let ca: u32 = av[i] as u32;
        let cb: u32 = bv[i] as u32;
        ca < cb
    }
}

/// `a` is listed before `b`: installed packages first, then names in order.
pub open spec fn listed_before(a: SearchEntry, b: SearchEntry) -> bool {
    (a.installed && !b.installed) || (a.installed == b.installed && text_less(a.name, b.name))
}

/// Each entry of `s` is listed before every later one.
pub open spec fn ordered(s: Seq<SearchEntry>) -> bool {
    forall|i: int, j: int| 0 <= i < j < s.len() ==> listed_before(#[trigger] s[i], #[trigger] s[j])
}

/// No two entries of `s` have the same name.
pub open spec fn distinct_names(s: Seq<SearchEntry>) -> bool {
    forall|i: int, j: int| 0 <= i < j < s.len() ==> (#[trigger] s[i]).name != (#[trigger] s[j]).name
}

/// Listing order is transitive.
proof fn lemma_listed_transitive(a: SearchEntry, b: SearchEntry, c: SearchEntry)
    requires
        listed_before(a, b),
        listed_before(b, c),
    ensures
        listed_before(a, c),
{
    if a.installed == b.installed && b.installed == c.installed {
        lemma_text_less_transitive(a.name, b.name, c.name);
    }
}

/// Of two entries with different names, one is listed first; never both.
proof fn lemma_listed_total(a: SearchEntry, b: SearchEntry)
    requires
        a.name != b.name,
    ensures
        listed_before(a, b) || listed_before(b, a),
        !(listed_before(a, b) && listed_before(b, a)),
{
    lemma_text_less_total(a.name, b.name);
    lemma_text_less_asymmetric(a.name, b.name);
}

/// The first position of an entry named `n` in `s`, if any.
pub open spec fn name_index(s: Seq<SearchEntry>, n: Seq<char>) -> Option<int>
    decreases s.len(),
{
    if s.len() == 0 {
        None
    } else {
        match name_index(s.drop_last(), n) {
            Some(i) => Some(i),
            None => if s.last().name == n {
                Some(s.len() - 1)
            } else {
                None
            },
        }
    }
}

/// `name_index` finds the first entry with the name, or tells that none has it.
proof fn lemma_name_index(s: Seq<SearchEntry>, n: Seq<char>)
    ensures
        match name_index(s, n) {
            Some(i) => 0 <= i < s.len() && s[i].name == n && forall|j: int| 0 <= j < i ==> s[j].name != n,
            None => forall|j: int| 0 <= j < s.len() ==> s[j].name != n,
        },
    decreases s.len(),
{
    if s.len() > 0 {
        let d = s.drop_last();
        lemma_name_index(d, n);
        match name_index(d, n) {
            Some(i) => {
                assert(s[i] == d[i]);
                assert forall|j: int| 0 <= j < i implies s[j].name != n by {
                    assert(s[j] == d[j]);
                }
            },
            None => {
                assert forall|j: int| 0 <= j < s.len() - 1 implies s[j].name != n by {
                    assert(s[j] == d[j]);
                }
            },
        }
    }
}

/// One result per name, as a search keeps them: for each name the first
/// result, replaced by the first later result of an installed package
/// where the kept one is not installed.
pub open spec fn dedup(rs: Seq<SearchEntry>) -> Seq<SearchEntry>
    decreases rs.len(),
{
    if rs.len() == 0 {
        Seq::empty()
    } else {
        let p = dedup(rs.drop_last());
        let x = rs.last();
        match name_index(p, x.name) {
            Some(i) => if x.installed && !p[i].installed {
                p.update(i, x)
            } else {
                p
            },
            None => p.push(x),
        }
    }
}

/// The kept results have different names.
pub proof fn lemma_dedup_distinct(rs: Seq<SearchEntry>)
    ensures
        distinct_names(dedup(rs)),
    decreases rs.len(),
{
    if rs.len() > 0 {
        lemma_dedup_distinct(rs.drop_last());
        let p = dedup(rs.drop_last());
        lemma_name_index(p, rs.last().name);
    }
}

/// Some entry of `s` is named `n`.
pub open spec fn has_name(s: Seq<SearchEntry>, n: Seq<char>) -> bool {
    exists|i: int| 0 <= i < s.len() && (#[trigger] s[i]).name == n
}

/// Some entry of `s` named `n` is of an installed package.
pub open spec fn has_installed(s: Seq<SearchEntry>, n: Seq<char>) -> bool {
    exists|i: int| 0 <= i < s.len() && (#[trigger] s[i]).name == n && s[i].installed
}

/// Merging loses no package name and adds none, and where any result of a
/// name is of an installed package, the result kept for that name is.
pub proof fn law_dedup_keeps_names_prefers_installed(rs: Seq<SearchEntry>, n: Seq<char>)
    ensures
        has_name(dedup(rs), n) == has_name(rs, n),
        has_installed(rs, n) ==> has_installed(dedup(rs), n),
    decreases rs.len(),
{
    if rs.len() > 0 {
        let d = rs.drop_last();
        let x = rs.last();
        law_dedup_keeps_names_prefers_installed(d, n);
        let p = dedup(d);
        lemma_name_index(p, x.name);
        assert(has_name(rs, n) == (has_name(d, n) || x.name == n)) by {
            if has_name(rs, n) {
                let i = choose|i: int| 0 <= i < rs.len() && (#[trigger] rs[i]).name == n;
                if i < d.len() {
                    assert(d[i] == rs[i]);
                }
            }
            if has_name(d, n) {
                let i = choose|i: int| 0 <= i < d.len() && (#[trigger] d[i]).name == n;
                assert(rs[i] == d[i]);
            }
            assert(rs[rs.len() - 1] == x);
        }
        assert(has_installed(rs, n) == (has_installed(d, n) || (x.name == n && x.installed))) by {
            if has_installed(rs, n) {
                let i = choose|i: int| 0 <= i < rs.len() && (#[trigger] rs[i]).name == n && rs[i].installed;
                if i < d.len() {
                    assert(d[i] == rs[i]);
                }
            }
            if has_installed(d, n) {
                let i = choose|i: int| 0 <= i < d.len() && (#[trigger] d[i]).name == n && d[i].installed;
                assert(rs[i] == d[i]);
            }
            assert(rs[rs.len() - 1] == x);
        }
        match name_index(p, x.name) {
            Some(i) => {
                if x.installed && !p[i].installed {
                    let q = p.update(i, x);
                    assert(has_name(q, n) == has_name(p, n)) by {
                        if has_name(p, n) {
                            let j = choose|j: int| 0 <= j < p.len() && (#[trigger] p[j]).name == n;
                            assert(q[j].name == n);
                        }
                        if has_name(q, n) {
                            let j = choose|j: int| 0 <= j < q.len() && (#[trigger] q[j]).name == n;
                            assert(p[j].name == n);
                        }
                    }
                    if has_installed(rs, n) {
                        if x.name == n {
                            assert(q[i].name == n && q[i].installed);
                        } else {
                            let j = choose|j: int| 0 <= j < p.len() && (#[trigger] p[j]).name == n && p[j].installed;
                            assert(j != i);
                            assert(q[j] == p[j]);
                        }
                    }
                } else {
                    if x.name == n {
                        assert(p[i].name == n);
                        if x.installed {
                            assert(p[i].installed);
                        }
                    }
                }
            },
            None => {
                let q = p.push(x);
                assert(q[p.len() as int] == x);
                assert(has_name(q, n) == (has_name(p, n) || x.name == n)) by {
                    if has_name(q, n) {
                        let j = choose|j: int| 0 <= j < q.len() && (#[trigger] q[j]).name == n;
                        if j < p.len() {
                            assert(p[j] == q[j]);
                        }
                    }
                    if has_name(p, n) {
                        let j = choose|j: int| 0 <= j < p.len() && (#[trigger] p[j]).name == n;
                        assert(q[j] == p[j]);
                    }
                }
                if has_installed(d, n) {
                    let j = choose|j: int| 0 <= j < p.len() && (#[trigger] p[j]).name == n && p[j].installed;
                    assert(q[j] == p[j]);
                }
            },
        }
    }
}

/// A sequence with an element inserted holds what it held and that element.
proof fn lemma_insert_contains<A>(s: Seq<A>, i: int, a: A, e: A)
    requires
        0 <= i <= s.len(),
    ensures
        s.insert(i, a).contains(e) <==> (s.contains(e) || e == a),
{
    let t = s.insert(i, a);
    if t.contains(e) {
        let k = choose|k: int| 0 <= k < t.len() && t[k] == e;
        if k < i {
            assert(s[k] == e);
        } else if k > i {
            assert(s[k - 1] == e);
        }
    }
    if s.contains(e) {
        let k = choose|k: int| 0 <= k < s.len() && s[k] == e;
        if k < i {
            assert(t[k] == e);
        } else {
            assert(t[k + 1] == e);
        }
    }
    if e == a {
        assert(t[i] == e);
    }
}

/// The first `i + 1` elements hold what the first `i` hold and the next one.
proof fn lemma_take_contains<A>(s: Seq<A>, i: int, e: A)
    requires
        0 <= i < s.len(),
    ensures
        s.take(i + 1).contains(e) <==> (s.take(i).contains(e) || e == s[i]),
{
    assert(s.take(i + 1) =~= s.take(i).insert(i, s[i]));
    lemma_insert_contains(s.take(i), i, s[i], e);
}

/// The position of the first result named `n` in `v`.
fn index_of_name(v: &Vec<SearchResult>, n: &str) -> (r: Option<usize>)
    ensures
        match r {
            Some(i) => name_index(entries(v@), n@) == Some(i as int),
            None => name_index(entries(v@), n@) is None,
        },
{
    let ghost s = entries(v@);
    proof {
        lemma_name_index(s, n@);
    }
    let mut i: usize = 0;
    while i < v.len()
        invariant
            i <= v@.len(),
            s == entries(v@),
            forall|j: int| 0 <= j < i ==> s[j].name != n@,
            match name_index(s, n@) {
                Some(k) => 0 <= k < s.len() && s[k].name == n@ && forall|j: int| 0 <= j < k ==> s[j].name != n@,
                None => forall|j: int| 0 <= j < s.len() ==> s[j].name != n@,
            },
        decreases v.len() - i,
    {
        if text_eq(v[i].name.as_str(), n) {
            assert(s[i as int].name == n@);
            proof {
                match name_index(s, n@) {
                    Some(k) => {
                        if k < i {
                        } else if k > i {
                            assert(s[i as int].name != n@);
                        }
                    },
                    None => {},
                }
            }
            return Some(i);
        }
        i = i + 1;
    }
    proof {
        match name_index(s, n@) {
            Some(k) => {
                assert(s[k].name != n@);
            },
            None => {},
        }
    }
    None
}

/// One result per name, as `dedup` describes.
fn dedup_results(results: &Vec<SearchResult>) -> (r: Vec<SearchResult>)
    ensures
        entries(r@) == dedup(entries(results@)),
{
    let ghost all = entries(results@);
    let mut u: Vec<SearchResult> = Vec::new();
    let mut i: usize = 0;
    assert(entries(u@) =~= dedup(all.take(0)));
    while i < results.len()
        invariant
            i <= results@.len(),
            all == entries(results@),
            entries(u@) == dedup(all.take(i as int)),
        decreases results.len() - i,
    {
        assert(all.take(i + 1).drop_last() =~= all.take(i as int));
        assert(all.take(i + 1).last() == results@[i as int]@);
        let x = &results[i];
        let ghost p = entries(u@);
        proof {
            lemma_name_index(p, x@.name);
        }
        match index_of_name(&u, x.name.as_str()) {
            Some(j) => {
                if x.installed && !u[j].installed {
                    u.set(j, copy_result(x));
                    assert(entries(u@) =~= p.update(j as int, x@));
                }
            },
            None => {
                u.push(copy_result(x));
                assert(entries(u@) =~= p.push(x@));
            },
        }
        i = i + 1;
    }
    assert(all.take(results.len() as int) =~= all);
    u
}

/// The position at which `x` goes into the ordered `out`: the first
/// entry that `x` is listed before.
fn insert_position(out: &Vec<SearchResult>, x: &SearchResult) -> (r: usize)
    ensures
        r <= out@.len(),
        forall|k: int| 0 <= k < r ==> !listed_before(x@, #[trigger] entries(out@)[k]),
        r < out@.len() ==> listed_before(x@, entries(out@)[r as int]),
{
    let mut k: usize = 0;
    while k < out.len()
        invariant
            k <= out@.len(),
            forall|j: int| 0 <= j < k ==> !listed_before(x@, #[trigger] entries(out@)[j]),
        decreases out.len() - k,
    {
        let y = &out[k];
        let before = if x.installed && !y.installed {
            true
        } else if x.installed == y.installed {
            text_less_exec(x.name.as_str(), y.name.as_str())
        } else {
            false
        };
        assert(before == listed_before(x@, entries(out@)[k as int]));
        if before {
            return k;
        }
        k = k + 1;
    }
    k
}

/// Merge search results: one result per package name (the first found,
/// or the first of an installed package where there is one after a result
/// of one that is not), listed with installed packages first and then by
/// name.
pub fn merge_results(results: &Vec<SearchResult>) -> (r: Vec<SearchResult>)
    ensures
        ordered(entries(r@)),
        distinct_names(entries(r@)),
        r@.len() == dedup(entries(results@)).len(),
        forall|e: SearchEntry| entries(r@).contains(e) <==> dedup(entries(results@)).contains(e),
{
    let u = dedup_results(results);
    let ghost d = entries(u@);
    proof {
        lemma_dedup_distinct(entries(results@));
    }
    let mut out: Vec<SearchResult> = Vec::new();
    let mut i: usize = 0;
    assert(entries(out@) =~= Seq::<SearchEntry>::empty());
    while i < u.len()
        invariant
            i <= u@.len(),
            d == entries(u@),
            distinct_names(d),
            out@.len() == i,
            ordered(entries(out@)),
            distinct_names(entries(out@)),
            forall|e: SearchEntry| entries(out@).contains(e) <==> d.take(i as int).contains(e),
        decreases u.len() - i,
    {
        let x = copy_result(&u[i]);
        let ghost o = entries(out@);
        assert(x@ == d[i as int]);
        assert forall|k: int| 0 <= k < o.len() implies (#[trigger] o[k]).name != x@.name by {
            assert(o.contains(o[k]));
            assert(d.take(i as int).contains(o[k]));
            let m = choose|m: int| 0 <= m < i && d.take(i as int)[m] == o[k];
            assert(d[m] == o[k]);
            assert(d[m].name != d[i as int].name);
        }
        let pos = insert_position(&out, &x);
        assert forall|k: int| 0 <= k < pos implies listed_before(#[trigger] o[k], x@) by {
            lemma_listed_total(o[k], x@);
        }
        out.insert(pos, x);
        let ghost n = entries(out@);
        assert(n =~= o.insert(pos as int, x@));
        assert forall|a: int, b: int| 0 <= a < b < n.len() implies listed_before(#[trigger] n[a], #[trigger] n[b]) by {
            if b < pos {
                assert(n[a] == o[a] && n[b] == o[b]);
            } else if b == pos {
                assert(n[a] == o[a]);
            } else if a < pos {
                assert(n[a] == o[a] && n[b] == o[b - 1]);
                assert(listed_before(o[a], x@));
                assert(listed_before(x@, o[pos as int]));
                if pos < b - 1 {
                    assert(listed_before(o[pos as int], o[b - 1]));
                    lemma_listed_transitive(x@, o[pos as int], o[b - 1]);
                }
                lemma_listed_transitive(o[a], x@, o[b - 1]);
            } else if a == pos {
                assert(n[b] == o[b - 1]);
                if pos < b - 1 {
                    assert(listed_before(o[pos as int], o[b - 1]));
                    lemma_listed_transitive(x@, o[pos as int], o[b - 1]);
                }
            } else {
                assert(n[a] == o[a - 1] && n[b] == o[b - 1]);
            }
        }
        assert forall|a: int, b: int| 0 <= a < b < n.len() implies (#[trigger] n[a]).name != (#[trigger] n[b]).name by {
            if b < pos {
                assert(n[a] == o[a] && n[b] == o[b]);
            } else if b == pos {
                assert(n[a] == o[a]);
            } else if a < pos {
                assert(n[a] == o[a] && n[b] == o[b - 1]);
            } else if a == pos {
                assert(n[b] == o[b - 1]);
            } else {
                assert(n[a] == o[a - 1] && n[b] == o[b - 1]);
            }
        }
        assert forall|e: SearchEntry| n.contains(e) <==> d.take(i + 1).contains(e) by {
            lemma_insert_contains(o, pos as int, x@, e);
            lemma_take_contains(d, i as int, e);
        }
        i = i + 1;
    }
    assert(d.take(u.len() as int) =~= d);
    out
}

/// A result named `name` that the manager `box_type` lists, not marked
/// installed.
pub open spec fn found(
    name: Seq<char>,
    description: Option<Seq<char>>,
    version: Option<Seq<char>>,
    box_type: Seq<char>,
    source: Option<Seq<char>>,
) -> SearchEntry {
    SearchEntry { name, description, version, box_type, source, installed: false }
}

/// The results that `f` makes of the lines `ls`, in order.
pub open spec fn line_results(ls: Seq<Seq<char>>, f: spec_fn(Seq<char>) -> Option<SearchEntry>) -> Seq<SearchEntry>
    decreases ls.len(),
{
    if ls.len() == 0 {
        Seq::empty()
    } else {
        line_results(ls.drop_last(), f) + match f(ls.last()) {
            Some(x) => seq![x],
            None => Seq::empty(),
        }
    }
}

/// A result from the characters `name` and the optional others.
fn make_result(
    name: &Vec<char>,
    description: Option<&Vec<char>>,
    version: Option<&Vec<char>>,
    box_type: &str,
    source: Option<&Vec<char>>,
) -> (r: SearchResult)
    ensures
        r@ == found(
            name@,
            match description { Some(d) => Some(d@), None => None },
            match version { Some(v) => Some(v@), None => None },
            box_type@,
            match source { Some(v) => Some(v@), None => None },
        ),
{
    SearchResult {
        name: string_from_chars(name),
        description: match description { Some(d) => Some(string_from_chars(d)), None => None },
        version: match version { Some(v) => Some(string_from_chars(v)), None => None },
        box_type: owned(box_type),
        source: match source { Some(v) => Some(string_from_chars(v)), None => None },
        installed: false,
    }
}

/// What a line of `apt search --names-only` gives: for a line with a slash,
/// a dash and a " - ", the name before the first slash and the description
/// after the " - ".
pub open spec fn apt_result(l: Seq<char>) -> Option<SearchEntry> {
    if has_sub(l, "/"@) && has_sub(l, "-"@) {
        match first_occurrence(l, " - "@) {
            Some(i) => Some(found(before_first(l.take(i), "/"@), Some(l.skip(i + 3)), None, "apt"@, None)),
            None => None,
        }
    } else {
        None
    }
}

/// What a line of `dnf search --quiet` gives: for a line with a dot, a
/// colon and a " : ", the name before the first dot and the description
/// after the " : ".
pub open spec fn dnf_result(l: Seq<char>) -> Option<SearchEntry> {
    if has_sub(l, "."@) && has_sub(l, ":"@) {
        match first_occurrence(l, " : "@) {
            Some(i) => Some(found(before_first(l.take(i), "."@), Some(l.skip(i + 3)), None, "dnf"@, None)),
            None => None,
        }
    } else {
        None
    }
}

/// The name and the rest of a line of the form `<name><sep><rest>`, split at
/// the first `sep`, with the name cut at its first `cut`.
fn split_line(l: &Vec<char>, sep: &str, cut: &str) -> (r: Option<(Vec<char>, Vec<char>)>)
    ensures
        match r {
            Some((n, d)) => exists|i: int| #[trigger] first_occurrence(l@, sep@) == Some(i)
                && n@ == before_first(l@.take(i), cut@) && d@ == l@.skip(i + sep@.len()),
            None => first_occurrence(l@, sep@) is None,
        },
{
    let sv = chars_of(sep);
    let cv = chars_of(cut);
    match find_seq(l, &sv) {
        Some(i) => {
            assert(i + sv@.len() <= l@.len());
            let head = slice_chars(l, 0, i);
            assert(head@ =~= l@.take(i as int));
            let plen = sv.len();
            let llen = l.len();
            assert(i + plen <= llen);
            let start: usize = i + plen;
            let tail = slice_chars(l, start, llen);
            assert(tail@ =~= l@.skip(i + sep@.len()));
            Some((before_first_exec(&head, &cv), tail))
        },
        None => None,
    }
}

/// The result that a line of `apt search --names-only` gives.
fn apt_result_exec(l: &Vec<char>) -> (r: Option<SearchResult>)
    ensures
        match r {
            Some(x) => apt_result(l@) == Some(x@),
            None => apt_result(l@) is None,
        },
{
    if !(contains_seq(l, &chars_of("/")) && contains_seq(l, &chars_of("-"))) {
        return None;
    }
    proof {
        reveal_strlit(" - ");
    }
    match split_line(l, " - ", "/") {
        Some((n, d)) => Some(make_result(&n, Some(&d), None, "apt", None)),
        None => None,
    }
}

/// The result that a line of `dnf search --quiet` gives.
fn dnf_result_exec(l: &Vec<char>) -> (r: Option<SearchResult>)
    ensures
        match r {
            Some(x) => dnf_result(l@) == Some(x@),
            None => dnf_result(l@) is None,
        },
{
    if !(contains_seq(l, &chars_of(".")) && contains_seq(l, &chars_of(":"))) {
        return None;
    }
    proof {
        reveal_strlit(" : ");
    }
    match split_line(l, " : ", ".") {
        Some((n, d)) => Some(make_result(&n, Some(&d), None, "dnf", None)),
        None => None,
    }
}

/// The results that `apt search --names-only` lists.
pub fn apt_search_results(stdout: &str) -> (r: Vec<SearchResult>)
    ensures
        entries(r@) == line_results(lines(stdout@), |l: Seq<char>| apt_result(l)),
{
    let ls = lines_of(stdout);
    let ghost f = |l: Seq<char>| apt_result(l);
    let ghost all = lines(stdout@);
    let mut r: Vec<SearchResult> = Vec::new();
    let mut i: usize = 0;
    while i < ls.len()
        invariant
            i <= ls@.len(),
            ls@.len() == all.len(),
            all == lines(stdout@),
            f == (|l: Seq<char>| apt_result(l)),
            forall|k: int| 0 <= k < ls@.len() ==> #[trigger] ls@[k]@ == all[k],
            entries(r@) == line_results(all.take(i as int), f),
        decreases ls.len() - i,
    {
        assert(all.take(i + 1).drop_last() =~= all.take(i as int));
        assert(all.take(i + 1).last() == ls@[i as int]@);
        let ghost before = entries(r@);
        match apt_result_exec(&ls[i]) {
            Some(x) => {
                let ghost xv = x@;
                r.push(x);
                assert(entries(r@) =~= before + seq![xv]);
            },
            None => {
                assert(entries(r@) =~= before + Seq::<SearchEntry>::empty());
            },
        }
        i = i + 1;
    }
    assert(all.take(ls@.len() as int) =~= all);
    r
}

/// The results that `dnf search --quiet` lists.
pub fn dnf_search_results(stdout: &str) -> (r: Vec<SearchResult>)
    ensures
        entries(r@) == line_results(lines(stdout@), |l: Seq<char>| dnf_result(l)),
{
    let ls = lines_of(stdout);
    let ghost f = |l: Seq<char>| dnf_result(l);
    let ghost all = lines(stdout@);
    let mut r: Vec<SearchResult> = Vec::new();
    let mut i: usize = 0;
    while i < ls.len()
        invariant
            i <= ls@.len(),
            ls@.len() == all.len(),
            all == lines(stdout@),
            f == (|l: Seq<char>| dnf_result(l)),
            forall|k: int| 0 <= k < ls@.len() ==> #[trigger] ls@[k]@ == all[k],
            entries(r@) == line_results(all.take(i as int), f),
        decreases ls.len() - i,
    {
        assert(all.take(i + 1).drop_last() =~= all.take(i as int));
        assert(all.take(i + 1).last() == ls@[i as int]@);
        let ghost before = entries(r@);
        match dnf_result_exec(&ls[i]) {
            Some(x) => {
                let ghost xv = x@;
                r.push(x);
                assert(entries(r@) =~= before + seq![xv]);
            },
            None => {
                assert(entries(r@) =~= before + Seq::<SearchEntry>::empty());
            },
        }
        i = i + 1;
    }
    assert(all.take(ls@.len() as int) =~= all);
    r
}

/// The repositories whose lines `pacman -Ss` starts a result with.
pub open spec fn pacman_header(l: Seq<char>) -> bool {
    has_prefix(l, "extra/"@) || has_prefix(l, "core/"@) || has_prefix(l, "community/"@)
}

/// The name and version that a result line of `pacman -Ss` gives: the line
/// is split at its first space into `<repo>/<name>` and the version.
pub open spec fn pacman_head(l: Seq<char>) -> Option<(Seq<char>, Seq<char>)> {
    if pacman_header(l) {
        match first_occurrence(l, " "@) {
            Some(j) => match second_piece(l.take(j), "/"@) {
                Some(n) => Some((n, l.skip(j + 1))),
                None => None,
            },
            None => None,
        }
    } else {
        None
    }
}

/// The results that `pacman -Ss` lists from line `i` on: each result line
/// gives a result whose description is the next line, trimmed, and that
/// line is passed over.
#[verifier::opaque]
pub open spec fn pacman_results(ls: Seq<Seq<char>>, i: int) -> Seq<SearchEntry>
    decreases ls.len() + 2 - i,
{
    if i < 0 || i >= ls.len() {
        Seq::empty()
    } else {
        match pacman_head(ls[i]) {
            Some((n, v)) => seq![found(
                n,
                if i + 1 < ls.len() { Some(trim(ls[i + 1])) } else { None },
                Some(v),
                "pacman"@,
                None,
            )] + pacman_results(ls, i + 2),
            None => pacman_results(ls, i + 1),
        }
    }
}

/// One step of `pacman_results`.
proof fn lemma_pacman_step(ls: Seq<Seq<char>>, i: int)
    ensures
        pacman_results(ls, i) == if i < 0 || i >= ls.len() {
            Seq::empty()
        } else {
            match pacman_head(ls[i]) {
                Some((n, v)) => seq![found(
                    n,
                    if i + 1 < ls.len() { Some(trim(ls[i + 1])) } else { None },
                    Some(v),
                    "pacman"@,
                    None,
                )] + pacman_results(ls, i + 2),
                None => pacman_results(ls, i + 1),
            }
        },
{
    reveal_with_fuel(pacman_results, 2);
}

/// Whether a line of `pacman -Ss` starts a result.
fn pacman_header_exec(l: &Vec<char>) -> (r: bool)
    ensures
        r == pacman_header(l@),
{
    let extra = chars_of("extra/");
    let core = chars_of("core/");
    let community = chars_of("community/");
    occurs_at_exec(l, &extra, 0) || occurs_at_exec(l, &core, 0) || occurs_at_exec(l, &community, 0)
}

/// The name and version that a result line of `pacman -Ss` gives.
fn pacman_head_exec(l: &Vec<char>) -> (r: Option<(Vec<char>, Vec<char>)>)
    ensures
        match r {
            Some((n, v)) => pacman_head(l@) == Some((n@, v@)),
            None => pacman_head(l@) is None,
        },
{
    if !pacman_header_exec(l) {
        return None;
    }
    let space = chars_of(" ");
    proof {
        reveal_strlit(" ");
    }
    assert(space@.len() == 1);
    match find_seq(l, &space) {
        Some(j) => {
            let llen = l.len();
            assert(j + 1 <= llen);
            let head = slice_chars(l, 0, j);
            assert(head@ =~= l@.take(j as int));
            let rest = slice_chars(l, j + 1, llen);
            assert(rest@ =~= l@.skip(j + 1));
            match second_piece_exec(&head, &chars_of("/")) {
                Some(n) => Some((n, rest)),
                None => None,
            }
        },
        None => None,
    }
}

/// The result that the result line `i` of a `pacman -Ss` listing, with
/// the name `n` and version `v`, gives.
fn pacman_entry(ls: &Vec<Vec<char>>, i: usize, n: &Vec<char>, v: &Vec<char>) -> (x: SearchResult)
    requires
        i < ls@.len(),
    ensures
        x@ == found(
            n@,
            if i + 1 < ls@.len() { Some(trim(ls@[i + 1]@)) } else { None },
            Some(v@),
            "pacman"@,
            None,
        ),
{
    if i < ls.len() - 1 {
        let d = trimmed(&ls[i + 1]);
        make_result(n, Some(&d), Some(v), "pacman", None)
    } else {
        make_result(n, None, Some(v), "pacman", None)
    }
}

/// The results that `pacman -Ss` lists.
#[verifier::rlimit(40)]
pub fn pacman_search_results(stdout: &str) -> (r: Vec<SearchResult>)
    ensures
        entries(r@) == pacman_results(lines(stdout@), 0),
{
    let ls = lines_of(stdout);
    let ghost all = lines(stdout@);
    let mut r: Vec<SearchResult> = Vec::new();
    let mut i: usize = 0;
    while i < ls.len()
        invariant
            ls@.len() == all.len(),
            i <= ls@.len() + 1,
            forall|k: int| 0 <= k < ls@.len() ==> #[trigger] ls@[k]@ == all[k],
            entries(r@) + pacman_results(all, i as int) == pacman_results(all, 0),
        decreases ls.len() + 1 - i,
    {
        let ghost before = entries(r@);
        proof {
            lemma_pacman_step(all, i as int);
        }
        match pacman_head_exec(&ls[i]) {
            Some((n, v)) => {
                let x = pacman_entry(&ls, i, &n, &v);
                let ghost xv = x@;
                r.push(x);
                assert(entries(r@) =~= before + seq![xv]);
                assert(entries(r@) + pacman_results(all, i + 2) =~= before + pacman_results(all, i as int));
                if i < ls.len() - 1 {
                    i = i + 2;
                } else {
                    proof {
                        lemma_pacman_step(all, i + 2);
                        lemma_pacman_step(all, ls@.len() as int);
                    }
                    i = ls.len();
                }
            },
            None => {
                i = i + 1;
            },
        }
    }
    proof {
        lemma_pacman_step(all, i as int);
    }
    assert(entries(r@) =~= entries(r@) + pacman_results(all, i as int));
    r
}

/// What a line of `flatpak search` gives: for a line with at least three
/// tab-separated fields, the name, the description and, as its source, the
/// application ID.
pub open spec fn flatpak_result(l: Seq<char>) -> Option<SearchEntry> {
    let p = split_char(l, '\t');
    if p.len() >= 3 {
        Some(found(p[0], Some(p[1]), None, "flatpak"@, Some(p[2])))
    } else {
        None
    }
}

/// The result that a line of `flatpak search` gives.
fn flatpak_result_exec(l: &Vec<char>) -> (r: Option<SearchResult>)
    ensures
        match r {
            Some(x) => flatpak_result(l@) == Some(x@),
            None => flatpak_result(l@) is None,
        },
{
    let parts = split_on_char(l, '\t');
    if parts.len() >= 3 {
        Some(make_result(&parts[0], Some(&parts[1]), None, "flatpak", Some(&parts[2])))
    } else {
        None
    }
}

/// The results that `flatpak search` lists, after its header line.
pub fn flatpak_search_results(stdout: &str) -> (r: Vec<SearchResult>)
    ensures
        entries(r@) == line_results(after_header(lines(stdout@)), |l: Seq<char>| flatpak_result(l)),
{
    let ls = lines_of(stdout);
    let ghost f = |l: Seq<char>| flatpak_result(l);
    let ghost all = after_header(lines(stdout@));
    let mut r: Vec<SearchResult> = Vec::new();
    if ls.len() == 0 {
        assert(all =~= Seq::<Seq<char>>::empty());
        assert(entries(r@) =~= line_results(all, f));
        return r;
    }
    assert(entries(r@) =~= line_results(all.take(0), f));
    let mut i: usize = 1;
    while i < ls.len()
        invariant
            1 <= i <= ls@.len(),
            all.len() == ls@.len() - 1,
            all == after_header(lines(stdout@)),
            ls@.len() == lines(stdout@).len(),
            f == (|l: Seq<char>| flatpak_result(l)),
            forall|k: int| 0 <= k < ls@.len() ==> #[trigger] ls@[k]@ == lines(stdout@)[k],
            entries(r@) == line_results(all.take(i - 1), f),
        decreases ls.len() - i,
    {
        assert(all.take(i as int).drop_last() =~= all.take(i - 1));
        assert(all.take(i as int).last() == ls@[i as int]@);
        let ghost before = entries(r@);
        match flatpak_result_exec(&ls[i]) {
            Some(x) => {
                let ghost xv = x@;
                r.push(x);
                assert(entries(r@) =~= before + seq![xv]);
            },
            None => {
                assert(entries(r@) =~= before + Seq::<SearchEntry>::empty());
            },
        }
        i = i + 1;
    }
    assert(all.take(ls@.len() - 1) =~= all);
    r
}

/// The results of the names that `snap find` lists.
pub fn snap_search_results(names: &Vec<String>) -> (r: Vec<SearchResult>)
    ensures
        entries(r@) == Seq::new(names@.len(), |i: int| found(names@[i]@, None, None, "snap"@, None)),
{
    let mut r: Vec<SearchResult> = Vec::new();
    let mut i: usize = 0;
    while i < names.len()
        invariant
            i <= names@.len(),
            entries(r@) == Seq::new(i as nat, |k: int| found(names@[k]@, None, None, "snap"@, None)),
        decreases names.len() - i,
    {
        let x = SearchResult {
            name: names[i].clone(),
            description: None,
            version: None,
            box_type: owned("snap"),
            source: None,
            installed: false,
        };
        let ghost xv = x@;
        assert(xv == found(names@[i as int]@, None, None, "snap"@, None));
        let ghost before = entries(r@);
        r.push(x);
        assert(entries(r@) =~= before.push(xv));
        assert(entries(r@) =~= Seq::new((i + 1) as nat, |k: int| found(names@[k]@, None, None, "snap"@, None)));
        i = i + 1;
    }
    r
}

/// The key under which an installed package is recorded: its name, a
/// colon and its manager.
pub open spec fn installed_key(name: Seq<char>, box_type: Seq<char>) -> Seq<char> {
    name + ":"@ + box_type
}

/// The key under which a package installed by `box_type` is recorded.
pub fn installed_key_exec(name: &str, box_type: &str) -> (r: String)
    ensures
        r@ == installed_key(name@, box_type@),
{
    concat3(name, ":", box_type)
}

/// The entries with each marked installed exactly where its key is among
/// the installed keys `inst`.
pub open spec fn marked(rs: Seq<SearchEntry>, inst: Seq<Seq<char>>) -> Seq<SearchEntry> {
    Seq::new(
        rs.len(),
        |i: int| SearchEntry { installed: inst.contains(installed_key(rs[i].name, rs[i].box_type)), ..rs[i] },
    )
}

/// Mark each result installed exactly where its key is among `installed`.
pub fn mark_installed(results: &Vec<SearchResult>, installed: &Vec<String>) -> (r: Vec<SearchResult>)
    ensures
        entries(r@) == marked(entries(results@), texts(installed@)),
{
    let ghost goal = marked(entries(results@), texts(installed@));
    let mut r: Vec<SearchResult> = Vec::new();
    let mut i: usize = 0;
    while i < results.len()
        invariant
            i <= results@.len(),
            goal == marked(entries(results@), texts(installed@)),
            entries(r@) == goal.take(i as int),
        decreases results.len() - i,
    {
        let key = installed_key_exec(results[i].name.as_str(), results[i].box_type.as_str());
        let mut x = copy_result(&results[i]);
        x.installed = position_of(installed, key.as_str()).is_some();
        let ghost xv = x@;
        assert(xv == goal[i as int]);
        let ghost before = entries(r@);
        r.push(x);
        assert(entries(r@) =~= before.push(xv));
        assert(entries(r@) =~= goal.take(i + 1));
        i = i + 1;
    }
    assert(goal.take(results.len() as int) =~= goal);
    r
}

/// The answer to a search: the results found, marked installed where their
/// key is among `installed`, merged as `merge_results` does.
pub fn search_results(found: &Vec<SearchResult>, installed: &Vec<String>) -> (r: Vec<SearchResult>)
    ensures
        ordered(entries(r@)),
        distinct_names(entries(r@)),
        r@.len() == dedup(marked(entries(found@), texts(installed@))).len(),
        forall|e: SearchEntry| entries(r@).contains(e) <==> dedup(marked(entries(found@), texts(installed@))).contains(e),
{
    let m = mark_installed(found, installed);
    merge_results(&m)
}

/// The program and arguments that search a manager's packages for
/// `query`, for the managers searched by listing.
pub fn search_command(box_type: &str, query: &str) -> (r: Option<(String, Vec<String>)>)
    ensures
        match r {
            Some((p, a)) => {
                ||| box_type@ == "apt"@ && p@ == "apt"@ && texts(a@) == seq!["search"@, "--names-only"@, query@]
                ||| box_type@ == "dnf"@ && p@ == "dnf"@ && texts(a@) == seq!["search"@, "--quiet"@, query@]
                ||| box_type@ == "pacman"@ && p@ == "pacman"@ && texts(a@) == seq!["-Ss"@, query@]
                ||| box_type@ == "flatpak"@ && p@ == "flatpak"@ && texts(a@) == seq!["search"@, query@]
                ||| box_type@ == "snap"@ && p@ == "snap"@ && texts(a@) == seq!["find"@, query@]
            },
            None => box_type@ != "apt"@ && box_type@ != "dnf"@ && box_type@ != "pacman"@ && box_type@ != "flatpak"@
                && box_type@ != "snap"@,
        },
{
    let (p, a): (&str, Vec<&str>) = if text_eq(box_type, "apt") {
        ("apt", vec!["search", "--names-only", query])
    } else if text_eq(box_type, "dnf") {
        ("dnf", vec!["search", "--quiet", query])
    } else if text_eq(box_type, "pacman") {
        ("pacman", vec!["-Ss", query])
    } else if text_eq(box_type, "flatpak") {
        ("flatpak", vec!["search", query])
    } else if text_eq(box_type, "snap") {
        ("snap", vec!["find", query])
    } else {
        return None;
    };
    let args = crate::text::owned_all(&a);
    assert(texts(args@) =~= Seq::new(a@.len(), |i: int| a@[i]@));
    Some((owned(p), args))
}

/// The program and arguments that show what a manager knows of a package.
pub fn info_command(box_type: &str, package: &str) -> (r: Option<(String, Vec<String>)>)
    ensures
        match r {
            Some((p, a)) => {
                ||| box_type@ == "apt"@ && p@ == "apt"@ && texts(a@) == seq!["show"@, package@]
                ||| box_type@ == "dnf"@ && p@ == "dnf"@ && texts(a@) == seq!["info"@, package@]
                ||| box_type@ == "pacman"@ && p@ == "pacman"@ && texts(a@) == seq!["-Si"@, package@]
                ||| box_type@ == "snap"@ && p@ == "snap"@ && texts(a@) == seq!["info"@, package@]
                ||| box_type@ == "flatpak"@ && p@ == "flatpak"@ && texts(a@) == seq!["info"@, package@]
            },
            None => box_type@ != "apt"@ && box_type@ != "dnf"@ && box_type@ != "pacman"@ && box_type@ != "snap"@
                && box_type@ != "flatpak"@,
        },
{
    let (p, a): (&str, Vec<&str>) = if text_eq(box_type, "apt") {
        ("apt", vec!["show", package])
    } else if text_eq(box_type, "dnf") {
        ("dnf", vec!["info", package])
    } else if text_eq(box_type, "pacman") {
        ("pacman", vec!["-Si", package])
    } else if text_eq(box_type, "snap") {
        ("snap", vec!["info", package])
    } else if text_eq(box_type, "flatpak") {
        ("flatpak", vec!["info", package])
    } else {
        return None;
    };
    let args = crate::text::owned_all(&a);
    assert(texts(args@) =~= Seq::new(a@.len(), |i: int| a@[i]@));
    Some((owned(p), args))
}

} // verus!
