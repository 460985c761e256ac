//! Package discovery data: the popular packages and the cross-platform
//! names that the package index publishes, and the lookups made in them.
//!
//! The index's maps are held as lists of (key, value) pairs; a lookup takes
//! the first pair with the key, which is the only one where the list came
//! from a map.
use vstd::prelude::*;
use crate::input_validation::opt_text;
use crate::text::text_eq;

verus! {

/// The names of a package under each manager, for each platform.
pub struct CrossPlatformMappings {
    pub linux: Option<Vec<(String, Vec<String>)>>,
    pub macos: Option<Vec<(String, Vec<String>)>>,
    pub windows: Option<Vec<(String, Vec<String>)>>,
}

/// How popular a package is.
pub struct PopularityInfo {
    pub rank: Option<u32>,
    pub downloads_per_month: Option<u64>,
    pub github_stars: Option<u32>,
    pub search_frequency: Option<u8>,
}

/// A package that can stand in for another, and why.
pub struct AlternativePackage {
    pub name: String,
    pub reason: String,
}

/// The index's list of popular packages.
pub struct PopularPackagesResponse {
    pub version: String,
    pub last_updated: String,
    pub total_packages: u32,
    pub popular_packages: Vec<PopularPackage>,
    pub categories: Vec<(String, Vec<String>)>,
}

/// One popular package.
pub struct PopularPackage {
    pub rank: u32,
    pub name: String,
    pub display_name: String,
    pub category: String,
    pub downloads_per_month: u64,
    pub search_frequency: u8,
    pub cross_platform: bool,
}

/// The texts and numbers of a popular package.
pub struct PopularEntry {
    pub rank: u32,
    pub name: Seq<char>,
    pub display_name: Seq<char>,
    pub category: Seq<char>,
    pub downloads_per_month: u64,
    pub search_frequency: u8,
    pub cross_platform: bool,
}

impl View for PopularPackage {
    type V = PopularEntry;

    open spec fn view(&self) -> PopularEntry {
        PopularEntry {
            rank: self.rank,
            name: self.name@,
            display_name: self.display_name@,
            category: self.category@,
            downloads_per_month: self.downloads_per_month,
            search_frequency: self.search_frequency,
            cross_platform: self.cross_platform,
        }
    }
}

/// The index's cross-platform names: for each package its names per
/// platform and manager, and for each platform and manager the package
/// that a name there stands for.
pub struct CrossPlatformResponse {
    pub version: String,
    pub last_updated: String,
    pub mappings: Vec<(String, CrossPlatformMappings)>,
    pub reverse_mappings: Vec<(String, Vec<(String, Vec<(String, String)>)>)>,
}

/// The value of the first pair of `e` whose key is `k`.
pub open spec fn entry_for<V>(e: Seq<(String, V)>, k: Seq<char>) -> Option<V>
    decreases e.len(),
{
    if e.len() == 0 {
        None
    } else if e[0].0@ == k {
        Some(e[0].1)
    } else {
        entry_for(e.drop_first(), k)
    }
}

/// The value of the first pair of `e` whose key is `k`.
pub fn get_entry<'a, V>(e: &'a Vec<(String, V)>, k: &str) -> (r: Option<&'a V>)
    ensures
        match r {
            Some(v) => entry_for(e@, k@) == Some(*v),
            None => entry_for(e@, k@) is None,
        },
{
    let mut i: usize = 0;
    assert(e@.skip(0) =~= e@);
    while i < e.len()
        invariant
            i <= e@.len(),
            entry_for(e@, k@) == entry_for(e@.skip(i as int), k@),
        decreases e.len() - i,
    {
        let ghost rest = e@.skip(i as int);
        assert(rest[0] == e@[i as int]);
        if text_eq(e[i].0.as_str(), k) {
            return Some(&e[i].1);
        }
        assert(rest.drop_first() =~= e@.skip(i + 1));
        i = i + 1;
    }
    assert(e@.skip(i as int).len() == 0);
    None
}

/// The names per manager that `m` gives for a platform (`linux`, `macos`
/// or `windows`).
pub open spec fn platform_data(m: CrossPlatformMappings, platform: Seq<char>) -> Option<Vec<(String, Vec<String>)>> {
    if platform == "linux"@ {
        m.linux
    } else if platform == "macos"@ {
        m.macos
    } else if platform == "windows"@ {
        m.windows
    } else {
        None
    }
}

/// The name of `package` under `manager` on `platform`: where the package's
/// own entry lists names for that manager, the first of them (none where
/// the list is empty); otherwise the package that the reverse entry for
/// that platform and manager gives for the name.
pub open spec fn platform_package(
    r: CrossPlatformResponse,
    package: Seq<char>,
    platform: Seq<char>,
    manager: Seq<char>,
) -> Option<Seq<char>> {
    let direct = match entry_for(r.mappings@, package) {
        Some(pm) => match platform_data(pm, platform) {
            Some(d) => entry_for(d@, manager),
            None => None,
        },
        None => None,
    };
    match direct {
        Some(names) => if names@.len() > 0 {
            Some(names@[0]@)
        } else {
            None
        },
        None => match entry_for(r.reverse_mappings@, platform) {
            Some(pd) => match entry_for(pd@, manager) {
                Some(md) => match entry_for(md@, package) {
                    Some(c) => Some(c@),
                    None => None,
                },
                None => None,
            },
            None => None,
        },
    }
}

/// The names per manager that `m` gives for a platform.
fn platform_data_exec<'a>(m: &'a CrossPlatformMappings, platform: &str) -> (r: Option<&'a Vec<(String, Vec<String>)>>)
    ensures
        match r {
            Some(d) => platform_data(*m, platform@) == Some(*d),
            None => platform_data(*m, platform@) is None,
        },
{
    if text_eq(platform, "linux") {
        m.linux.as_ref()
    } else if text_eq(platform, "macos") {
        m.macos.as_ref()
    } else if text_eq(platform, "windows") {
        m.windows.as_ref()
    } else {
        None
    }
}

/// Find the name of a package under another platform's manager.
pub fn find_platform_package(
    mappings: &CrossPlatformResponse,
    package_name: &str,
    target_platform: &str,
    target_manager: &str,
) -> (r: Option<String>)
    ensures
        opt_text(r) == platform_package(*mappings, package_name@, target_platform@, target_manager@),
{
    if let Some(pm) = get_entry(&mappings.mappings, package_name) {
        if let Some(data) = platform_data_exec(pm, target_platform) {
            if let Some(names) = get_entry(data, target_manager) {
                if names.len() > 0 {
                    return Some(names[0].clone());
                } else {
                    return None;
                }
            }
        }
    }
    if let Some(pd) = get_entry(&mappings.reverse_mappings, target_platform) {
        if let Some(md) = get_entry(pd, target_manager) {
            if let Some(c) = get_entry(md, package_name) {
                return Some(c.clone());
            }
        }
    }
    None
}

/// The popular packages of a category, in the index's order.
pub open spec fn in_category(ps: Seq<PopularPackage>, category: Seq<char>) -> Seq<PopularEntry> {
    Seq::new(ps.len(), |i: int| ps[i]@).filter(|e: PopularEntry| e.category == category)
}

/// The views of a list of popular packages.
pub open spec fn popular_entries(ps: Seq<PopularPackage>) -> Seq<PopularEntry> {
    Seq::new(ps.len(), |i: int| ps[i]@)
}

/// A copy of a popular package.
fn copy_popular(p: &PopularPackage) -> (r: PopularPackage)
    ensures
        r@ == p@,
{
    PopularPackage {
        rank: p.rank,
        name: p.name.clone(),
        display_name: p.display_name.clone(),
        category: p.category.clone(),
        downloads_per_month: p.downloads_per_month,
        search_frequency: p.search_frequency,
        cross_platform: p.cross_platform,
    }
}

/// The popular packages of a category.
pub fn get_packages_by_category(popular: &PopularPackagesResponse, category: &str) -> (r: Vec<PopularPackage>)
    ensures
        popular_entries(r@) == in_category(popular.popular_packages@, category@),
{
    let ps = &popular.popular_packages;
    let ghost all = popular_entries(ps@);
    let ghost pred = |e: PopularEntry| e.category == category@;
    let mut r: Vec<PopularPackage> = Vec::new();
    let mut i: usize = 0;
    assert(all.take(0).filter(pred) =~= Seq::<PopularEntry>::empty()) by {
        reveal(Seq::filter);
    }
    while i < ps.len()
        invariant
            i <= ps@.len(),
            all == popular_entries(ps@),
            pred == (|e: PopularEntry| e.category == category@),
            popular_entries(r@) == all.take(i as int).filter(pred),
        decreases ps.len() - i,
    {
        assert(all.take(i + 1).drop_last() =~= all.take(i as int));
        assert(all.take(i + 1).last() == ps@[i as int]@);
        assert(all.take(i + 1).filter(pred) == if pred(ps@[i as int]@) {
            all.take(i as int).filter(pred).push(ps@[i as int]@)
        } else {
            all.take(i as int).filter(pred)
        }) by {
            reveal(Seq::filter);
        }
        let ghost before = popular_entries(r@);
        if text_eq(ps[i].category.as_str(), category) {
            let x = copy_popular(&ps[i]);
            r.push(x);
            assert(popular_entries(r@) =~= before.push(ps@[i as int]@));
        }
        i = i + 1;
    }
    assert(all.take(ps.len() as int) =~= all);
    r
}


/// What the package index knows of the security of a package (its score,
/// a floating-point number, is not read here).
#[derive(Debug, Clone)]
pub struct SecurityInfo {
    pub last_audit: Option<String>,
    pub vulnerabilities: Vec<String>,
    pub cve_count: u32,
    pub security_features: Vec<String>,
}

/// The security data that the package index publishes, its maps held as
/// lists of (key, value) pairs.
#[derive(Debug, Clone)]
pub struct SecurityResponse {
    pub version: String,
    pub last_updated: String,
    pub security_scores: Vec<(String, SecurityInfo)>,
    pub security_categories: Vec<(String, Vec<String>)>,
    pub vulnerability_alerts: Vec<String>,
}

/// Whether the security data (where there is any) tells of vulnerabilities
/// of a package: known vulnerabilities, or a CVE count above zero.
pub fn has_security_issues(security: Option<&SecurityResponse>, package_name: &str) -> (r: bool)
    ensures
        r == match security {
            Some(d) => match entry_for(d.security_scores@, package_name@) {
                Some(info) => info.vulnerabilities@.len() > 0 || info.cve_count > 0,
                None => false,
            },
            None => false,
        },
{
    match security {
        Some(d) => match get_entry(&d.security_scores, package_name) {
            Some(info) => info.vulnerabilities.len() > 0 || info.cve_count > 0,
            None => false,
        },
        None => false,
    }
}

} // verus!
