use omni::search::{
    apt_search_results, dnf_search_results, flatpak_search_results, info_command, installed_key_exec,
    mark_installed, merge_results, pacman_search_results, search_command, search_results, snap_search_results,
    text_less_exec, SearchResult,
};

fn result(name: &str, box_type: &str, installed: bool) -> SearchResult {
    SearchResult {
        name: name.to_string(),
        description: None,
        version: None,
        box_type: box_type.to_string(),
        source: None,
        installed,
    }
}

fn names_and_boxes(v: &[SearchResult]) -> Vec<(String, String, bool)> {
    v.iter().map(|r| (r.name.clone(), r.box_type.clone(), r.installed)).collect()
}

#[test]
fn apt_lines_give_name_and_description() {
    let out = "Sorting...\nFull Text Search...\nfirefox/jammy 1.0 amd64 - Web browser\nvim-tiny/jammy 9.0 amd64 - Vi IMproved - compact\nno slash here - x\n";
    let r = apt_search_results(out);
    assert_eq!(r.len(), 2);
    assert_eq!(r[0].name, "firefox");
    assert_eq!(r[0].description.as_deref(), Some("Web browser"));
    assert_eq!(r[0].box_type, "apt");
    assert!(!r[0].installed);
    assert_eq!(r[1].name, "vim-tiny");
    assert_eq!(r[1].description.as_deref(), Some("Vi IMproved - compact"));
}

#[test]
fn dnf_lines_give_name_and_description() {
    let out = "firefox.x86_64 : Mozilla Firefox Web browser\nLast metadata expiration check: 0:01:00 ago.\nvim-enhanced.x86_64 : A version of the VIM editor\n";
    let r = dnf_search_results(out);
    assert_eq!(r.len(), 2);
    assert_eq!(r[0].name, "firefox");
    assert_eq!(r[0].description.as_deref(), Some("Mozilla Firefox Web browser"));
    assert_eq!(r[1].name, "vim-enhanced");
    assert_eq!(r[1].box_type, "dnf");
}

#[test]
fn pacman_pairs_of_lines_give_results() {
    let out = "extra/firefox 120.0-1\n    Fast, Private & Safe Web Browser\ncore/vim 9.0-1 [installed]\n    Vi Improved\nmultilib/lib32-foo 1.0\n    skipped\n";
    let r = pacman_search_results(out);
    assert_eq!(r.len(), 2);
    assert_eq!(r[0].name, "firefox");
    assert_eq!(r[0].version.as_deref(), Some("120.0-1"));
    assert_eq!(r[0].description.as_deref(), Some("Fast, Private & Safe Web Browser"));
    assert_eq!(r[1].name, "vim");
    assert_eq!(r[1].version.as_deref(), Some("9.0-1 [installed]"));
    assert_eq!(r[1].description.as_deref(), Some("Vi Improved"));
}

#[test]
fn pacman_last_line_has_no_description() {
    let r = pacman_search_results("core/vim 9.0-1");
    assert_eq!(r.len(), 1);
    assert_eq!(r[0].description, None);
}

#[test]
fn flatpak_lines_after_header() {
    let out = "Name\tDescription\tApplication ID\tVersion\nFirefox\tWeb browser\torg.mozilla.firefox\t120.0\nshort\tline\n";
    let r = flatpak_search_results(out);
    assert_eq!(r.len(), 1);
    assert_eq!(r[0].name, "Firefox");
    assert_eq!(r[0].description.as_deref(), Some("Web browser"));
    assert_eq!(r[0].source.as_deref(), Some("org.mozilla.firefox"));
    assert_eq!(r[0].box_type, "flatpak");
}

#[test]
fn snap_names_become_results() {
    let r = snap_search_results(&vec!["code".to_string(), "vlc".to_string()]);
    assert_eq!(names_and_boxes(&r), vec![
        ("code".to_string(), "snap".to_string(), false),
        ("vlc".to_string(), "snap".to_string(), false),
    ]);
}

#[test]
fn installed_keys_mark_results() {
    assert_eq!(installed_key_exec("vim", "apt"), "vim:apt");
    let found = vec![result("vim", "apt", false), result("vim", "snap", false)];
    let m = mark_installed(&found, &vec!["vim:snap".to_string()]);
    assert!(!m[0].installed);
    assert!(m[1].installed);
}

#[test]
fn merge_keeps_one_per_name_installed_first() {
    let found = vec![
        result("zsh", "apt", false),
        result("vim", "apt", false),
        result("firefox", "dnf", false),
        result("vim", "snap", true),
        result("vim", "flatpak", true),
        result("firefox", "apt", false),
    ];
    let r = merge_results(&found);
    assert_eq!(names_and_boxes(&r), vec![
        ("vim".to_string(), "snap".to_string(), true),
        ("firefox".to_string(), "dnf".to_string(), false),
        ("zsh".to_string(), "apt".to_string(), false),
    ]);
}

#[test]
fn search_results_marks_then_merges() {
    let found = vec![result("b", "apt", false), result("a", "apt", false), result("b", "dnf", false)];
    let r = search_results(&found, &vec!["b:dnf".to_string()]);
    assert_eq!(names_and_boxes(&r), vec![
        ("b".to_string(), "dnf".to_string(), true),
        ("a".to_string(), "apt".to_string(), false),
    ]);
}

#[test]
fn names_order_by_characters() {
    assert!(text_less_exec("abc", "abd"));
    assert!(text_less_exec("ab", "abc"));
    assert!(!text_less_exec("abc", "ab"));
    assert!(!text_less_exec("same", "same"));
    assert!(text_less_exec("Zeta", "alpha"));
}

#[test]
fn search_and_info_commands() {
    let (p, a) = search_command("apt", "vim").unwrap();
    assert_eq!(p, "apt");
    assert_eq!(a, vec!["search", "--names-only", "vim"]);
    let (p, a) = search_command("pacman", "vim").unwrap();
    assert_eq!(p, "pacman");
    assert_eq!(a, vec!["-Ss", "vim"]);
    assert!(search_command("brew", "vim").is_none());
    let (p, a) = info_command("pacman", "vim").unwrap();
    assert_eq!(p, "pacman");
    assert_eq!(a, vec!["-Si", "vim"]);
    let (p, a) = info_command("snap", "vlc").unwrap();
    assert_eq!(p, "snap");
    assert_eq!(a, vec!["info", "vlc"]);
    assert!(info_command("unknown", "vim").is_none());
}
