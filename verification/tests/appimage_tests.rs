use omni::appimage::{appimage_file_name, desktop_entry, desktop_file_name, list_appimages, verify_appimage_hash};

#[test]
fn file_names() {
    assert_eq!(appimage_file_name("Krita"), "Krita.AppImage");
    assert_eq!(desktop_file_name("Krita"), "krita.desktop");
}

#[test]
fn desktop_entry_text() {
    assert_eq!(
        desktop_entry("Krita", "/home/u/.local/share/applications/appimages/Krita.AppImage"),
        "[Desktop Entry]\nType=Application\nName=Krita\nExec=/home/u/.local/share/applications/appimages/Krita.AppImage\nIcon=application-x-executable\nCategories=Utility;\nTerminal=false\n"
    );
}

#[test]
fn appimages_among_files() {
    let files: Vec<String> = ["Krita.AppImage", "notes.txt", ".AppImage", "a.b.AppImage", "x.appimage", "..AppImage"]
        .iter()
        .map(|s| s.to_string())
        .collect();
    assert_eq!(list_appimages(&files), vec!["Krita", "a.b", "."]);
}

#[test]
fn hashes_compare_in_either_case() {
    let sum = "ba7816bf8f01cfea414140de5dae2223b00361a396177a9cb410ff61f20015ad";
    assert!(verify_appimage_hash(b"abc", sum));
    assert!(verify_appimage_hash(b"abc", &sum.to_uppercase()));
    assert!(!verify_appimage_hash(b"abd", sum));
    assert!(!verify_appimage_hash(b"abc", &sum[1..]));
}
