use omni::history::{save_install, undo_last_install, InstallRecord, Uninstaller};

#[test]
fn undo_takes_back_the_last_install() {
    let mut h: Vec<InstallRecord> = Vec::new();
    save_install(&mut h, "vim", "apt", "2024-01-01T00:00:00Z".to_string());
    save_install(&mut h, "krita", "appimage", "2024-01-02T00:00:00Z".to_string());
    let u = undo_last_install(&mut h).unwrap();
    assert_eq!(u.record.package, "krita");
    assert!(matches!(u.uninstall, Ok(Uninstaller::AppImage)));
    assert_eq!(h.len(), 1);
    let u = undo_last_install(&mut h).unwrap();
    assert!(matches!(u.uninstall, Ok(Uninstaller::Apt)));
    assert!(undo_last_install(&mut h).is_none());
}

#[test]
fn unknown_boxes_are_reported_and_dropped() {
    let mut h: Vec<InstallRecord> = Vec::new();
    save_install(&mut h, "x", "brew", "t".to_string());
    let u = undo_last_install(&mut h).unwrap();
    match u.uninstall {
        Err(e) => assert_eq!(e, "Unknown box type: brew"),
        Ok(_) => panic!("brew is not undone by the history"),
    }
    assert!(h.is_empty());
}
