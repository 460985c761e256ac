use omni::distro::{
    detect_distro, detect_linux_distro, detect_os, get_available_package_managers, get_os_display_name,
    LinuxDistro, OperatingSystem,
};

#[test]
fn test_os_detection() {
    let os = detect_os("linux", "NAME=\"Ubuntu\"\nVERSION_ID=\"22.04\"\n");
    match os {
        OperatingSystem::Linux(_)
        | OperatingSystem::Windows
        | OperatingSystem::MacOS
        | OperatingSystem::Unknown => assert!(true),
    }
}

#[test]
fn test_package_manager_detection() {
    let os = detect_os("linux", "");
    let managers = get_available_package_managers(&os, &vec![]);
    assert!(managers.len() >= 0);
}

#[test]
fn detect_os_by_target() {
    assert_eq!(detect_os("windows", ""), OperatingSystem::Windows);
    assert_eq!(detect_os("macos", ""), OperatingSystem::MacOS);
    assert_eq!(detect_os("freebsd", ""), OperatingSystem::Unknown);
    assert_eq!(detect_os("linux", "ID=fedora\nNAME=Fedora Linux"), OperatingSystem::Linux(LinuxDistro::Fedora));
}

#[test]
fn distro_markers_in_order() {
    assert_eq!(detect_linux_distro("NAME=\"Ubuntu\""), LinuxDistro::Ubuntu);
    assert_eq!(detect_linux_distro("Debian GNU/Linux"), LinuxDistro::Debian);
    assert_eq!(detect_linux_distro("Red Hat Enterprise Linux 9"), LinuxDistro::RHEL);
    assert_eq!(detect_linux_distro("Arch Linux"), LinuxDistro::Arch);
    assert_eq!(detect_linux_distro("openSUSE Leap"), LinuxDistro::OpenSUSE);
    assert_eq!(detect_linux_distro(""), LinuxDistro::Unknown);
    // Ubuntu is looked for before Debian.
    assert_eq!(detect_linux_distro("Ubuntu, based on Debian"), LinuxDistro::Ubuntu);
}

#[test]
fn native_manager_names() {
    assert_eq!(detect_distro(&OperatingSystem::Linux(LinuxDistro::Debian)), "apt");
    assert_eq!(detect_distro(&OperatingSystem::Linux(LinuxDistro::CentOS)), "dnf");
    assert_eq!(detect_distro(&OperatingSystem::Linux(LinuxDistro::Arch)), "pacman");
    assert_eq!(detect_distro(&OperatingSystem::Linux(LinuxDistro::OpenSUSE)), "zypper");
    assert_eq!(detect_distro(&OperatingSystem::Windows), "winget");
    assert_eq!(detect_distro(&OperatingSystem::MacOS), "brew");
    assert_eq!(detect_distro(&OperatingSystem::Unknown), "unknown");
}

#[test]
fn available_managers_follow_found_commands() {
    let linux = OperatingSystem::Linux(LinuxDistro::Ubuntu);
    assert_eq!(get_available_package_managers(&linux, &vec!["snap", "apt"]), vec!["apt", "snap", "appimage"]);
    assert_eq!(get_available_package_managers(&linux, &vec![]), vec!["appimage"]);
    assert_eq!(
        get_available_package_managers(&OperatingSystem::Windows, &vec!["choco", "scoop"]),
        vec!["chocolatey", "scoop"]
    );
    assert_eq!(get_available_package_managers(&OperatingSystem::Unknown, &vec!["apt"]), Vec::<&str>::new());
}

#[test]
fn display_names() {
    assert_eq!(get_os_display_name(&OperatingSystem::Linux(LinuxDistro::Arch), None, None, None), "Arch Linux Linux");
    assert_eq!(get_os_display_name(&OperatingSystem::Windows, Some("  Microsoft Windows 10 \n"), None, None), "Microsoft Windows 10");
    assert_eq!(get_os_display_name(&OperatingSystem::Windows, Some(""), None, None), "Windows");
    assert_eq!(get_os_display_name(&OperatingSystem::MacOS, None, Some("macOS\n"), Some("14.1\n")), "macOS 14.1");
    assert_eq!(get_os_display_name(&OperatingSystem::MacOS, None, Some("macOS\n"), None), "macOS");
    assert_eq!(get_os_display_name(&OperatingSystem::MacOS, None, None, None), "macOS");
    assert_eq!(get_os_display_name(&OperatingSystem::Unknown, None, None, None), "Unknown OS");
}
