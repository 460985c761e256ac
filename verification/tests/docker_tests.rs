use omni::docker::{
    creation_result, exec_args, install_command, listing_status, name_or_generated, run_args,
    split_image, state_status, ContainerStatus, DockerClient, DockerConfig, DockerPackageManager, PortMapping,
    PortProtocol, ResourceLimits, RestartPolicy, SecurityOptions, VolumeMapping, VolumeMode,
};

#[test]
fn test_security_options_default() {
    let security = SecurityOptions::default();
    assert!(security.no_new_privileges);
    assert!(!security.read_only_root);
    assert!(security.capabilities_drop.contains(&"ALL".to_string()));
}

#[test]
fn test_docker_config_default() {
    let config = DockerConfig::default();
    assert_eq!(config.tag, "latest");
    assert!(config.security_options.no_new_privileges);
    assert_eq!(config.resources.memory_mb, Some(512));
}

#[test]
fn test_resource_limits_default() {
    let limits = ResourceLimits::default();
    assert_eq!(limits.memory_mb, Some(512));
    assert_eq!(limits.cpu_millicores.map(|m| m as f64 / 1000.0), Some(1.0));
}

#[test]
fn run_command_line() {
    let mut config = DockerConfig::default();
    config.image = "ubuntu".to_string();
    config.tag = "22.04".to_string();
    config.ports.push(PortMapping { host_port: 8080, container_port: 80, protocol: PortProtocol::TCP });
    config.volumes.push(VolumeMapping {
        host_path: "/data".to_string(),
        container_path: "/srv".to_string(),
        mode: VolumeMode::ReadOnly,
    });
    config.environment.push(("A".to_string(), "1".to_string()));
    config.resources.cpu_millicores = Some(1500);
    config.restart_policy = RestartPolicy::UnlessStopped;
    let args = run_args(&config, "box1");
    let expected: Vec<&str> = vec![
        "run", "-d", "--name", "box1", "--security-opt", "no-new-privileges", "--cap-drop", "ALL",
        "--cap-add", "CHOWN", "--cap-add", "SETUID", "--cap-add", "SETGID", "-m", "512m", "--cpus", "1.5",
        "-p", "8080:80/tcp", "-v", "/data:/srv:ro", "-e", "A=1", "-w", "/workdir", "--restart",
        "unless-stopped", "ubuntu:22.04",
    ];
    assert_eq!(args, expected);
}

#[test]
fn cpu_shares_print_like_numbers() {
    let mut config = DockerConfig::default();
    config.security_options.capabilities_drop.clear();
    config.security_options.capabilities_add.clear();
    config.security_options.no_new_privileges = false;
    config.working_directory = None;
    config.resources.memory_mb = None;
    config.resources.cpu_millicores = Some(250);
    let args = run_args(&config, "n");
    assert_eq!(args[4], "--cpus");
    assert_eq!(args[5], "0.25");
    config.resources.cpu_millicores = Some(2000);
    assert_eq!(run_args(&config, "n")[5], "2");
}

#[test]
fn generated_names_and_outcomes() {
    assert_eq!(name_or_generated(&None, "0123abcd-ffff"), "omni-0123abcd");
    assert_eq!(name_or_generated(&Some("mine".to_string()), "0123abcd"), "mine");
    assert_eq!(creation_result(true, "  abc123\n", ""), Ok("abc123".to_string()));
    assert_eq!(creation_result(false, "", "boom"), Err("Container creation failed: boom".to_string()));
}

#[test]
fn exec_and_install_commands() {
    assert_eq!(exec_args("c1", "ls", Some("root")), vec!["exec", "-u", "root", "c1", "sh", "-c", "ls"]);
    assert_eq!(exec_args("c1", "ls", None), vec!["exec", "c1", "sh", "-c", "ls"]);
    assert_eq!(install_command("apt", "vim"), Ok("apt update && apt install -y vim".to_string()));
    assert_eq!(install_command("apk", "vim"), Ok("apk add vim".to_string()));
    assert_eq!(install_command("yum", "vim"), Err("Unsupported package manager: yum".to_string()));
}

#[test]
fn container_states() {
    assert_eq!(listing_status("Up 3 hours"), ContainerStatus::Running);
    assert_eq!(listing_status("Exited (0)"), ContainerStatus::Stopped);
    assert_eq!(listing_status("Created"), ContainerStatus::Created);
    assert_eq!(state_status(false, Some(true), None, None), ContainerStatus::Paused);
    assert_eq!(state_status(false, None, None, Some(true)), ContainerStatus::Dead);
    assert_eq!(state_status(false, None, None, None), ContainerStatus::Stopped);
}

#[test]
fn isolated_configurations() {
    let client = DockerClient::from_available(false, true).unwrap();
    assert_eq!(client.runtime(), "podman");
    assert!(DockerClient::from_available(false, false).is_err());
    let manager = DockerPackageManager::new(client);
    assert_eq!(manager.base_image("apt"), Some("ubuntu:22.04"));
    assert_eq!(manager.base_image("dnf"), Some("fedora:39"));
    let c = manager.isolated_config("zypper", "git").unwrap();
    assert_eq!(c.image, "opensuse/leap");
    assert_eq!(c.tag, "15.5");
    assert_eq!(c.name, Some("omni-zypper-git".to_string()));
    let g = manager.isolated_config("emerge", "git").unwrap();
    assert_eq!(g.tag, "latest");
    assert!(manager.isolated_config("yum", "git").is_err());
    assert_eq!(split_image("a:b:c"), ("a".to_string(), "b".to_string()));
    let failed = DockerPackageManager::failed_result("git", "no docker");
    assert!(!failed.success());
    assert_eq!(failed.command, "install git");
}
