use crumbeez::discovery::{Command, CommandPurpose};
use crumbeez::{
    crumbeez_dir, event_log_path_from_crumbeez_dir, required_dirs, scratch_dir, summaries_dir,
    DiscoveryPhase, RootDiscovery,
};

#[test]
fn data_directories() {
    let root = "/work/project";
    assert_eq!(crumbeez_dir(root), "/work/project/.crumbeez".to_string());
    assert_eq!(scratch_dir(root), "/work/project/.crumbeez/scratchpad".to_string());
    assert_eq!(summaries_dir(root), "/work/project/.crumbeez/summaries".to_string());
    assert_eq!(
        required_dirs(root),
        vec![
            "/work/project/.crumbeez/scratchpad".to_string(),
            "/work/project/.crumbeez/summaries".to_string(),
        ]
    );
}

#[test]
fn discovery_starts_by_asking_for_the_root() {
    let mut discovery = RootDiscovery::new(String::new());
    assert_eq!(discovery.phase, DiscoveryPhase::AwaitingPermissions);
    assert_eq!(DiscoveryPhase::default(), DiscoveryPhase::AwaitingPermissions);
    let command = discovery.start("/work/project/src".to_string());
    assert_eq!(command, Command::GitToplevel { cwd: "/work/project/src".to_string() });
    assert_eq!(command.purpose(), CommandPurpose::GitToplevel);
    assert_eq!(discovery.phase, DiscoveryPhase::FindingGitRoot);
    assert_eq!(discovery.initial_cwd, "/work/project/src".to_string());
}

#[test]
fn a_repository_with_a_parent() {
    let mut discovery = RootDiscovery::new(String::new());
    discovery.start("/work/outer/inner/src".to_string());
    let commands = discovery.handle_command_result(
        CommandPurpose::GitToplevel,
        Some(0),
        b"/work/outer/inner\n",
        b"",
    );
    assert_eq!(
        commands,
        vec![Command::GitSuperproject { cwd: "/work/outer/inner".to_string() }]
    );
    assert_eq!(discovery.git_root, Some("/work/outer/inner".to_string()));
    assert_eq!(discovery.phase, DiscoveryPhase::FindingSuperproject);

    let commands = discovery.handle_command_result(
        CommandPurpose::GitSuperproject,
        Some(0),
        b"  /work/outer \n",
        b"",
    );
    let cwd = "/work/outer/inner/src".to_string();
    assert_eq!(
        commands,
        vec![
            Command::Mkdir {
                dirs: required_dirs("/work/outer/inner"),
                cwd: cwd.clone(),
            },
            Command::Mkdir { dirs: required_dirs("/work/outer"), cwd },
        ]
    );
    assert_eq!(discovery.parent_git_root, Some("/work/outer".to_string()));
    let dirs = vec![
        "/work/outer/inner/.crumbeez".to_string(),
        "/work/outer/.crumbeez".to_string(),
    ];
    assert_eq!(
        discovery.phase,
        DiscoveryPhase::CreatingDirs { pending: 2, dirs: dirs.clone() }
    );

    let commands =
        discovery.handle_command_result(CommandPurpose::MkdirCrumbeez, Some(1), b"", b"no");
    assert!(commands.is_empty());
    assert_eq!(
        discovery.phase,
        DiscoveryPhase::CreatingDirs { pending: 1, dirs: dirs.clone() }
    );
    discovery.handle_mkdir_result(Some(0), b"");
    assert_eq!(discovery.phase, DiscoveryPhase::Ready { dirs: dirs.clone() });
    discovery.handle_mkdir_result(Some(0), b"");
    assert_eq!(discovery.phase, DiscoveryPhase::Ready { dirs });
}

#[test]
fn outside_a_repository_the_initial_directory_is_the_root() {
    for (exit_code, stdout) in [
        (Some(128), &b"fatal: not a git repository"[..]),
        (None, &b"/somewhere"[..]),
        (Some(0), &b" \n"[..]),
        (Some(0), &b""[..]),
    ] {
        let mut discovery = RootDiscovery::new(String::new());
        discovery.start("/tmp/x".to_string());
        let commands = discovery.handle_git_toplevel(exit_code, stdout, b"");
        assert_eq!(
            commands,
            vec![Command::Mkdir {
                dirs: required_dirs("/tmp/x"),
                cwd: "/tmp/x".to_string(),
            }]
        );
        assert_eq!(discovery.git_root, None);
        assert_eq!(
            discovery.phase,
            DiscoveryPhase::CreatingDirs {
                pending: 1,
                dirs: vec!["/tmp/x/.crumbeez".to_string()],
            }
        );
    }
}

#[test]
fn a_repository_without_a_parent() {
    let mut discovery = RootDiscovery::new(String::new());
    discovery.start("/r/src".to_string());
    discovery.handle_git_toplevel(Some(0), b"/r\n", b"");
    let commands = discovery.handle_git_superproject(Some(0), b"\n", b"");
    assert_eq!(commands.len(), 1);
    assert_eq!(discovery.parent_git_root, None);
    assert_eq!(
        discovery.phase,
        DiscoveryPhase::CreatingDirs { pending: 1, dirs: vec!["/r/.crumbeez".to_string()] }
    );
}

#[test]
fn denied_permissions_fail_discovery() {
    let mut discovery = RootDiscovery::new(String::new());
    discovery.permissions_denied();
    assert_eq!(discovery.phase, DiscoveryPhase::Failed("Permissions denied".to_string()));
    assert_eq!(discovery.phase.clone(), discovery.phase);
    discovery.handle_mkdir_result(Some(0), b"");
    assert_eq!(discovery.phase, DiscoveryPhase::Failed("Permissions denied".to_string()));
}

#[test]
fn the_event_log_lies_in_the_scratch_directory() {
    assert_eq!(
        event_log_path_from_crumbeez_dir("/work/project/.crumbeez"),
        "/work/project/.crumbeez/scratchpad/events.log"
    );
    assert_eq!(
        event_log_path_from_crumbeez_dir(&crumbeez_dir("/r")),
        "/r/.crumbeez/scratchpad/events.log"
    );
}

#[test]
fn paths_are_joined_as_paths_are() {
    assert_eq!(crumbeez_dir("/work/"), "/work/.crumbeez");
    assert_eq!(crumbeez_dir(""), ".crumbeez");
    assert_eq!(crumbeez_dir("rel/dir"), "rel/dir/.crumbeez");
    assert_eq!(scratch_dir("/"), "/.crumbeez/scratchpad");
    assert_eq!(summaries_dir("/wörk/projekt"), "/wörk/projekt/.crumbeez/summaries");
}
