use libguix::argv::{
    build_init_args, build_pull_args, build_reconfigure_args, comm_is_agent, current_configuration_path_with,
    is_pid_name, root_path, system_profile_path, truncate_comm, user_path, BuildOptions, ConfigProbe, InitOptions,
    Privilege, ReconfigureOptions, SystemPullOptions,
};
use libguix::cmd::{classifier_for, privileged_argv, POLKIT_GUIX_PATH};
use libguix::error::GuixError;
use libguix::operation::ExitClassifier;

#[test]
fn default_build_options_emit_nothing() {
    let mut args = Vec::new();
    BuildOptions::default().append_args(&mut args);
    assert!(args.is_empty());
}

#[test]
fn build_options_emit_all_flags_in_order() {
    let opts = BuildOptions {
        substitute_urls: vec!["https://ci.guix.gnu.org".into(), "https://bordeaux.guix.gnu.org".into()],
        no_substitutes: true,
        fallback: true,
        cores: Some(4),
        max_jobs: Some(2),
        system: Some("x86_64-linux".into()),
    };
    let mut args = Vec::new();
    opts.append_args(&mut args);
    assert_eq!(
        args,
        vec![
            "--substitute-urls=https://ci.guix.gnu.org https://bordeaux.guix.gnu.org",
            "--no-substitutes",
            "--fallback",
            "--cores=4",
            "--max-jobs=2",
            "--system=x86_64-linux",
        ]
    );
}

#[test]
fn empty_substitute_urls_emit_nothing() {
    let opts = BuildOptions { substitute_urls: vec![], cores: Some(8), ..Default::default() };
    let mut args = Vec::new();
    opts.append_args(&mut args);
    assert_eq!(args, vec!["--cores=8"]);
}

#[test]
fn privilege_defaults_to_pkexec() {
    assert_eq!(Privilege::default(), Privilege::Pkexec);
}

#[test]
fn already_root_spawns_binary_directly_with_standard_classifier() {
    let args = vec!["system".to_string(), "init".to_string()];
    assert_eq!(privileged_argv(Privilege::AlreadyRoot, &args), vec!["system", "init"]);
    assert_eq!(classifier_for(Privilege::AlreadyRoot), ExitClassifier::Standard);
    assert_eq!(privileged_argv(Privilege::Pkexec, &args), vec![POLKIT_GUIX_PATH, "system", "init"]);
    assert_eq!(classifier_for(Privilege::Pkexec), ExitClassifier::Pkexec);
}

#[test]
fn default_pull_options_are_quiet() {
    let o = SystemPullOptions::default();
    assert!(!o.dry_run);
    assert_eq!(o.privilege, Privilege::Pkexec);
    assert!(o.build.substitute_urls.is_empty());
}

#[test]
fn pull_args_bare() {
    assert_eq!(build_pull_args(&SystemPullOptions::default()), vec!["pull"]);
}

#[test]
fn pull_args_with_build_options_and_dry_run() {
    let opts = SystemPullOptions {
        dry_run: true,
        build: BuildOptions {
            substitute_urls: vec!["https://ci.example".into()],
            no_substitutes: true,
            ..Default::default()
        },
        ..Default::default()
    };
    assert_eq!(
        build_pull_args(&opts),
        vec!["pull", "--substitute-urls=https://ci.example", "--no-substitutes", "--dry-run"]
    );
}

#[test]
fn pull_args_with_channels_file() {
    let opts = SystemPullOptions { channels: Some("/mnt/etc/guix/channels.scm".into()), ..Default::default() };
    assert_eq!(build_pull_args(&opts), vec!["pull", "--channels=/mnt/etc/guix/channels.scm"]);
}

#[test]
fn pull_path_helpers_return_expected_layout() {
    assert_eq!(root_path(), "/var/guix/profiles/per-user/root/current-guix");
    let user = user_path("me");
    assert!(user.starts_with("/var/guix/profiles/per-user/"), "user path under wrong root: {user}");
    assert!(user.ends_with("/current-guix"), "user path doesn't end in /current-guix: {user}");
    assert_eq!(user, "/var/guix/profiles/per-user/me/current-guix");
}

#[test]
fn system_profile_path_layout() {
    assert_eq!(system_profile_path(), "/var/guix/profiles/system");
}

#[test]
fn default_options_are_quiet() {
    let o = ReconfigureOptions::default();
    assert!(!o.dry_run);
    assert!(!o.allow_downgrades);
    assert!(o.load_paths.is_empty());
}

#[test]
fn reconfigure_args_bare() {
    let args = build_reconfigure_args("/etc/config.scm", &ReconfigureOptions::default());
    assert_eq!(args, vec!["system", "reconfigure", "/etc/config.scm"]);
}

#[test]
fn reconfigure_args_include_load_paths() {
    let opts = ReconfigureOptions {
        load_paths: vec!["/home/me/dotfiles/system".into(), "/home/me/dotfiles/extra".into()],
        ..Default::default()
    };
    let args = build_reconfigure_args("/home/me/dotfiles/system/framework.scm", &opts);
    assert_eq!(
        args,
        vec![
            "system",
            "reconfigure",
            "-L",
            "/home/me/dotfiles/system",
            "-L",
            "/home/me/dotfiles/extra",
            "/home/me/dotfiles/system/framework.scm",
        ],
    );
    assert_eq!(args[0], "system");
    assert_eq!(args[1], "reconfigure");
}

#[test]
fn reconfigure_args_include_build_options() {
    let opts = ReconfigureOptions {
        build: BuildOptions { substitute_urls: vec!["https://ci.example".into()], cores: Some(4), ..Default::default() },
        ..Default::default()
    };
    let args = build_reconfigure_args("/etc/config.scm", &opts);
    assert_eq!(args[0], "system");
    assert_eq!(args[1], "reconfigure");
    assert!(args.contains(&"--substitute-urls=https://ci.example".to_string()));
    assert!(args.contains(&"--cores=4".to_string()));
    assert_eq!(args.last().unwrap(), "/etc/config.scm");
}

#[test]
fn init_args_bare() {
    let args = build_init_args("/mnt/etc/config.scm", "/mnt", &InitOptions::default());
    assert_eq!(args, vec!["system", "init", "/mnt/etc/config.scm", "/mnt"]);
}

#[test]
fn init_args_with_build_options_and_load_paths() {
    let opts = InitOptions {
        load_paths: vec!["/mnt/modules".into()],
        build: BuildOptions {
            substitute_urls: vec!["https://ci.example".into()],
            no_substitutes: false,
            max_jobs: Some(2),
            ..Default::default()
        },
        ..Default::default()
    };
    let args = build_init_args("/mnt/etc/config.scm", "/mnt", &opts);
    assert_eq!(
        args,
        vec![
            "system",
            "init",
            "-L",
            "/mnt/modules",
            "--substitute-urls=https://ci.example",
            "--max-jobs=2",
            "/mnt/etc/config.scm",
            "/mnt",
        ]
    );
}

#[test]
fn reconfigure_args_load_paths_with_flags() {
    let opts = ReconfigureOptions {
        dry_run: true,
        allow_downgrades: true,
        load_paths: vec!["/srv/cfg".into()],
        ..Default::default()
    };
    let args = build_reconfigure_args("/etc/config.scm", &opts);
    assert_eq!(
        args,
        vec!["system", "reconfigure", "-L", "/srv/cfg", "--dry-run", "--allow-downgrades", "/etc/config.scm"],
    );
}

#[test]
fn truncate_comm_matches_kernel_limit() {
    assert_eq!(truncate_comm("polkit-gnome-authentication-agent-1"), "polkit-gnome-au");
    assert_eq!(truncate_comm("lxqt-policykit-agent"), "lxqt-policykit-");
    assert_eq!(truncate_comm("mate-polkit"), "mate-polkit");
    assert_eq!(truncate_comm("hyprpolkitagent"), "hyprpolkitagent");
}

#[test]
fn current_config_path_missing_returns_not_on_guix() {
    let err = current_configuration_path_with("/tmp/nope/config.scm".into(), ConfigProbe::NotFound)
        .expect_err("expected error");
    assert!(matches!(err, GuixError::NotOnGuixSystem), "got {err:?}");
}

#[test]
fn current_config_path_existing_returns_ok() {
    let got = current_configuration_path_with("/tmp/x/configuration.scm".into(), ConfigProbe::Exists).expect("ok");
    assert_eq!(got, "/tmp/x/configuration.scm");
}

#[test]
fn current_config_path_permission_denied_is_spawn() {
    let e = std::io::Error::new(std::io::ErrorKind::PermissionDenied, "denied");
    let r = current_configuration_path_with("/tmp/locked/configuration.scm".into(), ConfigProbe::Failed(e));
    assert!(matches!(r, Err(GuixError::Spawn(_))));
}

#[test]
fn auth_agent_present_in_fake_proc_detects_lxqt() {
    assert!(is_pid_name("123"));
    assert!(comm_is_agent("lxqt-policykit-\n"));
}

#[test]
fn auth_agent_present_in_fake_proc_returns_false_when_absent() {
    assert!(!comm_is_agent("bash\n"));
    assert!(!is_pid_name("self"));
}

#[test]
fn auth_agent_present_in_rejects_prefix_only_match() {
    assert!(!comm_is_agent("xfce-polkit-imp\n"), "prefix-only match must not trigger");
}

#[test]
fn probe_classifies_metadata_errors() {
    assert!(matches!(libguix::argv::config_probe_of(Ok(())), ConfigProbe::Exists));
    let nf = std::io::Error::new(std::io::ErrorKind::NotFound, "gone");
    assert!(matches!(libguix::argv::config_probe_of(Err(nf)), ConfigProbe::NotFound));
    let pd = std::io::Error::new(std::io::ErrorKind::PermissionDenied, "denied");
    match libguix::argv::config_probe_of(Err(pd)) {
        ConfigProbe::Failed(e) => {
            assert_eq!(e.kind(), std::io::ErrorKind::PermissionDenied);
            let r = current_configuration_path_with("/x".into(), ConfigProbe::Failed(e));
            match r {
                Err(GuixError::Spawn(e)) => assert_eq!(e.to_string(), "denied"),
                other => panic!("unexpected {other:?}"),
            }
        }
        _ => panic!("expected Failed"),
    }
}
