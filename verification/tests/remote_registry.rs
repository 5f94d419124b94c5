use herdr::remote_registry::{
    bullet_of_width, single_width_bullet, RemoteKeybindingsSnapshot, RemoteRegistryError,
    RemoteRegistrySnapshot, RemoteTargetSnapshot,
};

fn ssh(target: &str, args: &[&str]) -> RemoteTargetSnapshot {
    RemoteTargetSnapshot::Ssh {
        target: target.to_string(),
        args: args.iter().map(|s| s.to_string()).collect(),
    }
}

#[test]
fn parses_bare_host_as_ssh_without_args() {
    let target = RemoteTargetSnapshot::parse("iq-64").unwrap();
    assert_eq!(target, ssh("iq-64", &[]));
}

#[test]
fn parses_user_at_host_as_bare_ssh_without_args() {
    let target = RemoteTargetSnapshot::parse("user@iq-64").unwrap();
    assert_eq!(target, ssh("user@iq-64", &[]));
}

#[test]
fn strips_leading_ssh_program_for_bare_destination() {
    let explicit = RemoteTargetSnapshot::parse("ssh iq-64").unwrap();
    assert_eq!(explicit, ssh("iq-64", &[]));
    // "iq-64" and "ssh iq-64" describe the same connection.
    let bare = RemoteTargetSnapshot::parse("iq-64").unwrap();
    assert_eq!(explicit.canonical_key(), bare.canonical_key());
}

#[test]
fn parses_full_ssh_command_with_flags() {
    // `-L` and `-J` each consume their following value; `icedac` is the single destination.
    let target =
        RemoteTargetSnapshot::parse("ssh -L 9000:localhost:9000 -J jump icedac").unwrap();
    assert_eq!(
        target,
        ssh("icedac", &["-L", "9000:localhost:9000", "-J", "jump"])
    );
}

#[test]
fn rejects_ambiguous_double_destination_ssh_spec() {
    // A stray non-flag token must not be silently absorbed as an option (which connected to
    // the wrong host). A second bare token — `user@host extra`, or a trailing remote command —
    // is rejected; herdr builds its own remote command.
    assert_eq!(
        RemoteTargetSnapshot::parse("user@host extra").unwrap_err(),
        RemoteRegistryError::InvalidTarget
    );
    assert_eq!(
        RemoteTargetSnapshot::parse("ssh -p 2222 host run-something").unwrap_err(),
        RemoteRegistryError::InvalidTarget
    );
}

#[test]
fn parses_full_ssh_command_with_port_and_user() {
    let target = RemoteTargetSnapshot::parse("ssh -p 2222 user@host").unwrap();
    assert_eq!(target, ssh("user@host", &["-p", "2222"]));
}

#[test]
fn full_spec_without_leading_ssh_is_still_accepted() {
    // A multi-token / flagged input is treated as a full ssh argv even without a leading `ssh`.
    let target = RemoteTargetSnapshot::parse("-p 2222 host").unwrap();
    assert_eq!(target, ssh("host", &["-p", "2222"]));
}

#[test]
fn preserves_quoted_option_values_as_single_token() {
    let target =
        RemoteTargetSnapshot::parse("ssh -o 'ProxyCommand=ssh -W %h:%p bastion' iq-64")
            .unwrap();
    assert_eq!(
        target,
        ssh("iq-64", &["-o", "ProxyCommand=ssh -W %h:%p bastion"])
    );
}

#[test]
fn rejects_ssh_spec_without_a_destination() {
    assert_eq!(
        RemoteTargetSnapshot::parse("ssh -v").unwrap_err(),
        RemoteRegistryError::InvalidTarget
    );
    assert_eq!(
        RemoteTargetSnapshot::parse("ssh").unwrap_err(),
        RemoteRegistryError::InvalidTarget
    );
}

#[test]
fn canonical_key_distinguishes_ssh_options() {
    let plain = RemoteTargetSnapshot::parse("ssh iq-64").unwrap();
    let forwarded = RemoteTargetSnapshot::parse("ssh -L 9000:localhost:9000 iq-64").unwrap();
    let other_forward =
        RemoteTargetSnapshot::parse("ssh -L 9100:localhost:9100 iq-64").unwrap();

    assert_ne!(plain.canonical_key(), forwarded.canonical_key());
    assert_ne!(forwarded.canonical_key(), other_forward.canonical_key());
}

#[test]
fn full_spec_display_name_uses_destination() {
    let mut registry = RemoteRegistrySnapshot::default();
    let remote = registry
        .add(
            None,
            "ssh -L 9000:localhost:9000 -J jump you@iq-64".into(),
            RemoteKeybindingsSnapshot::Local,
        )
        .unwrap();
    assert_eq!(remote.name, "iq-64");
}

#[test]
fn parses_local_default_targets_to_the_same_canonical_key() {
    let localhost = RemoteTargetSnapshot::parse("localhost").unwrap();
    let local_default = RemoteTargetSnapshot::parse("local:default").unwrap();

    assert_eq!(localhost, RemoteTargetSnapshot::Local { session: None });
    assert_eq!(local_default, RemoteTargetSnapshot::Local { session: None });
    assert_eq!(localhost.canonical_key(), "local:default");
    assert_eq!(local_default.canonical_key(), "local:default");
}

#[test]
fn parses_named_local_session_targets() {
    let target = RemoteTargetSnapshot::parse("local:dev").unwrap();

    assert_eq!(
        target,
        RemoteTargetSnapshot::Local {
            session: Some("dev".into())
        }
    );
    assert_eq!(target.canonical_key(), "local:dev");
}

#[test]
fn derives_default_display_name_from_ssh_url_host() {
    let mut registry = RemoteRegistrySnapshot::default();

    let remote = registry
        .add(
            None,
            "ssh://you@example.test:2222".into(),
            RemoteKeybindingsSnapshot::Local,
        )
        .unwrap();

    assert_eq!(remote.name, "example.test");
}

#[test]
fn rejects_duplicate_local_default_targets() {
    let mut registry = RemoteRegistrySnapshot::default();

    registry
        .add(
            Some("local".into()),
            "localhost".into(),
            RemoteKeybindingsSnapshot::Local,
        )
        .unwrap();
    let duplicate = registry
        .add(
            Some("default".into()),
            "local:default".into(),
            RemoteKeybindingsSnapshot::Local,
        )
        .unwrap_err();

    assert_eq!(duplicate, RemoteRegistryError::DuplicateTarget);
}

#[test]
fn rejects_targets_excluded_by_the_caller() {
    let mut registry = RemoteRegistrySnapshot::default();
    let excluded = vec![RemoteTargetSnapshot::Local { session: None }];

    let duplicate = registry
        .add_excluding_targets(
            Some("local".into()),
            "localhost".into(),
            RemoteKeybindingsSnapshot::Local,
            &excluded,
        )
        .unwrap_err();

    assert_eq!(duplicate, RemoteRegistryError::DuplicateTarget);
    assert!(registry.remotes.is_empty());
}

#[test]
fn disabled_defaults_to_false_for_new_remote() {
    let mut registry = RemoteRegistrySnapshot::default();
    let remote = registry
        .add(
            Some("dev".into()),
            "user@dev".into(),
            RemoteKeybindingsSnapshot::Local,
        )
        .unwrap();

    assert!(!remote.disabled);
    assert!(!registry.remotes[0].disabled);
}

#[test]
fn set_enabled_toggles_disabled() {
    let mut registry = RemoteRegistrySnapshot::default();
    let remote = registry
        .add(
            Some("dev".into()),
            "user@dev".into(),
            RemoteKeybindingsSnapshot::Local,
        )
        .unwrap();

    let disabled = registry.set_enabled(&remote.id, false).unwrap();
    assert!(disabled.disabled);
    assert!(registry.remotes[0].disabled);

    let enabled = registry.set_enabled(&remote.id, true).unwrap();
    assert!(!enabled.disabled);
    assert!(!registry.remotes[0].disabled);
}

#[test]
fn set_enabled_missing_id_returns_not_found() {
    let mut registry = RemoteRegistrySnapshot::default();
    assert_eq!(
        registry.set_enabled("missing", false).unwrap_err(),
        RemoteRegistryError::NotFound
    );
}

#[test]
fn set_auto_update_missing_id_returns_not_found() {
    let mut registry = RemoteRegistrySnapshot::default();
    assert_eq!(
        registry.set_auto_update("missing", true).unwrap_err(),
        RemoteRegistryError::NotFound
    );
}

fn added(registry: &mut RemoteRegistrySnapshot, name: &str, target: &str) -> String {
    registry
        .add(
            Some(name.to_string()),
            target.to_string(),
            RemoteKeybindingsSnapshot::Local,
        )
        .unwrap()
        .id
}

#[test]
fn auto_update_is_off_until_switched_on() {
    let mut registry = RemoteRegistrySnapshot::default();
    let id = added(&mut registry, "dev", "user@dev");
    assert!(!registry.remotes[0].auto_update);
    assert!(registry.set_auto_update(&id, true).unwrap().auto_update);
    assert!(registry.remotes[0].auto_update);
    assert!(!registry.set_auto_update(&id, false).unwrap().auto_update);
}

#[test]
fn ids_count_up_and_fill_no_gap_twice() {
    let mut registry = RemoteRegistrySnapshot::default();
    assert_eq!(added(&mut registry, "a", "host-a"), "remote-1");
    assert_eq!(added(&mut registry, "b", "host-b"), "remote-2");
    assert_eq!(registry.remove("remote-1").unwrap(), "remote-1");
    let next = added(&mut registry, "c", "host-c");
    assert_ne!(next, "remote-2");
    assert_eq!(registry.remotes.len(), 2);
    assert_eq!(registry.remotes[0].name, "b");
    assert_eq!(registry.remotes[1].name, "c");
}

#[test]
fn removing_what_was_added_restores_the_list() {
    let mut registry = RemoteRegistrySnapshot::default();
    added(&mut registry, "a", "host-a");
    let id = added(&mut registry, "b", "host-b");
    registry.remove(&id).unwrap();
    assert_eq!(registry.remotes.len(), 1);
    assert_eq!(registry.remotes[0].name, "a");
    assert_eq!(
        registry.remove(&id).unwrap_err(),
        RemoteRegistryError::NotFound
    );
}

#[test]
fn add_reports_each_error() {
    let mut registry = RemoteRegistrySnapshot::default();
    added(&mut registry, "dev", "user@dev");
    let keys = RemoteKeybindingsSnapshot::Server;
    assert_eq!(
        registry
            .add(Some("  ".to_string()), "other".to_string(), keys)
            .unwrap_err(),
        RemoteRegistryError::InvalidName
    );
    assert_eq!(
        registry
            .add(Some(" dev ".to_string()), "other".to_string(), keys)
            .unwrap_err(),
        RemoteRegistryError::DuplicateName
    );
    assert_eq!(
        registry
            .add(Some("two".to_string()), " user@dev ".to_string(), keys)
            .unwrap_err(),
        RemoteRegistryError::DuplicateTarget
    );
    assert_eq!(
        registry
            .add(Some("two".to_string()), "   ".to_string(), keys)
            .unwrap_err(),
        RemoteRegistryError::InvalidTarget
    );
    assert_eq!(
        registry
            .add(Some("two".to_string()), "ssh 'open".to_string(), keys)
            .unwrap_err(),
        RemoteRegistryError::InvalidTarget
    );
    assert_eq!(registry.remotes.len(), 1);
}

#[test]
fn rename_trims_and_refuses_taken_names() {
    let mut registry = RemoteRegistrySnapshot::default();
    let dev = added(&mut registry, "dev", "host-a");
    let ops = added(&mut registry, "ops", "host-b");
    assert_eq!(registry.rename(&dev, " qa ".to_string()).unwrap().name, "qa");
    assert_eq!(registry.remotes[0].name, "qa");
    assert_eq!(
        registry.rename(&ops, "qa".to_string()).unwrap_err(),
        RemoteRegistryError::DuplicateName
    );
    // Its own name is no clash.
    assert_eq!(registry.rename(&ops, "ops".to_string()).unwrap().name, "ops");
    assert_eq!(
        registry.rename(&ops, " ".to_string()).unwrap_err(),
        RemoteRegistryError::InvalidName
    );
    assert_eq!(
        registry.rename("nobody", "x".to_string()).unwrap_err(),
        RemoteRegistryError::NotFound
    );
}

#[test]
fn style_is_stored_whole_or_not_at_all() {
    let mut registry = RemoteRegistrySnapshot::default();
    let id = added(&mut registry, "dev", "host-a");
    let styled = registry
        .set_style(
            &id,
            Some("red".to_string()),
            Some("#ffffff".to_string()),
            Some("*".to_string()),
            true,
            true,
        )
        .unwrap();
    assert_eq!(styled.style_bg.as_deref(), Some("red"));
    assert_eq!(styled.style_fg.as_deref(), Some("#ffffff"));
    assert_eq!(styled.style_bullet.as_deref(), Some("*"));
    assert_eq!(
        registry
            .set_style(&id, Some("nope".to_string()), None, None, false, false)
            .unwrap_err(),
        RemoteRegistryError::InvalidStyle
    );
    assert_eq!(
        registry
            .set_style(&id, None, None, Some("**".to_string()), true, true)
            .unwrap_err(),
        RemoteRegistryError::InvalidStyle
    );
    assert_eq!(registry.remotes[0].style_bg.as_deref(), Some("red"));
    assert_eq!(
        registry
            .set_style("nobody", None, None, None, true, true)
            .unwrap_err(),
        RemoteRegistryError::NotFound
    );
    let cleared = registry
        .set_style(&id, None, None, None, false, false)
        .unwrap();
    assert_eq!(cleared.style_bg, None);
    assert_eq!(cleared.style_bullet, None);
}

#[test]
fn bullets_take_one_column() {
    assert_eq!(single_width_bullet("*"), Some('*'));
    assert_eq!(single_width_bullet("\u{25cf}"), Some('\u{25cf}'));
    assert_eq!(single_width_bullet("\u{6f22}"), None);
    assert_eq!(single_width_bullet("\u{301}"), None);
    assert_eq!(single_width_bullet("\u{7}"), None);
    assert_eq!(single_width_bullet(""), None);
    assert_eq!(single_width_bullet("ab"), None);
    assert_eq!(bullet_of_width("x", Some(2)), None);
    assert_eq!(bullet_of_width("x", Some(1)), Some('x'));
    assert_eq!(bullet_of_width("x", None), None);
}

#[test]
fn outer_space_does_not_change_a_target() {
    assert_eq!(
        RemoteTargetSnapshot::parse("  ssh -p 22 host\t").unwrap(),
        RemoteTargetSnapshot::parse("ssh -p 22 host").unwrap()
    );
    assert_eq!(
        RemoteTargetSnapshot::parse(" local:dev ").unwrap(),
        RemoteTargetSnapshot::parse("local:dev").unwrap()
    );
}

#[test]
fn words_of_an_ssh_command_are_all_kept() {
    let words: Vec<String> = ["ssh", "-v", "-p", "22", "host"]
        .iter()
        .map(|w| w.to_string())
        .collect();
    assert_eq!(
        RemoteTargetSnapshot::from_ssh_words(words).unwrap(),
        ssh("host", &["-v", "-p", "22"])
    );
    assert_eq!(
        RemoteTargetSnapshot::from_ssh_words(vec!["-p".to_string()]).unwrap_err(),
        RemoteRegistryError::InvalidTarget
    );
}

#[test]
fn keys_tell_ssh_hosts_from_local_sessions() {
    let host = ssh("dev", &[]).canonical_key();
    let session = RemoteTargetSnapshot::Local {
        session: Some("dev".to_string()),
    }
    .canonical_key();
    let other = RemoteTargetSnapshot::Local {
        session: Some("qa".to_string()),
    }
    .canonical_key();
    assert_ne!(host, session);
    assert_ne!(session, other);
}

#[test]
fn errors_have_codes_and_messages() {
    let errors = [
        (RemoteRegistryError::InvalidTarget, "invalid_remote_target"),
        (RemoteRegistryError::InvalidName, "invalid_remote_name"),
        (RemoteRegistryError::DuplicateName, "duplicate_remote_name"),
        (
            RemoteRegistryError::DuplicateTarget,
            "duplicate_remote_target",
        ),
        (RemoteRegistryError::NotFound, "remote_not_found"),
        (RemoteRegistryError::InvalidStyle, "invalid_remote_style"),
    ];
    for (error, code) in errors {
        assert_eq!(error.code(), code);
        assert!(!error.message().is_empty());
    }
    assert_eq!(
        RemoteRegistryError::DuplicateName.message(),
        "remote name already exists"
    );
}

#[test]
fn a_plain_word_is_a_destination() {
    for host in ["box", "user@box.example.com", "[::1]", "localhost2", "locale"] {
        let bare = RemoteTargetSnapshot::parse(host).unwrap();
        assert_eq!(bare, ssh(host, &[]));
        let named = RemoteTargetSnapshot::parse(&format!("ssh {host}")).unwrap();
        assert_eq!(named, bare);
        let spaced = RemoteTargetSnapshot::parse(&format!(" \t{host}\n ")).unwrap();
        assert_eq!(spaced, bare);
    }
    let words = RemoteTargetSnapshot::parse("ssh -p 2222 -v box").unwrap();
    assert_eq!(words, ssh("box", &["-p", "2222", "-v"]));
    for word in ["ssh", "-v", "ssh box uptime"] {
        assert_eq!(
            RemoteTargetSnapshot::parse(word).unwrap_err(),
            RemoteRegistryError::InvalidTarget
        );
    }
    assert_eq!(
        RemoteTargetSnapshot::parse("'my box'").unwrap(),
        ssh("my box", &[])
    );
}
