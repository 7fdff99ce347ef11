use multiobs::config::{resolve_targets, ObsInstanceConfig, TargetGroup, TargetSelector};

fn instance(id: &str, port: u16, password: &str) -> ObsInstanceConfig {
    ObsInstanceConfig {
        id: id.into(),
        name: id.into(),
        host: "127.0.0.1".into(),
        port,
        password: password.into(),
        color: "#4c8dff".into(),
        enabled: true,
    }
}

#[test]
fn resolves_targets_in_configuration_order() {
    let instances = vec![
        instance("a", 1, ""),
        instance("b", 1, ""),
        ObsInstanceConfig {
            enabled: false,
            ..instance("c", 1, "")
        },
    ];
    let groups = vec![TargetGroup {
        id: "g".into(),
        name: "Both".into(),
        members: vec!["c".into(), "a".into()],
    }];

    assert_eq!(
        resolve_targets(&TargetSelector::All, &instances, &groups),
        vec!["a".to_string(), "b".to_string()]
    );
    assert_eq!(
        resolve_targets(
            &TargetSelector::Group { id: "g".into() },
            &instances,
            &groups
        ),
        vec!["a".to_string(), "c".to_string()]
    );
    assert_eq!(
        resolve_targets(
            &TargetSelector::Instances {
                ids: vec!["b".into(), "missing".into(), "a".into()]
            },
            &instances,
            &groups
        ),
        vec!["a".to_string(), "b".to_string()]
    );
}

#[test]
fn unknown_group_resolves_to_nothing() {
    let instances = vec![instance("a", 1, "")];
    let groups = vec![TargetGroup {
        id: "g".into(),
        name: "G".into(),
        members: vec!["a".into()],
    }];
    assert!(resolve_targets(&TargetSelector::Group { id: "other".into() }, &instances, &groups).is_empty());
}

#[test]
fn first_group_with_an_id_wins() {
    let instances = vec![instance("a", 1, ""), instance("b", 1, "")];
    let groups = vec![
        TargetGroup { id: "g".into(), name: "First".into(), members: vec!["b".into()] },
        TargetGroup { id: "g".into(), name: "Second".into(), members: vec!["a".into()] },
    ];
    assert_eq!(
        resolve_targets(&TargetSelector::Group { id: "g".into() }, &instances, &groups),
        vec!["b".to_string()]
    );
}

#[test]
fn repeated_and_reordered_selection_gives_each_instance_once() {
    let instances = vec![instance("a", 1, ""), instance("b", 1, ""), instance("c", 1, "")];
    let picked = resolve_targets(
        &TargetSelector::Instances { ids: vec!["c".into(), "a".into(), "c".into(), "a".into()] },
        &instances,
        &vec![],
    );
    assert_eq!(picked, vec!["a".to_string(), "c".to_string()]);
}

#[test]
fn disabled_instances_are_still_picked_by_name() {
    let instances = vec![ObsInstanceConfig { enabled: false, ..instance("a", 1, "") }];
    assert!(resolve_targets(&TargetSelector::All, &instances, &vec![]).is_empty());
    assert_eq!(
        resolve_targets(&TargetSelector::Instances { ids: vec!["a".into()] }, &instances, &vec![]),
        vec!["a".to_string()]
    );
}

#[test]
fn endpoint_and_password() {
    let open = instance("a", 4455, "");
    let locked = instance("b", 4455, "secret");
    assert_eq!(open.password_opt(), None);
    assert_eq!(locked.password_opt(), Some("secret"));
    let key = locked.endpoint_key();
    assert_eq!(key.host, "127.0.0.1");
    assert_eq!(key.port, 4455);
    assert_eq!(key.password, "secret");
    assert!(key.same_as(&instance("x", 4455, "secret").endpoint_key()));
    assert!(!key.same_as(&open.endpoint_key()));
    assert!(!key.same_as(&instance("b", 4456, "secret").endpoint_key()));
}
