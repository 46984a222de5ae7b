use acl_engine::acl::{Commands, Error, Permission, PermissionSet, Scopes};
use acl_engine::manifest::{DefaultPermission, Manifest, PermissionFile};
use acl_engine::value::Value;

fn permission(identifier: &str, allow: &[&str], deny: &[&str]) -> Permission {
    Permission {
        version: None,
        identifier: identifier.to_string(),
        description: None,
        commands: Commands {
            allow: allow.iter().map(|s| s.to_string()).collect(),
            deny: deny.iter().map(|s| s.to_string()).collect(),
        },
        scope: Scopes::default(),
        platforms: None,
    }
}

fn set(identifier: &str, description: &str, members: &[&str]) -> PermissionSet {
    PermissionSet {
        identifier: identifier.to_string(),
        description: description.to_string(),
        permissions: members.iter().map(|s| s.to_string()).collect(),
    }
}

#[test]
fn later_file_overwrites_permission_in_full() {
    let mut first = permission("fs-read", &["read"], &[]);
    first.description = Some("first draft".to_string());
    let second = permission("fs-read", &["read", "read-dir"], &["read-secret"]);

    let file_a = PermissionFile { default: None, set: vec![], permission: vec![first] };
    let file_b = PermissionFile {
        default: None,
        set: vec![],
        permission: vec![permission("fs-read", &["read", "read-dir"], &["read-secret"])],
    };

    let manifest = Manifest::new(vec![file_a, file_b], None);
    let stored = manifest.get_permission(&"fs-read".to_string()).unwrap();
    assert_eq!(stored, &second);
    assert_eq!(stored.description, None);
}

#[test]
fn aggregation_is_order_sensitive() {
    let file_a = PermissionFile {
        default: None,
        set: vec![],
        permission: vec![permission("p", &["a"], &[])],
    };
    let file_b = PermissionFile {
        default: None,
        set: vec![],
        permission: vec![permission("p", &["b"], &[])],
    };
    let manifest = Manifest::new(vec![file_a, file_b], None);
    assert_eq!(
        manifest.get_permission(&"p".to_string()).unwrap().commands.allow,
        vec!["b".to_string()]
    );
}

#[test]
fn splitting_a_file_yields_identical_manifest() {
    let default = DefaultPermission {
        version: None,
        description: Some("base grants".to_string()),
        permissions: vec!["fs-read".to_string()],
    };
    let unified = PermissionFile {
        default: Some(DefaultPermission {
            version: None,
            description: Some("base grants".to_string()),
            permissions: vec!["fs-read".to_string()],
        }),
        set: vec![set("fs", "file access", &["fs-read", "fs-write"]), set("net", "network", &[])],
        permission: vec![permission("fs-read", &["read"], &[]), permission(
            "fs-write",
            &["write"],
            &[],
        )],
    };
    let first_half = PermissionFile {
        default: Some(default),
        set: vec![set("fs", "file access", &["fs-read", "fs-write"])],
        permission: vec![permission("fs-read", &["read"], &[])],
    };
    let second_half = PermissionFile {
        default: None,
        set: vec![set("net", "network", &[])],
        permission: vec![permission("fs-write", &["write"], &[])],
    };

    let from_one = Manifest::new(vec![unified], None);
    let from_two = Manifest::new(vec![first_half, second_half], None);
    assert_eq!(from_one, from_two);
}

#[test]
fn later_default_replaces_earlier_one() {
    let file_a = PermissionFile {
        default: Some(DefaultPermission {
            version: None,
            description: Some("first".to_string()),
            permissions: vec!["a".to_string()],
        }),
        set: vec![],
        permission: vec![],
    };
    let file_b = PermissionFile {
        default: Some(DefaultPermission {
            version: None,
            description: Some("second".to_string()),
            permissions: vec!["b".to_string(), "c".to_string()],
        }),
        set: vec![],
        permission: vec![],
    };
    let manifest = Manifest::new(vec![file_a, file_b], None);
    let default = manifest.default_permission.unwrap();
    assert_eq!(default.identifier, "default");
    assert_eq!(default.description, "second");
    assert_eq!(default.permissions, vec!["b".to_string(), "c".to_string()]);
}

#[test]
fn missing_default_description_gets_fallback() {
    let file = PermissionFile {
        default: Some(DefaultPermission {
            version: None,
            description: None,
            permissions: vec![],
        }),
        set: vec![],
        permission: vec![],
    };
    let manifest = Manifest::new(vec![file], None);
    let default = manifest.default_permission.unwrap();
    assert_eq!(default.identifier, "default");
    assert_eq!(default.description, "Default plugin permissions.");
}

#[test]
fn file_without_default_keeps_earlier_default() {
    let file_a = PermissionFile {
        default: Some(DefaultPermission {
            version: None,
            description: Some("kept".to_string()),
            permissions: vec![],
        }),
        set: vec![],
        permission: vec![],
    };
    let file_b = PermissionFile { default: None, set: vec![], permission: vec![] };
    let manifest = Manifest::new(vec![file_a, file_b], None);
    assert_eq!(manifest.default_permission.unwrap().description, "kept");
}

#[test]
fn tables_are_keyed_and_sorted() {
    let file = PermissionFile {
        default: None,
        set: vec![set("zeta", "last", &[]), set("alpha", "first", &[])],
        permission: vec![
            permission("c", &[], &[]),
            permission("a", &[], &[]),
            permission("b", &[], &[]),
        ],
    };
    let manifest = Manifest::new(vec![file], None);
    let identifiers: Vec<&str> =
        manifest.permissions.iter().map(|p| p.identifier.as_str()).collect();
    assert_eq!(identifiers, vec!["a", "b", "c"]);
    let set_identifiers: Vec<&str> =
        manifest.permission_sets.iter().map(|s| s.identifier.as_str()).collect();
    assert_eq!(set_identifiers, vec!["alpha", "zeta"]);
}

#[test]
fn aggregation_preserves_entries_exactly() {
    let mut rich = permission("net-fetch", &["fetch", "fetch-cancel"], &["fetch-raw"]);
    rich.version = Some(3);
    rich.description = Some("network fetch".to_string());
    rich.scope = Scopes {
        allow: Some(vec![Value::Text("https://tauri.app".to_string())]),
        deny: Some(vec![]),
    };

    let file = PermissionFile {
        default: None,
        set: vec![set("net", "network access", &["net-fetch"])],
        permission: vec![rich],
    };
    let manifest = Manifest::new(vec![file], None);

    let stored = manifest.get_permission(&"net-fetch".to_string()).unwrap();
    assert_eq!(stored.version, Some(3));
    assert_eq!(stored.description.as_deref(), Some("network fetch"));
    assert_eq!(stored.commands.allow, vec!["fetch".to_string(), "fetch-cancel".to_string()]);
    assert_eq!(stored.commands.deny, vec!["fetch-raw".to_string()]);
    assert_eq!(
        stored.scope.allow,
        Some(vec![Value::Text("https://tauri.app".to_string())])
    );
    assert_eq!(stored.scope.deny, Some(vec![]));
    assert!(!stored.scope.is_empty());

    let stored_set = manifest.get_permission_set(&"net".to_string()).unwrap();
    assert_eq!(stored_set.identifier, "net");
    assert_eq!(stored_set.description, "network access");
    assert_eq!(stored_set.permissions, vec!["net-fetch".to_string()]);
}

#[test]
fn rebuilding_from_aggregated_tables_round_trips() {
    let file = PermissionFile {
        default: None,
        set: vec![set("group", "a group", &["b", "a"])],
        permission: vec![permission("b", &["y"], &[]), permission("a", &["x"], &[])],
    };
    let manifest = Manifest::new(vec![file], None);

    let again = PermissionFile {
        default: None,
        set: manifest
            .permission_sets
            .iter()
            .map(|s| set(&s.identifier, &s.description, &[]))
            .map(|mut copy| {
                copy.permissions =
                    manifest.get_permission_set(&copy.identifier).unwrap().permissions.clone();
                copy
            })
            .collect(),
        permission: manifest
            .permissions
            .iter()
            .map(|p| {
                let mut copy = permission(&p.identifier, &[], &[]);
                copy.commands.allow = p.commands.allow.clone();
                copy.commands.deny = p.commands.deny.clone();
                copy
            })
            .collect(),
    };
    let rebuilt = Manifest::new(vec![again], None);
    assert_eq!(rebuilt, manifest);
}

#[test]
fn global_scope_schema_is_kept_verbatim() {
    let schema = Value::Dict(vec![(
        "type".to_string(),
        Value::Text("string".to_string()),
    )]);
    let manifest = Manifest::new(vec![], Some(schema));
    assert_eq!(
        manifest.global_scope_schema,
        Some(Value::Dict(vec![(
            "type".to_string(),
            Value::Text("string".to_string())
        )]))
    );
}

#[test]
fn unknown_permission_lookup_reports_key_and_identifier() {
    let manifest = Manifest::new(vec![], None);
    let error = manifest
        .find_permission(&"fs-plugin".to_string(), &"fs-read".to_string())
        .unwrap_err();
    assert_eq!(
        error,
        Error::UnknownPermission { key: "fs-plugin".to_string(), permission: "fs-read".to_string() }
    );
}

#[test]
fn dangling_set_reference_is_reported() {
    let file = PermissionFile {
        default: None,
        set: vec![set("group", "a group", &["exists", "missing"])],
        permission: vec![permission("exists", &[], &[])],
    };
    let manifest = Manifest::new(vec![file], None);
    let error = manifest.check_set_references().unwrap_err();
    assert_eq!(
        error,
        Error::SetPermissionNotFound {
            permission: "missing".to_string(),
            set: "group".to_string()
        }
    );
}

#[test]
fn set_references_accept_permissions_sets_and_default() {
    let file = PermissionFile {
        default: Some(DefaultPermission {
            version: None,
            description: None,
            permissions: vec![],
        }),
        set: vec![
            set("base", "base permissions", &["read"]),
            set("all", "everything", &["read", "base", "default"]),
        ],
        permission: vec![permission("read", &["read"], &[])],
    };
    let manifest = Manifest::new(vec![file], None);
    assert!(manifest.check_set_references().is_ok());
}

#[test]
fn unknown_manifest_lists_available_keys() {
    let manifests = vec![
        ("fs".to_string(), Manifest::new(vec![], None)),
        ("dialog".to_string(), Manifest::new(vec![], None)),
    ];
    assert!(acl_engine::manifest::find_manifest(&manifests, &"fs".to_string()).is_ok());
    let error =
        acl_engine::manifest::find_manifest(&manifests, &"http".to_string()).unwrap_err();
    assert_eq!(
        error,
        Error::UnknownManifest {
            key: "http".to_string(),
            available: "fs, dialog".to_string()
        }
    );
}

#[test]
fn splitting_across_three_files_yields_identical_manifest() {
    let unified = PermissionFile {
        default: Some(DefaultPermission {
            version: None,
            description: Some("grants".to_string()),
            permissions: vec!["a".to_string()],
        }),
        set: vec![set("g", "a group", &["a", "b"])],
        permission: vec![
            permission("a", &["one"], &[]),
            permission("b", &["two"], &[]),
            permission("c", &["three"], &[]),
        ],
    };
    let fragments = vec![
        PermissionFile {
            default: Some(DefaultPermission {
                version: None,
                description: Some("grants".to_string()),
                permissions: vec!["a".to_string()],
            }),
            set: vec![],
            permission: vec![permission("a", &["one"], &[])],
        },
        PermissionFile {
            default: None,
            set: vec![set("g", "a group", &["a", "b"])],
            permission: vec![permission("b", &["two"], &[])],
        },
        PermissionFile {
            default: None,
            set: vec![],
            permission: vec![permission("c", &["three"], &[])],
        },
    ];
    assert_eq!(Manifest::new(vec![unified], None), Manifest::new(fragments, None));
}
