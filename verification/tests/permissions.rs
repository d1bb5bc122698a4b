use semver::VersionReq;
use slipway::permissions::{
    parse_registry_component_permission, CommonPermissionsArgs, EnvPermissionArgs,
    FontPermissionArgs, HttpComponentPermissionArgs, HttpPermissionArgs,
    LocalComponentPermission, LocalComponentPermissionArgs, Permission,
    RegistryComponentPermission, RegistryComponentPermissionArgs, StringPermission,
    UrlPermission,
};
use url::Url;

#[test]
fn test_allow_all() {
    let args = CommonPermissionsArgs {
        allow_all: true,
        deny_all: false,
        http: HttpPermissionArgs {
            allow_http: true,
            allow_http_exact: vec![],
            allow_http_prefix: vec![],
            deny_http: false,
            deny_http_exact: vec![],
            deny_http_prefix: vec![],
        },
        font: FontPermissionArgs {
            allow_fonts: true,
            allow_fonts_exact: vec![],
            allow_fonts_prefix: vec![],
            allow_fonts_suffix: vec![],
            deny_fonts: false,
            deny_fonts_exact: vec![],
            deny_fonts_prefix: vec![],
            deny_fonts_suffix: vec![],
        },
        env: EnvPermissionArgs {
            allow_env: true,
            allow_env_exact: vec![],
            allow_env_prefix: vec![],
            allow_env_suffix: vec![],
            deny_env: false,
            deny_env_exact: vec![],
            deny_env_prefix: vec![],
            deny_env_suffix: vec![],
        },
        http_components: HttpComponentPermissionArgs {
            allow_http_components: true,
            allow_http_components_exact: vec![],
            allow_http_components_prefix: vec![],
            deny_http_components: false,
            deny_http_components_exact: vec![],
            deny_http_components_prefix: vec![],
        },
        local_components: LocalComponentPermissionArgs {
            allow_local_components: true,
            allow_local_components_exact: vec![],
            deny_local_components: false,
            deny_local_components_exact: vec![],
        },
        registry_components: RegistryComponentPermissionArgs {
            allow_registry_components: true,
            allow_registry_components_exact: vec![],
            deny_registry_components: false,
            deny_registry_components_exact: vec![],
        },
    };

    let permissions = args.into_permissions().unwrap();

    assert_eq!(
        permissions.allow,
        vec![
            Permission::All,
            Permission::Http(UrlPermission::Any {}),
            Permission::Font(StringPermission::Any {}),
            Permission::Env(StringPermission::Any {}),
            Permission::HttpComponent(UrlPermission::Any {}),
            Permission::LocalComponent(LocalComponentPermission::Any {}),
            Permission::RegistryComponent(RegistryComponentPermission {
                publisher: None,
                name: None,
                version: None,
            }),
        ]
    );
    assert!(permissions.deny.is_empty());
}

#[test]
fn test_deny_all() {
    let args = CommonPermissionsArgs {
        allow_all: false,
        deny_all: true,
        http: HttpPermissionArgs {
            allow_http: false,
            allow_http_exact: vec![],
            allow_http_prefix: vec![],
            deny_http: true,
            deny_http_exact: vec![],
            deny_http_prefix: vec![],
        },
        font: FontPermissionArgs {
            allow_fonts: false,
            allow_fonts_exact: vec![],
            allow_fonts_prefix: vec![],
            allow_fonts_suffix: vec![],
            deny_fonts: true,
            deny_fonts_exact: vec![],
            deny_fonts_prefix: vec![],
            deny_fonts_suffix: vec![],
        },
        env: EnvPermissionArgs {
            allow_env: false,
            allow_env_exact: vec![],
            allow_env_prefix: vec![],
            allow_env_suffix: vec![],
            deny_env: true,
            deny_env_exact: vec![],
            deny_env_prefix: vec![],
            deny_env_suffix: vec![],
        },
        http_components: HttpComponentPermissionArgs {
            allow_http_components: false,
            allow_http_components_exact: vec![],
            allow_http_components_prefix: vec![],
            deny_http_components: true,
            deny_http_components_exact: vec![],
            deny_http_components_prefix: vec![],
        },
        local_components: LocalComponentPermissionArgs {
            allow_local_components: false,
            allow_local_components_exact: vec![],
            deny_local_components: true,
            deny_local_components_exact: vec![],
        },
        registry_components: RegistryComponentPermissionArgs {
            allow_registry_components: false,
            allow_registry_components_exact: vec![],
            deny_registry_components: true,
            deny_registry_components_exact: vec![],
        },
    };

    let permissions = args.into_permissions().unwrap();

    assert!(permissions.allow.is_empty());
    assert_eq!(
        permissions.deny,
        vec![
            Permission::All,
            Permission::Http(UrlPermission::Any {}),
            Permission::Font(StringPermission::Any {}),
            Permission::Env(StringPermission::Any {}),
            Permission::HttpComponent(UrlPermission::Any {}),
            Permission::LocalComponent(LocalComponentPermission::Any {}),
            Permission::RegistryComponent(RegistryComponentPermission {
                publisher: None,
                name: None,
                version: None,
            }),
        ]
    );
}

#[test]
fn test_http_permissions() {
    let args = CommonPermissionsArgs {
        allow_all: false,
        deny_all: false,
        http: HttpPermissionArgs {
            allow_http: true,
            allow_http_exact: vec![Url::parse("https://example.com").unwrap()],
            allow_http_prefix: vec![Url::parse("https://example2.com").unwrap()],
            deny_http: true,
            deny_http_exact: vec![Url::parse("https://example3.com").unwrap()],
            deny_http_prefix: vec![Url::parse("https://example4.com").unwrap()],
        },
        font: FontPermissionArgs {
            allow_fonts: false,
            allow_fonts_exact: vec![],
            allow_fonts_prefix: vec![],
            allow_fonts_suffix: vec![],
            deny_fonts: false,
            deny_fonts_exact: vec![],
            deny_fonts_prefix: vec![],
            deny_fonts_suffix: vec![],
        },
        env: EnvPermissionArgs {
            allow_env: false,
            allow_env_exact: vec![],
            allow_env_prefix: vec![],
            allow_env_suffix: vec![],
            deny_env: false,
            deny_env_exact: vec![],
            deny_env_prefix: vec![],
            deny_env_suffix: vec![],
        },
        http_components: HttpComponentPermissionArgs {
            allow_http_components: false,
            allow_http_components_exact: vec![],
            allow_http_components_prefix: vec![],
            deny_http_components: false,
            deny_http_components_exact: vec![],
            deny_http_components_prefix: vec![],
        },
        local_components: LocalComponentPermissionArgs {
            allow_local_components: false,
            allow_local_components_exact: vec![],
            deny_local_components: false,
            deny_local_components_exact: vec![],
        },
        registry_components: RegistryComponentPermissionArgs {
            allow_registry_components: false,
            allow_registry_components_exact: vec![],
            deny_registry_components: false,
            deny_registry_components_exact: vec![],
        },
    };

    let permissions = args.into_permissions().unwrap();

    assert_eq!(
        permissions.allow,
        vec![
            Permission::Http(UrlPermission::Any {}),
            Permission::Http(UrlPermission::Exact {
                exact: Url::parse("https://example.com").unwrap()
            }),
            Permission::Http(UrlPermission::Prefix {
                prefix: Url::parse("https://example2.com").unwrap()
            }),
        ]
    );

    assert_eq!(
        permissions.deny,
        vec![
            Permission::Http(UrlPermission::Any {}),
            Permission::Http(UrlPermission::Exact {
                exact: Url::parse("https://example3.com").unwrap()
            }),
            Permission::Http(UrlPermission::Prefix {
                prefix: Url::parse("https://example4.com").unwrap()
            }),
        ]
    );
}

#[test]
fn test_string_permissions_for_fonts() {
    let args = CommonPermissionsArgs {
        allow_all: false,
        deny_all: false,
        http: HttpPermissionArgs {
            allow_http: false,
            allow_http_exact: vec![],
            allow_http_prefix: vec![],
            deny_http: false,
            deny_http_exact: vec![],
            deny_http_prefix: vec![],
        },
        font: FontPermissionArgs {
            allow_fonts: true,
            allow_fonts_exact: vec!["Roboto".to_string()],
            allow_fonts_prefix: vec!["Hack".to_string()],
            allow_fonts_suffix: vec!["Arial".to_string()],
            deny_fonts: true,
            deny_fonts_exact: vec!["Foo".to_string()],
            deny_fonts_prefix: vec!["Bar".to_string()],
            deny_fonts_suffix: vec!["Baz".to_string()],
        },
        env: EnvPermissionArgs {
            allow_env: false,
            allow_env_exact: vec![],
            allow_env_prefix: vec![],
            allow_env_suffix: vec![],
            deny_env: false,
            deny_env_exact: vec![],
            deny_env_prefix: vec![],
            deny_env_suffix: vec![],
        },
        http_components: HttpComponentPermissionArgs {
            allow_http_components: false,
            allow_http_components_exact: vec![],
            allow_http_components_prefix: vec![],
            deny_http_components: false,
            deny_http_components_exact: vec![],
            deny_http_components_prefix: vec![],
        },
        local_components: LocalComponentPermissionArgs {
            allow_local_components: false,
            allow_local_components_exact: vec![],
            deny_local_components: false,
            deny_local_components_exact: vec![],
        },
        registry_components: RegistryComponentPermissionArgs {
            allow_registry_components: false,
            allow_registry_components_exact: vec![],
            deny_registry_components: false,
            deny_registry_components_exact: vec![],
        },
    };

    let permissions = args.into_permissions().unwrap();

    assert_eq!(
        permissions.allow,
        vec![
            Permission::Font(StringPermission::Any {}),
            Permission::Font(StringPermission::Exact {
                exact: "Roboto".into()
            }),
            Permission::Font(StringPermission::Prefix {
                prefix: "Hack".into()
            }),
            Permission::Font(StringPermission::Suffix {
                suffix: "Arial".into()
            }),
        ]
    );
    assert_eq!(
        permissions.deny,
        vec![
            Permission::Font(StringPermission::Any {}),
            Permission::Font(StringPermission::Exact {
                exact: "Foo".into()
            }),
            Permission::Font(StringPermission::Prefix {
                prefix: "Bar".into()
            }),
            Permission::Font(StringPermission::Suffix {
                suffix: "Baz".into()
            }),
        ]
    );
}

#[test]
fn test_string_permissions_for_env() {
    let args = CommonPermissionsArgs {
        allow_all: false,
        deny_all: false,
        http: HttpPermissionArgs {
            allow_http: false,
            allow_http_exact: vec![],
            allow_http_prefix: vec![],
            deny_http: false,
            deny_http_exact: vec![],
            deny_http_prefix: vec![],
        },
        font: FontPermissionArgs {
            allow_fonts: false,
            allow_fonts_exact: vec![],
            allow_fonts_prefix: vec![],
            allow_fonts_suffix: vec![],
            deny_fonts: false,
            deny_fonts_exact: vec![],
            deny_fonts_prefix: vec![],
            deny_fonts_suffix: vec![],
        },
        env: EnvPermissionArgs {
            allow_env: true,
            allow_env_exact: vec!["One".to_string()],
            allow_env_prefix: vec!["Two".to_string()],
            allow_env_suffix: vec!["Three".to_string()],
            deny_env: true,
            deny_env_exact: vec!["Foo".to_string()],
            deny_env_prefix: vec!["Bar".to_string()],
            deny_env_suffix: vec!["Baz".to_string()],
        },
        http_components: HttpComponentPermissionArgs {
            allow_http_components: false,
            allow_http_components_exact: vec![],
            allow_http_components_prefix: vec![],
            deny_http_components: false,
            deny_http_components_exact: vec![],
            deny_http_components_prefix: vec![],
        },
        local_components: LocalComponentPermissionArgs {
            allow_local_components: false,
            allow_local_components_exact: vec![],
            deny_local_components: false,
            deny_local_components_exact: vec![],
        },
        registry_components: RegistryComponentPermissionArgs {
            allow_registry_components: false,
            allow_registry_components_exact: vec![],
            deny_registry_components: false,
            deny_registry_components_exact: vec![],
        },
    };

    let permissions = args.into_permissions().unwrap();

    assert_eq!(
        permissions.allow,
        vec![
            Permission::Env(StringPermission::Any {}),
            Permission::Env(StringPermission::Exact {
                exact: "One".into()
            }),
            Permission::Env(StringPermission::Prefix {
                prefix: "Two".into()
            }),
            Permission::Env(StringPermission::Suffix {
                suffix: "Three".into()
            }),
        ]
    );
    assert_eq!(
        permissions.deny,
        vec![
            Permission::Env(StringPermission::Any {}),
            Permission::Env(StringPermission::Exact {
                exact: "Foo".into()
            }),
            Permission::Env(StringPermission::Prefix {
                prefix: "Bar".into()
            }),
            Permission::Env(StringPermission::Suffix {
                suffix: "Baz".into()
            }),
        ]
    );
}

#[test]
fn test_http_component_permissions() {
    let args = CommonPermissionsArgs {
        allow_all: false,
        deny_all: false,
        http: HttpPermissionArgs {
            allow_http: false,
            allow_http_exact: vec![],
            allow_http_prefix: vec![],
            deny_http: false,
            deny_http_exact: vec![],
            deny_http_prefix: vec![],
        },
        font: FontPermissionArgs {
            allow_fonts: false,
            allow_fonts_exact: vec![],
            allow_fonts_prefix: vec![],
            allow_fonts_suffix: vec![],
            deny_fonts: false,
            deny_fonts_exact: vec![],
            deny_fonts_prefix: vec![],
            deny_fonts_suffix: vec![],
        },
        env: EnvPermissionArgs {
            allow_env: false,
            allow_env_exact: vec![],
            allow_env_prefix: vec![],
            allow_env_suffix: vec![],
            deny_env: false,
            deny_env_exact: vec![],
            deny_env_prefix: vec![],
            deny_env_suffix: vec![],
        },
        http_components: HttpComponentPermissionArgs {
            allow_http_components: true,
            allow_http_components_exact: vec![Url::parse("https://example.com").unwrap()],
            allow_http_components_prefix: vec![Url::parse("https://example2.com").unwrap()],
            deny_http_components: true,
            deny_http_components_exact: vec![Url::parse("https://example3.com").unwrap()],
            deny_http_components_prefix: vec![Url::parse("https://example4.com").unwrap()],
        },
        local_components: LocalComponentPermissionArgs {
            allow_local_components: false,
            allow_local_components_exact: vec![],
            deny_local_components: false,
            deny_local_components_exact: vec![],
        },
        registry_components: RegistryComponentPermissionArgs {
            allow_registry_components: false,
            allow_registry_components_exact: vec![],
            deny_registry_components: false,
            deny_registry_components_exact: vec![],
        },
    };

    let permissions = args.into_permissions().unwrap();

    assert_eq!(
        permissions.allow,
        vec![
            Permission::HttpComponent(UrlPermission::Any {}),
            Permission::HttpComponent(UrlPermission::Exact {
                exact: Url::parse("https://example.com").unwrap()
            }),
            Permission::HttpComponent(UrlPermission::Prefix {
                prefix: Url::parse("https://example2.com").unwrap()
            }),
        ]
    );

    assert_eq!(
        permissions.deny,
        vec![
            Permission::HttpComponent(UrlPermission::Any {}),
            Permission::HttpComponent(UrlPermission::Exact {
                exact: Url::parse("https://example3.com").unwrap()
            }),
            Permission::HttpComponent(UrlPermission::Prefix {
                prefix: Url::parse("https://example4.com").unwrap()
            }),
        ]
    );
}

#[test]
fn test_local_component_permissions() {
    let args = CommonPermissionsArgs {
        allow_all: false,
        deny_all: false,
        http: HttpPermissionArgs {
            allow_http: false,
            allow_http_exact: vec![],
            allow_http_prefix: vec![],
            deny_http: false,
            deny_http_exact: vec![],
            deny_http_prefix: vec![],
        },
        font: FontPermissionArgs {
            allow_fonts: false,
            allow_fonts_exact: vec![],
            allow_fonts_prefix: vec![],
            allow_fonts_suffix: vec![],
            deny_fonts: false,
            deny_fonts_exact: vec![],
            deny_fonts_prefix: vec![],
            deny_fonts_suffix: vec![],
        },
        env: EnvPermissionArgs {
            allow_env: false,
            allow_env_exact: vec![],
            allow_env_prefix: vec![],
            allow_env_suffix: vec![],
            deny_env: false,
            deny_env_exact: vec![],
            deny_env_prefix: vec![],
            deny_env_suffix: vec![],
        },
        http_components: HttpComponentPermissionArgs {
            allow_http_components: false,
            allow_http_components_exact: vec![],
            allow_http_components_prefix: vec![],
            deny_http_components: false,
            deny_http_components_exact: vec![],
            deny_http_components_prefix: vec![],
        },
        local_components: LocalComponentPermissionArgs {
            allow_local_components: true,
            allow_local_components_exact: vec!["foo.wasm".to_string()],
            deny_local_components: true,
            deny_local_components_exact: vec!["bar.wasm".to_string()],
        },
        registry_components: RegistryComponentPermissionArgs {
            allow_registry_components: false,
            allow_registry_components_exact: vec![],
            deny_registry_components: false,
            deny_registry_components_exact: vec![],
        },
    };

    let permissions = args.into_permissions().unwrap();

    assert_eq!(
        permissions.allow,
        vec![
            Permission::LocalComponent(LocalComponentPermission::Any),
            Permission::LocalComponent(LocalComponentPermission::Exact {
                exact: "foo.wasm".into()
            }),
        ]
    );

    assert_eq!(
        permissions.deny,
        vec![
            Permission::LocalComponent(LocalComponentPermission::Any),
            Permission::LocalComponent(LocalComponentPermission::Exact {
                exact: "bar.wasm".into()
            }),
        ]
    );
}

#[test]
fn test_registry_components() {
    let args = CommonPermissionsArgs {
        allow_all: false,
        deny_all: false,
        http: HttpPermissionArgs {
            allow_http: false,
            allow_http_exact: vec![],
            allow_http_prefix: vec![],
            deny_http: false,
            deny_http_exact: vec![],
            deny_http_prefix: vec![],
        },
        font: FontPermissionArgs {
            allow_fonts: false,
            allow_fonts_exact: vec![],
            allow_fonts_prefix: vec![],
            allow_fonts_suffix: vec![],
            deny_fonts: false,
            deny_fonts_exact: vec![],
            deny_fonts_prefix: vec![],
            deny_fonts_suffix: vec![],
        },
        env: EnvPermissionArgs {
            allow_env: false,
            allow_env_exact: vec![],
            allow_env_prefix: vec![],
            allow_env_suffix: vec![],
            deny_env: false,
            deny_env_exact: vec![],
            deny_env_prefix: vec![],
            deny_env_suffix: vec![],
        },
        http_components: HttpComponentPermissionArgs {
            allow_http_components: false,
            allow_http_components_exact: vec![],
            allow_http_components_prefix: vec![],
            deny_http_components: false,
            deny_http_components_exact: vec![],
            deny_http_components_prefix: vec![],
        },
        local_components: LocalComponentPermissionArgs {
            allow_local_components: false,
            allow_local_components_exact: vec![],
            deny_local_components: false,
            deny_local_components_exact: vec![],
        },
        registry_components: RegistryComponentPermissionArgs {
            allow_registry_components: true,
            allow_registry_components_exact: vec!["foo.bar.1.2.3".to_string()],
            deny_registry_components: true,
            deny_registry_components_exact: vec![".baz.1.0.0".to_string()],
        },
    };

    let permissions = args.into_permissions().unwrap();

    assert_eq!(
        permissions.allow,
        vec![
            Permission::RegistryComponent(RegistryComponentPermission {
                publisher: None,
                name: None,
                version: None,
            }),
            Permission::RegistryComponent(RegistryComponentPermission {
                publisher: Some("foo".into()),
                name: Some("bar".into()),
                version: Some(VersionReq::parse("1.2.3").unwrap().to_string()),
            })
        ]
    );

    assert_eq!(
        permissions.deny,
        vec![
            Permission::RegistryComponent(RegistryComponentPermission {
                publisher: None,
                name: None,
                version: None,
            }),
            Permission::RegistryComponent(RegistryComponentPermission {
                publisher: None,
                name: Some("baz".into()),
                version: Some(VersionReq::parse("1.0.0").unwrap().to_string()),
            })
        ]
    );
}

#[test]
fn test_parse_registry_component_permission() {
    let parsed = parse_registry_component_permission("publisher.name.>=2.0.0,<3.0.0").unwrap();
    assert_eq!(parsed.publisher, Some("publisher".into()));
    assert_eq!(parsed.name, Some("name".into()));
    assert_eq!(
        parsed.version,
        Some(VersionReq::parse(">=2.0.0,<3.0.0").unwrap().to_string())
    );

    let parsed_no_version = parse_registry_component_permission("publisher.other.").unwrap();
    assert_eq!(parsed_no_version.publisher, Some("publisher".into()));
    assert_eq!(parsed_no_version.name, Some("other".into()));
    assert_eq!(parsed_no_version.version, None);

    let parsed_just_name = parse_registry_component_permission(".only_name.").unwrap();
    assert_eq!(parsed_just_name.publisher, None);
    assert_eq!(parsed_just_name.name, Some("only_name".into()));
    assert_eq!(parsed_just_name.version, None);

    let parsed_just_publisher =
        parse_registry_component_permission("only_publisher..").unwrap();
    assert_eq!(
        parsed_just_publisher.publisher,
        Some("only_publisher".into())
    );
    assert_eq!(parsed_just_publisher.name, None);
    assert_eq!(parsed_just_publisher.version, None);

    let parsed_just_version = parse_registry_component_permission("..1.2.3").unwrap();
    assert_eq!(parsed_just_version.publisher, None);
    assert_eq!(parsed_just_version.name, None);
    assert_eq!(
        parsed_just_version.version,
        Some(VersionReq::parse("1.2.3").unwrap().to_string())
    );
}


#[test]
fn registry_permission_with_a_bad_version_is_refused() {
    let refused = parse_registry_component_permission("publisher.name.not-a-version");
    assert_eq!(
        refused.unwrap_err(),
        "Failed to parse version requirement from: 'not-a-version'"
    );
}

#[test]
fn the_first_bad_registry_argument_stops_the_conversion() {
    let args = CommonPermissionsArgs {
        allow_all: true,
        deny_all: false,
        http: HttpPermissionArgs {
            allow_http: false,
            allow_http_exact: vec![],
            allow_http_prefix: vec![],
            deny_http: false,
            deny_http_exact: vec![],
            deny_http_prefix: vec![],
        },
        font: FontPermissionArgs {
            allow_fonts: false,
            allow_fonts_exact: vec![],
            allow_fonts_prefix: vec![],
            allow_fonts_suffix: vec![],
            deny_fonts: false,
            deny_fonts_exact: vec![],
            deny_fonts_prefix: vec![],
            deny_fonts_suffix: vec![],
        },
        env: EnvPermissionArgs {
            allow_env: false,
            allow_env_exact: vec![],
            allow_env_prefix: vec![],
            allow_env_suffix: vec![],
            deny_env: false,
            deny_env_exact: vec![],
            deny_env_prefix: vec![],
            deny_env_suffix: vec![],
        },
        http_components: HttpComponentPermissionArgs {
            allow_http_components: false,
            allow_http_components_exact: vec![],
            allow_http_components_prefix: vec![],
            deny_http_components: false,
            deny_http_components_exact: vec![],
            deny_http_components_prefix: vec![],
        },
        local_components: LocalComponentPermissionArgs {
            allow_local_components: false,
            allow_local_components_exact: vec![],
            deny_local_components: false,
            deny_local_components_exact: vec![],
        },
        registry_components: RegistryComponentPermissionArgs {
            allow_registry_components: false,
            allow_registry_components_exact: vec!["a.b.1.0.0".to_string(), "a.b.not-a-version".to_string()],
            deny_registry_components: false,
            deny_registry_components_exact: vec!["no dots here".to_string()],
        },
    };
    assert_eq!(
        args.into_permissions().unwrap_err(),
        "Failed to parse version requirement from: 'not-a-version'"
    );
}
