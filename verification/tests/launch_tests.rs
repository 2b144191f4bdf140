use duck_launcher::dependency::resolve;
use duck_launcher::launch::{
    build_classpath, compile_arguments, game_directory, get_required_libraries_paths,
    get_required_natives_paths, join_directories, natives_directory,
};
use duck_launcher::natives::get_required_natives;
use duck_launcher::semver_order::{semver_compare, semver_parses, VersionOrder};
use duck_launcher::strings::remove_invalid_characters;
use duck_launcher::version::{
    ClassifierEntry, Version, VersionArgument, VersionAssetIndex, VersionDownload,
    VersionLibrary, VersionLibraryDownload, VersionLibraryDownloadObject, VersionManifest,
    VersionManifestLatest, VersionManifestVersion,
};
use duck_launcher::instance::{Instance, InstanceFlavor, InstanceType};
use duck_launcher::OsKind;

#[test]
fn test_classpath_separator_linux() {
    let libs = vec!["libraries/a.jar".to_string(), "libraries/b.jar".to_string()];
    let natives = vec!["libraries/n.jar".to_string()];
    let client = "libraries/client.jar".to_string();
    let cp = build_classpath(&libs, &natives, &client, OsKind::Linux);
    assert_eq!(cp, "libraries/a.jar:libraries/b.jar:libraries/n.jar:libraries/client.jar");
    let cp_mac = build_classpath(&libs, &natives, &client, OsKind::Macos);
    assert_eq!(cp_mac, cp);
}

#[test]
fn test_classpath_separator_windows() {
    let libs = vec!["libraries/a.jar".to_string(), "libraries/b.jar".to_string()];
    let natives = vec!["libraries/n.jar".to_string()];
    let client = "libraries/client.jar".to_string();
    let cp = build_classpath(&libs, &natives, &client, OsKind::Windows);
    assert_eq!(cp, "libraries/a.jar;libraries/b.jar;libraries/n.jar;libraries/client.jar");
}

#[test]
fn test_compile_arguments_substitution() {
    let jvm_template = vec![
        "-Dlauncher=${launcher_name}".to_string(),
        "-Dversion=${launcher_version}".to_string(),
        "-Djava.library.path=${natives_directory}".to_string(),
        "-cp".to_string(),
        "${classpath}".to_string(),
        "-Xmx2G".to_string(),
    ];
    let game_template = vec![
        "--username".to_string(),
        "${auth_player_name}".to_string(),
        "--uuid".to_string(),
        "${auth_uuid}".to_string(),
        "--accessToken".to_string(),
        "${auth_access_token}".to_string(),
        "--userType".to_string(),
        "${user_type}".to_string(),
        "--version".to_string(),
        "${version_name}".to_string(),
        "--versionType".to_string(),
        "${version_type}".to_string(),
        "--assetIndex".to_string(),
        "${assets_index_name}".to_string(),
        "--gameDir".to_string(),
        "${game_directory}".to_string(),
        "--assetsDir".to_string(),
        "${assets_root}".to_string(),
    ];
    let r = compile_arguments(
        &jvm_template,
        &game_template,
        "a.jar:b.jar",
        "instances/1.16.5/natives",
        "Steve",
        "uuid-1234",
        "token-9999",
        "1.16.5",
        "release",
        "1.16",
        "instances/1.16.5/.minecraft",
        "assets",
    );
    assert_eq!(
        r.jvm_args,
        vec![
            "-Dlauncher=DuckLauncher".to_string(),
            "-Dversion=1".to_string(),
            "-Djava.library.path=instances/1.16.5/natives".to_string(),
            "-cp".to_string(),
            "a.jar:b.jar".to_string(),
            "-Xmx2G".to_string(),
        ]
    );
    assert_eq!(
        r.game_args,
        vec![
            "--username".to_string(),
            "Steve".to_string(),
            "--uuid".to_string(),
            "uuid-1234".to_string(),
            "--accessToken".to_string(),
            "token-9999".to_string(),
            "--userType".to_string(),
            "mojang".to_string(),
            "--version".to_string(),
            "1.16.5".to_string(),
            "--versionType".to_string(),
            "release".to_string(),
            "--assetIndex".to_string(),
            "1.16".to_string(),
            "--gameDir".to_string(),
            "instances/1.16.5/.minecraft".to_string(),
            "--assetsDir".to_string(),
            "assets".to_string(),
        ]
    );
}

#[test]
fn test_instance_directories() {
    assert_eq!(natives_directory("1.16.5"), "instances/1.16.5/natives");
    assert_eq!(game_directory("1.16.5"), "instances/1.16.5/.minecraft");
    let parts = vec!["com".to_string(), "mojang".to_string()];
    assert_eq!(join_directories("meta", &parts), "meta/com/mojang");
}

#[test]
fn test_library_and_native_paths() {
    let libs = vec![VersionLibrary {
        downloads: Some(VersionLibraryDownload {
            artifact: Some(VersionLibraryDownloadObject {
                path: "com/foo/bar/1.0.0/bar-1.0.0.jar".to_string(),
                sha1: String::new(),
                size: 5,
                url: String::new(),
            }),
            classifiers: Some(vec![ClassifierEntry {
                key: "natives-linux".to_string(),
                object: VersionLibraryDownloadObject {
                    path: "com/foo/bar/1.0.0/bar-1.0.0-natives-linux.jar".to_string(),
                    sha1: String::new(),
                    size: 6,
                    url: String::new(),
                },
            }]),
        }),
        name: "com.foo:bar:1.0.0".to_string(),
        url: None,
        natives: None,
        rules: None,
    }];
    let resolved = resolve(&libs).unwrap_or_else(|_| panic!("expected resolution"));
    let paths = get_required_libraries_paths(&libs, &resolved);
    assert_eq!(paths, vec!["libraries/com/foo/bar/1.0.0/bar-1.0.0.jar".to_string()]);
    let natives = get_required_natives(&libs, &resolved, OsKind::Linux);
    let native_paths = get_required_natives_paths(&natives);
    assert_eq!(
        native_paths,
        vec!["libraries/com/foo/bar/1.0.0/bar-1.0.0-natives-linux.jar".to_string()]
    );
}

#[test]
fn test_remove_invalid_characters() {
    assert_eq!(remove_invalid_characters("a/b\\c:d*e?f\"g<h>i|j"), "abcdefghij");
    assert_eq!(remove_invalid_characters("plain-name_1.0"), "plain-name_1.0");
    assert_eq!(remove_invalid_characters(""), "");
}

#[test]
fn test_semver_order_wrappers() {
    assert!(semver_parses("1.2.3"));
    assert!(semver_parses("1.0.0-alpha.1"));
    assert!(!semver_parses("1.0"));
    assert!(!semver_parses("weird"));
    assert_eq!(semver_compare("1.0.0", "2.0.0"), VersionOrder::Less);
    assert_eq!(semver_compare("2.0.0", "1.9.9"), VersionOrder::Greater);
    assert_eq!(semver_compare("1.0.0", "1.0.0"), VersionOrder::Equal);
    assert_eq!(semver_compare("1.0.0-alpha", "1.0.0"), VersionOrder::Less);
    assert_eq!(semver_compare("1.0", "1.0.0"), VersionOrder::Unparseable);
}

#[test]
fn test_game_arguments_rendering() {
    let v = Version {
        arguments: Some(VersionArgument {
            game: vec!["--username".to_string(), "${auth_player_name}".to_string()],
            jvm: vec![],
        }),
        asset_index: VersionAssetIndex {
            id: "1.16".to_string(),
            sha1: String::new(),
            size: 0,
            total_size: 0,
            url: String::new(),
        },
        assets: "1.16".to_string(),
        compliance_level: None,
        downloads: VersionDownload {
            client: None,
            client_mappings: None,
            server: None,
            server_mappings: None,
        },
        id: "1.16.5".to_string(),
        libraries: vec![],
        main_class: String::new(),
        minecraft_arguments: None,
        minimum_launcher_version: 0,
        release_time: String::new(),
        time: String::new(),
        release_type: "release".to_string(),
    };
    assert_eq!(v.get_game_arguments(), "--username ${auth_player_name}");
    assert_eq!(v.get_libraries(), Vec::<String>::new());
    let mut legacy = v;
    legacy.arguments = None;
    legacy.minecraft_arguments = Some("--legacy --flags".to_string());
    assert_eq!(legacy.get_game_arguments(), "--legacy --flags");
}

#[test]
fn test_game_arguments_trimmed() {
    let mut v = Version {
        arguments: Some(VersionArgument {
            game: vec!["a ".to_string()],
            jvm: vec![],
        }),
        asset_index: VersionAssetIndex {
            id: "1.16".to_string(),
            sha1: String::new(),
            size: 0,
            total_size: 0,
            url: String::new(),
        },
        assets: "1.16".to_string(),
        compliance_level: None,
        downloads: VersionDownload {
            client: None,
            client_mappings: None,
            server: None,
            server_mappings: None,
        },
        id: "1.16.5".to_string(),
        libraries: vec![],
        main_class: String::new(),
        minecraft_arguments: None,
        minimum_launcher_version: 0,
        release_time: String::new(),
        time: String::new(),
        release_type: "release".to_string(),
    };
    // A token's own trailing whitespace is trimmed off the rendered end.
    assert_eq!(v.get_game_arguments(), "a");
    // Inner whitespace survives; only the edges are trimmed.
    v.arguments = Some(VersionArgument {
        game: vec![" a ".to_string(), " b ".to_string()],
        jvm: vec![],
    });
    assert_eq!(v.get_game_arguments(), "a   b");
    // The legacy one-string field is trimmed too.
    v.arguments = None;
    v.minecraft_arguments = Some("  --legacy --flags\t".to_string());
    assert_eq!(v.get_game_arguments(), "--legacy --flags");
    // No arguments at all render as the empty string.
    v.minecraft_arguments = None;
    assert_eq!(v.get_game_arguments(), "");
}

#[test]
fn test_find_version_in_manifest() {
    let manifest = VersionManifest {
        latest: VersionManifestLatest {
            release: "1.16.5".to_string(),
            snapshot: "21w05a".to_string(),
        },
        versions: vec![
            VersionManifestVersion {
                id: "21w05a".to_string(),
                release_type: "snapshot".to_string(),
                url: "http://meta/21w05a.json".to_string(),
                time: String::new(),
                release_time: String::new(),
            },
            VersionManifestVersion {
                id: "1.16.5".to_string(),
                release_type: "release".to_string(),
                url: "http://meta/1.16.5.json".to_string(),
                time: String::new(),
                release_time: String::new(),
            },
        ],
    };
    assert_eq!(manifest.find_version("1.16.5"), Some(1));
    assert_eq!(manifest.find_version("1.0"), None);
}

#[test]
fn test_instance_builders() {
    let instance = Instance::new("main", "steve")
        .with_flavor(InstanceFlavor::FABRIC)
        .with_type(InstanceType::SERVER)
        .with_account("alex".to_string())
        .with_jvm_arguments("-Xmx4G".to_string());
    assert_eq!(instance.name, "main");
    assert_eq!(instance.selected_account, "alex");
    assert_eq!(instance.jvm_arguments, Some("-Xmx4G".to_string()));
    assert!(matches!(instance.kind, InstanceType::SERVER));
    assert!(matches!(instance.flavor, InstanceFlavor::FABRIC));
    assert_eq!(instance.version, 1);
    assert!(instance.tags.is_none());
}
