use duck_launcher::store::{
    LibrariesMetadata, LibrariesMetadataDependency, LibrariesMetadataDependencyNative, GAV,
};
use duck_launcher::version::{
    ClassifierEntry, Version, VersionAssetIndex, VersionDownload, VersionDownloadObject,
    VersionLibrary, VersionLibraryDownload, VersionLibraryDownloadObject, VersionLibraryRule,
    VersionLibraryRuleOSObject,
};

fn artifact_lib(name: &str, path: &str, size: u64) -> VersionLibrary {
    VersionLibrary {
        downloads: Some(VersionLibraryDownload {
            artifact: Some(VersionLibraryDownloadObject {
                path: path.to_string(),
                sha1: String::new(),
                size,
                url: format!("http://dl/{}", path),
            }),
            classifiers: None,
        }),
        name: name.to_string(),
        url: None,
        natives: None,
        rules: None,
    }
}

fn classified_lib(name: &str) -> VersionLibrary {
    VersionLibrary {
        downloads: Some(VersionLibraryDownload {
            artifact: Some(VersionLibraryDownloadObject {
                path: "org/lwjgl/lwjgl/3.2.2/lwjgl-3.2.2.jar".to_string(),
                sha1: String::new(),
                size: 50,
                url: "http://dl/lwjgl.jar".to_string(),
            }),
            classifiers: Some(vec![ClassifierEntry {
                key: "natives-linux".to_string(),
                object: VersionLibraryDownloadObject {
                    path: "org/lwjgl/lwjgl/3.2.2/lwjgl-3.2.2-natives-linux.jar".to_string(),
                    sha1: String::new(),
                    size: 60,
                    url: "http://dl/lwjgl-natives.jar".to_string(),
                },
            }]),
        }),
        name: name.to_string(),
        url: None,
        natives: None,
        rules: Some(vec![VersionLibraryRule {
            action: "allow".to_string(),
            os: Some(VersionLibraryRuleOSObject {
                name: "linux".to_string(),
                version: None,
            }),
        }]),
    }
}

fn version_with(libraries: Vec<VersionLibrary>) -> Version {
    Version {
        arguments: None,
        asset_index: VersionAssetIndex {
            id: "1.16".to_string(),
            sha1: String::new(),
            size: 4321,
            total_size: 99999,
            url: "http://meta/1.16.json".to_string(),
        },
        assets: "1.16".to_string(),
        compliance_level: None,
        downloads: VersionDownload {
            client: Some(VersionDownloadObject {
                sha1: String::new(),
                size: 1000,
                url: "http://dl/client.jar".to_string(),
            }),
            client_mappings: None,
            server: Some(VersionDownloadObject {
                sha1: String::new(),
                size: 2000,
                url: "http://dl/server.jar".to_string(),
            }),
            server_mappings: None,
        },
        id: "1.16.5".to_string(),
        libraries,
        main_class: "net.minecraft.client.main.Main".to_string(),
        minecraft_arguments: None,
        minimum_launcher_version: 21,
        release_time: String::new(),
        time: String::new(),
        release_type: "release".to_string(),
    }
}

#[test]
fn test_merge_records_version() {
    let v = version_with(vec![
        artifact_lib("com.google.guava:guava:21.0", "com/google/guava/guava/21.0/guava-21.0.jar", 7),
        classified_lib("org.lwjgl:lwjgl:3.2.2"),
    ]);
    let probed = vec![None, None];
    let s = LibrariesMetadata::new().push_mc_version(&v, &probed);
    assert_eq!(s.version, 1);
    assert_eq!(s.libraries.len(), 2);
    assert_eq!(s.libraries[0].group, "com.google.guava");
    assert_eq!(s.libraries[0].artifact, "guava");
    assert_eq!(s.libraries[0].versions.len(), 1);
    assert_eq!(s.libraries[0].versions[0].id, "21.0");
    assert_eq!(s.libraries[0].versions[0].name, "com.google.guava:guava:21.0");
    assert_eq!(s.libraries[0].versions[0].size, Some(7));
    assert!(s.libraries[0].versions[0].native.is_none());
    let native = s.libraries[1].versions[0].native.as_ref().unwrap();
    assert_eq!(native.platforms.len(), 1);
    assert_eq!(native.platforms[0].key, "natives-linux");
    assert_eq!(native.platforms[0].record.id, "org.lwjgl:lwjgl:3.2.2");
    let rules = native.rules.as_ref().unwrap();
    assert_eq!(rules.len(), 1);
    assert_eq!(rules[0].os, "linux");
    assert!(rules[0].rule.allowed);
    assert_eq!(s.clients.len(), 1);
    assert_eq!(s.clients[0].id, "com.mojang:minecraft:1.16.5");
    assert_eq!(s.clients[0].name, "Minecraft 1.16.5");
    assert_eq!(
        s.clients[0].path.as_ref().unwrap(),
        "com/mojang/minecraft/1.16.5/1.16.5-client.jar"
    );
    assert_eq!(s.servers.len(), 1);
}

#[test]
fn test_merge_twice_no_duplicates() {
    let v = version_with(vec![
        artifact_lib("com.google.guava:guava:21.0", "com/google/guava/guava/21.0/guava-21.0.jar", 7),
        classified_lib("org.lwjgl:lwjgl:3.2.2"),
    ]);
    let probed = vec![None, None];
    let once = LibrariesMetadata::new().push_mc_version(&v, &probed);
    let lib_count = once.libraries.len();
    let version_counts: Vec<usize> = once.libraries.iter().map(|g| g.versions.len()).collect();
    let client_count = once.clients.len();
    let server_count = once.servers.len();
    let twice = once.push_mc_version(&v, &probed);
    assert_eq!(twice.libraries.len(), lib_count);
    let version_counts_after: Vec<usize> =
        twice.libraries.iter().map(|g| g.versions.len()).collect();
    assert_eq!(version_counts_after, version_counts);
    assert_eq!(twice.clients.len(), client_count);
    assert_eq!(twice.servers.len(), server_count);
}

#[test]
fn test_merge_backfills_native_only() {
    // The version is first seen without a classifier map: no native
    // descriptor is recorded.
    let bare = version_with(vec![artifact_lib(
        "org.lwjgl:lwjgl:3.2.2",
        "org/lwjgl/lwjgl/3.2.2/lwjgl-3.2.2.jar",
        50,
    )]);
    let s1 = LibrariesMetadata::new().push_mc_version(&bare, &vec![None]);
    assert!(s1.libraries[0].versions[0].native.is_none());
    // Seen again with classifiers, the existing record gains only the
    // native descriptor.
    let with_native = version_with(vec![classified_lib("org.lwjgl:lwjgl:3.2.2")]);
    let s2 = s1.push_mc_version(&with_native, &vec![None]);
    assert_eq!(s2.libraries.len(), 1);
    assert_eq!(s2.libraries[0].versions.len(), 1);
    assert!(s2.libraries[0].versions[0].native.is_some());
}

#[test]
fn test_store_lookups() {
    let mut s = LibrariesMetadata::new();
    s.push_library(GAV {
        group: "a".to_string(),
        artifact: "b".to_string(),
        versions: vec![],
    });
    assert!(s.contains_gav(&"a".to_string(), &"b".to_string()));
    assert!(!s.contains_gav(&"a".to_string(), &"c".to_string()));
    assert_eq!(s.get_gav(&"a".to_string(), &"b".to_string()), Some(0));
    let record = LibrariesMetadataDependency {
        id: "1.0".to_string(),
        name: "a:b:1.0".to_string(),
        size: None,
        url: None,
        path: None,
        native: None,
    };
    let mut gav = GAV {
        group: "a".to_string(),
        artifact: "b".to_string(),
        versions: vec![],
    };
    gav.push_version(record);
    assert!(gav.contains_version(&"1.0".to_string()));
    assert!(!gav.contains_version(&"2.0".to_string()));
    assert_eq!(gav.get_version(&"1.0".to_string()), Some(0));
    s.push_client(LibrariesMetadataDependency {
        id: "com.mojang:minecraft:1.16.5".to_string(),
        name: "Minecraft 1.16.5".to_string(),
        size: None,
        url: None,
        path: None,
        native: None,
    });
    assert!(s.contains_client(&"com.mojang:minecraft:1.16.5".to_string()));
    assert!(!s.contains_server(&"com.mojang:minecraft:1.16.5".to_string()));
}

#[test]
fn test_native_descriptor_rules() {
    // A rule without an OS object is not recorded; with none left the
    // descriptor carries no rule map at all.
    let mut lib = classified_lib("org.lwjgl:lwjgl:3.2.2");
    lib.rules = Some(vec![
        VersionLibraryRule {
            action: "disallow".to_string(),
            os: Some(VersionLibraryRuleOSObject {
                name: "windows".to_string(),
                version: Some("^10\\.".to_string()),
            }),
        },
        VersionLibraryRule {
            action: "allow".to_string(),
            os: None,
        },
    ]);
    let descriptor = LibrariesMetadataDependencyNative::parse_from(&lib).unwrap();
    let rules = descriptor.rules.as_ref().unwrap();
    assert_eq!(rules.len(), 1);
    assert_eq!(rules[0].os, "windows");
    assert!(!rules[0].rule.allowed);
    assert_eq!(rules[0].rule.version, Some("^10\\.".to_string()));

    let mut no_os_rules = classified_lib("org.lwjgl:lwjgl:3.2.2");
    no_os_rules.rules = Some(vec![VersionLibraryRule {
        action: "allow".to_string(),
        os: None,
    }]);
    let descriptor = LibrariesMetadataDependencyNative::parse_from(&no_os_rules).unwrap();
    assert!(descriptor.rules.is_none());

    let plain = artifact_lib("a:b:1.0.0", "a/b/1.0.0/b-1.0.0.jar", 1);
    assert!(LibrariesMetadataDependencyNative::parse_from(&plain).is_none());
}

#[test]
fn test_maven_indirect_library_takes_probed_size() {
    let lib = VersionLibrary {
        downloads: None,
        name: "com.foo:bar:1.2.3".to_string(),
        url: Some("http://maven.example".to_string()),
        natives: None,
        rules: None,
    };
    let rec = lib.to_libraries_metadata_dependency(&"1.2.3".to_string(), Some(777));
    assert_eq!(rec.size, Some(777));
    assert_eq!(
        rec.url.as_ref().unwrap(),
        "http://maven.example/com/foo/bar/1.2.3/bar-1.2.3.jar"
    );
    assert_eq!(rec.path.as_ref().unwrap(), "com/foo/bar/1.2.3/bar-1.2.3.jar");
    assert!(rec.native.is_none());
}
