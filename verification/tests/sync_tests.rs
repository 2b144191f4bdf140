use duck_launcher::asset::{AssetIndex, AssetObject};
use duck_launcher::sync::{
    plan_sync, required_asset_artifacts, required_asset_index_artifact, required_client_artifact,
    RequiredArtifact,
};
use duck_launcher::version::{
    Version, VersionAssetIndex, VersionDownload, VersionDownloadObject,
};

fn req(path: &str, size: u64) -> RequiredArtifact {
    RequiredArtifact {
        path: path.to_string(),
        url: format!("http://host/{}", path),
        size,
    }
}

fn plain_version() -> Version {
    Version {
        arguments: None,
        asset_index: VersionAssetIndex {
            id: "1.16".to_string(),
            sha1: String::new(),
            size: 4321,
            total_size: 99999,
            url: "http://meta/1.16.json".to_string(),
        },
        assets: "1.16".to_string(),
        compliance_level: None,
        downloads: VersionDownload {
            client: Some(VersionDownloadObject {
                sha1: String::new(),
                size: 1000,
                url: "http://dl/client.jar".to_string(),
            }),
            client_mappings: None,
            server: None,
            server_mappings: None,
        },
        id: "1.16.5".to_string(),
        libraries: vec![],
        main_class: "net.minecraft.client.main.Main".to_string(),
        minecraft_arguments: None,
        minimum_launcher_version: 21,
        release_time: String::new(),
        time: String::new(),
        release_type: "release".to_string(),
    }
}

#[test]
fn test_size_mismatch_refetches() {
    let required = vec![req("libraries/a.jar", 10)];
    assert_eq!(plan_sync(&required, &vec![Some(9)]), vec![0]);
    assert_eq!(plan_sync(&required, &vec![Some(11)]), vec![0]);
    assert_eq!(plan_sync(&required, &vec![None]), vec![0]);
    assert_eq!(plan_sync(&required, &vec![Some(10)]), Vec::<usize>::new());
}

#[test]
fn test_sync_idempotent() {
    let required = vec![
        req("libraries/a.jar", 10),
        req("libraries/b.jar", 20),
        req("libraries/c.jar", 30),
    ];
    let observed_first = vec![Some(10), None, Some(7)];
    let first = plan_sync(&required, &observed_first);
    assert_eq!(first, vec![1, 2]);
    // After the scheduled fetches succeed, every file has its declared
    // size; the second run schedules nothing.
    let observed_second = vec![Some(10), Some(20), Some(30)];
    let second = plan_sync(&required, &observed_second);
    assert_eq!(second, Vec::<usize>::new());
    let third = plan_sync(&required, &observed_second);
    assert_eq!(third, Vec::<usize>::new());
}

#[test]
fn test_plan_sync_empty() {
    let required: Vec<RequiredArtifact> = vec![];
    let observed: Vec<Option<u64>> = vec![];
    assert_eq!(plan_sync(&required, &observed), Vec::<usize>::new());
}

#[test]
fn test_asset_requirements_flat() {
    let index = AssetIndex {
        is_virtual: false,
        objects: vec![AssetObject {
            logical_path: "icons/icon_16x16.png".to_string(),
            hash: "bdf48ef6b5d0d23bbb02e17d04865216179f510a".to_string(),
            size: 3665,
        }],
    };
    let r = required_asset_artifacts(&index, "1.16");
    assert_eq!(r.len(), 1);
    assert_eq!(
        r[0].path,
        "assets/objects/bd/bdf48ef6b5d0d23bbb02e17d04865216179f510a"
    );
    assert_eq!(
        r[0].url,
        "http://resources.download.minecraft.net/bd/bdf48ef6b5d0d23bbb02e17d04865216179f510a"
    );
    assert_eq!(r[0].size, 3665);
}

#[test]
fn test_asset_requirements_virtual() {
    let index = AssetIndex {
        is_virtual: true,
        objects: vec![AssetObject {
            logical_path: "lang/en_us.json".to_string(),
            hash: "abcdef0123".to_string(),
            size: 12,
        }],
    };
    let r = required_asset_artifacts(&index, "legacy");
    assert_eq!(r.len(), 1);
    assert_eq!(r[0].path, "assets/virtual/legacy/lang/en_us.json");
    assert_eq!(
        r[0].url,
        "http://resources.download.minecraft.net/ab/abcdef0123"
    );
}

#[test]
fn test_client_requirement() {
    let v = plain_version();
    let r = required_client_artifact(&v).unwrap();
    assert_eq!(r.path, "libraries/com/mojang/minecraft/1.16.5/client/1.16.5.jar");
    assert_eq!(r.url, "http://dl/client.jar");
    assert_eq!(r.size, 1000);
    let mut without = plain_version();
    without.downloads.client = None;
    assert!(required_client_artifact(&without).is_none());
}

#[test]
fn test_asset_index_requirement() {
    let v = plain_version();
    let r = required_asset_index_artifact(&v);
    assert_eq!(r.path, "assets/indexes/1.16.json");
    assert_eq!(r.url, "http://meta/1.16.json");
    assert_eq!(r.size, 4321);
}
