use duck_launcher::asset::{AssetIndex, AssetObject};
use duck_launcher::dependency::resolve;
use duck_launcher::natives::get_required_natives;
use duck_launcher::sync::{
    plan_sync, required_asset_artifacts, required_library_artifacts, required_native_artifacts,
};
use duck_launcher::version::{
    ClassifierEntry, VersionLibrary, VersionLibraryDownload, VersionLibraryDownloadObject,
};
use duck_launcher::OsKind;

fn object(path: &str, size: u64) -> VersionLibraryDownloadObject {
    VersionLibraryDownloadObject {
        path: path.to_string(),
        sha1: String::new(),
        size,
        url: format!("http://dl/{}", path),
    }
}

#[test]
fn test_end_to_end_provisioning() {
    // Two libraries sharing a (group, artifact) pair; the second has
    // the higher version and carries the native classifier for the
    // running platform.
    let lower = VersionLibrary {
        downloads: Some(VersionLibraryDownload {
            artifact: Some(object("com/foo/bar/1.0.0/bar-1.0.0.jar", 100)),
            classifiers: None,
        }),
        name: "com.foo:bar:1.0.0".to_string(),
        url: None,
        natives: None,
        rules: None,
    };
    let higher = VersionLibrary {
        downloads: Some(VersionLibraryDownload {
            artifact: Some(object("com/foo/bar/1.1.0/bar-1.1.0.jar", 110)),
            classifiers: Some(vec![ClassifierEntry {
                key: "natives-linux".to_string(),
                object: object("com/foo/bar/1.1.0/bar-1.1.0-natives-linux.jar", 55),
            }]),
        }),
        name: "com.foo:bar:1.1.0".to_string(),
        url: None,
        natives: None,
        rules: None,
    };
    let libraries = vec![lower, higher];

    let resolved = resolve(&libraries).unwrap_or_else(|_| panic!("expected resolution"));
    assert_eq!(resolved.len(), 1);
    assert_eq!(resolved[0].version, "1.1.0");

    // Library batch: the one retained jar is absent, so exactly one
    // fetch is scheduled.
    let lib_reqs = required_library_artifacts(&libraries, &resolved);
    assert_eq!(lib_reqs.len(), 1);
    assert_eq!(lib_reqs[0].path, "libraries/com/foo/bar/1.1.0/bar-1.1.0.jar");
    let lib_plan = plan_sync(&lib_reqs, &vec![None]);
    assert_eq!(lib_plan.len(), 1);

    // Native batch: one applicable native, absent, one fetch.
    let natives = get_required_natives(&libraries, &resolved, OsKind::Linux);
    let native_reqs = required_native_artifacts(&natives);
    assert_eq!(native_reqs.len(), 1);
    let native_plan = plan_sync(&native_reqs, &vec![None]);
    assert_eq!(native_plan.len(), 1);

    // Asset batch: three objects, one already cached with the right
    // size, two missing: exactly two fetches.
    let index = AssetIndex {
        is_virtual: false,
        objects: vec![
            AssetObject {
                logical_path: "one.png".to_string(),
                hash: "aa11".to_string(),
                size: 10,
            },
            AssetObject {
                logical_path: "two.png".to_string(),
                hash: "bb22".to_string(),
                size: 20,
            },
            AssetObject {
                logical_path: "three.png".to_string(),
                hash: "cc33".to_string(),
                size: 30,
            },
        ],
    };
    let asset_reqs = required_asset_artifacts(&index, "1.16");
    assert_eq!(asset_reqs.len(), 3);
    let observed = vec![Some(10), None, None];
    let asset_plan = plan_sync(&asset_reqs, &observed);
    assert_eq!(asset_plan, vec![1, 2]);
}
