use duck_launcher::dependency::resolve;
use duck_launcher::natives::get_required_natives;
use duck_launcher::sync::required_native_artifacts;
use duck_launcher::version::{
    ClassifierEntry, VersionLibrary, VersionLibraryDownload, VersionLibraryDownloadObject,
};
use duck_launcher::OsKind;

fn object(path: &str, size: u64) -> VersionLibraryDownloadObject {
    VersionLibraryDownloadObject {
        path: path.to_string(),
        sha1: String::new(),
        size,
        url: format!("http://dl/{}", path),
    }
}

fn native_lib(name: &str) -> VersionLibrary {
    VersionLibrary {
        downloads: Some(VersionLibraryDownload {
            artifact: None,
            classifiers: Some(vec![
                ClassifierEntry {
                    key: "natives-windows".to_string(),
                    object: object("org/lwjgl/lwjgl/3.2.2/lwjgl-3.2.2-natives-windows.jar", 11),
                },
                ClassifierEntry {
                    key: "natives-linux".to_string(),
                    object: object("org/lwjgl/lwjgl/3.2.2/lwjgl-3.2.2-natives-linux.jar", 22),
                },
                ClassifierEntry {
                    key: "natives-macos".to_string(),
                    object: object("org/lwjgl/lwjgl/3.2.2/lwjgl-3.2.2-natives-macos.jar", 33),
                },
            ]),
        }),
        name: name.to_string(),
        url: None,
        natives: None,
        rules: None,
    }
}

#[test]
fn test_native_selection_linux() {
    let libs = vec![native_lib("org.lwjgl:lwjgl:3.2.2")];
    let resolved = resolve(&libs).unwrap_or_else(|_| panic!("expected resolution"));
    let natives = get_required_natives(&libs, &resolved, OsKind::Linux);
    assert_eq!(natives.len(), 1);
    assert_eq!(
        natives[0].path,
        "org/lwjgl/lwjgl/3.2.2/lwjgl-3.2.2-natives-linux.jar"
    );
    assert_eq!(natives[0].size, 22);
}

#[test]
fn test_native_selection_per_os() {
    let libs = vec![native_lib("org.lwjgl:lwjgl:3.2.2")];
    let resolved = resolve(&libs).unwrap_or_else(|_| panic!("expected resolution"));
    let windows = get_required_natives(&libs, &resolved, OsKind::Windows);
    assert_eq!(windows[0].size, 11);
    let macos = get_required_natives(&libs, &resolved, OsKind::Macos);
    assert_eq!(macos[0].size, 33);
}

#[test]
fn test_native_selection_without_matching_key() {
    let mut lib = native_lib("org.lwjgl:lwjgl:3.2.2");
    if let Some(dl) = &mut lib.downloads {
        if let Some(cls) = &mut dl.classifiers {
            cls.retain(|c| c.key != "natives-linux");
        }
    }
    let libs = vec![lib];
    let resolved = resolve(&libs).unwrap_or_else(|_| panic!("expected resolution"));
    let natives = get_required_natives(&libs, &resolved, OsKind::Linux);
    assert_eq!(natives.len(), 0);
}

#[test]
fn test_native_requirements_paths() {
    let libs = vec![native_lib("org.lwjgl:lwjgl:3.2.2")];
    let resolved = resolve(&libs).unwrap_or_else(|_| panic!("expected resolution"));
    let natives = get_required_natives(&libs, &resolved, OsKind::Linux);
    let reqs = required_native_artifacts(&natives);
    assert_eq!(reqs.len(), 1);
    assert_eq!(
        reqs[0].path,
        "libraries/org/lwjgl/lwjgl/3.2.2/lwjgl-3.2.2-natives-linux.jar"
    );
    assert_eq!(reqs[0].size, 22);
}
