use duck_launcher::dependency::{resolve, Dependency};
use duck_launcher::version::{VersionLibrary, VersionLibraryDownloadObject};

fn lib(name: &str) -> VersionLibrary {
    VersionLibrary {
        downloads: None,
        name: name.to_string(),
        url: None,
        natives: None,
        rules: None,
    }
}

#[test]
fn test_resolve_keeps_highest_version() {
    let libs = vec![lib("a:b:1.0.0"), lib("a:b:2.0.0"), lib("a:b:1.5.0")];
    let r = match resolve(&libs) {
        Ok(r) => r,
        Err(_) => panic!("expected successful resolution"),
    };
    assert_eq!(r.len(), 1);
    assert_eq!(r[0].version, "2.0.0");
    assert_eq!(r[0].index, 1);
    assert!(r[0].version_ok);
}

#[test]
fn test_resolve_keeps_one_entry_per_pair() {
    let libs = vec![
        lib("a:b:1.0.0"),
        lib("c:d:3.0.0"),
        lib("a:b:2.0.0"),
        lib("c:d:2.9.9"),
    ];
    let r = match resolve(&libs) {
        Ok(r) => r,
        Err(_) => panic!("expected successful resolution"),
    };
    assert_eq!(r.len(), 2);
    assert_eq!(r[0].group, "a");
    assert_eq!(r[0].version, "2.0.0");
    assert_eq!(r[1].group, "c");
    assert_eq!(r[1].version, "3.0.0");
}

#[test]
fn test_resolve_rejects_malformed_coordinate() {
    let libs = vec![lib("a:b:1.0.0"), lib("only:two")];
    match resolve(&libs) {
        Ok(_) => panic!("expected a coordinate parse error"),
        Err(e) => assert_eq!(e.coordinate, "only:two"),
    }
}

#[test]
fn test_resolve_rejects_too_many_segments() {
    let libs = vec![lib("a:b:c:d")];
    match resolve(&libs) {
        Ok(_) => panic!("expected a coordinate parse error"),
        Err(e) => assert_eq!(e.coordinate, "a:b:c:d"),
    }
}

#[test]
fn test_resolve_keeps_unparseable_versions() {
    let libs = vec![lib("a:b:weird"), lib("a:b:1.0.0"), lib("a:b:strange")];
    let r = match resolve(&libs) {
        Ok(r) => r,
        Err(_) => panic!("expected successful resolution"),
    };
    assert_eq!(r.len(), 3);
    assert_eq!(r[0].version, "weird");
    assert!(!r[0].version_ok);
    assert_eq!(r[1].version, "1.0.0");
    assert!(r[1].version_ok);
    assert_eq!(r[2].version, "strange");
}

#[test]
fn test_resolve_dedups_identical_coordinates() {
    let libs = vec![lib("a:b:1.0.0"), lib("a:b:1.0.0")];
    let r = match resolve(&libs) {
        Ok(r) => r,
        Err(_) => panic!("expected successful resolution"),
    };
    assert_eq!(r.len(), 1);
    assert_eq!(r[0].index, 1);
}

#[test]
fn test_resolve_tie_keeps_retained_entry() {
    let libs = vec![lib("a:b:2.0.0"), lib("a:b:1.9.9")];
    let r = match resolve(&libs) {
        Ok(r) => r,
        Err(_) => panic!("expected successful resolution"),
    };
    assert_eq!(r.len(), 1);
    assert_eq!(r[0].index, 0);
    assert_eq!(r[0].version, "2.0.0");
}

#[test]
fn test_resolve_empty_list() {
    let libs: Vec<VersionLibrary> = vec![];
    let r = match resolve(&libs) {
        Ok(r) => r,
        Err(_) => panic!("expected successful resolution"),
    };
    assert_eq!(r.len(), 0);
}

#[test]
fn test_dependency_from_version_library() {
    let l = lib("net.java.dev.jna:jna:4.4.0");
    let d = Dependency::from_version_library(&l).unwrap();
    assert_eq!(d.group, "net.java.dev.jna");
    assert_eq!(d.artifact, "jna");
    assert_eq!(d.version, "4.4.0");
    assert!(Dependency::from_version_library(&lib("nocolons")).is_none());
}

#[test]
fn test_maven_layout() {
    let d = Dependency {
        group: "com.foo".to_string(),
        artifact: "bar".to_string(),
        version: "1.2.3".to_string(),
    };
    assert_eq!(d.to_maven_url_layout_jar(), "com/foo/bar/1.2.3/bar-1.2.3.jar");
}

#[test]
fn test_dependency_from_path() {
    let o = VersionLibraryDownloadObject {
        path: "com/foo/bar/1.0/bar-1.0.jar".to_string(),
        sha1: String::new(),
        size: 7,
        url: String::new(),
    };
    let d = Dependency::from_version_library_download_object(&o);
    assert_eq!(d.group, "com.foo");
    assert_eq!(d.artifact, "bar");
    assert_eq!(d.version, "1.0");
}
