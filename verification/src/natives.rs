//! The native platform resolver: out of each resolved library's
//! classifier map, the single entry whose platform key names the
//! running operating system.
use vstd::prelude::*;

use crate::dependency::ResolvedEntry;
use crate::strings::str_eq;
use crate::version::{ClassifierEntry, DownloadObjectView, VersionLibrary, VersionLibraryDownloadObject};
use crate::OsKind;

verus! {

/// The classifier key that names the given operating system.
pub open spec fn natives_key_view(os: OsKind) -> Seq<char> {
    match os {
        OsKind::Windows => "natives-windows"@,
        OsKind::Linux => "natives-linux"@,
        OsKind::Macos => "natives-macos"@,
    }
}

pub fn natives_key(os: OsKind) -> (r: &'static str)
    ensures
        r@ == natives_key_view(os),
{
    match os {
        OsKind::Windows => "natives-windows",
        OsKind::Linux => "natives-linux",
        OsKind::Macos => "natives-macos",
    }
}

/// The position of the first classifier entry with the given key.
pub open spec fn first_classifier(cls: Seq<ClassifierEntry>, key: Seq<char>) -> Option<int>
    decreases cls.len(),
{
    if cls.len() == 0 {
        None
    } else if cls[0].key@ == key {
        Some(0int)
    } else {
        match first_classifier(cls.skip(1), key) {
            Some(i) => Some(i + 1),
            None => None,
        }
    }
}

pub proof fn lemma_first_classifier_bounds(cls: Seq<ClassifierEntry>, key: Seq<char>)
    ensures
        match first_classifier(cls, key) {
            Some(i) => 0 <= i < cls.len() && cls[i].key@ == key && (forall|j: int|
                0 <= j < i ==> cls[j].key@ != key),
            None => forall|j: int| 0 <= j < cls.len() ==> cls[j].key@ != key,
        },
    decreases cls.len(),
{
    if cls.len() > 0 && cls[0].key@ != key {
        lemma_first_classifier_bounds(cls.skip(1), key);
        match first_classifier(cls.skip(1), key) {
            Some(i) => {
                assert(cls.skip(1)[i] == cls[i + 1]);
                assert forall|j: int| 0 <= j < i + 1 implies cls[j].key@ != key by {
                    if j > 0 {
                        assert(cls.skip(1)[j - 1] == cls[j]);
                    }
                }
            },
            None => {
                assert forall|j: int| 0 <= j < cls.len() implies cls[j].key@ != key by {
                    if j > 0 {
                        assert(cls.skip(1)[j - 1] == cls[j]);
                    }
                }
            },
        }
    }
}

/// Finds the first classifier entry with the given key.
pub fn find_classifier(cls: &Vec<ClassifierEntry>, key: &str) -> (r: Option<usize>)
    ensures
        match r {
            Some(i) => i < cls.len() && cls@[i as int].key@ == key@ && first_classifier(cls@, key@)
                == Some(i as int),
            None => first_classifier(cls@, key@) is None,
        },
{
    proof {
        lemma_first_classifier_bounds(cls@, key@);
    }
    let mut i: usize = 0;
    while i < cls.len()
        invariant
            i <= cls.len(),
            forall|j: int| 0 <= j < i ==> cls@[j].key@ != key@,
            match first_classifier(cls@, key@) {
                Some(f) => 0 <= f < cls@.len() && cls@[f].key@ == key@ && (forall|j: int|
                    0 <= j < f ==> cls@[j].key@ != key@),
                None => forall|j: int| 0 <= j < cls@.len() ==> cls@[j].key@ != key@,
            },
        decreases cls.len() - i,
    {
        if str_eq(cls[i].key.as_str(), key) {
            return Some(i);
        }
        i = i + 1;
    }
    None
}

/// The native artifact the library contributes for the given
/// operating system, if its classifier map has the platform's key.
pub open spec fn selected_native(lib: VersionLibrary, os: OsKind) -> Option<DownloadObjectView> {
    if lib.downloads is Some && lib.downloads->0.classifiers is Some {
        match first_classifier(lib.downloads->0.classifiers->0@, natives_key_view(os)) {
            Some(i) => Some(lib.downloads->0.classifiers->0@[i].object@),
            None => None,
        }
    } else {
        None
    }
}

/// What one resolved entry contributes to the native list.
pub open spec fn native_contribution(
    libs: Seq<VersionLibrary>,
    e: ResolvedEntry,
    os: OsKind,
) -> Seq<DownloadObjectView> {
    if e.index < libs.len() {
        match selected_native(libs[e.index as int], os) {
            Some(o) => seq![o],
            None => Seq::<DownloadObjectView>::empty(),
        }
    } else {
        Seq::<DownloadObjectView>::empty()
    }
}

/// The native artifacts of a resolved set, in resolution order.
pub open spec fn natives_of(
    libs: Seq<VersionLibrary>,
    resolved: Seq<ResolvedEntry>,
    os: OsKind,
) -> Seq<DownloadObjectView>
    decreases resolved.len(),
{
    if resolved.len() == 0 {
        Seq::<DownloadObjectView>::empty()
    } else {
        native_contribution(libs, resolved[0], os) + natives_of(libs, resolved.skip(1), os)
    }
}

pub proof fn lemma_natives_of_snoc(
    libs: Seq<VersionLibrary>,
    resolved: Seq<ResolvedEntry>,
    e: ResolvedEntry,
    os: OsKind,
)
    ensures
        natives_of(libs, resolved.push(e), os) =~= natives_of(libs, resolved, os)
            + native_contribution(libs, e, os),
    decreases resolved.len(),
{
    if resolved.len() == 0 {
        assert(resolved.push(e).skip(1) =~= Seq::<ResolvedEntry>::empty());
        assert(resolved.push(e)[0] == e);
        assert(natives_of(libs, resolved.push(e), os) == native_contribution(libs, e, os)
            + natives_of(libs, Seq::<ResolvedEntry>::empty(), os));
    } else {
        lemma_natives_of_snoc(libs, resolved.skip(1), e, os);
        assert(resolved.push(e).skip(1) =~= resolved.skip(1).push(e));
        assert(resolved.push(e)[0] == resolved[0]);
        assert(natives_of(libs, resolved.push(e), os) == native_contribution(libs, resolved[0], os)
            + natives_of(libs, resolved.skip(1).push(e), os));
        assert(natives_of(libs, resolved, os) == native_contribution(libs, resolved[0], os)
            + natives_of(libs, resolved.skip(1), os));
    }
}

/// Selects, for each resolved library with a classifier map, the one
/// native artifact whose platform key names the given operating
/// system; libraries without a matching key contribute nothing.
pub fn get_required_natives(
    libraries: &Vec<VersionLibrary>,
    resolved: &Vec<ResolvedEntry>,
    os: OsKind,
) -> (r: Vec<VersionLibraryDownloadObject>)
    ensures
        r.deep_view() == natives_of(libraries@, resolved@, os),
{
    let key = natives_key(os);
    let mut r: Vec<VersionLibraryDownloadObject> = Vec::new();
    let mut i: usize = 0;
    while i < resolved.len()
        invariant
            i <= resolved.len(),
            key@ == natives_key_view(os),
            r.deep_view() =~= natives_of(libraries@, resolved@.take(i as int), os),
        decreases resolved.len() - i,
    {
        let ghost pre = r.deep_view();
        let ghost piece = native_contribution(libraries@, resolved@[i as int], os);
        let e = &resolved[i];
        if e.index < libraries.len() {
            let lib = &libraries[e.index];
            match &lib.downloads {
                Some(dl) => {
                    match &dl.classifiers {
                        Some(cls) => {
                            match find_classifier(cls, key) {
                                Some(ci) => {
                                    r.push(cls[ci].object.duplicate());
                                    proof {
                                        assert(*lib == libraries@[e.index as int]);
                                        assert(lib.downloads->0.classifiers->0 == *cls);
                                        assert(key@ == natives_key_view(os));
                                        assert(selected_native(*lib, os) == Some(
                                            cls@[ci as int].object@,
                                        ));
                                        assert(piece =~= seq![cls@[ci as int].object@]);
                                        assert forall|j: int|
                                            0 <= j < r@.len() implies r.deep_view()[j] == (pre
                                            + piece)[j] by {
                                            if j < pre.len() {
                                                assert(r.deep_view()[j] == pre[j]);
                                            }
                                        }
                                        assert(r.deep_view() =~= pre + piece);
                                    }
                                },
                                None => {
                                    proof {
                                        assert(piece =~= Seq::<DownloadObjectView>::empty());
                                    }
                                },
                            }
                        },
                        None => {},
                    }
                },
                None => {},
            }
        }
        proof {
            assert(r.deep_view() =~= pre + piece);
            lemma_natives_of_snoc(libraries@, resolved@.take(i as int), resolved@[i as int], os);
            assert(resolved@.take(i as int).push(resolved@[i as int]) =~= resolved@.take(i + 1));
        }
        i = i + 1;
    }
    proof {
        assert(resolved@.take(resolved@.len() as int) =~= resolved@);
    }
    r
}

impl crate::version::Version {
    /// The native artifacts this version's resolved libraries
    /// contribute for the given operating system.
    pub fn get_required_natives(&self, resolved: &Vec<ResolvedEntry>, os: OsKind) -> (r: Vec<
        VersionLibraryDownloadObject,
    >)
        ensures
            r.deep_view() == natives_of(self.libraries@, resolved@, os),
    {
        get_required_natives(&self.libraries, resolved, os)
    }
}

} // verus!
