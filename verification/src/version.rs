//! The manifest model: the version-manifest index, a single version's
//! descriptor, and the library entries it carries. Pure data, with a
//! few small accessors.
use vstd::prelude::*;

use crate::strings::{join_seq, join_with, str_eq, trim_seq, trim_str};

verus! {

/// The index of all published versions.
pub struct VersionManifest {
    pub latest: VersionManifestLatest,
    pub versions: Vec<VersionManifestVersion>,
}

pub struct VersionManifestLatest {
    pub release: String,
    pub snapshot: String,
}

/// One stub entry of the version-manifest index.
pub struct VersionManifestVersion {
    pub id: String,
    pub release_type: String,
    pub url: String,
    pub time: String,
    pub release_time: String,
}

/// A full per-version descriptor.
pub struct Version {
    pub arguments: Option<VersionArgument>,
    pub asset_index: VersionAssetIndex,
    pub assets: String,
    pub compliance_level: Option<u64>,
    pub downloads: VersionDownload,
    pub id: String,
    pub libraries: Vec<VersionLibrary>,
    pub main_class: String,
    pub minecraft_arguments: Option<String>,
    pub minimum_launcher_version: u64,
    pub release_time: String,
    pub time: String,
    pub release_type: String,
}

/// JVM and game argument templates, token by token.
pub struct VersionArgument {
    pub game: Vec<String>,
    pub jvm: Vec<String>,
}

pub struct VersionAssetIndex {
    pub id: String,
    pub sha1: String,
    pub size: u64,
    pub total_size: u64,
    pub url: String,
}

pub struct VersionDownload {
    pub client: Option<VersionDownloadObject>,
    pub client_mappings: Option<VersionDownloadObject>,
    pub server: Option<VersionDownloadObject>,
    pub server_mappings: Option<VersionDownloadObject>,
}

pub struct VersionDownloadObject {
    pub sha1: String,
    pub size: u64,
    pub url: String,
}

/// One library entry of a version descriptor: either a direct download
/// descriptor under `downloads`, or only a Maven base `url` from which
/// the path must be derived.
pub struct VersionLibrary {
    pub downloads: Option<VersionLibraryDownload>,
    pub name: String,
    pub url: Option<String>,
    pub natives: Option<Vec<NativeOsEntry>>,
    pub rules: Option<Vec<VersionLibraryRule>>,
}

/// One entry of a library's `natives` key map.
pub struct NativeOsEntry {
    pub os: String,
    pub classifier: String,
}

pub struct VersionLibraryDownload {
    pub artifact: Option<VersionLibraryDownloadObject>,
    pub classifiers: Option<Vec<ClassifierEntry>>,
}

/// One platform entry of a library's classifier map; keys are unique
/// in a well-formed descriptor.
pub struct ClassifierEntry {
    pub key: String,
    pub object: VersionLibraryDownloadObject,
}

pub struct VersionLibraryDownloadObject {
    pub path: String,
    pub sha1: String,
    pub size: u64,
    pub url: String,
}

/// The mathematical content of a download descriptor.
pub ghost struct DownloadObjectView {
    pub path: Seq<char>,
    pub sha1: Seq<char>,
    pub size: u64,
    pub url: Seq<char>,
}

impl View for VersionLibraryDownloadObject {
    type V = DownloadObjectView;

    open spec fn view(&self) -> DownloadObjectView {
        DownloadObjectView { path: self.path@, sha1: self.sha1@, size: self.size, url: self.url@ }
    }
}

impl DeepView for VersionLibraryDownloadObject {
    type V = DownloadObjectView;

    open spec fn deep_view(&self) -> DownloadObjectView {
        self.view()
    }
}

impl VersionLibraryDownloadObject {
    /// Clones the descriptor.
    pub fn duplicate(&self) -> (r: VersionLibraryDownloadObject)
        ensures
            r@ == self@,
    {
        VersionLibraryDownloadObject {
            path: self.path.clone(),
            sha1: self.sha1.clone(),
            size: self.size,
            url: self.url.clone(),
        }
    }
}

pub struct VersionLibraryRule {
    pub action: String,
    pub os: Option<VersionLibraryRuleOSObject>,
}

pub struct VersionLibraryRuleOSObject {
    pub name: String,
    pub version: Option<String>,
}

impl VersionManifest {
    /// The position of the version stub with the given id, if any.
    pub fn find_version(&self, id: &str) -> (r: Option<usize>)
        ensures
            match r {
                Some(i) => i < self.versions.len() && self.versions[i as int].id@ == id@ && (forall|
                    j: int,
                |
                    0 <= j < i ==> self.versions[j].id@ != id@),
                None => forall|j: int| 0 <= j < self.versions.len() ==> self.versions[j].id@ != id@,
            },
    {
        let mut i: usize = 0;
        while i < self.versions.len()
            invariant
                i <= self.versions.len(),
                forall|j: int| 0 <= j < i ==> self.versions[j].id@ != id@,
            decreases self.versions.len() - i,
        {
            if str_eq(self.versions[i].id.as_str(), id) {
                return Some(i);
            }
            i = i + 1;
        }
        None
    }
}

/// The names of a descriptor's library entries, in order.
pub open spec fn library_names(libraries: Seq<VersionLibrary>) -> Seq<Seq<char>> {
    Seq::new(libraries.len(), |i: int| libraries[i].name@)
}

/// What `get_game_arguments` renders: the game argument tokens joined
/// by single spaces, or the legacy one-string argument field, with
/// leading and trailing whitespace trimmed either way.
pub open spec fn game_arguments_view(v: Version) -> Seq<char> {
    trim_seq(
        if v.arguments is Some {
            join_seq(v.arguments->0.game.deep_view(), " "@)
        } else if v.minecraft_arguments is Some {
            v.minecraft_arguments->0@
        } else {
            Seq::<char>::empty()
        },
    )
}

impl Version {
    /// The raw coordinate of every library entry, in order.
    pub fn get_libraries(&self) -> (r: Vec<String>)
        ensures
            r.deep_view() == library_names(self.libraries@),
    {
        let mut r: Vec<String> = Vec::new();
        let mut i: usize = 0;
        while i < self.libraries.len()
            invariant
                i <= self.libraries.len(),
                r@.len() == i,
                r.deep_view() =~= library_names(self.libraries@).take(i as int),
            decreases self.libraries.len() - i,
        {
            r.push(self.libraries[i].name.clone());
            proof {
                let pre = library_names(self.libraries@);
                let dv = r.deep_view();
                assert(r@.len() == i + 1);
                assert(dv.len() == i + 1);
                assert forall|j: int| 0 <= j < i + 1 implies dv[j] == pre.take(i + 1)[j] by {
                    if j < i {
                        assert(dv[j] == pre.take(i as int)[j]);
                    }
                }
                assert(dv =~= pre.take(i + 1));
            }
            i = i + 1;
        }
        proof {
            assert(library_names(self.libraries@).take(self.libraries@.len() as int)
                =~= library_names(self.libraries@));
        }
        r
    }

    /// The game argument tokens rendered as one space-separated,
    /// trimmed string.
    pub fn get_game_arguments(&self) -> (r: String)
        ensures
            r@ == game_arguments_view(*self),
    {
        let raw = match &self.arguments {
            Some(argument) => join_with(&argument.game, " "),
            None => match &self.minecraft_arguments {
                Some(argument) => argument.clone(),
                None => String::new(),
            },
        };
        trim_str(raw.as_str())
    }
}

} // verus!
