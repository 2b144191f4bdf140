//! The cumulative metadata store: a cross-version-accumulating record
//! of every distinct (group, artifact) seen, their known versions and
//! native descriptors. Merging a version in is idempotent: nothing
//! already recorded is duplicated or overwritten, only a missing
//! native descriptor is backfilled.
use vstd::prelude::*;

use crate::dependency::{
    coord_artifact, coord_group, coord_ok, coord_version, maven_jar_path, Dependency,
};
use crate::strings::{join_seq, split_seq, str_eq};
use crate::version::{Version, VersionLibrary, VersionLibraryRule};

verus! {

/// The persisted store: schema version, one record per known (group,
/// artifact), and the client/server jars seen so far.
pub struct LibrariesMetadata {
    pub version: u8,
    pub libraries: Vec<GAV>,
    pub clients: Vec<LibrariesMetadataDependency>,
    pub servers: Vec<LibrariesMetadataDependency>,
}

/// All known versions of one (group, artifact).
pub struct GAV {
    pub group: String,
    pub artifact: String,
    pub versions: Vec<LibrariesMetadataDependency>,
}

/// One artifact record; `id` is the version id within a GAV record and
/// the synthetic coordinate for client/server records.
pub struct LibrariesMetadataDependency {
    pub id: String,
    pub name: String,
    pub size: Option<u64>,
    pub url: Option<String>,
    pub path: Option<String>,
    pub native: Option<LibrariesMetadataDependencyNative>,
}

/// The native classifier map of one library version, with the
/// OS-applicability rules recorded for future use.
pub struct LibrariesMetadataDependencyNative {
    pub platforms: Vec<PlatformEntry>,
    pub rules: Option<Vec<RuleEntry>>,
}

/// One platform entry of a native descriptor.
pub struct PlatformEntry {
    pub key: String,
    pub record: LibrariesMetadataDependency,
}

pub struct LibrariesMetadataDependencyNativeRule {
    pub version: Option<String>,
    pub allowed: bool,
}

/// One OS rule entry of a native descriptor.
pub struct RuleEntry {
    pub os: String,
    pub rule: LibrariesMetadataDependencyNativeRule,
}

/// No two records share an id.
pub open spec fn records_unique(vs: Seq<LibrariesMetadataDependency>) -> bool {
    forall|i: int, j: int|
        0 <= i < j < vs.len() ==> (#[trigger] vs[i]).id@ != (#[trigger] vs[j]).id@
}

/// No two GAV records share a (group, artifact) pair.
pub open spec fn gav_keys_unique(libs: Seq<GAV>) -> bool {
    forall|i: int, j: int|
        0 <= i < j < libs.len() ==> !((#[trigger] libs[i]).group@ == (#[trigger] libs[j]).group@
            && libs[i].artifact@ == libs[j].artifact@)
}

/// The store holds no duplicates: GAV keys are unique, version ids are
/// unique within each GAV, and client/server ids are unique.
pub open spec fn store_wf(s: LibrariesMetadata) -> bool {
    &&& gav_keys_unique(s.libraries@)
    &&& forall|i: int|
        0 <= i < s.libraries@.len() ==> records_unique((#[trigger] s.libraries@[i]).versions@)
    &&& records_unique(s.clients@)
    &&& records_unique(s.servers@)
}

/// The store knows this (group, artifact, version) triple.
pub open spec fn store_has_version(
    s: LibrariesMetadata,
    g: Seq<char>,
    a: Seq<char>,
    v: Seq<char>,
) -> bool {
    exists|i: int|
        0 <= i < s.libraries@.len() && (#[trigger] s.libraries@[i]).group@ == g
            && s.libraries@[i].artifact@ == a && gav_has_version(s.libraries@[i], v)
}

pub open spec fn gav_has_version(gav: GAV, v: Seq<char>) -> bool {
    exists|j: int| 0 <= j < gav.versions@.len() && (#[trigger] gav.versions@[j]).id@ == v
}

pub open spec fn store_has_client(s: LibrariesMetadata, id: Seq<char>) -> bool {
    exists|i: int| 0 <= i < s.clients@.len() && (#[trigger] s.clients@[i]).id@ == id
}

pub open spec fn store_has_server(s: LibrariesMetadata, id: Seq<char>) -> bool {
    exists|i: int| 0 <= i < s.servers@.len() && (#[trigger] s.servers@[i]).id@ == id
}

/// The synthetic id client and server records are keyed by.
pub open spec fn client_store_id(id: Seq<char>) -> Seq<char> {
    "com.mojang:minecraft:"@ + id
}

impl LibrariesMetadata {
    /// The empty store, at the current schema version.
    pub fn new() -> (r: LibrariesMetadata)
        ensures
            r.version == 1,
            r.libraries@.len() == 0,
            r.clients@.len() == 0,
            r.servers@.len() == 0,
            store_wf(r),
    {
        LibrariesMetadata {
            version: 1,
            libraries: Vec::new(),
            clients: Vec::new(),
            servers: Vec::new(),
        }
    }

    /// Whether the store has a record for this (group, artifact).
    pub fn contains_gav(&self, group: &String, artifact: &String) -> (r: bool)
        ensures
            r == exists|i: int|
                0 <= i < self.libraries@.len() && (#[trigger] self.libraries@[i]).group@ == group@
                    && self.libraries@[i].artifact@ == artifact@,
    {
        match self.get_gav(group, artifact) {
            Some(_) => true,
            None => false,
        }
    }

    /// The position of the record for this (group, artifact), if any.
    pub fn get_gav(&self, group: &String, artifact: &String) -> (r: Option<usize>)
        ensures
            match r {
                Some(i) => i < self.libraries@.len() && self.libraries@[i as int].group@ == group@
                    && self.libraries@[i as int].artifact@ == artifact@,
                None => forall|i: int|
                    0 <= i < self.libraries@.len() ==> !((#[trigger] self.libraries@[i]).group@
                        == group@ && self.libraries@[i].artifact@ == artifact@),
            },
    {
        let mut i: usize = 0;
        while i < self.libraries.len()
            invariant
                i <= self.libraries.len(),
                forall|j: int|
                    0 <= j < i ==> !((#[trigger] self.libraries@[j]).group@ == group@
                        && self.libraries@[j].artifact@ == artifact@),
            decreases self.libraries.len() - i,
        {
            if str_eq(self.libraries[i].group.as_str(), group.as_str()) && str_eq(
                self.libraries[i].artifact.as_str(),
                artifact.as_str(),
            ) {
                return Some(i);
            }
            i = i + 1;
        }
        None
    }

    /// Whether a client record with this id exists.
    pub fn contains_client(&self, library_id: &String) -> (r: bool)
        ensures
            r == store_has_client(*self, library_id@),
    {
        let mut i: usize = 0;
        while i < self.clients.len()
            invariant
                i <= self.clients.len(),
                forall|j: int| 0 <= j < i ==> (#[trigger] self.clients@[j]).id@ != library_id@,
            decreases self.clients.len() - i,
        {
            if str_eq(self.clients[i].id.as_str(), library_id.as_str()) {
                return true;
            }
            i = i + 1;
        }
        false
    }

    /// Whether a server record with this id exists.
    pub fn contains_server(&self, library_id: &String) -> (r: bool)
        ensures
            r == store_has_server(*self, library_id@),
    {
        let mut i: usize = 0;
        while i < self.servers.len()
            invariant
                i <= self.servers.len(),
                forall|j: int| 0 <= j < i ==> (#[trigger] self.servers@[j]).id@ != library_id@,
            decreases self.servers.len() - i,
        {
            if str_eq(self.servers[i].id.as_str(), library_id.as_str()) {
                return true;
            }
            i = i + 1;
        }
        false
    }

    /// Appends a GAV record.
    pub fn push_library(&mut self, gav: GAV)
        ensures
            final(self).libraries@ == old(self).libraries@.push(gav),
            final(self).version == old(self).version,
            final(self).clients@ == old(self).clients@,
            final(self).servers@ == old(self).servers@,
    {
        self.libraries.push(gav);
    }

    /// Appends a client record.
    pub fn push_client(&mut self, client: LibrariesMetadataDependency)
        ensures
            final(self).clients@ == old(self).clients@.push(client),
            final(self).version == old(self).version,
            final(self).libraries@ == old(self).libraries@,
            final(self).servers@ == old(self).servers@,
    {
        self.clients.push(client);
    }

    /// Appends a server record.
    pub fn push_server(&mut self, server: LibrariesMetadataDependency)
        ensures
            final(self).servers@ == old(self).servers@.push(server),
            final(self).version == old(self).version,
            final(self).libraries@ == old(self).libraries@,
            final(self).clients@ == old(self).clients@,
    {
        self.servers.push(server);
    }
}

/// Every classifier path of the library is a well-formed Maven path:
/// at least `artifact/version/file` deep.
pub open spec fn classifier_paths_ok(lib: VersionLibrary) -> bool {
    lib.downloads is Some && lib.downloads->0.classifiers is Some ==> forall|ci: int|
        0 <= ci < lib.downloads->0.classifiers->0@.len() ==> split_seq(
            (#[trigger] lib.downloads->0.classifiers->0@[ci]).object.path@,
            '/',
        ).len() >= 3
}

/// The coordinate recovered from a Maven-layout path, rendered as one
/// `group:artifact:version` string.
pub open spec fn classifier_record_id(path: Seq<char>) -> Seq<char> {
    let parts = split_seq(path, '/');
    join_seq(parts.take(parts.len() - 3), "."@) + ":"@ + parts[parts.len() - 3] + ":"@
        + parts[parts.len() - 2]
}

/// The rules that carry an OS object, in order; rules without one are
/// not recorded.
pub open spec fn rules_with_os(rs: Seq<VersionLibraryRule>) -> Seq<VersionLibraryRule>
    decreases rs.len(),
{
    if rs.len() == 0 {
        Seq::<VersionLibraryRule>::empty()
    } else {
        (if rs[0].os is Some {
            seq![rs[0]]
        } else {
            Seq::<VersionLibraryRule>::empty()
        }) + rules_with_os(rs.skip(1))
    }
}

pub proof fn lemma_rules_with_os_snoc(rs: Seq<VersionLibraryRule>, x: VersionLibraryRule)
    ensures
        rules_with_os(rs.push(x)) =~= rules_with_os(rs) + (if x.os is Some {
            seq![x]
        } else {
            Seq::<VersionLibraryRule>::empty()
        }),
    decreases rs.len(),
{
    if rs.len() == 0 {
        assert(rs.push(x).skip(1) =~= Seq::<VersionLibraryRule>::empty());
        assert(rs.push(x)[0] == x);
        assert(rules_with_os(rs.push(x)) == (if x.os is Some {
            seq![x]
        } else {
            Seq::<VersionLibraryRule>::empty()
        }) + rules_with_os(rs.push(x).skip(1)));
        assert(rules_with_os(Seq::<VersionLibraryRule>::empty())
            =~= Seq::<VersionLibraryRule>::empty());
    } else {
        lemma_rules_with_os_snoc(rs.skip(1), x);
        assert(rs.push(x).skip(1) =~= rs.skip(1).push(x));
        assert(rs.push(x)[0] == rs[0]);
        assert(rules_with_os(rs.push(x)) == (if rs[0].os is Some {
            seq![rs[0]]
        } else {
            Seq::<VersionLibraryRule>::empty()
        }) + rules_with_os(rs.skip(1).push(x)));
        assert(rules_with_os(rs) == (if rs[0].os is Some {
            seq![rs[0]]
        } else {
            Seq::<VersionLibraryRule>::empty()
        }) + rules_with_os(rs.skip(1)));
    }
}

/// The recorded rule entry renders its source rule: the OS name keys
/// it, `allowed` says whether the action is `allow`, and the OS
/// version is kept when present.
pub open spec fn rule_entry_matches(e: RuleEntry, src: VersionLibraryRule) -> bool {
    &&& e.os@ == src.os->0.name@
    &&& e.rule.allowed == (src.action@ == "allow"@)
    &&& (e.rule.version is Some) == (src.os->0.version is Some)
    &&& src.os->0.version is Some ==> e.rule.version->0@ == src.os->0.version->0@
}

/// The native descriptor renders the library's classifier map and OS
/// rules: one platform entry per classifier, in map order, each record
/// keyed by the coordinate its Maven path encodes; and one rule entry
/// per OS-scoped rule, or no rule map when there is none.
pub open spec fn native_descriptor_matches(
    n: LibrariesMetadataDependencyNative,
    lib: VersionLibrary,
) -> bool {
    &&& lib.downloads is Some
    &&& lib.downloads->0.classifiers is Some
    &&& n.platforms@.len() == lib.downloads->0.classifiers->0@.len()
    &&& forall|ci: int|
        0 <= ci < n.platforms@.len() ==> platform_entry_matches(
            #[trigger] n.platforms@[ci],
            lib.downloads->0.classifiers->0@[ci].key@,
            lib.downloads->0.classifiers->0@[ci].object@,
        )
    &&& ({
        let kept = rules_with_os(
            if lib.rules is Some {
                lib.rules->0@
            } else {
                Seq::<VersionLibraryRule>::empty()
            },
        );
        if kept.len() == 0 {
            n.rules is None
        } else {
            &&& n.rules is Some
            &&& n.rules->0@.len() == kept.len()
            &&& forall|ri: int|
                0 <= ri < kept.len() ==> rule_entry_matches(#[trigger] n.rules->0@[ri], kept[ri])
        }
    })
}

pub open spec fn platform_entry_matches(
    e: PlatformEntry,
    key: Seq<char>,
    o: crate::version::DownloadObjectView,
) -> bool {
    &&& e.key@ == key
    &&& e.record.id@ == classifier_record_id(o.path)
    &&& e.record.name@ == classifier_record_id(o.path)
    &&& e.record.size == Some(o.size)
    &&& e.record.url is Some && e.record.url->0@ == o.url
    &&& e.record.path is Some && e.record.path->0@ == o.path
    &&& e.record.native is None
}

impl LibrariesMetadataDependencyNative {
    /// Builds the native descriptor a library entry carries: its
    /// classifier map recorded platform by platform, and its OS rules;
    /// `None` when the entry has no classifier map at all.
    pub fn parse_from(version: &VersionLibrary) -> (r: Option<LibrariesMetadataDependencyNative>)
        requires
            classifier_paths_ok(*version),
        ensures
            (r is Some) == (version.downloads is Some && version.downloads->0.classifiers
                is Some),
            r is Some ==> native_descriptor_matches(r->0, *version),
    {
        match &version.downloads {
            Some(downloads) => {
                match &downloads.classifiers {
                    Some(cls) => {
                        let mut platforms: Vec<PlatformEntry> = Vec::new();
                        let mut ci: usize = 0;
                        while ci < cls.len()
                            invariant
                                ci <= cls.len(),
                                platforms@.len() == ci,
                                forall|j: int|
                                    0 <= j < cls@.len() ==> split_seq(
                                        (#[trigger] cls@[j]).object.path@,
                                        '/',
                                    ).len() >= 3,
                                forall|j: int|
                                    0 <= j < ci ==> platform_entry_matches(
                                        #[trigger] platforms@[j],
                                        cls@[j].key@,
                                        cls@[j].object@,
                                    ),
                            decreases cls.len() - ci,
                        {
                            let entry = &cls[ci];
                            let dep = Dependency::from_version_library_download_object(
                                &entry.object,
                            );
                            let mut id = dep.group;
                            id.append(":");
                            id.append(dep.artifact.as_str());
                            id.append(":");
                            id.append(dep.version.as_str());
                            let name = id.clone();
                            platforms.push(
                                PlatformEntry {
                                    key: entry.key.clone(),
                                    record: LibrariesMetadataDependency {
                                        id,
                                        name,
                                        size: Some(entry.object.size),
                                        url: Some(entry.object.url.clone()),
                                        path: Some(entry.object.path.clone()),
                                        native: None,
                                    },
                                },
                            );
                            ci = ci + 1;
                        }
                        let mut rule_entries: Vec<RuleEntry> = Vec::new();
                        match &version.rules {
                            Some(rules) => {
                                let mut ri: usize = 0;
                                while ri < rules.len()
                                    invariant
                                        ri <= rules.len(),
                                        ({
                                            let kept = rules_with_os(rules@.take(ri as int));
                                            &&& rule_entries@.len() == kept.len()
                                            &&& forall|j: int|
                                                0 <= j < kept.len() ==> rule_entry_matches(
                                                    #[trigger] rule_entries@[j],
                                                    kept[j],
                                                )
                                        }),
                                    decreases rules.len() - ri,
                                {
                                    let rule = &rules[ri];
                                    match &rule.os {
                                        Some(os) => {
                                            let os_version = match &os.version {
                                                Some(v) => Some(v.clone()),
                                                None => None,
                                            };
                                            let allowed = str_eq(rule.action.as_str(), "allow");
                                            rule_entries.push(
                                                RuleEntry {
                                                    os: os.name.clone(),
                                                    rule: LibrariesMetadataDependencyNativeRule {
                                                        version: os_version,
                                                        allowed,
                                                    },
                                                },
                                            );
                                        },
                                        None => {},
                                    }
                                    proof {
                                        lemma_rules_with_os_snoc(
                                            rules@.take(ri as int),
                                            rules@[ri as int],
                                        );
                                        assert(rules@.take(ri as int).push(rules@[ri as int])
                                            =~= rules@.take(ri + 1));
                                    }
                                    ri = ri + 1;
                                }
                                proof {
                                    assert(rules@.take(rules@.len() as int) =~= rules@);
                                }
                            },
                            None => {},
                        }
                        let descriptor = if rule_entries.len() != 0 {
                            LibrariesMetadataDependencyNative {
                                platforms,
                                rules: Some(rule_entries),
                            }
                        } else {
                            LibrariesMetadataDependencyNative { platforms, rules: None }
                        };
                        Some(descriptor)
                    },
                    None => None,
                }
            },
            None => None,
        }
    }
}

/// The declared size a metadata record carries for this library:
/// the direct artifact's size, the probed size for a Maven-indirect
/// library with a parseable coordinate, nothing otherwise.
pub open spec fn metadata_size_of(lib: VersionLibrary, probed: Option<u64>) -> Option<u64> {
    if lib.downloads is Some {
        if lib.downloads->0.artifact is Some {
            Some(lib.downloads->0.artifact->0.size)
        } else {
            None
        }
    } else if lib.url is Some && coord_ok(lib.name@) {
        probed
    } else {
        None
    }
}

/// The remote url a metadata record carries for this library.
pub open spec fn metadata_url_of(lib: VersionLibrary) -> Option<Seq<char>> {
    if lib.downloads is Some {
        if lib.downloads->0.artifact is Some {
            Some(lib.downloads->0.artifact->0.url@)
        } else {
            None
        }
    } else if lib.url is Some && coord_ok(lib.name@) {
        Some(
            lib.url->0@ + "/"@ + maven_jar_path(
                coord_group(lib.name@),
                coord_artifact(lib.name@),
                coord_version(lib.name@),
            ),
        )
    } else {
        None
    }
}

/// The relative path a metadata record carries for this library.
pub open spec fn metadata_path_of(lib: VersionLibrary) -> Option<Seq<char>> {
    if lib.downloads is Some {
        if lib.downloads->0.artifact is Some {
            Some(lib.downloads->0.artifact->0.path@)
        } else {
            None
        }
    } else if lib.url is Some && coord_ok(lib.name@) {
        Some(
            maven_jar_path(
                coord_group(lib.name@),
                coord_artifact(lib.name@),
                coord_version(lib.name@),
            ),
        )
    } else {
        None
    }
}

impl VersionLibrary {
    /// The metadata record of this library under the given version id.
    /// A Maven-indirect library has no declared size; the caller
    /// probes the remote side once and passes what it learned.
    pub fn to_libraries_metadata_dependency(
        &self,
        version: &String,
        probed_size: Option<u64>,
    ) -> (r: LibrariesMetadataDependency)
        requires
            classifier_paths_ok(*self),
        ensures
            r.id@ == version@,
            r.name@ == self.name@,
            r.size == metadata_size_of(*self, probed_size),
            (r.url is Some) == (metadata_url_of(*self) is Some),
            r.url is Some ==> r.url->0@ == metadata_url_of(*self)->0,
            (r.path is Some) == (metadata_path_of(*self) is Some),
            r.path is Some ==> r.path->0@ == metadata_path_of(*self)->0,
            (r.native is Some) == (self.downloads is Some && self.downloads->0.classifiers
                is Some),
            r.native is Some ==> native_descriptor_matches(r.native->0, *self),
    {
        let id = version.clone();
        let name = self.name.clone();
        let dep_opt = Dependency::from_version_library(self);
        let size: Option<u64> = match &self.downloads {
            Some(downloads) => match &downloads.artifact {
                Some(artifact) => Some(artifact.size),
                None => None,
            },
            None => match &self.url {
                Some(_) => match &dep_opt {
                    Some(_) => probed_size,
                    None => None,
                },
                None => None,
            },
        };
        let url: Option<String> = match &self.downloads {
            Some(downloads) => match &downloads.artifact {
                Some(artifact) => Some(artifact.url.clone()),
                None => None,
            },
            None => match &self.url {
                Some(base) => match &dep_opt {
                    Some(dep) => {
                        let mut u = base.clone();
                        u.append("/");
                        let layout = dep.to_maven_url_layout_jar();
                        u.append(layout.as_str());
                        Some(u)
                    },
                    None => None,
                },
                None => None,
            },
        };
        let path: Option<String> = match &self.downloads {
            Some(downloads) => match &downloads.artifact {
                Some(artifact) => Some(artifact.path.clone()),
                None => None,
            },
            None => match &self.url {
                Some(_) => match &dep_opt {
                    Some(dep) => Some(dep.to_maven_url_layout_jar()),
                    None => None,
                },
                None => None,
            },
        };
        let native = LibrariesMetadataDependencyNative::parse_from(self);
        LibrariesMetadataDependency { id, name, size, url, path, native }
    }
}

impl GAV {
    /// Whether this record knows the given version id.
    pub fn contains_version(&self, ver: &String) -> (r: bool)
        ensures
            r == gav_has_version(*self, ver@),
    {
        match self.get_version(ver) {
            Some(_) => true,
            None => false,
        }
    }

    /// The position of the record for this version id, if any.
    pub fn get_version(&self, ver: &String) -> (r: Option<usize>)
        ensures
            match r {
                Some(j) => j < self.versions@.len() && self.versions@[j as int].id@ == ver@,
                None => forall|j: int|
                    0 <= j < self.versions@.len() ==> (#[trigger] self.versions@[j]).id@ != ver@,
            },
    {
        let mut j: usize = 0;
        while j < self.versions.len()
            invariant
                j <= self.versions.len(),
                forall|k: int| 0 <= k < j ==> (#[trigger] self.versions@[k]).id@ != ver@,
            decreases self.versions.len() - j,
        {
            if str_eq(self.versions[j].id.as_str(), ver.as_str()) {
                return Some(j);
            }
            j = j + 1;
        }
        None
    }

    /// Appends a version record.
    pub fn push_version(&mut self, version: LibrariesMetadataDependency)
        ensures
            final(self).versions@ == old(self).versions@.push(version),
            final(self).group@ == old(self).group@,
            final(self).artifact@ == old(self).artifact@,
    {
        self.versions.push(version);
    }
}

/// `b` has everything `a` has: the same GAV records in place, each
/// with at least the same version ids, and possibly more of both.
pub open spec fn store_extends(a: LibrariesMetadata, b: LibrariesMetadata) -> bool {
    &&& b.libraries@.len() >= a.libraries@.len()
    &&& forall|i: int|
        0 <= i < a.libraries@.len() ==> gav_extends(#[trigger] a.libraries@[i], b.libraries@[i])
}

pub open spec fn gav_extends(ga: GAV, gb: GAV) -> bool {
    &&& gb.group@ == ga.group@
    &&& gb.artifact@ == ga.artifact@
    &&& gb.versions@.len() >= ga.versions@.len()
    &&& forall|j: int|
        0 <= j < ga.versions@.len() ==> (#[trigger] gb.versions@[j]).id@ == ga.versions@[j].id@
}

pub proof fn lemma_extends_preserves_has_version(
    a: LibrariesMetadata,
    b: LibrariesMetadata,
    g: Seq<char>,
    art: Seq<char>,
    v: Seq<char>,
)
    requires
        store_extends(a, b),
        store_has_version(a, g, art, v),
    ensures
        store_has_version(b, g, art, v),
{
    let i = choose|i: int|
        0 <= i < a.libraries@.len() && (#[trigger] a.libraries@[i]).group@ == g
            && a.libraries@[i].artifact@ == art && gav_has_version(a.libraries@[i], v);
    let j = choose|j: int|
        0 <= j < a.libraries@[i].versions@.len() && (#[trigger] a.libraries@[i].versions@[j]).id@
            == v;
    assert(b.libraries@[i].versions@[j].id@ == v);
    assert(gav_has_version(b.libraries@[i], v));
}

/// `b` keeps every record `a` holds, in place and unchanged, except
/// that a record without a native descriptor may have gained one; new
/// GAV records and new version records stand only after the old ones.
pub open spec fn store_preserves_records(a: LibrariesMetadata, b: LibrariesMetadata) -> bool {
    &&& b.libraries@.len() >= a.libraries@.len()
    &&& forall|gi: int|
        0 <= gi < a.libraries@.len() ==> gav_preserves_records(
            #[trigger] a.libraries@[gi],
            b.libraries@[gi],
        )
}

pub open spec fn gav_preserves_records(ga: GAV, gb: GAV) -> bool {
    &&& gb.group@ == ga.group@
    &&& gb.artifact@ == ga.artifact@
    &&& gb.versions@.len() >= ga.versions@.len()
    &&& forall|vi: int|
        0 <= vi < ga.versions@.len() ==> record_preserved(
            #[trigger] ga.versions@[vi],
            gb.versions@[vi],
        )
}

/// The record is untouched, or only its missing native descriptor was
/// filled in; no other field ever changes.
pub open spec fn record_preserved(
    o: LibrariesMetadataDependency,
    n: LibrariesMetadataDependency,
) -> bool {
    ||| n == o
    ||| (o.native is None && n.native is Some && record_same_but_native(o, n))
}

pub open spec fn record_same_but_native(
    o: LibrariesMetadataDependency,
    n: LibrariesMetadataDependency,
) -> bool {
    n.id == o.id && n.name == o.name && n.size == o.size && n.url == o.url && n.path == o.path
}

/// The store and the records of the version line up as they would
/// after one merge: every parseable coordinate is present, and so are
/// the client and server records the descriptor carries.
pub open spec fn merged_already(s: LibrariesMetadata, v: Version) -> bool {
    &&& forall|p: int|
        0 <= p < v.libraries@.len() && coord_ok((#[trigger] v.libraries@[p]).name@)
            ==> store_has_version(
            s,
            coord_group(v.libraries@[p].name@),
            coord_artifact(v.libraries@[p].name@),
            coord_version(v.libraries@[p].name@),
        )
    &&& v.downloads.client is Some ==> store_has_client(s, client_store_id(v.id@))
    &&& v.downloads.server is Some ==> store_has_server(s, client_store_id(v.id@))
}

/// `b` keeps exactly `a`'s record structure: the same GAV records with
/// the same version ids, and the same client and server sequences.
pub open spec fn same_records(a: LibrariesMetadata, b: LibrariesMetadata) -> bool {
    &&& b.libraries@.len() == a.libraries@.len()
    &&& forall|i: int|
        0 <= i < a.libraries@.len() ==> gav_same_ids(#[trigger] a.libraries@[i], b.libraries@[i])
    &&& b.clients@ == a.clients@
    &&& b.servers@ == a.servers@
}

pub open spec fn gav_same_ids(ga: GAV, gb: GAV) -> bool {
    &&& gb.group@ == ga.group@
    &&& gb.artifact@ == ga.artifact@
    &&& gb.versions@.len() == ga.versions@.len()
    &&& forall|j: int|
        0 <= j < ga.versions@.len() ==> (#[trigger] gb.versions@[j]).id@ == ga.versions@[j].id@
}

/// The record's plain fields render the given library under the given
/// version id: the field equations of `to_libraries_metadata_dependency`.
pub open spec fn record_renders_core(
    rec: LibrariesMetadataDependency,
    lib: VersionLibrary,
    probed: Option<u64>,
    v: Seq<char>,
) -> bool {
    &&& rec.id@ == v
    &&& rec.name@ == lib.name@
    &&& rec.size == metadata_size_of(lib, probed)
    &&& (rec.url is Some) == (metadata_url_of(lib) is Some)
    &&& rec.url is Some ==> rec.url->0@ == metadata_url_of(lib)->0
    &&& (rec.path is Some) == (metadata_path_of(lib) is Some)
    &&& rec.path is Some ==> rec.path->0@ == metadata_path_of(lib)->0
}

/// The record's native descriptor came from a library of the version
/// whose coordinate is exactly the record's (group, artifact, id) and
/// which carries a classifier map.
pub open spec fn native_backfilled_from(
    gav_group: Seq<char>,
    gav_artifact: Seq<char>,
    rec: LibrariesMetadataDependency,
    v: Version,
) -> bool {
    exists|q: int|
        0 <= q < v.libraries@.len() && coord_ok((#[trigger] v.libraries@[q]).name@) && coord_group(
            v.libraries@[q].name@,
        ) == gav_group && coord_artifact(v.libraries@[q].name@) == gav_artifact && coord_version(
            v.libraries@[q].name@,
        ) == rec.id@ && native_descriptor_matches(rec.native->0, v.libraries@[q])
}

/// Library `p` of the version supplies this record of a gav with the
/// given key: the coordinate parses to the key and the record's id,
/// the plain fields render the library, and the native descriptor
/// either renders the same library's classifier map — absent exactly
/// when the library has none — or, for a library without one, was
/// backfilled from another library of the same coordinate.
pub open spec fn record_from_library(
    gav_group: Seq<char>,
    gav_artifact: Seq<char>,
    rec: LibrariesMetadataDependency,
    v: Version,
    probed: Seq<Option<u64>>,
    p: int,
) -> bool {
    &&& 0 <= p < v.libraries@.len()
    &&& coord_ok(v.libraries@[p].name@)
    &&& gav_group == coord_group(v.libraries@[p].name@)
    &&& gav_artifact == coord_artifact(v.libraries@[p].name@)
    &&& record_renders_core(rec, v.libraries@[p], probed[p], coord_version(v.libraries@[p].name@))
    &&& ({
        ||| ((rec.native is Some) == (v.libraries@[p].downloads is Some
            && v.libraries@[p].downloads->0.classifiers is Some) && (rec.native is Some
            ==> native_descriptor_matches(rec.native->0, v.libraries@[p])))
        ||| (!(v.libraries@[p].downloads is Some && v.libraries@[p].downloads->0.classifiers
            is Some) && rec.native is Some && native_backfilled_from(
            gav_group,
            gav_artifact,
            rec,
            v,
        ))
    })
}

/// One of the version's libraries supplies this record.
pub open spec fn some_library_supplies(
    gav_group: Seq<char>,
    gav_artifact: Seq<char>,
    rec: LibrariesMetadataDependency,
    v: Version,
    probed: Seq<Option<u64>>,
) -> bool {
    exists|p: int| record_from_library(gav_group, gav_artifact, rec, v, probed, p)
}

/// Every record the merge added — in a fresh gav or appended to an old
/// one — renders one of the version's libraries.
pub open spec fn merged_records_from_version(
    s0: LibrariesMetadata,
    out: LibrariesMetadata,
    v: Version,
    probed: Seq<Option<u64>>,
) -> bool {
    forall|gi: int, vi: int|
        0 <= gi < out.libraries@.len() && 0 <= vi < out.libraries@[gi].versions@.len() && !(gi
            < s0.libraries@.len() && vi < s0.libraries@[gi].versions@.len())
            ==> some_library_supplies(
            out.libraries@[gi].group@,
            out.libraries@[gi].artifact@,
            #[trigger] out.libraries@[gi].versions@[vi],
            v,
            probed,
        )
}

/// Every old record the merge touched gained its native descriptor
/// from a library of the version with the record's own coordinate.
pub open spec fn backfills_from_version(
    s0: LibrariesMetadata,
    out: LibrariesMetadata,
    v: Version,
) -> bool {
    forall|gi: int, vi: int|
        0 <= gi < s0.libraries@.len() && 0 <= vi < s0.libraries@[gi].versions@.len() && (
        #[trigger] out.libraries@[gi].versions@[vi]) != s0.libraries@[gi].versions@[vi]
            ==> native_backfilled_from(
            out.libraries@[gi].group@,
            out.libraries@[gi].artifact@,
            out.libraries@[gi].versions@[vi],
            v,
        )
}

/// Carries `merged_records_from_version` across one mutation that
/// touches the single gav position `tgi`: untouched gavs keep their
/// witnesses, and the caller supplies witnesses for the touched gav's
/// records that are new against `s0` and not carried over unchanged.
proof fn lemma_merged_records_step(
    s0: LibrariesMetadata,
    a: LibrariesMetadata,
    b: LibrariesMetadata,
    v: Version,
    probed: Seq<Option<u64>>,
    tgi: int,
)
    requires
        merged_records_from_version(s0, a, v, probed),
        b.libraries@.len() >= a.libraries@.len(),
        0 <= tgi < b.libraries@.len(),
        forall|g2: int|
            0 <= g2 < a.libraries@.len() && g2 != tgi ==> #[trigger] b.libraries@[g2]
                == a.libraries@[g2],
        b.libraries@.len() <= a.libraries@.len() + 1,
        b.libraries@.len() > a.libraries@.len() ==> tgi == a.libraries@.len(),
        forall|v2: int|
            0 <= v2 < b.libraries@[tgi].versions@.len() && !(tgi < s0.libraries@.len() && v2
                < s0.libraries@[tgi].versions@.len()) && !(tgi < a.libraries@.len() && v2
                < a.libraries@[tgi].versions@.len() && (#[trigger] b.libraries@[tgi].versions@[v2])
                == a.libraries@[tgi].versions@[v2] && b.libraries@[tgi].group@
                == a.libraries@[tgi].group@ && b.libraries@[tgi].artifact@
                == a.libraries@[tgi].artifact@) ==> some_library_supplies(
                b.libraries@[tgi].group@,
                b.libraries@[tgi].artifact@,
                b.libraries@[tgi].versions@[v2],
                v,
                probed,
            ),
    ensures
        merged_records_from_version(s0, b, v, probed),
{
    assert forall|gi: int, vi: int|
        0 <= gi < b.libraries@.len() && 0 <= vi < b.libraries@[gi].versions@.len() && !(gi
            < s0.libraries@.len() && vi < s0.libraries@[gi].versions@.len())
            implies some_library_supplies(
        b.libraries@[gi].group@,
        b.libraries@[gi].artifact@,
        #[trigger] b.libraries@[gi].versions@[vi],
        v,
        probed,
    ) by {
        if gi != tgi {
            assert(b.libraries@[gi] == a.libraries@[gi]);
            assert(some_library_supplies(
                a.libraries@[gi].group@,
                a.libraries@[gi].artifact@,
                a.libraries@[gi].versions@[vi],
                v,
                probed,
            ));
        } else {
            if tgi < a.libraries@.len() && vi < a.libraries@[tgi].versions@.len()
                && b.libraries@[tgi].versions@[vi] == a.libraries@[tgi].versions@[vi]
                && b.libraries@[tgi].group@ == a.libraries@[tgi].group@
                && b.libraries@[tgi].artifact@ == a.libraries@[tgi].artifact@ {
                assert(some_library_supplies(
                    a.libraries@[tgi].group@,
                    a.libraries@[tgi].artifact@,
                    a.libraries@[tgi].versions@[vi],
                    v,
                    probed,
                ));
            }
        }
    }
}

/// The relative store path of a version's client or server jar.
pub open spec fn client_store_path(id: Seq<char>) -> Seq<char> {
    "com/mojang/minecraft/"@ + id + "/"@ + id + "-client.jar"@
}

pub open spec fn server_store_path(id: Seq<char>) -> Seq<char> {
    "com/mojang/minecraft/"@ + id + "/"@ + id + "-server.jar"@
}

/// The display name of a version's client or server record.
pub open spec fn client_store_name(id: Seq<char>) -> Seq<char> {
    "Minecraft "@ + id
}

/// A client or server record renders its download descriptor under
/// the synthetic coordinate of the version id.
pub open spec fn record_renders_download(
    rec: LibrariesMetadataDependency,
    id: Seq<char>,
    download: crate::version::VersionDownloadObject,
    path: Seq<char>,
) -> bool {
    &&& rec.id@ == client_store_id(id)
    &&& rec.name@ == client_store_name(id)
    &&& rec.size == Some(download.size)
    &&& rec.url is Some && rec.url->0@ == download.url@
    &&& rec.path is Some && rec.path->0@ == path
    &&& rec.native is None
}

impl LibrariesMetadata {
    /// Merges one version's resolved library set into the store: a new
    /// GAV record for every unseen (group, artifact), a new version
    /// record for every unseen version id, and a native-descriptor
    /// backfill for a known version that lacks one — never an
    /// overwrite. The client and server downloads are appended once,
    /// keyed by the synthetic coordinate; merging a version the store
    /// already holds changes no record counts, so no merge introduces
    /// a duplicate. A library lacking a manifest-declared size takes
    /// its probed size from `probed_sizes` at the library's position.
    pub fn push_mc_version(self, version: &Version, probed_sizes: &Vec<Option<u64>>) -> (r:
        LibrariesMetadata)
        requires
            probed_sizes.len() == version.libraries.len(),
            forall|p: int|
                0 <= p < version.libraries@.len() ==> classifier_paths_ok(
                    #[trigger] version.libraries@[p],
                ),
        ensures
            r.version == self.version,
            store_preserves_records(self, r),
            merged_records_from_version(self, r, *version, probed_sizes@),
            backfills_from_version(self, r, *version),
            store_wf(self) ==> store_wf(r),
            forall|p: int|
                0 <= p < version.libraries@.len() && coord_ok(
                    (#[trigger] version.libraries@[p]).name@,
                ) ==> store_has_version(
                    r,
                    coord_group(version.libraries@[p].name@),
                    coord_artifact(version.libraries@[p].name@),
                    coord_version(version.libraries@[p].name@),
                ),
            version.downloads.client is Some ==> store_has_client(r, client_store_id(version.id@)),
            version.downloads.server is Some ==> store_has_server(r, client_store_id(version.id@)),
            (version.downloads.client is None || store_has_client(
                self,
                client_store_id(version.id@),
            )) ==> r.clients@ == self.clients@,
            (version.downloads.client is Some && !store_has_client(
                self,
                client_store_id(version.id@),
            )) ==> r.clients@.len() == self.clients@.len() + 1 && r.clients@.take(
                self.clients@.len() as int,
            ) == self.clients@ && record_renders_download(
                r.clients@.last(),
                version.id@,
                version.downloads.client->0,
                client_store_path(version.id@),
            ),
            (version.downloads.server is None || store_has_server(
                self,
                client_store_id(version.id@),
            )) ==> r.servers@ == self.servers@,
            (version.downloads.server is Some && !store_has_server(
                self,
                client_store_id(version.id@),
            )) ==> r.servers@.len() == self.servers@.len() + 1 && r.servers@.take(
                self.servers@.len() as int,
            ) == self.servers@ && record_renders_download(
                r.servers@.last(),
                version.id@,
                version.downloads.server->0,
                server_store_path(version.id@),
            ),
            (store_wf(self) && merged_already(self, *version)) ==> same_records(self, r),
    {
        let ghost s0 = self;
        let mut s = self;
        let mut i: usize = 0;
        while i < version.libraries.len()
            invariant
                i <= version.libraries.len(),
                probed_sizes.len() == version.libraries.len(),
                forall|p: int|
                    0 <= p < version.libraries@.len() ==> classifier_paths_ok(
                        #[trigger] version.libraries@[p],
                    ),
                s.version == s0.version,
                s.clients@ == s0.clients@,
                s.servers@ == s0.servers@,
                store_preserves_records(s0, s),
                merged_records_from_version(s0, s, *version, probed_sizes@),
                backfills_from_version(s0, s, *version),
                store_wf(s0) ==> store_wf(s),
                forall|p: int|
                    0 <= p < i && coord_ok((#[trigger] version.libraries@[p]).name@)
                        ==> store_has_version(
                        s,
                        coord_group(version.libraries@[p].name@),
                        coord_artifact(version.libraries@[p].name@),
                        coord_version(version.libraries@[p].name@),
                    ),
                (store_wf(s0) && merged_already(s0, *version)) ==> same_records(s0, s),
            decreases version.libraries.len() - i,
        {
            let lib = &version.libraries[i];
            let ghost s_prev = s;
            match Dependency::from_version_library(lib) {
                Some(dep) => {
                    match s.get_gav(&dep.group, &dep.artifact) {
                        Some(gi) => {
                            let found = s.libraries[gi].get_version(&dep.version);
                            match found {
                                Some(vi) => {
                                    let lacks_native = match &s.libraries[gi].versions[vi].native {
                                        Some(_) => false,
                                        None => true,
                                    };
                                    if lacks_native {
                                        let native_descriptor = LibrariesMetadataDependencyNative::parse_from(
                                            lib,
                                        );
                                        let mut gav = s.libraries.remove(gi);
                                        let mut rec = gav.versions.remove(vi);
                                        rec.native = native_descriptor;
                                        gav.versions.insert(vi, rec);
                                        s.libraries.insert(gi, gav);
                                        proof {
                                            assert(s.libraries@[gi as int].versions@
                                                =~= s_prev.libraries@[gi as int].versions@.update(
                                                vi as int,
                                                s.libraries@[gi as int].versions@[vi as int],
                                            ));
                                            assert(s.libraries@ =~= s_prev.libraries@.update(
                                                gi as int,
                                                s.libraries@[gi as int],
                                            ));
                                            assert(gav_extends(
                                                s_prev.libraries@[gi as int],
                                                s.libraries@[gi as int],
                                            ));
                                            assert(store_extends(s_prev, s));
                                            assert(gav_has_version(
                                                s.libraries@[gi as int],
                                                dep.version@,
                                            ));
                                            let gii = gi as int;
                                            let vii = vi as int;
                                            let newrec = s.libraries@[gii].versions@[vii];
                                            let oldrec = s_prev.libraries@[gii].versions@[vii];
                                            if newrec != oldrec && !(gii < s0.libraries@.len()
                                                && vii < s0.libraries@[gii].versions@.len()) {
                                                let p0 = choose|p0: int|
                                                    record_from_library(
                                                        s_prev.libraries@[gii].group@,
                                                        s_prev.libraries@[gii].artifact@,
                                                        oldrec,
                                                        *version,
                                                        probed_sizes@,
                                                        p0,
                                                    );
                                                assert(oldrec.native is None);
                                                assert(!(version.libraries@[p0].downloads is Some
                                                    && version.libraries@[p0].downloads->0.classifiers
                                                    is Some));
                                                assert(newrec.native is Some);
                                                assert(native_descriptor_matches(
                                                    newrec.native->0,
                                                    version.libraries@[i as int],
                                                ));
                                                assert(coord_version(
                                                    version.libraries@[i as int].name@,
                                                ) == newrec.id@);
                                                assert(native_backfilled_from(
                                                    s.libraries@[gii].group@,
                                                    s.libraries@[gii].artifact@,
                                                    newrec,
                                                    *version,
                                                ));
                                                assert(record_from_library(
                                                    s.libraries@[gii].group@,
                                                    s.libraries@[gii].artifact@,
                                                    newrec,
                                                    *version,
                                                    probed_sizes@,
                                                    p0,
                                                ));
                                                assert(some_library_supplies(
                                                    s.libraries@[gii].group@,
                                                    s.libraries@[gii].artifact@,
                                                    newrec,
                                                    *version,
                                                    probed_sizes@,
                                                ));
                                            }
                                            lemma_merged_records_step(
                                                s0,
                                                s_prev,
                                                s,
                                                *version,
                                                probed_sizes@,
                                                gii,
                                            );
                                        }
                                    } else {
                                        proof {
                                            assert(store_extends(s_prev, s));
                                            assert(gav_has_version(
                                                s.libraries@[gi as int],
                                                dep.version@,
                                            ));
                                        }
                                    }
                                },
                                None => {
                                    let rec = lib.to_libraries_metadata_dependency(
                                        &dep.version,
                                        probed_sizes[i],
                                    );
                                    let mut gav = s.libraries.remove(gi);
                                    gav.push_version(rec);
                                    s.libraries.insert(gi, gav);
                                    proof {
                                        assert(s.libraries@ =~= s_prev.libraries@.update(
                                            gi as int,
                                            s.libraries@[gi as int],
                                        ));
                                        assert(gav_extends(
                                            s_prev.libraries@[gi as int],
                                            s.libraries@[gi as int],
                                        ));
                                        assert(store_extends(s_prev, s));
                                        assert(s.libraries@[gi as int].versions@.last().id@
                                            == dep.version@);
                                        assert(gav_has_version(
                                            s.libraries@[gi as int],
                                            dep.version@,
                                        ));
                                        let gii = gi as int;
                                        let newpos = s.libraries@[gii].versions@.len() - 1;
                                        assert(record_from_library(
                                            s.libraries@[gii].group@,
                                            s.libraries@[gii].artifact@,
                                            s.libraries@[gii].versions@[newpos],
                                            *version,
                                            probed_sizes@,
                                            i as int,
                                        ));
                                        assert(some_library_supplies(
                                            s.libraries@[gii].group@,
                                            s.libraries@[gii].artifact@,
                                            s.libraries@[gii].versions@[newpos],
                                            *version,
                                            probed_sizes@,
                                        ));
                                        lemma_merged_records_step(
                                            s0,
                                            s_prev,
                                            s,
                                            *version,
                                            probed_sizes@,
                                            gii,
                                        );
                                        if store_wf(s0) {
                                            assert(records_unique(
                                                s.libraries@[gi as int].versions@,
                                            ));
                                            assert(store_wf(s));
                                        }
                                        if store_wf(s0) && merged_already(s0, *version) {
                                            assert(store_has_version(
                                                s0,
                                                coord_group(version.libraries@[i as int].name@),
                                                coord_artifact(version.libraries@[i as int].name@),
                                                coord_version(version.libraries@[i as int].name@),
                                            ));
                                            let w = choose|w: int|
                                                0 <= w < s0.libraries@.len() && (
                                                #[trigger] s0.libraries@[w]).group@ == dep.group@
                                                    && s0.libraries@[w].artifact@ == dep.artifact@
                                                    && gav_has_version(
                                                    s0.libraries@[w],
                                                    dep.version@,
                                                );
                                            assert(gav_same_ids(
                                                s0.libraries@[w],
                                                s_prev.libraries@[w],
                                            ));
                                            assert(w == gi as int);
                                            let jj = choose|jj: int|
                                                0 <= jj < s0.libraries@[w].versions@.len() && (
                                                #[trigger] s0.libraries@[w].versions@[jj]).id@
                                                    == dep.version@;
                                            assert(s_prev.libraries@[w].versions@[jj].id@
                                                == dep.version@);
                                            assert(false);
                                        }
                                    }
                                },
                            }
                        },
                        None => {
                            let rec = lib.to_libraries_metadata_dependency(
                                &dep.version,
                                probed_sizes[i],
                            );
                            let ghost depg = dep.group@;
                            let ghost depa = dep.artifact@;
                            let mut versions: Vec<LibrariesMetadataDependency> = Vec::new();
                            versions.push(rec);
                            s.push_library(GAV { group: dep.group, artifact: dep.artifact, versions });
                            proof {
                                assert(store_extends(s_prev, s));
                                let n = s.libraries@.len() - 1;
                                assert(s.libraries@[n].group@ == depg);
                                assert(s.libraries@[n].versions@[0].id@
                                    == coord_version(version.libraries@[i as int].name@));
                                assert(gav_has_version(
                                    s.libraries@[n],
                                    coord_version(version.libraries@[i as int].name@),
                                ));
                                assert(record_from_library(
                                    s.libraries@[n].group@,
                                    s.libraries@[n].artifact@,
                                    s.libraries@[n].versions@[0],
                                    *version,
                                    probed_sizes@,
                                    i as int,
                                ));
                                assert(some_library_supplies(
                                    s.libraries@[n].group@,
                                    s.libraries@[n].artifact@,
                                    s.libraries@[n].versions@[0],
                                    *version,
                                    probed_sizes@,
                                ));
                                lemma_merged_records_step(
                                    s0,
                                    s_prev,
                                    s,
                                    *version,
                                    probed_sizes@,
                                    n,
                                );
                                if store_wf(s0) {
                                    assert(gav_keys_unique(s.libraries@));
                                    assert(store_wf(s));
                                }
                                if store_wf(s0) && merged_already(s0, *version) {
                                    let w = choose|w: int|
                                        0 <= w < s0.libraries@.len() && (
                                        #[trigger] s0.libraries@[w]).group@ == depg
                                            && s0.libraries@[w].artifact@ == depa
                                            && gav_has_version(
                                            s0.libraries@[w],
                                            coord_version(version.libraries@[i as int].name@),
                                        );
                                    assert(gav_same_ids(s0.libraries@[w], s_prev.libraries@[w]));
                                    assert(false);
                                }
                            }
                        },
                    }
                },
                None => {},
            }
            proof {
                assert(store_extends(s_prev, s));
                assert forall|p: int|
                    0 <= p < i + 1 && coord_ok((#[trigger] version.libraries@[p]).name@)
                        implies store_has_version(
                    s,
                    coord_group(version.libraries@[p].name@),
                    coord_artifact(version.libraries@[p].name@),
                    coord_version(version.libraries@[p].name@),
                ) by {
                    if p < i {
                        lemma_extends_preserves_has_version(
                            s_prev,
                            s,
                            coord_group(version.libraries@[p].name@),
                            coord_artifact(version.libraries@[p].name@),
                            coord_version(version.libraries@[p].name@),
                        );
                    }
                }
            }
            i = i + 1;
        }
        let mut id = String::from_str("com.mojang:minecraft:");
        id.append(version.id.as_str());
        match &version.downloads.client {
            Some(client) => {
                if !s.contains_client(&id) {
                    let mut name = String::from_str("Minecraft ");
                    name.append(version.id.as_str());
                    let mut path = String::from_str("com/mojang/minecraft/");
                    path.append(version.id.as_str());
                    path.append("/");
                    path.append(version.id.as_str());
                    path.append("-client.jar");
                    s.push_client(
                        LibrariesMetadataDependency {
                            id: id.clone(),
                            name,
                            size: Some(client.size),
                            url: Some(client.url.clone()),
                            path: Some(path),
                            native: None,
                        },
                    );
                    proof {
                        assert(s.clients@.last().id@ == client_store_id(version.id@));
                    }
                }
            },
            None => {},
        }
        match &version.downloads.server {
            Some(server) => {
                if !s.contains_server(&id) {
                    let mut name = String::from_str("Minecraft ");
                    name.append(version.id.as_str());
                    let mut path = String::from_str("com/mojang/minecraft/");
                    path.append(version.id.as_str());
                    path.append("/");
                    path.append(version.id.as_str());
                    path.append("-server.jar");
                    s.push_server(
                        LibrariesMetadataDependency {
                            id: id.clone(),
                            name,
                            size: Some(server.size),
                            url: Some(server.url.clone()),
                            path: Some(path),
                            native: None,
                        },
                    );
                    proof {
                        assert(s.servers@.last().id@ == client_store_id(version.id@));
                    }
                }
            },
            None => {},
        }
        s
    }
}

} // verus!
