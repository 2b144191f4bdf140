//! Dependency coordinates and the conflict resolver: parsing
//! `group:artifact:version` coordinates, deriving Maven layout paths,
//! and collapsing duplicate (group, artifact) pairs to the single
//! highest semantic version.
use vstd::prelude::*;

use crate::semver_order::{sem_lt, sem_ok, semver_compare, semver_parses, VersionOrder};
use crate::strings::{join_seq, join_with, replace_all, replace_seq, split_on_char, split_seq, str_eq};
use crate::version::{VersionLibrary, VersionLibraryDownloadObject};

verus! {

/// A parsed library coordinate.
pub struct Dependency {
    pub group: String,
    pub artifact: String,
    pub version: String,
}

/// A library entry whose raw coordinate does not split into exactly
/// three colon-delimited segments.
pub struct CoordinateParseError {
    pub coordinate: String,
}

/// The colon-delimited segments of a raw coordinate.
pub open spec fn coord_parts(name: Seq<char>) -> Seq<Seq<char>> {
    split_seq(name, ':')
}

/// A raw coordinate is well formed when it has exactly three segments.
pub open spec fn coord_ok(name: Seq<char>) -> bool {
    coord_parts(name).len() == 3
}

pub open spec fn coord_group(name: Seq<char>) -> Seq<char> {
    coord_parts(name)[0]
}

pub open spec fn coord_artifact(name: Seq<char>) -> Seq<char> {
    coord_parts(name)[1]
}

pub open spec fn coord_version(name: Seq<char>) -> Seq<char> {
    coord_parts(name)[2]
}

/// The relative path of the jar under the Maven repository layout:
/// `group(dots to slashes)/artifact/version/artifact-version.jar`.
pub open spec fn maven_jar_path(g: Seq<char>, a: Seq<char>, v: Seq<char>) -> Seq<char> {
    replace_seq(g, "."@, "/"@) + "/"@ + a + "/"@ + v + "/"@ + a + "-"@ + v + ".jar"@
}

impl Dependency {
    /// Parses a library's raw coordinate into its three segments;
    /// `None` when the coordinate is not exactly three segments.
    pub fn from_version_library(version_library: &VersionLibrary) -> (r: Option<Dependency>)
        ensures
            (r is Some) == coord_ok(version_library.name@),
            r is Some ==> r->0.group@ == coord_group(version_library.name@),
            r is Some ==> r->0.artifact@ == coord_artifact(version_library.name@),
            r is Some ==> r->0.version@ == coord_version(version_library.name@),
    {
        let mut split = split_on_char(version_library.name.as_str(), ':');
        if split.len() != 3 {
            None
        } else {
            let version = split.pop().unwrap();
            let artifact = split.pop().unwrap();
            let group = split.pop().unwrap();
            Some(Dependency { group, artifact, version })
        }
    }

    /// Recovers a coordinate from a Maven-layout artifact path: the
    /// last segment is the file, preceded by the version and the
    /// artifact, and everything before them is the group with slashes
    /// standing for dots.
    pub fn from_version_library_download_object(
        version_library: &VersionLibraryDownloadObject,
    ) -> (r: Dependency)
        requires
            split_seq(version_library.path@, '/').len() >= 3,
        ensures
            ({
                let parts = split_seq(version_library.path@, '/');
                &&& r.version@ == parts[parts.len() - 2]
                &&& r.artifact@ == parts[parts.len() - 3]
                &&& r.group@ == join_seq(parts.take(parts.len() - 3), "."@)
            }),
    {
        let path = version_library.path.as_str();
        let mut parts = split_on_char(path, '/');
        let n: usize = parts.len();
        let _file = parts.pop().unwrap();
        let version = parts.pop().unwrap();
        let artifact = parts.pop().unwrap();
        proof {
            assert(parts.deep_view() =~= split_seq(path@, '/').take(n - 3));
        }
        let group = join_with(&parts, ".");
        Dependency { group, artifact, version }
    }

    /// The jar path this coordinate takes under the Maven layout.
    pub fn to_maven_url_layout_jar(&self) -> (r: String)
        ensures
            r@ == maven_jar_path(self.group@, self.artifact@, self.version@),
    {
        proof {
            reveal_strlit(".");
        }
        let mut out = replace_all(self.group.as_str(), ".", "/");
        out.append("/");
        out.append(self.artifact.as_str());
        out.append("/");
        out.append(self.version.as_str());
        out.append("/");
        out.append(self.artifact.as_str());
        out.append("-");
        out.append(self.version.as_str());
        out.append(".jar");
        out
    }
}

/// One retained library after conflict collapse: the position of the
/// chosen entry in the input list and its parsed coordinate.
pub struct ResolvedEntry {
    pub index: usize,
    pub group: String,
    pub artifact: String,
    pub version: String,
    pub version_ok: bool,
}

/// The retained entry stands for the input library at its index.
pub open spec fn entry_matches(e: ResolvedEntry, libs: Seq<VersionLibrary>) -> bool {
    &&& e.index < libs.len()
    &&& coord_ok(libs[e.index as int].name@)
    &&& e.group@ == coord_group(libs[e.index as int].name@)
    &&& e.artifact@ == coord_artifact(libs[e.index as int].name@)
    &&& e.version@ == coord_version(libs[e.index as int].name@)
    &&& e.version_ok == sem_ok(e.version@)
}

pub open spec fn same_ga_entries(a: ResolvedEntry, b: ResolvedEntry) -> bool {
    a.group@ == b.group@ && a.artifact@ == b.artifact@
}

pub open spec fn same_triple(a: ResolvedEntry, b: ResolvedEntry) -> bool {
    same_ga_entries(a, b) && a.version@ == b.version@
}

/// Well-formedness of a resolved set: every entry stands for an input
/// library, no two entries share a full coordinate, and at most one
/// entry with a parseable version exists per (group, artifact) pair.
pub open spec fn resolved_wf(r: Seq<ResolvedEntry>, libs: Seq<VersionLibrary>) -> bool {
    &&& forall|k: int| 0 <= k < r.len() ==> entry_matches(#[trigger] r[k], libs)
    &&& forall|k: int, l: int|
        0 <= k < l < r.len() ==> !same_triple(#[trigger] r[k], #[trigger] r[l])
    &&& forall|k: int, l: int|
        0 <= k < l < r.len() && same_ga_entries(#[trigger] r[k], #[trigger] r[l]) ==> !(
        r[k].version_ok && r[l].version_ok)
}

/// `candidate` does not rank above `retained` in semantic-version
/// order: it is the same text, or not semver-greater.
pub open spec fn version_not_above(candidate: Seq<char>, retained: Seq<char>) -> bool {
    candidate == retained || !sem_lt(retained, candidate)
}

/// The input coordinate `name` is represented in the resolved set:
/// kept verbatim when its version is not a semantic version, else
/// dominated by the retained entry of its (group, artifact) pair.
pub open spec fn covered(r: Seq<ResolvedEntry>, name: Seq<char>) -> bool {
    if sem_ok(coord_version(name)) {
        exists|k: int|
            0 <= k < r.len() && (#[trigger] r[k]).group@ == coord_group(name)
                && r[k].artifact@ == coord_artifact(name) && r[k].version_ok && version_not_above(
                coord_version(name),
                r[k].version@,
            )
    } else {
        exists|k: int|
            0 <= k < r.len() && (#[trigger] r[k]).group@ == coord_group(name)
                && r[k].artifact@ == coord_artifact(name) && r[k].version@ == coord_version(name)
    }
}

/// Every one of the first `n` input libraries parses and is
/// represented in the resolved set.
pub open spec fn resolved_covers(r: Seq<ResolvedEntry>, libs: Seq<VersionLibrary>, n: int) -> bool {
    forall|p: int|
        0 <= p < n ==> coord_ok((#[trigger] libs[p]).name@) && covered(r, libs[p].name@)
}

/// The entry's parsed coordinate is exactly the one the raw name
/// carries.
pub open spec fn entry_triple_matches(e: ResolvedEntry, name: Seq<char>) -> bool {
    coord_ok(name) && e.group@ == coord_group(name) && e.artifact@ == coord_artifact(name)
        && e.version@ == coord_version(name)
}

/// Among the first `n` inputs, no later input repeats a retained
/// entry's full coordinate: duplicates collapse to the last occurrence,
/// whose download descriptors are the ones read downstream.
pub open spec fn indices_are_last(r: Seq<ResolvedEntry>, libs: Seq<VersionLibrary>, n: int) -> bool {
    forall|k: int, p: int|
        0 <= k < r.len() && r[k].index < p < n ==> !entry_triple_matches(
            #[trigger] r[k],
            (#[trigger] libs[p]).name@,
        )
}

/// The retained entry at which a new coordinate must be merged: the
/// same full coordinate (replaced in place), or the one entry of its
/// (group, artifact) pair whose version is comparable.
pub open spec fn is_slot(c: ResolvedEntry, g: Seq<char>, a: Seq<char>, v: Seq<char>, v_ok: bool) -> bool {
    c.group@ == g && c.artifact@ == a && (c.version@ == v || (v_ok && c.version_ok))
}

/// Collapses the library list to at most one entry per (group,
/// artifact) pair, keeping the highest semantic version; entries whose
/// version is not a semantic version are incomparable and kept as-is;
/// entries sharing a full coordinate collapse to the last one.
/// Fails on a coordinate that is not exactly three colon-delimited
/// segments, and only then.
pub fn resolve(libraries: &Vec<VersionLibrary>) -> (r: Result<
    Vec<ResolvedEntry>,
    CoordinateParseError,
>)
    ensures
        match r {
            Ok(ret) => resolved_wf(ret@, libraries@) && resolved_covers(
                ret@,
                libraries@,
                libraries@.len() as int,
            ) && indices_are_last(ret@, libraries@, libraries@.len() as int),
            Err(e) => exists|i: int|
                0 <= i < libraries@.len() && (#[trigger] libraries@[i]).name@ == e.coordinate@
                    && !coord_ok(libraries@[i].name@) && (forall|j: int|
                    0 <= j < i ==> coord_ok((#[trigger] libraries@[j]).name@)),
        },
{
    let mut ret: Vec<ResolvedEntry> = Vec::new();
    let mut i: usize = 0;
    while i < libraries.len()
        invariant
            i <= libraries.len(),
            resolved_wf(ret@, libraries@),
            resolved_covers(ret@, libraries@, i as int),
            indices_are_last(ret@, libraries@, i as int),
        decreases libraries.len() - i,
    {
        let lib = &libraries[i];
        match Dependency::from_version_library(lib) {
            None => {
                return Err(CoordinateParseError { coordinate: lib.name.clone() });
            },
            Some(dep) => {
                let v_ok = semver_parses(dep.version.as_str());
                let ghost g = dep.group@;
                let ghost a = dep.artifact@;
                let ghost v = dep.version@;
                let mut k: usize = 0;
                let mut slot: Option<usize> = None;
                while k < ret.len() && slot.is_none()
                    invariant
                        k <= ret.len(),
                        g == dep.group@,
                        a == dep.artifact@,
                        v == dep.version@,
                        slot is None ==> forall|j: int|
                            0 <= j < k ==> !is_slot(#[trigger] ret@[j], g, a, v, v_ok),
                        slot is Some ==> slot->0 < ret.len() && is_slot(
                            ret@[slot->0 as int],
                            g,
                            a,
                            v,
                            v_ok,
                        ),
                    decreases ret.len() - k + (if slot is None {
                        1int
                    } else {
                        0int
                    }),
                {
                    let cand = &ret[k];
                    let ga = str_eq(cand.group.as_str(), dep.group.as_str()) && str_eq(
                        cand.artifact.as_str(),
                        dep.artifact.as_str(),
                    );
                    if ga {
                        let same_v = str_eq(cand.version.as_str(), dep.version.as_str());
                        if same_v || (v_ok && cand.version_ok) {
                            slot = Some(k);
                        } else {
                            k = k + 1;
                        }
                    } else {
                        k = k + 1;
                    }
                }
                match slot {
                    None => {
                        let ghost pre = ret@;
                        ret.push(
                            ResolvedEntry {
                                index: i,
                                group: dep.group,
                                artifact: dep.artifact,
                                version: dep.version,
                                version_ok: v_ok,
                            },
                        );
                        proof {
                            assert forall|p: int| 0 <= p < i + 1 implies coord_ok(
                                (#[trigger] libraries@[p]).name@,
                            ) && covered(ret@, libraries@[p].name@) by {
                                if p < i {
                                    assert(covered(pre, libraries@[p].name@));
                                    lemma_covered_extended(pre, ret@, libraries@[p].name@);
                                } else {
                                    assert(ret@[pre.len() as int].group@ == coord_group(
                                        libraries@[p].name@,
                                    ));
                                }
                            }
                        }
                    },
                    Some(s) => {
                        let same_v = str_eq(ret[s].version.as_str(), dep.version.as_str());
                        if same_v {
                            let ghost pre = ret@;
                            ret[s] = ResolvedEntry {
                                index: i,
                                group: dep.group,
                                artifact: dep.artifact,
                                version: dep.version,
                                version_ok: v_ok,
                            };
                            proof {
                                assert forall|p: int| 0 <= p < i + 1 implies coord_ok(
                                    (#[trigger] libraries@[p]).name@,
                                ) && covered(ret@, libraries@[p].name@) by {
                                    if p < i {
                                        lemma_covered_same_views(
                                            pre,
                                            ret@,
                                            libraries@[p].name@,
                                        );
                                    } else {
                                        assert(is_slot(ret@[s as int], g, a, v, v_ok));
                                    }
                                }
                            }
                        } else {
                            let ord = semver_compare(
                                dep.version.as_str(),
                                ret[s].version.as_str(),
                            );
                            match ord {
                                VersionOrder::Greater => {
                                    let ghost pre = ret@;
                                    let ghost oldv = pre[s as int].version@;
                                    ret[s] = ResolvedEntry {
                                        index: i,
                                        group: dep.group,
                                        artifact: dep.artifact,
                                        version: dep.version,
                                        version_ok: v_ok,
                                    };
                                    proof {
                                        assert forall|p: int| 0 <= p < i + 1 implies coord_ok(
                                            (#[trigger] libraries@[p]).name@,
                                        ) && covered(ret@, libraries@[p].name@) by {
                                            if p < i {
                                                lemma_covered_after_upgrade(
                                                    pre,
                                                    ret@,
                                                    s as int,
                                                    libraries@[p].name@,
                                                );
                                            }
                                        }
                                    }
                                },
                                VersionOrder::Less => {
                                    proof {
                                        assert(covered(ret@, libraries@[i as int].name@));
                                    }
                                },
                                VersionOrder::Equal => {
                                    proof {
                                        assert(false);
                                    }
                                },
                                VersionOrder::Unparseable => {
                                    proof {
                                        assert(false);
                                    }
                                },
                            }
                        }
                    },
                }
                i = i + 1;
            },
        }
    }
    Ok(ret)
}

impl crate::version::Version {
    /// Resolves this version's library list: at most one entry per
    /// (group, artifact) pair, the highest semantic version retained.
    pub fn get_required_libraries(&self) -> (r: Result<Vec<ResolvedEntry>, CoordinateParseError>)
        ensures
            match r {
                Ok(ret) => resolved_wf(ret@, self.libraries@) && resolved_covers(
                    ret@,
                    self.libraries@,
                    self.libraries@.len() as int,
                ) && indices_are_last(ret@, self.libraries@, self.libraries@.len() as int),
                Err(e) => exists|i: int|
                    0 <= i < self.libraries@.len() && (#[trigger] self.libraries@[i]).name@
                        == e.coordinate@ && !coord_ok(self.libraries@[i].name@) && (forall|j: int|
                        0 <= j < i ==> coord_ok((#[trigger] self.libraries@[j]).name@)),
            },
    {
        resolve(&self.libraries)
    }
}

/// The law of conflict collapse: in a well-formed resolved set that
/// covers its inputs, every (group, artifact) pair with a parseable
/// version keeps exactly one entry, and no input of the pair ranks
/// above that entry in semantic-version order.
pub proof fn lemma_resolution_retains_unique_maximum(
    r: Seq<ResolvedEntry>,
    libs: Seq<VersionLibrary>,
    p: int,
)
    requires
        resolved_wf(r, libs),
        resolved_covers(r, libs, libs.len() as int),
        0 <= p < libs.len(),
        sem_ok(coord_version(libs[p].name@)),
    ensures
        exists|k: int|
            0 <= k < r.len() && (#[trigger] r[k]).group@ == coord_group(libs[p].name@)
                && r[k].artifact@ == coord_artifact(libs[p].name@) && r[k].version_ok && (forall|
                q: int,
            |
                0 <= q < libs.len() && coord_group((#[trigger] libs[q]).name@) == coord_group(
                    libs[p].name@,
                ) && coord_artifact(libs[q].name@) == coord_artifact(libs[p].name@) && sem_ok(
                    coord_version(libs[q].name@),
                ) ==> version_not_above(coord_version(libs[q].name@), r[k].version@)),
        forall|k1: int, k2: int|
            0 <= k1 < r.len() && 0 <= k2 < r.len() && (#[trigger] r[k1]).group@ == coord_group(
                libs[p].name@,
            ) && (#[trigger] r[k2]).group@ == coord_group(libs[p].name@) && r[k1].artifact@
                == coord_artifact(libs[p].name@) && r[k2].artifact@ == coord_artifact(
                libs[p].name@,
            ) && r[k1].version_ok && r[k2].version_ok ==> k1 == k2,
{
    let g = coord_group(libs[p].name@);
    let a = coord_artifact(libs[p].name@);
    assert(covered(r, libs[p].name@));
    let k = choose|k: int|
        0 <= k < r.len() && (#[trigger] r[k]).group@ == g && r[k].artifact@ == a
            && r[k].version_ok && version_not_above(coord_version(libs[p].name@), r[k].version@);
    assert forall|k1: int, k2: int|
        0 <= k1 < r.len() && 0 <= k2 < r.len() && (#[trigger] r[k1]).group@ == g && (
        #[trigger] r[k2]).group@ == g && r[k1].artifact@ == a && r[k2].artifact@ == a
            && r[k1].version_ok && r[k2].version_ok implies k1 == k2 by {
        if k1 < k2 {
            assert(same_ga_entries(r[k1], r[k2]));
        } else if k2 < k1 {
            assert(same_ga_entries(r[k2], r[k1]));
        }
    }
    assert forall|q: int|
        0 <= q < libs.len() && coord_group((#[trigger] libs[q]).name@) == g && coord_artifact(
            libs[q].name@,
        ) == a && sem_ok(coord_version(libs[q].name@)) implies version_not_above(
        coord_version(libs[q].name@),
        r[k].version@,
    ) by {
        assert(covered(r, libs[q].name@));
        let kq = choose|kq: int|
            0 <= kq < r.len() && (#[trigger] r[kq]).group@ == coord_group(libs[q].name@)
                && r[kq].artifact@ == coord_artifact(libs[q].name@) && r[kq].version_ok
                && version_not_above(coord_version(libs[q].name@), r[kq].version@);
        assert(kq == k);
    }
}

/// Appending an entry keeps every coordinate covered.
proof fn lemma_covered_extended(pre: Seq<ResolvedEntry>, post: Seq<ResolvedEntry>, name: Seq<char>)
    requires
        covered(pre, name),
        pre.len() <= post.len(),
        forall|k: int| 0 <= k < pre.len() ==> post[k] == pre[k],
    ensures
        covered(post, name),
{
    if sem_ok(coord_version(name)) {
        let k = choose|k: int|
            0 <= k < pre.len() && (#[trigger] pre[k]).group@ == coord_group(name)
                && pre[k].artifact@ == coord_artifact(name) && pre[k].version_ok
                && version_not_above(coord_version(name), pre[k].version@);
        assert(post[k].group@ == coord_group(name));
    } else {
        let k = choose|k: int|
            0 <= k < pre.len() && (#[trigger] pre[k]).group@ == coord_group(name)
                && pre[k].artifact@ == coord_artifact(name) && pre[k].version@ == coord_version(
                name,
            );
        assert(post[k].group@ == coord_group(name));
    }
}

/// Rewriting entries without changing any coordinate view or
/// parseability keeps every coordinate covered.
proof fn lemma_covered_same_views(
    pre: Seq<ResolvedEntry>,
    post: Seq<ResolvedEntry>,
    name: Seq<char>,
)
    requires
        covered(pre, name),
        pre.len() == post.len(),
        forall|k: int|
            0 <= k < pre.len() ==> (#[trigger] post[k]).group@ == pre[k].group@
                && post[k].artifact@ == pre[k].artifact@ && post[k].version@ == pre[k].version@
                && post[k].version_ok == pre[k].version_ok,
    ensures
        covered(post, name),
{
    if sem_ok(coord_version(name)) {
        let k = choose|k: int|
            0 <= k < pre.len() && (#[trigger] pre[k]).group@ == coord_group(name)
                && pre[k].artifact@ == coord_artifact(name) && pre[k].version_ok
                && version_not_above(coord_version(name), pre[k].version@);
        assert(post[k].group@ == coord_group(name));
    } else {
        let k = choose|k: int|
            0 <= k < pre.len() && (#[trigger] pre[k]).group@ == coord_group(name)
                && pre[k].artifact@ == coord_artifact(name) && pre[k].version@ == coord_version(
                name,
            );
        assert(post[k].group@ == coord_group(name));
    }
}

/// Replacing the retained entry of one (group, artifact) pair by a
/// strictly greater, comparable version keeps every coordinate
/// covered: what the old version dominated, the new one dominates.
proof fn lemma_covered_after_upgrade(
    pre: Seq<ResolvedEntry>,
    post: Seq<ResolvedEntry>,
    s: int,
    name: Seq<char>,
)
    requires
        covered(pre, name),
        pre.len() == post.len(),
        0 <= s < pre.len(),
        forall|k: int| 0 <= k < pre.len() && k != s ==> post[k] == pre[k],
        post[s].group@ == pre[s].group@,
        post[s].artifact@ == pre[s].artifact@,
        pre[s].version_ok,
        post[s].version_ok,
        sem_ok(pre[s].version@),
        sem_ok(post[s].version@),
        sem_lt(pre[s].version@, post[s].version@),
        !sem_lt(post[s].version@, pre[s].version@),
        crate::semver_order::sem_lt_transitive(),
    ensures
        covered(post, name),
{
    if sem_ok(coord_version(name)) {
        let k = choose|k: int|
            0 <= k < pre.len() && (#[trigger] pre[k]).group@ == coord_group(name)
                && pre[k].artifact@ == coord_artifact(name) && pre[k].version_ok
                && version_not_above(coord_version(name), pre[k].version@);
        if k == s {
            let vp = coord_version(name);
            let oldv = pre[s].version@;
            let newv = post[s].version@;
            if vp == oldv {
                assert(!sem_lt(newv, vp));
            } else {
                assert(!sem_lt(oldv, vp));
                if sem_lt(newv, vp) {
                    assert(sem_lt(oldv, vp));
                }
            }
            assert(version_not_above(vp, newv));
            assert(post[s].group@ == coord_group(name));
        } else {
            assert(post[k].group@ == coord_group(name));
        }
    } else {
        let k = choose|k: int|
            0 <= k < pre.len() && (#[trigger] pre[k]).group@ == coord_group(name)
                && pre[k].artifact@ == coord_artifact(name) && pre[k].version@ == coord_version(
                name,
            );
        if k == s {
            assert(sem_ok(pre[k].version@));
        } else {
            assert(post[k].group@ == coord_group(name));
        }
    }
}

} // verus!
