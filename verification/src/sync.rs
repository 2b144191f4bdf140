//! The cache verifier: for each required artifact, the cached file
//! counts as satisfied exactly when it is present with the declared
//! byte length; everything else is scheduled for a fetch. Observation
//! of the disk and the fetches themselves happen outside this module;
//! here stand the decisions.
use vstd::prelude::*;
use vstd::seq_lib::*;

use crate::asset::{AssetIndex, AssetObjectView};
use crate::dependency::ResolvedEntry;
use crate::version::{DownloadObjectView, Version, VersionLibrary, VersionLibraryDownloadObject};

verus! {

/// One artifact the cache must hold: its local path, the remote
/// source, and the declared byte length.
pub struct RequiredArtifact {
    pub path: String,
    pub url: String,
    pub size: u64,
}

/// The mathematical content of a requirement.
pub ghost struct RequiredArtifactView {
    pub path: Seq<char>,
    pub url: Seq<char>,
    pub size: u64,
}

impl View for RequiredArtifact {
    type V = RequiredArtifactView;

    open spec fn view(&self) -> RequiredArtifactView {
        RequiredArtifactView { path: self.path@, url: self.url@, size: self.size }
    }
}

impl DeepView for RequiredArtifact {
    type V = RequiredArtifactView;

    open spec fn deep_view(&self) -> RequiredArtifactView {
        self.view()
    }
}

/// A cached file observed as `observed` (its byte length, or `None`
/// when absent) fails the requirement exactly when it is absent or its
/// length differs from the declared size. Byte length is the sole
/// integrity check; content is never examined.
pub open spec fn needs_fetch(expected_size: u64, observed: Option<u64>) -> bool {
    observed != Some(expected_size)
}

/// The positions, in ascending order, of the first `n` requirements
/// whose observation demands a fetch.
pub open spec fn fetch_plan(
    req: Seq<RequiredArtifactView>,
    obs: Seq<Option<u64>>,
    n: int,
) -> Seq<usize>
    decreases n,
{
    if n <= 0 {
        Seq::<usize>::empty()
    } else {
        let pre = fetch_plan(req, obs, n - 1);
        if needs_fetch(req[n - 1].size, obs[n - 1]) {
            pre.push((n - 1) as usize)
        } else {
            pre
        }
    }
}

/// Against an already-complete, correctly-sized cache, nothing is
/// scheduled: verification is idempotent.
pub proof fn lemma_complete_cache_plans_nothing(
    req: Seq<RequiredArtifactView>,
    obs: Seq<Option<u64>>,
    n: int,
)
    requires
        forall|i: int| 0 <= i < n ==> obs[i] == Some((#[trigger] req[i]).size),
    ensures
        fetch_plan(req, obs, n) =~= Seq::<usize>::empty(),
    decreases n,
{
    if n > 0 {
        lemma_complete_cache_plans_nothing(req, obs, n - 1);
    }
}

/// A requirement is scheduled exactly when its observation fails it:
/// in particular a cached file whose byte length differs from the
/// declared size is always scheduled for a fetch.
pub proof fn lemma_fetch_plan_exact(
    req: Seq<RequiredArtifactView>,
    obs: Seq<Option<u64>>,
    n: int,
    i: int,
)
    requires
        0 <= i < n <= usize::MAX as int,
        n <= req.len(),
        obs.len() == req.len(),
    ensures
        fetch_plan(req, obs, n).contains(i as usize) == needs_fetch(req[i].size, obs[i]),
    decreases n,
{
    let plan = fetch_plan(req, obs, n);
    let pre = fetch_plan(req, obs, n - 1);
    if i == n - 1 {
        lemma_fetch_plan_in_range(req, obs, n - 1);
        if needs_fetch(req[i].size, obs[i]) {
            assert(plan[plan.len() - 1] == i as usize);
            assert(plan.contains(i as usize));
        } else {
            assert(plan == pre);
            if plan.contains(i as usize) {
                let w = choose|w: int| 0 <= w < pre.len() && pre[w] == i as usize;
                assert(pre[w] < n - 1);
                assert(false);
            }
        }
    } else {
        lemma_fetch_plan_exact(req, obs, n - 1, i);
        if needs_fetch(req[n - 1].size, obs[n - 1]) {
            assert(plan =~= pre.push((n - 1) as usize));
            if pre.contains(i as usize) {
                let w = choose|w: int| 0 <= w < pre.len() && pre[w] == i as usize;
                assert(plan[w] == i as usize);
                assert(plan.contains(i as usize));
            }
            if plan.contains(i as usize) {
                let w = choose|w: int| 0 <= w < plan.len() && plan[w] == i as usize;
                assert(i as usize != (n - 1) as usize);
                assert(w < pre.len());
                assert(pre.contains(i as usize));
            }
        }
    }
}

/// Every scheduled position lies below `n`.
pub proof fn lemma_fetch_plan_in_range(
    req: Seq<RequiredArtifactView>,
    obs: Seq<Option<u64>>,
    n: int,
)
    requires
        n <= usize::MAX as int,
    ensures
        forall|j: int|
            0 <= j < fetch_plan(req, obs, n).len() ==> (#[trigger] fetch_plan(req, obs, n)[j])
                < n,
    decreases n,
{
    if n > 0 {
        lemma_fetch_plan_in_range(req, obs, n - 1);
        let pre = fetch_plan(req, obs, n - 1);
        let plan = fetch_plan(req, obs, n);
        assert forall|j: int| 0 <= j < plan.len() implies (plan[j]) < n by {
            if j < pre.len() {
                assert(plan[j] == pre[j]);
            }
        }
    }
}

/// Decides which of the required artifacts must be fetched, given for
/// each its observed state on disk: `None` when the file is absent,
/// else its byte length. Returns the failing positions in ascending
/// order; an already-complete cache yields an empty plan.
pub fn plan_sync(required: &Vec<RequiredArtifact>, observed: &Vec<Option<u64>>) -> (r: Vec<usize>)
    requires
        observed.len() == required.len(),
    ensures
        r@ == fetch_plan(required.deep_view(), observed@, required.len() as int),
{
    let mut r: Vec<usize> = Vec::new();
    let mut i: usize = 0;
    while i < required.len()
        invariant
            i <= required.len(),
            observed.len() == required.len(),
            r@ =~= fetch_plan(required.deep_view(), observed@, i as int),
        decreases required.len() - i,
    {
        let mismatch = match observed[i] {
            Some(len) => len != required[i].size,
            None => true,
        };
        if mismatch {
            r.push(i);
        }
        i = i + 1;
    }
    r
}

/// What one resolved library must have in the cache: its direct
/// download descriptor under the `libraries` tree. A library carrying
/// only a Maven base url has no declared size and is not synchronized
/// here.
pub open spec fn library_requirement(libs: Seq<VersionLibrary>, e: ResolvedEntry) -> Option<
    RequiredArtifactView,
> {
    if e.index < libs.len() && libs[e.index as int].downloads is Some
        && libs[e.index as int].downloads->0.artifact is Some {
        Some(
            RequiredArtifactView {
                path: "libraries/"@ + libs[e.index as int].downloads->0.artifact->0.path@,
                url: libs[e.index as int].downloads->0.artifact->0.url@,
                size: libs[e.index as int].downloads->0.artifact->0.size,
            },
        )
    } else {
        None
    }
}

/// The cache requirements of a resolved library set, in resolution
/// order; entries without a direct download descriptor contribute
/// nothing.
pub fn required_library_artifacts(
    libraries: &Vec<VersionLibrary>,
    resolved: &Vec<ResolvedEntry>,
) -> (r: Vec<RequiredArtifact>)
    ensures
        r.deep_view() == resolved@.filter_map(
            |e: ResolvedEntry| library_requirement(libraries@, e),
        ),
{
    let ghost f = (|e: ResolvedEntry| library_requirement(libraries@, e));
    let mut r: Vec<RequiredArtifact> = Vec::new();
    let mut i: usize = 0;
    proof {
        assert(resolved@.take(0).filter_map(f) =~= Seq::<RequiredArtifactView>::empty());
    }
    while i < resolved.len()
        invariant
            i <= resolved.len(),
            f == (|e: ResolvedEntry| library_requirement(libraries@, e)),
            r.deep_view() =~= resolved@.take(i as int).filter_map(f),
        decreases resolved.len() - i,
    {
        let ghost pre = r.deep_view();
        let e = &resolved[i];
        if e.index < libraries.len() {
            let lib = &libraries[e.index];
            match &lib.downloads {
                Some(dl) => {
                    match &dl.artifact {
                        Some(art) => {
                            let mut path = String::from_str("libraries/");
                            path.append(art.path.as_str());
                            r.push(
                                RequiredArtifact { path, url: art.url.clone(), size: art.size },
                            );
                            proof {
                                assert forall|j: int|
                                    0 <= j < r@.len() implies r.deep_view()[j] == (pre + seq![
                                    f(resolved@[i as int])->0,
                                ])[j] by {
                                    if j < pre.len() {
                                        assert(r.deep_view()[j] == pre[j]);
                                    }
                                }
                                assert(r.deep_view() =~= pre + seq![f(resolved@[i as int])->0]);
                            }
                        },
                        None => {},
                    }
                },
                None => {},
            }
        }
        proof {
            resolved@.lemma_filter_map_take_succ(f, i as int);
        }
        i = i + 1;
    }
    proof {
        assert(resolved@.take(resolved@.len() as int) =~= resolved@);
    }
    r
}

/// What one selected native artifact must have in the cache.
pub open spec fn native_requirement(o: DownloadObjectView) -> RequiredArtifactView {
    RequiredArtifactView { path: "libraries/"@ + o.path, url: o.url, size: o.size }
}

/// The cache requirements of the selected native artifacts, in order.
pub fn required_native_artifacts(natives: &Vec<VersionLibraryDownloadObject>) -> (r: Vec<
    RequiredArtifact,
>)
    ensures
        r.len() == natives.len(),
        forall|j: int|
            0 <= j < r.len() ==> r.deep_view()[j] == native_requirement(
                (#[trigger] natives@[j])@,
            ),
{
    let mut r: Vec<RequiredArtifact> = Vec::new();
    let mut i: usize = 0;
    while i < natives.len()
        invariant
            i <= natives.len(),
            r.len() == i,
            forall|j: int|
                0 <= j < i ==> r.deep_view()[j] == native_requirement((#[trigger] natives@[j])@),
        decreases natives.len() - i,
    {
        let n = &natives[i];
        let mut path = String::from_str("libraries/");
        path.append(n.path.as_str());
        r.push(RequiredArtifact { path, url: n.url.clone(), size: n.size });
        i = i + 1;
    }
    r
}

/// The host of the flat content-addressed asset store.
pub open spec fn resources_host_view() -> Seq<char> {
    "http://resources.download.minecraft.net"@
}

pub fn resources_host() -> (r: &'static str)
    ensures
        r@ == resources_host_view(),
{
    "http://resources.download.minecraft.net"
}

/// Where one asset object lives and whence it comes: virtual assets
/// mirror their logical path under a per-version directory, flat
/// assets live content-addressed under the first two hash characters;
/// the remote source is the flat store either way.
pub open spec fn asset_requirement(
    o: AssetObjectView,
    is_virtual: bool,
    assets_id: Seq<char>,
) -> RequiredArtifactView {
    RequiredArtifactView {
        path: if is_virtual {
            "assets/virtual/"@ + assets_id + "/"@ + o.logical_path
        } else {
            "assets/objects/"@ + o.hash.take(2) + "/"@ + o.hash
        },
        url: resources_host_view() + "/"@ + o.hash.take(2) + "/"@ + o.hash,
        size: o.size,
    }
}

/// The cache requirements of every object of an asset index, in index
/// order.
pub fn required_asset_artifacts(index: &AssetIndex, assets_id: &str) -> (r: Vec<RequiredArtifact>)
    requires
        forall|j: int|
            0 <= j < index.objects.len() ==> (#[trigger] index.objects@[j]).hash@.len() >= 2,
    ensures
        r.len() == index.objects.len(),
        forall|j: int|
            0 <= j < r.len() ==> r.deep_view()[j] == asset_requirement(
                (#[trigger] index.objects@[j])@,
                index.is_virtual,
                assets_id@,
            ),
{
    let host = resources_host();
    let mut r: Vec<RequiredArtifact> = Vec::new();
    let mut i: usize = 0;
    while i < index.objects.len()
        invariant
            i <= index.objects.len(),
            r.len() == i,
            host@ == resources_host_view(),
            forall|j: int|
                0 <= j < index.objects.len() ==> (#[trigger] index.objects@[j]).hash@.len() >= 2,
            forall|j: int|
                0 <= j < i ==> r.deep_view()[j] == asset_requirement(
                    (#[trigger] index.objects@[j])@,
                    index.is_virtual,
                    assets_id@,
                ),
        decreases index.objects.len() - i,
    {
        let o = &index.objects[i];
        let h2 = o.hash.as_str().substring_char(0, 2);
        let path = if index.is_virtual {
            let mut p = String::from_str("assets/virtual/");
            p.append(assets_id);
            p.append("/");
            p.append(o.logical_path.as_str());
            p
        } else {
            let mut p = String::from_str("assets/objects/");
            p.append(h2);
            p.append("/");
            p.append(o.hash.as_str());
            p
        };
        let mut url = host.to_owned();
        url.append("/");
        url.append(h2);
        url.append("/");
        url.append(o.hash.as_str());
        r.push(RequiredArtifact { path, url, size: o.size });
        i = i + 1;
    }
    r
}

/// The path of a version's client jar in the cache.
pub open spec fn client_jar_path(id: Seq<char>) -> Seq<char> {
    "libraries/com/mojang/minecraft/"@ + id + "/client/"@ + id + ".jar"@
}

/// The cache requirement of the version's client jar, if the
/// descriptor carries a client download.
pub fn required_client_artifact(version: &Version) -> (r: Option<RequiredArtifact>)
    ensures
        (r is Some) == (version.downloads.client is Some),
        r is Some ==> r->0@ == (RequiredArtifactView {
            path: client_jar_path(version.id@),
            url: version.downloads.client->0.url@,
            size: version.downloads.client->0.size,
        }),
{
    match &version.downloads.client {
        Some(client) => {
            let mut path = String::from_str("libraries/com/mojang/minecraft/");
            path.append(version.id.as_str());
            path.append("/client/");
            path.append(version.id.as_str());
            path.append(".jar");
            Some(RequiredArtifact { path, url: client.url.clone(), size: client.size })
        },
        None => None,
    }
}

/// The path of a version's asset index file in the cache.
pub open spec fn asset_index_path(assets_id: Seq<char>) -> Seq<char> {
    "assets/indexes/"@ + assets_id + ".json"@
}

/// The cache requirement of the version's asset index file itself.
pub fn required_asset_index_artifact(version: &Version) -> (r: RequiredArtifact)
    ensures
        r@ == (RequiredArtifactView {
            path: asset_index_path(version.assets@),
            url: version.asset_index.url@,
            size: version.asset_index.size,
        }),
{
    let mut path = String::from_str("assets/indexes/");
    path.append(version.assets.as_str());
    path.append(".json");
    RequiredArtifact { path, url: version.asset_index.url.clone(), size: version.asset_index.size }
}

} // verus!
