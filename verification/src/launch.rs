//! The launch argument compiler: placeholder substitution in the
//! version's JVM and game argument templates, classpath assembly with
//! the platform's separator, and the per-instance directory paths.
use vstd::prelude::*;

use crate::strings::{
    contains_seq, contains_sub, join_seq, join_with, push_string, replace_all, replace_seq,
};
use crate::sync::library_requirement;
use crate::dependency::ResolvedEntry;
use crate::version::{VersionLibrary, VersionLibraryDownloadObject};
use crate::OsKind;
use vstd::seq_lib::*;

verus! {

/// The compiled invocation: JVM arguments, then the main class, then
/// game arguments, in template order.
pub struct LaunchArguments {
    pub jvm_args: Vec<String>,
    pub game_args: Vec<String>,
}

/// The cache path of one resolved library's jar, absent for entries
/// without a direct download descriptor.
pub open spec fn library_path_of(libs: Seq<VersionLibrary>, e: ResolvedEntry) -> Option<Seq<char>> {
    match library_requirement(libs, e) {
        Some(rq) => Some(rq.path),
        None => None,
    }
}

/// The cache paths of the resolved libraries' jars, in resolution
/// order.
pub fn get_required_libraries_paths(
    libraries: &Vec<VersionLibrary>,
    resolved: &Vec<ResolvedEntry>,
) -> (r: Vec<String>)
    ensures
        r.deep_view() == resolved@.filter_map(|e: ResolvedEntry| library_path_of(libraries@, e)),
{
    let ghost f = (|e: ResolvedEntry| library_path_of(libraries@, e));
    let mut r: Vec<String> = Vec::new();
    let mut i: usize = 0;
    proof {
        assert(resolved@.take(0).filter_map(f) =~= Seq::<Seq<char>>::empty());
    }
    while i < resolved.len()
        invariant
            i <= resolved.len(),
            f == (|e: ResolvedEntry| library_path_of(libraries@, e)),
            r.deep_view() =~= resolved@.take(i as int).filter_map(f),
        decreases resolved.len() - i,
    {
        let e = &resolved[i];
        if e.index < libraries.len() {
            let lib = &libraries[e.index];
            match &lib.downloads {
                Some(dl) => {
                    match &dl.artifact {
                        Some(art) => {
                            let mut path = String::from_str("libraries/");
                            path.append(art.path.as_str());
                            push_string(&mut r, path);
                        },
                        None => {},
                    }
                },
                None => {},
            }
        }
        proof {
            resolved@.lemma_filter_map_take_succ(f, i as int);
        }
        i = i + 1;
    }
    proof {
        assert(resolved@.take(resolved@.len() as int) =~= resolved@);
    }
    r
}

/// The cache paths of the selected native jars, in order.
pub fn get_required_natives_paths(natives: &Vec<VersionLibraryDownloadObject>) -> (r: Vec<String>)
    ensures
        r.len() == natives.len(),
        forall|j: int|
            0 <= j < r.len() ==> r.deep_view()[j] == "libraries/"@ + (#[trigger] natives@[j]).path@,
{
    let mut r: Vec<String> = Vec::new();
    let mut i: usize = 0;
    while i < natives.len()
        invariant
            i <= natives.len(),
            r.len() == i,
            forall|j: int|
                0 <= j < i ==> r.deep_view()[j] == "libraries/"@ + (#[trigger] natives@[j]).path@,
        decreases natives.len() - i,
    {
        let mut path = String::from_str("libraries/");
        path.append(natives[i].path.as_str());
        push_string(&mut r, path);
        i = i + 1;
    }
    r
}

impl crate::version::Version {
    /// The cache paths of this version's resolved library jars.
    pub fn get_required_libraries_paths(&self, resolved: &Vec<ResolvedEntry>) -> (r: Vec<String>)
        ensures
            r.deep_view() == resolved@.filter_map(
                |e: ResolvedEntry| library_path_of(self.libraries@, e),
            ),
    {
        get_required_libraries_paths(&self.libraries, resolved)
    }
}

/// Joins a root directory and path components with `/`.
pub fn join_directories(root: &str, parts: &Vec<String>) -> (r: String)
    ensures
        r@ == join_seq(seq![root@] + parts.deep_view(), "/"@),
{
    let mut all: Vec<String> = Vec::new();
    push_string(&mut all, root.to_owned());
    let mut i: usize = 0;
    while i < parts.len()
        invariant
            i <= parts.len(),
            all.deep_view() =~= seq![root@] + parts.deep_view().take(i as int),
        decreases parts.len() - i,
    {
        push_string(&mut all, parts[i].clone());
        proof {
            assert(all.deep_view() =~= seq![root@] + parts.deep_view().take(i + 1));
        }
        i = i + 1;
    }
    proof {
        assert(parts.deep_view().take(parts.deep_view().len() as int) =~= parts.deep_view());
    }
    join_with(&all, "/")
}

/// The separator between classpath entries on the given platform.
pub open spec fn separator_view(os: OsKind) -> Seq<char> {
    if os is Windows {
        ";"@
    } else {
        ":"@
    }
}

pub fn classpath_separator_str(os: OsKind) -> (r: &'static str)
    ensures
        r@ == separator_view(os),
{
    match os {
        OsKind::Windows => ";",
        OsKind::Linux => ":",
        OsKind::Macos => ":",
    }
}

/// Assembles the classpath: the resolved library paths, then the
/// native jar paths, then the client jar, joined with `;` on Windows
/// and `:` elsewhere.
pub fn build_classpath(
    library_paths: &Vec<String>,
    native_paths: &Vec<String>,
    client_jar: &String,
    os: OsKind,
) -> (r: String)
    ensures
        r@ == join_seq(
            library_paths.deep_view() + native_paths.deep_view() + seq![client_jar@],
            separator_view(os),
        ),
{
    let mut all: Vec<String> = Vec::new();
    let mut i: usize = 0;
    while i < library_paths.len()
        invariant
            i <= library_paths.len(),
            all.deep_view() =~= library_paths.deep_view().take(i as int),
        decreases library_paths.len() - i,
    {
        push_string(&mut all, library_paths[i].clone());
        proof {
            assert(all.deep_view() =~= library_paths.deep_view().take(i + 1));
        }
        i = i + 1;
    }
    let mut j: usize = 0;
    while j < native_paths.len()
        invariant
            j <= native_paths.len(),
            all.deep_view() =~= library_paths.deep_view() + native_paths.deep_view().take(j as int),
        decreases native_paths.len() - j,
    {
        push_string(&mut all, native_paths[j].clone());
        proof {
            assert(all.deep_view() =~= library_paths.deep_view() + native_paths.deep_view().take(
                j + 1,
            ));
        }
        j = j + 1;
    }
    push_string(&mut all, client_jar.clone());
    proof {
        assert(library_paths.deep_view().take(library_paths.deep_view().len() as int)
            =~= library_paths.deep_view());
        assert(native_paths.deep_view().take(native_paths.deep_view().len() as int)
            =~= native_paths.deep_view());
        assert(all.deep_view() =~= library_paths.deep_view() + native_paths.deep_view() + seq![
            client_jar@,
        ]);
    }
    let sep = classpath_separator_str(os);
    join_with(&all, sep)
}

/// The per-instance directory natives are extracted into.
pub open spec fn natives_directory_path(id: Seq<char>) -> Seq<char> {
    "instances/"@ + id + "/natives"@
}

pub fn natives_directory(version_id: &str) -> (r: String)
    ensures
        r@ == natives_directory_path(version_id@),
{
    let mut p = String::from_str("instances/");
    p.append(version_id);
    p.append("/natives");
    p
}

/// The per-instance game directory.
pub open spec fn game_directory_path(id: Seq<char>) -> Seq<char> {
    "instances/"@ + id + "/.minecraft"@
}

pub fn game_directory(version_id: &str) -> (r: String)
    ensures
        r@ == game_directory_path(version_id@),
{
    let mut p = String::from_str("instances/");
    p.append(version_id);
    p.append("/.minecraft");
    p
}

/// One JVM template token after substitution: the first recognized
/// placeholder decides, tokens without one pass through verbatim.
pub open spec fn jvm_substituted(
    arg: Seq<char>,
    classpath: Seq<char>,
    natives_dir: Seq<char>,
) -> Seq<char> {
    if contains_seq(arg, "${launcher_name}"@) {
        replace_seq(arg, "${launcher_name}"@, "DuckLauncher"@)
    } else if contains_seq(arg, "${natives_directory}"@) {
        replace_seq(arg, "${natives_directory}"@, natives_dir)
    } else if contains_seq(arg, "${launcher_version}"@) {
        replace_seq(arg, "${launcher_version}"@, "1"@)
    } else if contains_seq(arg, "${classpath}"@) {
        replace_seq(arg, "${classpath}"@, classpath)
    } else {
        arg
    }
}

/// The JVM template after substitution, token by token.
pub open spec fn jvm_args_of(
    template: Seq<Seq<char>>,
    classpath: Seq<char>,
    natives_dir: Seq<char>,
) -> Seq<Seq<char>> {
    Seq::new(template.len(), |i: int| jvm_substituted(template[i], classpath, natives_dir))
}

/// The identity and location values game tokens draw on.
pub ghost struct GameContext {
    pub player_name: Seq<char>,
    pub player_uuid: Seq<char>,
    pub access_token: Seq<char>,
    pub version_id: Seq<char>,
    pub version_type: Seq<char>,
    pub assets_index_name: Seq<char>,
    pub game_directory: Seq<char>,
    pub assets_root: Seq<char>,
}

/// What one game template token contributes: a token holding a
/// placeholder yields the value of every placeholder name it holds,
/// in a fixed order; a token without one passes through verbatim.
pub open spec fn game_values(arg: Seq<char>, c: GameContext) -> Seq<Seq<char>> {
    if contains_seq(arg, "${"@) && contains_seq(arg, "}"@) {
        (if contains_seq(arg, "auth_player_name"@) {
            seq![c.player_name]
        } else {
            Seq::<Seq<char>>::empty()
        }) + (if contains_seq(arg, "version_name"@) {
            seq![c.version_id]
        } else {
            Seq::<Seq<char>>::empty()
        }) + (if contains_seq(arg, "game_directory"@) {
            seq![c.game_directory]
        } else {
            Seq::<Seq<char>>::empty()
        }) + (if contains_seq(arg, "assets_root"@) {
            seq![c.assets_root]
        } else {
            Seq::<Seq<char>>::empty()
        }) + (if contains_seq(arg, "assets_index_name"@) {
            seq![c.assets_index_name]
        } else {
            Seq::<Seq<char>>::empty()
        }) + (if contains_seq(arg, "auth_uuid"@) {
            seq![c.player_uuid]
        } else {
            Seq::<Seq<char>>::empty()
        }) + (if contains_seq(arg, "auth_access_token"@) {
            seq![c.access_token]
        } else {
            Seq::<Seq<char>>::empty()
        }) + (if contains_seq(arg, "user_type"@) {
            seq!["mojang"@]
        } else {
            Seq::<Seq<char>>::empty()
        }) + (if contains_seq(arg, "version_type"@) {
            seq![c.version_type]
        } else {
            Seq::<Seq<char>>::empty()
        })
    } else {
        seq![arg]
    }
}

/// The game template rendered against the context, token by token.
pub open spec fn game_args_of(template: Seq<Seq<char>>, c: GameContext) -> Seq<Seq<char>>
    decreases template.len(),
{
    if template.len() == 0 {
        Seq::<Seq<char>>::empty()
    } else {
        game_values(template[0], c) + game_args_of(template.skip(1), c)
    }
}

pub proof fn lemma_game_args_of_snoc(template: Seq<Seq<char>>, t: Seq<char>, c: GameContext)
    ensures
        game_args_of(template.push(t), c) =~= game_args_of(template, c) + game_values(t, c),
    decreases template.len(),
{
    if template.len() == 0 {
        assert(template.push(t).skip(1) =~= Seq::<Seq<char>>::empty());
        assert(template.push(t)[0] == t);
        assert(game_args_of(template.push(t), c) == game_values(t, c) + game_args_of(
            Seq::<Seq<char>>::empty(),
            c,
        ));
    } else {
        lemma_game_args_of_snoc(template.skip(1), t, c);
        assert(template.push(t).skip(1) =~= template.skip(1).push(t));
        assert(template.push(t)[0] == template[0]);
        assert(game_args_of(template.push(t), c) == game_values(template[0], c) + game_args_of(
            template.skip(1).push(t),
            c,
        ));
        assert(game_args_of(template, c) == game_values(template[0], c) + game_args_of(
            template.skip(1),
            c,
        ));
    }
}

/// Substitutes one JVM template token.
fn substitute_jvm_token(arg: &str, classpath: &str, natives_dir: &str) -> (r: String)
    ensures
        r@ == jvm_substituted(arg@, classpath@, natives_dir@),
{
    proof {
        reveal_strlit("${launcher_name}");
        reveal_strlit("${natives_directory}");
        reveal_strlit("${launcher_version}");
        reveal_strlit("${classpath}");
    }
    if contains_sub(arg, "${launcher_name}") {
        replace_all(arg, "${launcher_name}", "DuckLauncher")
    } else if contains_sub(arg, "${natives_directory}") {
        replace_all(arg, "${natives_directory}", natives_dir)
    } else if contains_sub(arg, "${launcher_version}") {
        replace_all(arg, "${launcher_version}", "1")
    } else if contains_sub(arg, "${classpath}") {
        replace_all(arg, "${classpath}", classpath)
    } else {
        arg.to_owned()
    }
}

/// Renders one game template token against the context values.
#[verifier::rlimit(60)]
fn game_token_values(
    arg: &str,
    player_name: &str,
    player_uuid: &str,
    access_token: &str,
    version_id: &str,
    version_type: &str,
    assets_index_name: &str,
    game_dir: &str,
    assets_root: &str,
) -> (r: Vec<String>)
    ensures
        r.deep_view() == game_values(
            arg@,
            (GameContext {
                player_name: player_name@,
                player_uuid: player_uuid@,
                access_token: access_token@,
                version_id: version_id@,
                version_type: version_type@,
                assets_index_name: assets_index_name@,
                game_directory: game_dir@,
                assets_root: assets_root@,
            }),
        ),
{
    let ghost c = GameContext {
        player_name: player_name@,
        player_uuid: player_uuid@,
        access_token: access_token@,
        version_id: version_id@,
        version_type: version_type@,
        assets_index_name: assets_index_name@,
        game_directory: game_dir@,
        assets_root: assets_root@,
    };
    let ghost a1 = if contains_seq(arg@, "auth_player_name"@) {
        seq![c.player_name]
    } else {
        Seq::<Seq<char>>::empty()
    };
    let ghost a2 = if contains_seq(arg@, "version_name"@) {
        seq![c.version_id]
    } else {
        Seq::<Seq<char>>::empty()
    };
    let ghost a3 = if contains_seq(arg@, "game_directory"@) {
        seq![c.game_directory]
    } else {
        Seq::<Seq<char>>::empty()
    };
    let ghost a4 = if contains_seq(arg@, "assets_root"@) {
        seq![c.assets_root]
    } else {
        Seq::<Seq<char>>::empty()
    };
    let ghost a5 = if contains_seq(arg@, "assets_index_name"@) {
        seq![c.assets_index_name]
    } else {
        Seq::<Seq<char>>::empty()
    };
    let ghost a6 = if contains_seq(arg@, "auth_uuid"@) {
        seq![c.player_uuid]
    } else {
        Seq::<Seq<char>>::empty()
    };
    let ghost a7 = if contains_seq(arg@, "auth_access_token"@) {
        seq![c.access_token]
    } else {
        Seq::<Seq<char>>::empty()
    };
    let ghost a8 = if contains_seq(arg@, "user_type"@) {
        seq!["mojang"@]
    } else {
        Seq::<Seq<char>>::empty()
    };
    let ghost a9 = if contains_seq(arg@, "version_type"@) {
        seq![c.version_type]
    } else {
        Seq::<Seq<char>>::empty()
    };
    let mut r: Vec<String> = Vec::new();
    if contains_sub(arg, "${") && contains_sub(arg, "}") {
        if contains_sub(arg, "auth_player_name") {
            push_string(&mut r, String::from_str(player_name));
        }
        proof {
            assert(r.deep_view() =~= a1);
        }
        if contains_sub(arg, "version_name") {
            push_string(&mut r, String::from_str(version_id));
        }
        proof {
            assert(r.deep_view() =~= a1 + a2);
        }
        if contains_sub(arg, "game_directory") {
            push_string(&mut r, String::from_str(game_dir));
        }
        proof {
            assert(r.deep_view() =~= a1 + a2 + a3);
        }
        if contains_sub(arg, "assets_root") {
            push_string(&mut r, String::from_str(assets_root));
        }
        proof {
            assert(r.deep_view() =~= a1 + a2 + a3 + a4);
        }
        if contains_sub(arg, "assets_index_name") {
            push_string(&mut r, String::from_str(assets_index_name));
        }
        proof {
            assert(r.deep_view() =~= a1 + a2 + a3 + a4 + a5);
        }
        if contains_sub(arg, "auth_uuid") {
            push_string(&mut r, String::from_str(player_uuid));
        }
        proof {
            assert(r.deep_view() =~= a1 + a2 + a3 + a4 + a5 + a6);
        }
        if contains_sub(arg, "auth_access_token") {
            push_string(&mut r, String::from_str(access_token));
        }
        proof {
            assert(r.deep_view() =~= a1 + a2 + a3 + a4 + a5 + a6 + a7);
        }
        if contains_sub(arg, "user_type") {
            push_string(&mut r, String::from_str("mojang"));
        }
        proof {
            assert(r.deep_view() =~= a1 + a2 + a3 + a4 + a5 + a6 + a7 + a8);
        }
        if contains_sub(arg, "version_type") {
            push_string(&mut r, String::from_str(version_type));
        }
        proof {
            assert(r.deep_view() =~= a1 + a2 + a3 + a4 + a5 + a6 + a7 + a8 + a9);
            assert(r.deep_view() =~= game_values(arg@, c));
        }
    } else {
        push_string(&mut r, arg.to_owned());
        proof {
            assert(r.deep_view() =~= game_values(arg@, c));
        }
    }
    r
}

/// Compiles the JVM and game argument vectors from the version's
/// templates: placeholders substituted, everything else verbatim, in
/// exactly the templates' declared order.
pub fn compile_arguments(
    jvm_template: &Vec<String>,
    game_template: &Vec<String>,
    classpath: &str,
    natives_dir: &str,
    player_name: &str,
    player_uuid: &str,
    access_token: &str,
    version_id: &str,
    version_type: &str,
    assets_index_name: &str,
    game_dir: &str,
    assets_root: &str,
) -> (r: LaunchArguments)
    ensures
        r.jvm_args.deep_view() == jvm_args_of(jvm_template.deep_view(), classpath@, natives_dir@),
        r.game_args.deep_view() == game_args_of(
            game_template.deep_view(),
            (GameContext {
                player_name: player_name@,
                player_uuid: player_uuid@,
                access_token: access_token@,
                version_id: version_id@,
                version_type: version_type@,
                assets_index_name: assets_index_name@,
                game_directory: game_dir@,
                assets_root: assets_root@,
            }),
        ),
{
    let ghost c = GameContext {
        player_name: player_name@,
        player_uuid: player_uuid@,
        access_token: access_token@,
        version_id: version_id@,
        version_type: version_type@,
        assets_index_name: assets_index_name@,
        game_directory: game_dir@,
        assets_root: assets_root@,
    };
    let mut jvm_args: Vec<String> = Vec::new();
    let mut i: usize = 0;
    while i < jvm_template.len()
        invariant
            i <= jvm_template.len(),
            jvm_args.deep_view() =~= jvm_args_of(
                jvm_template.deep_view(),
                classpath@,
                natives_dir@,
            ).take(i as int),
        decreases jvm_template.len() - i,
    {
        let tok = substitute_jvm_token(jvm_template[i].as_str(), classpath, natives_dir);
        push_string(&mut jvm_args, tok);
        proof {
            assert(jvm_args.deep_view() =~= jvm_args_of(
                jvm_template.deep_view(),
                classpath@,
                natives_dir@,
            ).take(i + 1));
        }
        i = i + 1;
    }
    proof {
        let whole = jvm_args_of(jvm_template.deep_view(), classpath@, natives_dir@);
        assert(whole.take(whole.len() as int) =~= whole);
    }
    let mut game_args: Vec<String> = Vec::new();
    let mut k: usize = 0;
    while k < game_template.len()
        invariant
            k <= game_template.len(),
            c == (GameContext {
                player_name: player_name@,
                player_uuid: player_uuid@,
                access_token: access_token@,
                version_id: version_id@,
                version_type: version_type@,
                assets_index_name: assets_index_name@,
                game_directory: game_dir@,
                assets_root: assets_root@,
            }),
            game_args.deep_view() =~= game_args_of(
                game_template.deep_view().take(k as int),
                c,
            ),
        decreases game_template.len() - k,
    {
        let mut vals = game_token_values(
            game_template[k].as_str(),
            player_name,
            player_uuid,
            access_token,
            version_id,
            version_type,
            assets_index_name,
            game_dir,
            assets_root,
        );
        let ghost pre = game_args.deep_view();
        let ghost vals_v = vals.deep_view();
        let mut v: usize = 0;
        while v < vals.len()
            invariant
                v <= vals.len(),
                vals.deep_view() == vals_v,
                game_args.deep_view() =~= pre + vals_v.take(v as int),
            decreases vals.len() - v,
        {
            push_string(&mut game_args, vals[v].clone());
            proof {
                assert(game_args.deep_view() =~= pre + vals_v.take(v + 1));
            }
            v = v + 1;
        }
        proof {
            assert(vals_v.take(vals_v.len() as int) =~= vals_v);
            lemma_game_args_of_snoc(game_template.deep_view().take(k as int), game_template.deep_view()[k as int], c);
            assert(game_template.deep_view().take(k as int).push(
                game_template.deep_view()[k as int],
            ) =~= game_template.deep_view().take(k + 1));
        }
        k = k + 1;
    }
    proof {
        let dv = game_template.deep_view();
        assert(dv.take(dv.len() as int) =~= dv);
    }
    LaunchArguments { jvm_args, game_args }
}

} // verus!
