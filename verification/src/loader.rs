//! Mod loaders: which version of them to take, where it lies once installed, and how it
//! is installed.
use vstd::prelude::*;

use crate::decimal;
use crate::json;
use crate::json::{Json, JsonModel};
use crate::lines;
use crate::order;
use crate::text;
use crate::web;
use crate::web::Body;

verus! {

/// The newest versions of the game.
#[derive(Debug)]
pub struct LatestMcVersion {
    pub release: String,
    pub snapshot: Option<String>,
}

/// The address of the list of the game's versions.
pub fn version_manifest_url() -> (r: &'static str)
    ensures
        r@ == "https://launchermeta.mojang.com/mc/game/version_manifest_v2.json"@,
{
    "https://launchermeta.mojang.com/mc/game/version_manifest_v2.json"
}

/// The newest release of the game in the list of its versions.
pub open spec fn newest_release(m: JsonModel) -> Option<Seq<char>> {
    m.inner_text("latest"@, "release"@)
}

/// The newest snapshot of the game in the list of its versions.
pub open spec fn newest_snapshot(m: JsonModel) -> Option<Seq<char>> {
    m.inner_text("latest"@, "snapshot"@)
}

/// Whether `r` is the newest versions of the game, or why they are not known.
pub open spec fn tells_newest(body: Body, r: Result<LatestMcVersion, String>) -> bool {
    match web::document_in("mojang manifest"@, body) {
        Err(e) => r is Err && r->Err_0@ == e,
        Ok(m) => match newest_release(m) {
            None => r is Err && r->Err_0@ == "manifest missing latest.release"@,
            Some(release) => {
                &&& r is Ok
                &&& r->Ok_0.release@ == release
                &&& text::opt_view(r->Ok_0.snapshot) == newest_snapshot(m)
            },
        },
    }
}

/// The newest versions of the game, from the list of them.
pub fn fetch_latest_minecraft_version(body: Body) -> (r: Result<LatestMcVersion, String>)
    ensures
        tells_newest(body, r),
{
    match web::document("mojang manifest", body) {
        Err(e) => Err(e),
        Ok(m) => match m.get_inner_text("latest", "release") {
            None => Err("manifest missing latest.release".to_owned()),
            Some(release) => {
                let snapshot = m.get_inner_text("latest", "snapshot");
                Ok(LatestMcVersion { release, snapshot })
            },
        },
    }
}

/// The address of the Fabric loaders for a version of the game.
pub open spec fn fabric_list_address(mc_version: Seq<char>) -> Seq<char> {
    "https://meta.fabricmc.net/v2/versions/loader/"@ + mc_version
}

/// The address of the launcher's description of a Fabric loader.
pub open spec fn fabric_profile_address(
    mc_version: Seq<char>,
    loader_version: Seq<char>,
) -> Seq<char> {
    "https://meta.fabricmc.net/v2/versions/loader/"@ + mc_version + "/"@ + loader_version
        + "/profile/json"@
}

/// The address of the Fabric loaders for a version of the game.
pub fn fabric_loader_url(mc_version: &str) -> (r: String)
    ensures
        r@ == fabric_list_address(mc_version@),
{
    text::cat2("https://meta.fabricmc.net/v2/versions/loader/", mc_version)
}

/// The address of the launcher's description of a Fabric loader.
pub fn fabric_profile_url(mc_version: &str, loader_version: &str) -> (r: String)
    ensures
        r@ == fabric_profile_address(mc_version@, loader_version@),
{
    text::cat5(
        "https://meta.fabricmc.net/v2/versions/loader/",
        mc_version,
        "/",
        loader_version,
        "/profile/json",
    )
}

/// Whether a loader is marked stable and has a version.
pub open spec fn stable_entry(entry: JsonModel) -> bool {
    entry.inner_flag("loader"@, "stable"@) && entry.inner_text("loader"@, "version"@) is Some
}

/// The version of the first loader that is marked stable and has one.
pub open spec fn first_stable(entries: Seq<JsonModel>) -> Option<Seq<char>>
    decreases entries.len(),
{
    if entries.len() == 0 {
        None
    } else if stable_entry(entries[0]) {
        entries[0].inner_text("loader"@, "version"@)
    } else {
        first_stable(entries.skip(1))
    }
}

/// The version of the loader to take: the first stable one, and the first of all where
/// none is stable.
pub open spec fn fabric_choice(entries: Seq<JsonModel>) -> Option<Seq<char>> {
    match first_stable(entries) {
        Some(v) => Some(v),
        None => if entries.len() > 0 {
            entries[0].inner_text("loader"@, "version"@)
        } else {
            None
        },
    }
}

/// The loader that is taken is a stable one wherever one is offered.
pub proof fn stable_loader_wins(entries: Seq<JsonModel>, i: int)
    requires
        0 <= i < entries.len(),
        stable_entry(entries[i]),
    ensures
        exists|j: int|
            0 <= j < entries.len() && stable_entry(#[trigger] entries[j]) && fabric_choice(entries)
                == entries[j].inner_text("loader"@, "version"@),
    decreases entries.len(),
{
    if stable_entry(entries[0]) {
        assert(stable_entry(entries[0]));
    } else {
        let rest = entries.skip(1);
        assert(rest[i - 1] == entries[i]);
        stable_loader_wins(rest, i - 1);
        let j = choose|j: int|
            0 <= j < rest.len() && stable_entry(#[trigger] rest[j]) && fabric_choice(rest)
                == rest[j].inner_text("loader"@, "version"@);
        assert(entries[j + 1] == rest[j]);
        lemma_first_stable(rest, i - 1);
    }
}

/// A stable loader is found where there is one.
proof fn lemma_first_stable(entries: Seq<JsonModel>, i: int)
    requires
        0 <= i < entries.len(),
        stable_entry(entries[i]),
    ensures
        first_stable(entries) is Some,
    decreases entries.len(),
{
    if !stable_entry(entries[0]) {
        assert(entries.skip(1)[i - 1] == entries[i]);
        lemma_first_stable(entries.skip(1), i - 1);
    }
}

/// The version of the Fabric loader to take, from the list of those for a version of the
/// game.
pub fn fabric_pick_loader_version(mc_version: &str, body: Body) -> (r: Result<String, String>)
    ensures
        match web::document_in("fabric meta"@, body) {
            Err(e) => r is Err && r->Err_0@ == e,
            Ok(JsonModel::Array(entries)) => match fabric_choice(entries) {
                Some(v) => r is Ok && r->Ok_0@ == v,
                None => r is Err && r->Err_0@ == "no Fabric loader for MC "@ + mc_version@,
            },
            Ok(_) => r is Err && r->Err_0@ == web::undecodable("fabric meta"@),
        },
{
    match web::document("fabric meta", body) {
        Err(e) => Err(e),
        Ok(Json::Array(entries)) => {
            let ghost all = json::models(entries@);
            proof {
                json::lemma_array_model(entries);
                assert(all.skip(0) =~= all);
            }
            let mut i: usize = 0;
            while i < entries.len()
                invariant
                    i <= entries.len(),
                    all == json::models(entries@),
                    web::document_in("fabric meta"@, body) == Ok::<JsonModel, Seq<char>>(
                        JsonModel::Array(all),
                    ),
                    first_stable(all) == first_stable(all.skip(i as int)),
                decreases entries.len() - i,
            {
                assert(all.skip(i as int)[0] == entries@[i as int]@);
                assert(all.skip(i as int).skip(1) =~= all.skip(i + 1));
                if entries[i].get_inner_flag("loader", "stable") {
                    match entries[i].get_inner_text("loader", "version") {
                        Some(v) => {
                            return Ok(v);
                        },
                        None => {},
                    }
                }
                i = i + 1;
            }
            if entries.len() > 0 {
                match entries[0].get_inner_text("loader", "version") {
                    Some(v) => {
                        return Ok(v);
                    },
                    None => {},
                }
            }
            Err(text::cat2("no Fabric loader for MC ", mc_version))
        },
        Ok(_) => Err(web::undecodable_body("fabric meta")),
    }
}

/// The launcher's description of a Fabric loader, from the reply to the request for it.
pub fn fabric_fetch_profile_json(body: Body) -> (r: Result<Json, String>)
    ensures
        match r {
            Ok(j) => web::document_in("fabric profile"@, body) == Ok::<JsonModel, Seq<char>>(j@)
                && json::ordered(j@),
            Err(e) => web::document_in("fabric profile"@, body) == Err::<JsonModel, Seq<char>>(
                e@,
            ),
        },
{
    web::document("fabric profile", body)
}

/// The files of an installed version: they stand in a folder of the version's name.
#[derive(Debug)]
pub struct VersionFiles {
    pub version_id: String,
    pub json_name: String,
    pub json: Vec<u8>,
    pub jar_name: String,
}

impl VersionFiles {
    /// Whether these are the files of the version `version_id` with the description `m`.
    pub open spec fn describe(self, version_id: Seq<char>, m: JsonModel) -> bool {
        &&& self.version_id@ == version_id
        &&& self.json_name@ == version_id + ".json"@
        &&& self.json@ == json::pretty_bytes(m)
        &&& self.jar_name@ == version_id + ".jar"@
    }
}

/// The files to write for a Fabric loader, whose description names the version. The jar
/// is written empty, and only where there is none.
pub fn write_fabric_version_files(profile_json: Json) -> (r: Result<VersionFiles, String>)
    requires
        json::ordered(profile_json@),
    ensures
        match profile_json@.text_field("id"@) {
            None => r is Err && r->Err_0@ == "fabric profile json missing 'id'"@,
            Some(id) => r is Ok && r->Ok_0.describe(id, profile_json@),
        },
{
    match profile_json.get_text("id") {
        None => Err("fabric profile json missing 'id'".to_owned()),
        Some(version_id) => match json::pretty(profile_json) {
            Err(e) => Err(e),
            Ok(bytes) => {
                let json_name = text::cat2(version_id.as_str(), ".json");
                let jar_name = text::cat2(version_id.as_str(), ".jar");
                Ok(VersionFiles { version_id, json_name, json: bytes, jar_name })
            },
        },
    }
}

/// What the NeoForge versions for a version of the game begin with: the version of the
/// game without its leading `1`, with `0` where it has no third number.
pub open spec fn neoforge_prefix(mc_version: Seq<char>) -> Option<Seq<char>> {
    let parts = lines::split(mc_version, '.');
    if parts[0] != "1"@ || parts.len() < 2 {
        None
    } else if parts.len() == 2 {
        Some(parts[1] + "."@ + "0"@ + "."@)
    } else {
        Some(parts[1] + "."@ + parts[2] + "."@)
    }
}

/// A text has at least one piece.
proof fn lemma_split_not_empty(s: Seq<char>, sep: char)
    ensures
        lines::split(s, sep).len() > 0,
{
}

/// What the NeoForge versions for a version of the game begin with.
pub fn neoforge_prefix_for_mc(mc_version: &str) -> (r: Option<String>)
    ensures
        text::opt_view(r) == neoforge_prefix(mc_version@),
{
    let parts = lines::split_on(mc_version, '.');
    let ghost ps = text::views(parts@);
    proof {
        lemma_split_not_empty(mc_version@, '.');
        assert(ps[0] == parts@[0]@);
    }
    if !text::same(parts[0].as_str(), "1") || parts.len() < 2 {
        return None;
    }
    assert(ps[1] == parts@[1]@);
    if parts.len() == 2 {
        Some(text::cat4(parts[1].as_str(), ".", "0", "."))
    } else {
        assert(ps[2] == parts@[2]@);
        Some(text::cat4(parts[1].as_str(), ".", parts[2].as_str(), "."))
    }
}

/// The address of the list of NeoForge versions.
pub fn neoforge_versions_url() -> (r: &'static str)
    ensures
        r@ == "https://maven.neoforged.net/api/maven/versions/releases/net/neoforged/neoforge"@,
{
    "https://maven.neoforged.net/api/maven/versions/releases/net/neoforged/neoforge"
}

/// What the NeoForge versions for a version of the game begin with, or what to say where
/// there are none.
pub fn neoforge_family(mc_version: &str) -> (r: Result<String, String>)
    ensures
        match neoforge_prefix(mc_version@) {
            Some(p) => r is Ok && r->Ok_0@ == p,
            None => r is Err && r->Err_0@ == "Can't map MC "@ + mc_version@
                + " to a NeoForge version"@,
        },
{
    match neoforge_prefix_for_mc(mc_version) {
        Some(p) => Ok(p),
        None => Err(text::cat3("Can't map MC ", mc_version, " to a NeoForge version")),
    }
}

/// Whether a version is no preview.
pub open spec fn is_stable(version: Seq<char>) -> bool {
    let l = text::ascii_lower(version);
    !text::contains(l, "beta"@) && !text::contains(l, "rc"@) && !text::contains(l, "alpha"@)
}

/// Whether a version is no preview.
pub fn is_stable_version(version: &str) -> (r: bool)
    ensures
        r == is_stable(version@),
{
    let l = text::to_ascii_lower(version);
    !text::has(l.as_str(), "beta") && !text::has(l.as_str(), "rc") && !text::has(
        l.as_str(),
        "alpha",
    )
}

/// The last version that begins with `prefix` and, where `stable` is set, is no preview.
pub open spec fn last_version(
    versions: Seq<Seq<char>>,
    prefix: Seq<char>,
    stable: bool,
) -> Option<Seq<char>>
    decreases versions.len(),
{
    if versions.len() == 0 {
        None
    } else if text::starts_with(versions.last(), prefix) && (stable ==> is_stable(
        versions.last(),
    )) {
        Some(versions.last())
    } else {
        last_version(versions.drop_last(), prefix, stable)
    }
}

/// The version to take. The list has the newest last: the newest that is no preview, and
/// the newest of all where each is a preview.
pub open spec fn neoforge_choice(versions: Seq<Seq<char>>, prefix: Seq<char>) -> Option<
    Seq<char>,
> {
    match last_version(versions, prefix, true) {
        Some(v) => Some(v),
        None => last_version(versions, prefix, false),
    }
}

/// The last version that begins with `prefix` and, where `stable` is set, is no preview.
fn newest(versions: &Vec<String>, prefix: &str, stable: bool) -> (r: Option<String>)
    ensures
        text::opt_view(r) == last_version(text::views(versions@), prefix@, stable),
{
    let ghost all = text::views(versions@);
    let mut i: usize = versions.len();
    assert(all.take(i as int) =~= all);
    while i > 0
        invariant
            i <= versions.len(),
            all == text::views(versions@),
            last_version(all, prefix@, stable) == last_version(all.take(i as int), prefix@, stable),
        decreases i,
    {
        assert(all.take(i as int).last() == versions@[i - 1]@);
        assert(all.take(i as int).drop_last() =~= all.take(i - 1));
        if text::has_prefix(versions[i - 1].as_str(), prefix) && (!stable || is_stable_version(
            versions[i - 1].as_str(),
        )) {
            return Some(versions[i - 1].clone());
        }
        i = i - 1;
    }
    None
}

/// The NeoForge version to take, from the list of them. `prefix` is what those for the
/// version of the game begin with.
pub fn neoforge_pick_version(mc_version: &str, prefix: &str, body: Body) -> (r: Result<
    String,
    String,
>)
    ensures
        match web::document_in("neoforge versions"@, body) {
            Err(e) => r is Err && r->Err_0@ == e,
            Ok(m) => match m.field("versions"@) {
                Some(JsonModel::Array(items)) => match neoforge_choice(
                    json::texts_among(items),
                    prefix@,
                ) {
                    Some(v) => r is Ok && r->Ok_0@ == v,
                    None => r is Err && r->Err_0@ == "No NeoForge release for MC "@ + mc_version@,
                },
                _ => r is Err && r->Err_0@
                    == "neoforge versions response missing 'versions' array"@,
            },
        },
{
    match web::document("neoforge versions", body) {
        Err(e) => Err(e),
        Ok(m) => match m.get("versions") {
            Some(Json::Array(items)) => {
                proof {
                    json::lemma_array_model(*items);
                }
                let versions = json::texts_of(items);
                match newest(&versions, prefix, true) {
                    Some(v) => Ok(v),
                    None => match newest(&versions, prefix, false) {
                        Some(v) => Ok(v),
                        None => Err(text::cat2("No NeoForge release for MC ", mc_version)),
                    },
                }
            },
            _ => Err("neoforge versions response missing 'versions' array".to_owned()),
        },
    }
}

/// A version that is chosen belongs to the version of the game, and is a preview only
/// where every version for it is one.
pub proof fn previews_are_a_last_resort(versions: Seq<Seq<char>>, prefix: Seq<char>, i: int)
    requires
        neoforge_choice(versions, prefix) is Some,
        0 <= i < versions.len(),
        text::starts_with(versions[i], prefix),
    ensures
        text::starts_with(neoforge_choice(versions, prefix)->Some_0, prefix),
        is_stable(versions[i]) ==> is_stable(neoforge_choice(versions, prefix)->Some_0),
{
    lemma_last_version(versions, prefix, true);
    lemma_last_version(versions, prefix, false);
}

/// The last version is one of those that count, and is there where one counts.
proof fn lemma_last_version(versions: Seq<Seq<char>>, prefix: Seq<char>, stable: bool)
    ensures
        ({
            let r = last_version(versions, prefix, stable);
            &&& r is Some ==> text::starts_with(r->Some_0, prefix) && (stable ==> is_stable(
                r->Some_0,
            ))
            &&& r is None ==> forall|i: int|
                0 <= i < versions.len() && text::starts_with(#[trigger] versions[i], prefix)
                    ==> stable && !is_stable(versions[i])
        }),
    decreases versions.len(),
{
    if versions.len() > 0 {
        let front = versions.drop_last();
        lemma_last_version(front, prefix, stable);
        if last_version(versions, prefix, stable) is None {
            assert forall|i: int|
                0 <= i < versions.len() && text::starts_with(
                    #[trigger] versions[i],
                    prefix,
                ) implies stable && !is_stable(versions[i]) by {
                if i < front.len() {
                    assert(front[i] == versions[i]);
                }
            }
        }
    }
}

/// The name of the folder that the NeoForge installer makes.
pub fn neoforge_version_id(nf_version: &str) -> (r: String)
    ensures
        r@ == "neoforge-"@ + nf_version@,
{
    text::cat2("neoforge-", nf_version)
}

/// The name of the folder in which a Fabric loader is installed.
pub fn fabric_version_id(loader_version: &str, mc_version: &str) -> (r: String)
    ensures
        r@ == "fabric-loader-"@ + loader_version@ + "-"@ + mc_version@,
{
    text::cat4("fabric-loader-", loader_version, "-", mc_version)
}

/// A folder among the installed versions, and whether it holds the description of the
/// version that it is named after.
#[derive(Debug)]
pub struct VersionFolder {
    pub name: String,
    pub has_json: bool,
}

/// Whether a folder holds the given NeoForge version.
pub open spec fn holds_neoforge(folder: VersionFolder, nf_version: Seq<char>) -> bool {
    &&& text::contains(folder.name@, nf_version)
    &&& text::contains(text::ascii_lower(folder.name@), "neoforge"@)
    &&& folder.has_json
}

/// The name of the first folder that holds the given NeoForge version.
pub open spec fn first_neoforge(folders: Seq<VersionFolder>, nf_version: Seq<char>) -> Option<
    Seq<char>,
>
    decreases folders.len(),
{
    if folders.len() == 0 {
        None
    } else if holds_neoforge(folders[0], nf_version) {
        Some(folders[0].name@)
    } else {
        first_neoforge(folders.skip(1), nf_version)
    }
}

/// The name under which a NeoForge version was installed: the usual one where `usual` says
/// that its description is there, and otherwise that of the first folder that holds it.
pub fn find_neoforge_version_id(
    nf_version: &str,
    usual: bool,
    folders: &Vec<VersionFolder>,
) -> (r: Option<String>)
    ensures
        text::opt_view(r) == (if usual {
            Some("neoforge-"@ + nf_version@)
        } else {
            first_neoforge(folders@, nf_version@)
        }),
{
    if usual {
        return Some(neoforge_version_id(nf_version));
    }
    let mut i: usize = 0;
    assert(folders@.skip(0) =~= folders@);
    while i < folders.len()
        invariant
            !usual,
            i <= folders.len(),
            first_neoforge(folders@, nf_version@) == first_neoforge(
                folders@.skip(i as int),
                nf_version@,
            ),
        decreases folders.len() - i,
    {
        assert(folders@.skip(i as int).skip(1) =~= folders@.skip(i + 1));
        if text::has(folders[i].name.as_str(), nf_version) && text::has(
            text::to_ascii_lower(folders[i].name.as_str()).as_str(),
            "neoforge",
        ) && folders[i].has_json {
            return Some(folders[i].name.clone());
        }
        i = i + 1;
    }
    None
}

/// Whether a folder among the installed versions is one of `loader` for `mc_version`. The
/// folders of NeoForge do not name the version of the game.
pub open spec fn is_loader_folder(
    name: Seq<char>,
    loader: Seq<char>,
    mc_version: Seq<char>,
) -> bool {
    let lower = text::unicode_lowercase(name);
    if loader == "fabric"@ {
        text::starts_with(lower, "fabric-loader-"@) && text::ends_with(name, "-"@ + mc_version)
    } else if loader == "quilt"@ {
        text::starts_with(lower, "quilt-loader-"@) && text::ends_with(name, "-"@ + mc_version)
    } else if loader == "neoforge"@ {
        text::starts_with(lower, "neoforge-"@)
    } else if loader == "forge"@ {
        text::starts_with(lower, "forge-"@ + mc_version + "-"@)
    } else {
        false
    }
}

/// Whether a folder among the installed versions is one of `loader` for `mc_version`.
fn loader_folder(name: &str, loader: &str, mc_version: &str) -> (r: bool)
    ensures
        r == is_loader_folder(name@, loader@, mc_version@),
{
    let lower = text::to_lowercase(name);
    if text::same(loader, "fabric") {
        text::has_prefix(lower.as_str(), "fabric-loader-") && text::has_suffix(
            name,
            text::cat2("-", mc_version).as_str(),
        )
    } else if text::same(loader, "quilt") {
        text::has_prefix(lower.as_str(), "quilt-loader-") && text::has_suffix(
            name,
            text::cat2("-", mc_version).as_str(),
        )
    } else if text::same(loader, "neoforge") {
        text::has_prefix(lower.as_str(), "neoforge-")
    } else if text::same(loader, "forge") {
        text::has_prefix(lower.as_str(), text::cat3("forge-", mc_version, "-").as_str())
    } else {
        false
    }
}

/// Of the folders of `loader` for `mc_version`, the one whose name comes last.
pub open spec fn last_folder(
    names: Seq<Seq<char>>,
    loader: Seq<char>,
    mc_version: Seq<char>,
) -> Option<Seq<char>>
    decreases names.len(),
{
    if names.len() == 0 {
        None
    } else {
        let earlier = last_folder(names.drop_last(), loader, mc_version);
        let name = names.last();
        if !is_loader_folder(name, loader, mc_version) {
            earlier
        } else {
            match earlier {
                Some(best) if !order::less(best, name) => Some(best),
                _ => Some(name),
            }
        }
    }
}

/// The folder that is found is one of the loader's, and no other of those comes after it;
/// none is found only where there is none.
pub proof fn last_folder_comes_last(
    names: Seq<Seq<char>>,
    loader: Seq<char>,
    mc_version: Seq<char>,
)
    ensures
        match last_folder(names, loader, mc_version) {
            Some(n) => {
                &&& names.contains(n)
                &&& is_loader_folder(n, loader, mc_version)
                &&& forall|i: int|
                    0 <= i < names.len() && is_loader_folder(
                        #[trigger] names[i],
                        loader,
                        mc_version,
                    ) ==> !order::less(n, names[i])
            },
            None => forall|i: int|
                0 <= i < names.len() ==> !is_loader_folder(
                    #[trigger] names[i],
                    loader,
                    mc_version,
                ),
        },
    decreases names.len(),
{
    if names.len() > 0 {
        let front = names.drop_last();
        let name = names.last();
        last_folder_comes_last(front, loader, mc_version);
        let earlier = last_folder(front, loader, mc_version);
        match last_folder(names, loader, mc_version) {
            Some(n) => {
                if n == name {
                    assert(names[names.len() - 1] == n);
                } else {
                    let j = choose|j: int| 0 <= j < front.len() && front[j] == n;
                    assert(names[j] == n);
                }
                order::lemma_less_total(name, name);
                assert forall|i: int|
                    0 <= i < names.len() && is_loader_folder(
                        #[trigger] names[i],
                        loader,
                        mc_version,
                    ) implies !order::less(n, names[i]) by {
                    if i < front.len() {
                        assert(front[i] == names[i]);
                        if earlier is Some && order::less(earlier->Some_0, name) && order::less(
                            name,
                            names[i],
                        ) {
                            order::lemma_less_transitive(earlier->Some_0, name, names[i]);
                        }
                    }
                }
            },
            None => {
                assert forall|i: int| 0 <= i < names.len() implies !is_loader_folder(
                    #[trigger] names[i],
                    loader,
                    mc_version,
                ) by {
                    if i < front.len() {
                        assert(front[i] == names[i]);
                    }
                }
            },
        }
    }
}

/// The folder of an installed loader: of those of `loader` for `mc_version` among the
/// folders `names`, the one whose name comes last.
pub fn detect_existing_loader_version(names: &Vec<String>, loader: &str, mc_version: &str) -> (r:
    Option<String>)
    ensures
        text::opt_view(r) == last_folder(text::views(names@), loader@, mc_version@),
{
    let ghost all = text::views(names@);
    let mut best: Option<usize> = None;
    let mut i: usize = 0;
    while i < names.len()
        invariant
            i <= names.len(),
            all == text::views(names@),
            best is Some ==> best->Some_0 < i,
            last_folder(all.take(i as int), loader@, mc_version@) == (match best {
                Some(b) => Some(all[b as int]),
                None => None,
            }),
        decreases names.len() - i,
    {
        assert(all.take(i + 1).drop_last() =~= all.take(i as int));
        assert(all.take(i + 1).last() == names@[i as int]@);
        if loader_folder(names[i].as_str(), loader, mc_version) {
            match best {
                Some(b) => {
                    if order::comes_before(names[b].as_str(), names[i].as_str()) {
                        best = Some(i);
                    }
                },
                None => {
                    best = Some(i);
                },
            }
        }
        i = i + 1;
    }
    assert(all.take(i as int) =~= all);
    match best {
        Some(b) => Some(names[b].clone()),
        None => None,
    }
}

/// The address of the installer of a NeoForge version.
pub open spec fn installer_address(nf_version: Seq<char>) -> Seq<char> {
    "https://maven.neoforged.net/releases/net/neoforged/neoforge/"@ + nf_version + "/neoforge-"@
        + nf_version + "-installer.jar"@
}

/// The name of the installer's file.
pub open spec fn installer_file(nf_version: Seq<char>) -> Seq<char> {
    "neoforge-"@ + nf_version + "-installer.jar"@
}

/// The address of the installer of a NeoForge version.
pub fn neoforge_installer_url(nf_version: &str) -> (r: String)
    ensures
        r@ == installer_address(nf_version@),
{
    text::cat5(
        "https://maven.neoforged.net/releases/net/neoforged/neoforge/",
        nf_version,
        "/neoforge-",
        nf_version,
        "-installer.jar",
    )
}

/// The name of the installer's file.
pub fn neoforge_installer_name(nf_version: &str) -> (r: String)
    ensures
        r@ == installer_file(nf_version@),
{
    text::cat3("neoforge-", nf_version, "-installer.jar")
}

/// The last twenty lines of a text.
pub open spec fn tail(s: Seq<char>) -> Seq<char> {
    let ls = lines::lines(s);
    lines::join(
        if ls.len() > 20 {
            ls.skip(ls.len() - 20)
        } else {
            ls
        },
        "\n"@,
    )
}

/// The last twenty lines of a text.
fn tail_of(s: &str) -> (r: String)
    ensures
        r@ == tail(s@),
{
    let ls = lines::lines_of(s);
    let start: usize = if ls.len() > 20 {
        ls.len() - 20
    } else {
        0
    };
    let ghost all = text::views(ls@);
    let mut last: Vec<String> = Vec::new();
    let mut i: usize = start;
    while i < ls.len()
        invariant
            start <= i <= ls.len(),
            all == text::views(ls@),
            text::views(last@) == all.subrange(start as int, i as int),
        decreases ls.len() - i,
    {
        let ghost before = text::views(last@);
        last.push(ls[i].clone());
        assert(text::views(last@) =~= before.push(all[i as int]));
        assert(all.subrange(start as int, i + 1) =~= all.subrange(start as int, i as int).push(
            all[i as int],
        ));
        i = i + 1;
    }
    proof {
        if start == 0 {
            assert(text::views(last@) =~= all);
        } else {
            assert(text::views(last@) =~= all.skip(start as int));
        }
    }
    lines::joined(&last, "\n")
}

/// A whole number in decimal, with a minus sign where it is negative.
pub open spec fn signed(n: int) -> Seq<char> {
    if n < 0 {
        "-"@ + decimal::decimal((-n) as nat)
    } else {
        decimal::decimal(n as nat)
    }
}

/// An exit code, where there is one, as it is shown.
pub open spec fn shown_code(code: Option<i32>) -> Seq<char> {
    match code {
        Some(n) => "Some("@ + signed(n as int) + ")"@,
        None => "None"@,
    }
}

/// An exit code, where there is one, as it is shown.
fn show_code(code: Option<i32>) -> (r: String)
    ensures
        r@ == shown_code(code),
{
    match code {
        Some(n) => {
            let number = if n < 0 {
                let size: i64 = -(n as i64);
                let digits = decimal::decimal_of(size as u64);
                text::cat2("-", digits.as_str())
            } else {
                decimal::decimal_of(n as u64)
            };
            text::cat3("Some(", number.as_str(), ")")
        },
        None => "None".to_owned(),
    }
}

/// What to say where the NeoForge installer failed: how it ended, and the last lines of
/// what it wrote.
pub fn installer_failure(code: Option<i32>, stdout: &str, stderr: &str) -> (r: String)
    ensures
        r@ == "NeoForge installer failed (exit "@ + shown_code(code)
            + ").\nstdout (tail):\n"@ + tail(stdout@) + "\nstderr (tail):\n"@ + tail(stderr@),
{
    text::cat6(
        "NeoForge installer failed (exit ",
        show_code(code).as_str(),
        ").\nstdout (tail):\n",
        tail_of(stdout).as_str(),
        "\nstderr (tail):\n",
        tail_of(stderr).as_str(),
    )
}

/// Of the versions for the game, newest last, the last that is no preview is taken: behind it
/// stand only previews of them. Where all are previews, the last of all is taken, and where
/// there is none for the game, none.
pub proof fn last_fitting_version_is_taken(versions: Seq<Seq<char>>, prefix: Seq<char>, k: int)
    ensures
        0 <= k < versions.len() && text::starts_with(versions[k], prefix) && is_stable(versions[k])
            && (forall|i: int|
            k < i < versions.len() && text::starts_with(#[trigger] versions[i], prefix)
                ==> !is_stable(versions[i])) ==> neoforge_choice(versions, prefix) == Some(
            versions[k],
        ),
        0 <= k < versions.len() && text::starts_with(versions[k], prefix) && (forall|i: int|
            0 <= i < versions.len() && text::starts_with(#[trigger] versions[i], prefix)
                ==> !is_stable(versions[i])) && (forall|i: int|
            k < i < versions.len() ==> !text::starts_with(#[trigger] versions[i], prefix))
            ==> neoforge_choice(versions, prefix) == Some(versions[k]),
        (forall|i: int|
            0 <= i < versions.len() ==> !text::starts_with(#[trigger] versions[i], prefix))
            ==> neoforge_choice(versions, prefix) is None,
{
    lemma_last_version(versions, prefix, true);
    lemma_last_version(versions, prefix, false);
    lemma_last_version_place(versions, prefix, true);
    lemma_last_version_place(versions, prefix, false);
    if 0 <= k < versions.len() && text::starts_with(versions[k], prefix) && is_stable(versions[k])
        && (forall|i: int|
        k < i < versions.len() && text::starts_with(#[trigger] versions[i], prefix) ==> !is_stable(
            versions[i],
        )) {
        let r = last_version(versions, prefix, true);
        assert(r is Some);
        let m = choose|m: int|
            0 <= m < versions.len() && #[trigger] versions[m] == r->Some_0 && forall|i: int|
                m < i < versions.len() && text::starts_with(#[trigger] versions[i], prefix)
                    ==> !is_stable(versions[i]);
        if m < k {
            assert(!is_stable(versions[k]));
        }
        if k < m {
            assert(!is_stable(versions[m]));
        }
    }
    if 0 <= k < versions.len() && text::starts_with(versions[k], prefix) && (forall|i: int|
        0 <= i < versions.len() && text::starts_with(#[trigger] versions[i], prefix) ==> !is_stable(
            versions[i],
        )) && (forall|i: int|
        k < i < versions.len() ==> !text::starts_with(#[trigger] versions[i], prefix)) {
        let s = last_version(versions, prefix, true);
        if s is Some {
            let m = choose|m: int|
                0 <= m < versions.len() && #[trigger] versions[m] == s->Some_0 && forall|i: int|
                    m < i < versions.len() && text::starts_with(#[trigger] versions[i], prefix)
                        ==> !is_stable(versions[i]);
            assert(!is_stable(versions[m]));
        }
        let r = last_version(versions, prefix, false);
        assert(r is Some);
        let m = choose|m: int|
            0 <= m < versions.len() && #[trigger] versions[m] == r->Some_0 && forall|i: int|
                m < i < versions.len() ==> !text::starts_with(#[trigger] versions[i], prefix);
        if m < k {
            assert(!text::starts_with(versions[k], prefix));
        }
        if k < m {
            assert(!text::starts_with(versions[m], prefix));
        }
    }
    if forall|i: int|
        0 <= i < versions.len() ==> !text::starts_with(#[trigger] versions[i], prefix) {
        let s = last_version(versions, prefix, true);
        let r = last_version(versions, prefix, false);
        if s is Some {
            let m = choose|m: int|
                0 <= m < versions.len() && #[trigger] versions[m] == s->Some_0 && forall|i: int|
                    m < i < versions.len() && text::starts_with(#[trigger] versions[i], prefix)
                        ==> !is_stable(versions[i]);
            assert(!text::starts_with(versions[m], prefix));
        }
        if r is Some {
            let m = choose|m: int|
                0 <= m < versions.len() && #[trigger] versions[m] == r->Some_0 && forall|i: int|
                    m < i < versions.len() ==> !text::starts_with(#[trigger] versions[i], prefix);
            assert(!text::starts_with(versions[m], prefix));
        }
    }
}

/// Behind the last version that counts stands none that counts.
proof fn lemma_last_version_place(versions: Seq<Seq<char>>, prefix: Seq<char>, stable: bool)
    ensures
        last_version(versions, prefix, stable) is Some && stable ==> exists|m: int|
            0 <= m < versions.len() && #[trigger] versions[m] == last_version(
                versions,
                prefix,
                stable,
            )->Some_0 && forall|i: int|
                m < i < versions.len() && text::starts_with(#[trigger] versions[i], prefix)
                    ==> !is_stable(versions[i]),
        last_version(versions, prefix, stable) is Some && !stable ==> exists|m: int|
            0 <= m < versions.len() && #[trigger] versions[m] == last_version(
                versions,
                prefix,
                stable,
            )->Some_0 && forall|i: int|
                m < i < versions.len() ==> !text::starts_with(#[trigger] versions[i], prefix),
    decreases versions.len(),
{
    let r = last_version(versions, prefix, stable);
    if versions.len() > 0 && r is Some {
        let last = versions.len() - 1;
        if text::starts_with(versions.last(), prefix) && (stable ==> is_stable(versions.last())) {
            assert(versions[last] == r->Some_0);
        } else {
            let front = versions.drop_last();
            lemma_last_version_place(front, prefix, stable);
            if stable {
                let m = choose|m: int|
                    0 <= m < front.len() && #[trigger] front[m] == r->Some_0 && forall|i: int|
                        m < i < front.len() && text::starts_with(#[trigger] front[i], prefix)
                            ==> !is_stable(front[i]);
                assert(versions[m] == r->Some_0);
                assert forall|i: int|
                    m < i < versions.len() && text::starts_with(
                        #[trigger] versions[i],
                        prefix,
                    ) implies !is_stable(versions[i]) by {
                    if i < last {
                        assert(front[i] == versions[i]);
                    }
                }
            } else {
                let m = choose|m: int|
                    0 <= m < front.len() && #[trigger] front[m] == r->Some_0 && forall|i: int|
                        m < i < front.len() ==> !text::starts_with(#[trigger] front[i], prefix);
                assert(versions[m] == r->Some_0);
                assert forall|i: int| m < i < versions.len() implies !text::starts_with(
                    #[trigger] versions[i],
                    prefix,
                ) by {
                    if i < last {
                        assert(front[i] == versions[i]);
                    }
                }
            }
        }
    }
}

/// Whether a word marks a preview: it is `beta`, `rc` or `alpha`, in whatever case.
pub open spec fn marks_preview(word: Seq<char>) -> bool {
    text::same_ignoring_case(word, "beta"@) || text::same_ignoring_case(word, "rc"@)
        || text::same_ignoring_case(word, "alpha"@)
}

/// A version is a preview exactly where a word that marks one stands in it.
pub proof fn previews_say_so(version: Seq<char>)
    ensures
        !is_stable(version) <==> exists|front: Seq<char>, word: Seq<char>, rest: Seq<char>|
            version == #[trigger] (front + word + rest) && marks_preview(word),
{
    let l = text::ascii_lower(version);
    reveal_strlit("beta");
    reveal_strlit("rc");
    reveal_strlit("alpha");
    assert(text::ascii_lower("beta"@) =~= "beta"@);
    assert(text::ascii_lower("rc"@) =~= "rc"@);
    assert(text::ascii_lower("alpha"@) =~= "alpha"@);
    if exists|front: Seq<char>, word: Seq<char>, rest: Seq<char>|
        version == #[trigger] (front + word + rest) && marks_preview(word) {
        let (front, word, rest) = choose|front: Seq<char>, word: Seq<char>, rest: Seq<char>|
            version == #[trigger] (front + word + rest) && marks_preview(word);
        let w = text::ascii_lower(word);
        let i = front.len() as int;
        assert(l.subrange(i, i + w.len()) =~= w);
        assert(text::occurs_at(l, w, i));
    }
    if !is_stable(version) {
        let w = if text::contains(l, "beta"@) {
            "beta"@
        } else if text::contains(l, "rc"@) {
            "rc"@
        } else {
            "alpha"@
        };
        let i = choose|i: int| text::occurs_at(l, w, i);
        let front = version.take(i);
        let word = version.subrange(i, i + w.len());
        let rest = version.skip(i + w.len());
        assert(version =~= front + word + rest);
        assert(text::ascii_lower(word) =~= l.subrange(i, i + w.len()));
        assert(marks_preview(word));
    }
}

/// A version without letters is no preview.
pub proof fn plain_numbers_are_stable(version: Seq<char>)
    requires
        forall|i: int| 0 <= i < version.len() ==> ((#[trigger] version[i]) as int) < ('A' as int),
    ensures
        is_stable(version),
{
    reveal_strlit("beta");
    reveal_strlit("rc");
    reveal_strlit("alpha");
    let l = text::ascii_lower(version);
    assert(l =~= version);
    assert forall|i: int| !text::occurs_at(l, "beta"@, i) by {
        if text::occurs_at(l, "beta"@, i) {
            assert(l.subrange(i, i + 4)[0] == l[i]);
            assert((version[i] as int) < ('A' as int));
        }
    }
    assert forall|i: int| !text::occurs_at(l, "rc"@, i) by {
        if text::occurs_at(l, "rc"@, i) {
            assert(l.subrange(i, i + 2)[0] == l[i]);
            assert((version[i] as int) < ('A' as int));
        }
    }
    assert forall|i: int| !text::occurs_at(l, "alpha"@, i) by {
        if text::occurs_at(l, "alpha"@, i) {
            assert(l.subrange(i, i + 5)[0] == l[i]);
            assert((version[i] as int) < ('A' as int));
        }
    }
}

/// The newest release and snapshot are the texts that the list of versions gives under those
/// names in `latest`, each by itself.
pub proof fn newest_versions_are_as_listed(
    members: Seq<(Seq<char>, JsonModel)>,
    latest: Seq<(Seq<char>, JsonModel)>,
    version: Seq<char>,
)
    requires
        json::has_member(members, "latest"@, JsonModel::Object(latest)),
    ensures
        json::has_member(latest, "release"@, JsonModel::Text(version)) ==> newest_release(
            JsonModel::Object(members),
        ) == Some(version),
        json::has_member(latest, "snapshot"@, JsonModel::Text(version)) ==> newest_snapshot(
            JsonModel::Object(members),
        ) == Some(version),
        json::lacks_member(latest, "release"@) ==> newest_release(JsonModel::Object(members))
            is None,
        json::lacks_member(latest, "snapshot"@) ==> newest_snapshot(JsonModel::Object(members))
            is None,
{
    json::inner_member_is_read(
        members,
        "latest"@,
        latest,
        "release"@,
        JsonModel::Text(version),
    );
    json::inner_member_is_read(
        members,
        "latest"@,
        latest,
        "snapshot"@,
        JsonModel::Text(version),
    );
}

/// Whether an entry of Fabric's list describes a loader in the version `version`, marked
/// stable or not.
pub open spec fn lists_loader(entry: JsonModel, version: Seq<char>, stable: bool) -> bool {
    exists|members: Seq<(Seq<char>, JsonModel)>, inner: Seq<(Seq<char>, JsonModel)>|
        entry == JsonModel::Object(members) && #[trigger] json::has_member(
            members,
            "loader"@,
            JsonModel::Object(inner),
        ) && json::has_member(inner, "version"@, JsonModel::Text(version)) && json::has_member(
            inner,
            "stable"@,
            JsonModel::Bool(stable),
        )
}

/// What an entry of Fabric's list says of its loader.
proof fn lemma_lists_loader(entry: JsonModel, version: Seq<char>, stable: bool)
    requires
        lists_loader(entry, version, stable),
    ensures
        stable_entry(entry) == stable,
        entry.inner_text("loader"@, "version"@) == Some(version),
{
    let (members, inner) = choose|
        members: Seq<(Seq<char>, JsonModel)>,
        inner: Seq<(Seq<char>, JsonModel)>,
    |
        entry == JsonModel::Object(members) && #[trigger] json::has_member(
            members,
            "loader"@,
            JsonModel::Object(inner),
        ) && json::has_member(inner, "version"@, JsonModel::Text(version)) && json::has_member(
            inner,
            "stable"@,
            JsonModel::Bool(stable),
        );
    json::inner_member_is_read(members, "loader"@, inner, "version"@, JsonModel::Text(version));
    json::inner_member_is_read(members, "loader"@, inner, "stable"@, JsonModel::Bool(stable));
}

/// Of the Fabric loaders that are listed the first that is marked stable is taken, and the
/// first of all where none is; `versions` and `stable` are what the list says of each.
pub proof fn first_stable_loader_is_taken(
    entries: Seq<JsonModel>,
    versions: Seq<Seq<char>>,
    stable: Seq<bool>,
    i: int,
)
    requires
        versions.len() == entries.len(),
        stable.len() == entries.len(),
        forall|k: int|
            0 <= k < entries.len() ==> lists_loader(#[trigger] entries[k], versions[k], stable[k]),
    ensures
        0 <= i < entries.len() && stable[i] && (forall|j: int| 0 <= j < i ==> !stable[j])
            ==> fabric_choice(entries) == Some(versions[i]),
        entries.len() > 0 && (forall|j: int| 0 <= j < entries.len() ==> !stable[j])
            ==> fabric_choice(entries) == Some(versions[0]),
        entries.len() == 0 ==> fabric_choice(entries) is None,
    decreases entries.len(),
{
    if entries.len() > 0 {
        assert(lists_loader(entries[0], versions[0], stable[0]));
        lemma_lists_loader(entries[0], versions[0], stable[0]);
        if !stable[0] {
            let rest = entries.skip(1);
            let vs = versions.skip(1);
            let st = stable.skip(1);
            assert forall|k: int| 0 <= k < rest.len() implies lists_loader(
                #[trigger] rest[k],
                vs[k],
                st[k],
            ) by {
                assert(lists_loader(entries[k + 1], versions[k + 1], stable[k + 1]));
            }
            first_stable_loader_is_taken(rest, vs, st, i - 1);
            lemma_none_stable(rest, vs, st);
            if 0 <= i < entries.len() && stable[i] && (forall|j: int| 0 <= j < i ==> !stable[j]) {
                assert(i > 0);
                assert(rest[i - 1] == entries[i]);
                lemma_lists_loader(entries[i], versions[i], stable[i]);
                lemma_first_stable(rest, i - 1);
                assert(first_stable(rest) == fabric_choice(rest));
                assert forall|j: int| 0 <= j < i - 1 implies !st[j] by {
                    assert(!stable[j + 1]);
                }
            }
            if forall|j: int| 0 <= j < entries.len() ==> !stable[j] {
                assert forall|j: int| 0 <= j < rest.len() implies !st[j] by {
                    assert(!stable[j + 1]);
                }
            }
        }
    }
}

/// No stable loader is found where none is marked.
proof fn lemma_none_stable(entries: Seq<JsonModel>, versions: Seq<Seq<char>>, stable: Seq<bool>)
    requires
        versions.len() == entries.len(),
        stable.len() == entries.len(),
        forall|k: int|
            0 <= k < entries.len() ==> lists_loader(#[trigger] entries[k], versions[k], stable[k]),
    ensures
        (forall|j: int| 0 <= j < entries.len() ==> !stable[j]) ==> first_stable(entries) is None,
    decreases entries.len(),
{
    if entries.len() > 0 && (forall|j: int| 0 <= j < entries.len() ==> !stable[j]) {
        assert(lists_loader(entries[0], versions[0], stable[0]));
        lemma_lists_loader(entries[0], versions[0], stable[0]);
        assert(!stable[0]);
        let rest = entries.skip(1);
        let vs = versions.skip(1);
        let st = stable.skip(1);
        assert forall|k: int| 0 <= k < rest.len() implies lists_loader(
            #[trigger] rest[k],
            vs[k],
            st[k],
        ) by {
            assert(lists_loader(entries[k + 1], versions[k + 1], stable[k + 1]));
        }
        assert forall|j: int| 0 <= j < rest.len() implies !st[j] by {
            assert(!stable[j + 1]);
        }
        lemma_none_stable(rest, vs, st);
    }
}

/// The NeoForge versions for a version `1.a.b` of the game begin with `a.b.`, those for `1.a`
/// with `a.0.`, whatever follows the third number, and there are none for a version that does
/// not begin with `1.`.
pub proof fn neoforge_follows_the_game(a: Seq<char>, b: Seq<char>, rest: Seq<char>)
    requires
        !a.contains('.'),
        !b.contains('.'),
    ensures
        neoforge_prefix(seq!['1', '.'] + a) == Some(a + seq!['.', '0', '.']),
        neoforge_prefix(seq!['1', '.'] + a + seq!['.'] + b) == Some(a + seq!['.'] + b + seq!['.']),
        neoforge_prefix(seq!['1', '.'] + a + seq!['.'] + b + seq!['.'] + rest) == Some(
            a + seq!['.'] + b + seq!['.'],
        ),
        neoforge_prefix(a) is None,
        a != seq!['1'] ==> neoforge_prefix(a + seq!['.'] + rest) is None,
{
    reveal_strlit("1");
    reveal_strlit(".");
    reveal_strlit("0");
    let one = seq!['1'];
    assert("1"@ =~= one);
    assert("."@ =~= seq!['.']);
    assert("0"@ =~= seq!['0']);
    assert(!one.contains('.')) by {
        if one.contains('.') {
            let k = choose|k: int| 0 <= k < one.len() && one[k] == '.';
        }
    }
    lines::lemma_split_front(one, '.', a);
    lines::lemma_split_front(a, '.', b);
    lines::lemma_split_front(a, '.', rest);
    lines::lemma_split_front(b, '.', rest);
    let two = seq!['1', '.'] + a;
    assert(two =~= one + seq!['.'] + a);
    assert(lines::split(two, '.') =~= seq![one, a]);
    assert(a + "."@ + "0"@ + "."@ =~= a + seq!['.', '0', '.']);
    let tail = a + seq!['.'] + b;
    lines::lemma_split_front(one, '.', tail);
    assert(seq!['1', '.'] + a + seq!['.'] + b =~= one + seq!['.'] + tail);
    assert(lines::split(tail, '.') =~= seq![a, b]);
    assert(lines::split(one + seq!['.'] + tail, '.') =~= seq![one, a, b]);
    let more = b + seq!['.'] + rest;
    lines::lemma_split_front(a, '.', more);
    let long = a + seq!['.'] + more;
    lines::lemma_split_front(one, '.', long);
    assert(seq!['1', '.'] + a + seq!['.'] + b + seq!['.'] + rest =~= one + seq!['.'] + long);
    assert(lines::split(one + seq!['.'] + long, '.') =~= seq![one] + (seq![a] + (seq![b]
        + lines::split(rest, '.'))));
    assert(lines::split(a, '.') =~= seq![a]);
    assert(lines::split(a + seq!['.'] + rest, '.')[0] == a);
}

/// A folder that an installed NeoForge is found under is the first that names the version and
/// NeoForge and holds the description; none is found only where no folder does.
pub proof fn first_folder_of_a_version_is_found(
    folders: Seq<VersionFolder>,
    nf_version: Seq<char>,
    i: int,
)
    ensures
        0 <= i < folders.len() && folders[i].has_json && text::contains(
            folders[i].name@,
            nf_version,
        ) && text::contains(text::ascii_lower(folders[i].name@), "neoforge"@) && (forall|j: int|
            0 <= j < i ==> !((#[trigger] folders[j]).has_json && text::contains(
                folders[j].name@,
                nf_version,
            ) && text::contains(text::ascii_lower(folders[j].name@), "neoforge"@)))
            ==> first_neoforge(folders, nf_version) == Some(folders[i].name@),
        (forall|j: int|
            0 <= j < folders.len() ==> !((#[trigger] folders[j]).has_json && text::contains(
                folders[j].name@,
                nf_version,
            ) && text::contains(text::ascii_lower(folders[j].name@), "neoforge"@)))
            ==> first_neoforge(folders, nf_version) is None,
    decreases folders.len(),
{
    if folders.len() > 0 {
        let rest = folders.skip(1);
        first_folder_of_a_version_is_found(rest, nf_version, i - 1);
        if i > 0 && i < folders.len() {
            assert(rest[i - 1] == folders[i]);
        }
        assert forall|j: int| 0 <= j < rest.len() implies #[trigger] rest[j] == folders[j + 1] by {}
        if forall|j: int|
            0 <= j < i ==> !((#[trigger] folders[j]).has_json && text::contains(
                folders[j].name@,
                nf_version,
            ) && text::contains(text::ascii_lower(folders[j].name@), "neoforge"@)) {
            if i > 0 {
                assert(!holds_neoforge(folders[0], nf_version));
            }
        }
    }
}

/// A folder is one of Fabric's or Quilt's for a version of the game where its name begins
/// with the loader's and ends with that version behind a hyphen, one of Forge's where the
/// version stands behind the loader's name, and one of NeoForge's by its beginning alone;
/// no other loader has folders.
pub proof fn folders_name_their_loader(name: Seq<char>, mc_version: Seq<char>, loader: Seq<char>)
    ensures
        is_loader_folder(name, "fabric"@, mc_version) <==> text::starts_with(
            text::unicode_lowercase(name),
            "fabric-loader-"@,
        ) && exists|front: Seq<char>| name == #[trigger] (front + ("-"@ + mc_version)),
        is_loader_folder(name, "quilt"@, mc_version) <==> text::starts_with(
            text::unicode_lowercase(name),
            "quilt-loader-"@,
        ) && exists|front: Seq<char>| name == #[trigger] (front + ("-"@ + mc_version)),
        is_loader_folder(name, "neoforge"@, mc_version) <==> exists|rest: Seq<char>|
            text::unicode_lowercase(name) == #[trigger] ("neoforge-"@ + rest),
        is_loader_folder(name, "forge"@, mc_version) <==> exists|rest: Seq<char>|
            text::unicode_lowercase(name) == #[trigger] ("forge-"@ + mc_version + "-"@ + rest),
        loader != "fabric"@ && loader != "quilt"@ && loader != "neoforge"@ && loader != "forge"@
            ==> !is_loader_folder(name, loader, mc_version),
{
    reveal_strlit("fabric");
    reveal_strlit("quilt");
    reveal_strlit("neoforge");
    reveal_strlit("forge");
    assert("fabric"@[0] == 'f' && "quilt"@[0] == 'q' && "neoforge"@[0] == 'n');
    assert("fabric"@.len() == 6 && "forge"@.len() == 5);
    text::ending_is_a_tail(name, "-"@ + mc_version);
    text::beginning_is_a_front(text::unicode_lowercase(name), "neoforge-"@);
    text::beginning_is_a_front(text::unicode_lowercase(name), "forge-"@ + mc_version + "-"@);
}

/// The newest release is what the list that was received calls so in `latest`, and the newest
/// snapshot likewise; without a release in the list, or without the list, neither is known.
pub proof fn latest_is_what_the_list_says(
    bytes: Vec<u8>,
    members: Seq<(Seq<char>, JsonModel)>,
    latest: Seq<(Seq<char>, JsonModel)>,
    release: Seq<char>,
    snapshot: Seq<char>,
    r: Result<LatestMcVersion, String>,
)
    requires
        json::json_read(bytes@) == Ok::<JsonModel, Seq<char>>(JsonModel::Object(members)),
        json::has_member(members, "latest"@, JsonModel::Object(latest)),
        tells_newest(Body::Received(bytes), r),
    ensures
        json::has_member(latest, "release"@, JsonModel::Text(release)) ==> r is Ok
            && r->Ok_0.release@ == release,
        json::has_member(latest, "release"@, JsonModel::Text(release)) && json::has_member(
            latest,
            "snapshot"@,
            JsonModel::Text(snapshot),
        ) ==> r->Ok_0.snapshot is Some && r->Ok_0.snapshot->Some_0@ == snapshot,
        json::lacks_member(latest, "release"@) ==> r is Err,
{
    newest_versions_are_as_listed(members, latest, release);
    newest_versions_are_as_listed(members, latest, snapshot);
}

/// The description of a Fabric loader lies below the list of the loaders for the same version
/// of the game, under the loader's own version.
pub proof fn descriptions_lie_below_the_list(mc_version: Seq<char>, loader_version: Seq<char>)
    ensures
        fabric_list_address(mc_version) == "https://meta.fabricmc.net/v2/versions/loader/"@
            + mc_version,
        fabric_profile_address(mc_version, loader_version) == fabric_list_address(mc_version)
            + "/"@ + loader_version + "/profile/json"@,
{
}

/// The installer of a NeoForge version is had from the folder of that version, under the name
/// that its file has here too.
pub proof fn installer_keeps_its_name(nf_version: Seq<char>)
    ensures
        installer_file(nf_version) == "neoforge-"@ + nf_version + "-installer.jar"@,
        installer_address(nf_version)
            == "https://maven.neoforged.net/releases/net/neoforged/neoforge/"@ + nf_version + "/"@
            + installer_file(nf_version),
{
    reveal_strlit("/");
    reveal_strlit("neoforge-");
    reveal_strlit("/neoforge-");
    let front = "https://maven.neoforged.net/releases/net/neoforged/neoforge/"@ + nf_version;
    assert(installer_address(nf_version) =~= front + "/"@ + installer_file(nf_version));
}

/// The last lines of a text of up to twenty lines are all of them, and of a longer one the
/// twenty that stand at its end.
pub proof fn tail_is_the_last_twenty_lines(s: Seq<char>)
    ensures
        lines::lines(s).len() <= 20 ==> tail(s) == lines::join(lines::lines(s), "\n"@),
        lines::lines(s).len() > 20 ==> exists|last: Seq<Seq<char>>|
            last.len() == 20 && tail(s) == #[trigger] lines::join(last, "\n"@) && forall|i: int|
                0 <= i < 20 ==> (#[trigger] last[i]) == lines::lines(s)[lines::lines(s).len() - 20
                    + i],
{
    let ls = lines::lines(s);
    if ls.len() > 20 {
        let last = ls.skip(ls.len() - 20);
        assert(tail(s) == lines::join(last, "\n"@));
    }
}

/// A whole number is read back from its digits, behind a minus sign where it is negative.
pub proof fn signs_are_kept(n: int)
    ensures
        n >= 0 ==> decimal::number_in(signed(n)) == n,
        n < 0 ==> signed(n)[0] == '-' && decimal::number_in(signed(n).skip(1)) == -n,
{
    reveal_strlit("-");
    if n >= 0 {
        decimal::digits_give_back_the_number(n as nat);
    } else {
        decimal::digits_give_back_the_number((-n) as nat);
        assert(signed(n).skip(1) =~= decimal::decimal((-n) as nat));
    }
}

} // verus!
