//! Modpacks in Modrinth's format: the pack's file, its manifest, the files that it lists
//! and those that it brings.
use vstd::prelude::*;

use crate::decimal;
use crate::install::InstallReport;
use crate::items;
use crate::items::{ItemResult, Outcome};
use crate::modrinth;
use crate::modrinth::ModrinthVersion;
use crate::profile::{one, said, says, silence, Level, Progress};
use crate::text;
use crate::web::Reply;

verus! {

/// A value under a name.
#[derive(Debug)]
pub struct NamedValue {
    pub name: String,
    pub value: String,
}

/// A file that the manifest of a modpack lists.
#[derive(Debug)]
pub struct MrpackFile {
    pub path: String,
    pub sha1: Option<String>,
    pub downloads: Vec<String>,
    /// Whether client and server need the file.
    pub env: Vec<NamedValue>,
}

/// The manifest of a modpack.
#[derive(Debug)]
pub struct MrpackIndex {
    pub name: String,
    pub files: Vec<MrpackFile>,
    pub dependencies: Vec<NamedValue>,
}

/// The value under a name: the first one.
pub open spec fn value_under(values: Seq<NamedValue>, name: Seq<char>) -> Option<Seq<char>>
    decreases values.len(),
{
    if values.len() == 0 {
        None
    } else if values[0].name@ == name {
        Some(values[0].value@)
    } else {
        value_under(values.skip(1), name)
    }
}

/// The value under a name.
pub fn lookup(values: &Vec<NamedValue>, name: &str) -> (r: Option<String>)
    ensures
        text::opt_view(r) == value_under(values@, name@),
{
    let mut i: usize = 0;
    assert(values@.skip(0) =~= values@);
    while i < values.len()
        invariant
            i <= values.len(),
            value_under(values@, name@) == value_under(values@.skip(i as int), name@),
        decreases values.len() - i,
    {
        assert(values@.skip(i as int).skip(1) =~= values@.skip(i + 1));
        if text::same(values[i].name.as_str(), name) {
            return Some(values[i].value.clone());
        }
        i = i + 1;
    }
    None
}

/// What to say before the versions of a modpack are asked for.
pub fn resolving_modpack(slug: &str) -> (r: Vec<Progress>)
    ensures
        said(r@) == seq![("Resolving modpack "@ + slug@ + "..."@, Level::Info)],
{
    one(text::cat3("Resolving modpack ", slug, "..."), Level::Info)
}

/// The file of a modpack, and the version of the modpack that it holds.
#[derive(Debug)]
pub struct PackFile {
    pub url: String,
    pub filename: String,
    pub version: String,
}

/// Whether `r` is the file of a modpack, or why it is not to be had.
pub open spec fn pack_found(
    slug: Seq<char>,
    reply: Reply<Vec<ModrinthVersion>>,
    r: Result<PackFile, String>,
) -> bool {
    match reply {
        Reply::Unreachable(e) => r is Err && r->Err_0@ == "modpack versions: "@ + e@,
        Reply::Status(s) => r is Err && r->Err_0@ == "modpack "@ + slug + ": HTTP "@ + s@,
        Reply::Unreadable(e) => r is Err && r->Err_0@ == "modpack json: "@ + e@,
        Reply::Received(versions) => if versions.len() == 0 {
            r is Err && r->Err_0@ == "no versions for modpack "@ + slug
        } else {
            match modrinth::chosen_file(versions@[0].files@) {
                None => r is Err && r->Err_0@ == "no files for modpack "@ + slug,
                Some(f) => {
                    &&& r is Ok
                    &&& r->Ok_0.url@ == f.url@
                    &&& r->Ok_0.filename@ == f.filename@
                    &&& r->Ok_0.version@ == versions@[0].version_number@
                },
            }
        },
    }
}

/// The file of a modpack: that of the first version that is offered.
pub fn modpack_file(slug: &str, reply: Reply<Vec<ModrinthVersion>>) -> (r: Result<PackFile, String>)
    ensures
        pack_found(slug@, reply, r),
{
    match reply {
        Reply::Unreachable(e) => Err(text::cat2("modpack versions: ", e.as_str())),
        Reply::Status(s) => Err(text::cat4("modpack ", slug, ": HTTP ", s.as_str())),
        Reply::Unreadable(e) => Err(text::cat2("modpack json: ", e.as_str())),
        Reply::Received(versions) => {
            if versions.len() == 0 {
                return Err(text::cat2("no versions for modpack ", slug));
            }
            match modrinth::choose_file(&versions[0].files) {
                None => Err(text::cat2("no files for modpack ", slug)),
                Some(f) => Ok(
                    PackFile {
                        url: f.url.clone(),
                        filename: f.filename.clone(),
                        version: versions[0].version_number.clone(),
                    },
                ),
            }
        },
    }
}

/// What to say about the file of a modpack, which is downloaded where it is not there.
pub fn getting_modpack(filename: &str, present: bool) -> (r: Vec<Progress>)
    ensures
        said(r@) == seq![
            (
                if present {
                    "Reusing already-downloaded "@ + filename@
                } else {
                    "Downloading modpack "@ + filename@ + " ..."@
                },
                Level::Info,
            ),
        ],
{
    if present {
        one(text::cat2("Reusing already-downloaded ", filename), Level::Info)
    } else {
        one(text::cat3("Downloading modpack ", filename, " ..."), Level::Info)
    }
}

/// What a modpack runs on: the version of the game, and the loader in its version.
#[derive(Debug)]
pub struct PackLoader {
    pub mc_version: String,
    pub loader: String,
    pub version: String,
}

/// The loader among the dependencies of a manifest, and its version.
pub open spec fn demanded_loader(deps: Seq<NamedValue>) -> Option<(Seq<char>, Seq<char>)> {
    match value_under(deps, "fabric-loader"@) {
        Some(v) => Some(("fabric"@, v)),
        None => match value_under(deps, "neoforge"@) {
            Some(v) => Some(("neoforge"@, v)),
            None => match value_under(deps, "quilt-loader"@) {
                Some(v) => Some(("quilt"@, v)),
                None => match value_under(deps, "forge"@) {
                    Some(v) => Some(("forge"@, v)),
                    None => None,
                },
            },
        },
    }
}

/// The loader among the dependencies of a manifest, and its version.
fn loader_among(deps: &Vec<NamedValue>) -> (r: Option<(&'static str, String)>)
    ensures
        match r {
            Some(p) => demanded_loader(deps@) == Some((p.0@, p.1@)),
            None => demanded_loader(deps@) is None,
        },
{
    match lookup(deps, "fabric-loader") {
        Some(v) => Some(("fabric", v)),
        None => match lookup(deps, "neoforge") {
            Some(v) => Some(("neoforge", v)),
            None => match lookup(deps, "quilt-loader") {
                Some(v) => Some(("quilt", v)),
                None => match lookup(deps, "forge") {
                    Some(v) => Some(("forge", v)),
                    None => None,
                },
            },
        },
    }
}

/// Whether `r` is what a modpack with these dependencies runs on, or why that is not known.
pub open spec fn runs_on(
    deps: Seq<NamedValue>,
    shown_names: Seq<char>,
    r: Result<PackLoader, String>,
) -> bool {
    match value_under(deps, "minecraft"@) {
        None => r is Err && r->Err_0@ == "modpack manifest missing minecraft dep"@,
        Some(mc) => match demanded_loader(deps) {
            None => r is Err && r->Err_0@
                == "modpack manifest specifies no supported loader (deps: "@ + shown_names + ")"@,
            Some(l) => {
                &&& r is Ok
                &&& r->Ok_0.mc_version@ == mc
                &&& r->Ok_0.loader@ == l.0
                &&& r->Ok_0.version@ == l.1
            },
        },
    }
}

/// What a modpack runs on, from its manifest. `shown_names` are the names of its
/// dependencies as they are shown to the user.
pub fn manifest_loader(manifest: &MrpackIndex, shown_names: &str) -> (r: Result<PackLoader, String>)
    ensures
        runs_on(manifest.dependencies@, shown_names@, r),
{
    match lookup(&manifest.dependencies, "minecraft") {
        None => Err("modpack manifest missing minecraft dep".to_owned()),
        Some(mc_version) => match loader_among(&manifest.dependencies) {
            None => Err(
                text::cat3(
                    "modpack manifest specifies no supported loader (deps: ",
                    shown_names,
                    ")",
                ),
            ),
            Some((name, version)) => Ok(
                PackLoader { mc_version, loader: name.to_owned(), version },
            ),
        },
    }
}

/// What to say when it is known what a modpack runs on.
pub fn modpack_known(name: &str, on: &PackLoader) -> (r: Vec<Progress>)
    ensures
        said(r@) == seq![
            (
                "Modpack '"@ + name@ + "' for MC "@ + on.mc_version@ + " ("@ + on.loader@ + " "@
                    + on.version@ + ")"@,
                Level::Done,
            ),
        ],
{
    let front = text::cat4("Modpack '", name, "' for MC ", on.mc_version.as_str());
    one(
        text::cat6(
            front.as_str(),
            " (",
            on.loader.as_str(),
            " ",
            on.version.as_str(),
            ")",
        ),
        Level::Done,
    )
}

/// What to do about a file that the manifest lists.
#[derive(Debug)]
pub enum PackFilePlan {
    /// It is for servers only.
    Ignore,
    /// Leave it out, for a reason.
    Skip { reason: String },
    /// Bring it to its path.
    Fetch { url: String, path: String, sha1: Option<String> },
}

/// Whether the client does without a file.
pub open spec fn server_only(file: MrpackFile) -> bool {
    value_under(file.env@, "client"@) == Some("unsupported"@)
}

/// Whether the client does without a file.
pub fn is_server_only(file: &MrpackFile) -> (r: bool)
    ensures
        r == server_only(*file),
{
    match lookup(&file.env, "client") {
        Some(client) => text::same(client.as_str(), "unsupported"),
        None => false,
    }
}

/// Whether `r` is what to do about a file that the manifest lists.
pub open spec fn pack_file_planned(file: MrpackFile, r: PackFilePlan) -> bool {
    if server_only(file) {
        r is Ignore
    } else if file.downloads.len() == 0 {
        r is Skip && r->reason@ == file.path@ + " (no download URL)"@
    } else {
        &&& r is Fetch
        &&& r->url@ == file.downloads@[0]@
        &&& r->path@ == file.path@
        &&& text::opt_view(r->sha1) == text::opt_view(file.sha1)
    }
}

/// What to do about a file that the manifest lists: the first address that it gives is
/// used.
pub fn plan_pack_file(file: &MrpackFile) -> (r: PackFilePlan)
    ensures
        pack_file_planned(*file, r),
{
    if is_server_only(file) {
        return PackFilePlan::Ignore;
    }
    if file.downloads.len() == 0 {
        PackFilePlan::Skip { reason: text::cat2(file.path.as_str(), " (no download URL)") }
    } else {
        PackFilePlan::Fetch {
            url: file.downloads[0].clone(),
            path: file.path.clone(),
            sha1: text::copy_of(&file.sha1),
        }
    }
}

/// Whether `r` is what comes of a file that the manifest lists.
pub open spec fn pack_file_result(
    path: Seq<char>,
    fetched: Result<bool, String>,
    r: ItemResult,
) -> bool {
    match fetched {
        Ok(_) => r.outcome is Installed && r.outcome->Installed_0@ == path && r.message is None,
        Err(e) => {
            &&& r.outcome is Skipped
            &&& r.outcome->Skipped_0@ == path + " ("@ + e@ + ")"@
            &&& says(r.message, "Skip "@ + path + ": "@ + e@, Level::Warn)
        },
    }
}

/// What comes of a file that the manifest lists: the installation goes on without one that
/// could not be had.
pub fn pack_file_fetched(path: &str, fetched: Result<bool, String>) -> (r: ItemResult)
    ensures
        pack_file_result(path@, fetched, r),
{
    match fetched {
        Ok(_) => ItemResult { outcome: Outcome::Installed(path.to_owned()), message: None },
        Err(e) => ItemResult {
            outcome: Outcome::Skipped(text::cat4(path, " (", e.as_str(), ")")),
            message: crate::profile::say(
                text::cat4("Skip ", path, ": ", e.as_str()),
                Level::Warn,
            ),
        },
    }
}

/// Where a file that the modpack brings goes, below the game directory: what follows the
/// name of the pack's folder for such files. A folder, and anything else in the pack, goes
/// nowhere.
pub open spec fn override_path(entry: Seq<char>) -> Option<Seq<char>> {
    let rest = if text::starts_with(entry, "overrides/"@) {
        Some(entry.skip("overrides/"@.len() as int))
    } else if text::starts_with(entry, "client-overrides/"@) {
        Some(entry.skip("client-overrides/"@.len() as int))
    } else {
        None
    };
    match rest {
        Some(s) if s.len() > 0 && !text::ends_with(s, "/"@) => Some(s),
        _ => None,
    }
}

/// A file that the modpack brings keeps its path, but for the name of the pack's folder.
pub proof fn overrides_keep_their_paths(entry: Seq<char>)
    requires
        override_path(entry) is Some,
    ensures
        entry == "overrides/"@ + override_path(entry)->Some_0 || entry == "client-overrides/"@
            + override_path(entry)->Some_0,
        override_path(entry)->Some_0.len() > 0,
{
    let a = "overrides/"@;
    let b = "client-overrides/"@;
    if text::starts_with(entry, a) {
        assert(entry =~= entry.subrange(0, a.len() as int) + entry.skip(a.len() as int));
    } else {
        assert(entry =~= entry.subrange(0, b.len() as int) + entry.skip(b.len() as int));
    }
}

/// Where a file that the modpack brings goes, below the game directory.
pub fn override_target(entry: &str) -> (r: Option<String>)
    ensures
        text::opt_view(r) == override_path(entry@),
{
    let rest = match text::strip_prefix(entry, "overrides/") {
        Some(s) => Some(s),
        None => text::strip_prefix(entry, "client-overrides/"),
    };
    match rest {
        Some(s) => {
            if s.as_str().is_empty() || text::has_suffix(s.as_str(), "/") {
                None
            } else {
                Some(s)
            }
        },
        None => None,
    }
}

/// What to say when the files that the modpack brings are in place.
pub fn overrides_extracted(n: u32) -> (r: Vec<Progress>)
    ensures
        said(r@) == seq![
            (
                "Extracted "@ + decimal::decimal(n as nat) + " override file(s)"@,
                Level::Done,
            ),
        ],
{
    let digits = decimal::decimal_of(n as u64);
    one(text::cat3("Extracted ", digits.as_str(), " override file(s)"), Level::Done)
}

/// What to say before the mods that go with a modpack are installed, where there are any.
pub fn installing_supplements(n: usize) -> (r: Vec<Progress>)
    ensures
        said(r@) == (if n == 0 {
            Seq::<(Seq<char>, Level)>::empty()
        } else {
            seq![
                (
                    "Installing "@ + decimal::decimal(n as nat) + " supplemental mod(s)..."@,
                    Level::Info,
                ),
            ]
        }),
{
    if n == 0 {
        silence()
    } else {
        let digits = decimal::decimal_of(n as u64);
        one(text::cat3("Installing ", digits.as_str(), " supplemental mod(s)..."), Level::Info)
    }
}

/// One step of the installation of a modpack, once its loader is in place.
#[derive(Clone, Copy, Debug, PartialEq, Eq, Structural)]
pub enum ModpackStep {
    /// Make the folder for mods.
    MakeModsFolder,
    /// Take files that lie about into the cache.
    PrimeCache,
    /// Move the mods of earlier installations away.
    BackUpMods,
    /// Install the file of the given number of the manifest.
    File { index: usize },
    /// Put the files that the modpack brings in place.
    ExtractOverrides,
    /// Tell the user of the mods that go with the modpack.
    AnnounceSupplements,
    /// Install the mod of the given number that goes with the modpack.
    Supplement { index: usize },
    /// Switch full screen off in `options.txt`.
    SetFullscreen,
    /// Choose the arguments for Java.
    TuneJava,
    /// Add the installation to the launcher.
    AddLauncherProfile,
    /// Remove the file of the modpack.
    DropPack,
    /// Record which profile the mods belong to.
    WriteState,
}

/// The steps for the files of a manifest.
pub open spec fn file_steps(n: nat) -> Seq<ModpackStep> {
    Seq::new(n, |i: int| ModpackStep::File { index: i as usize })
}

/// The steps for the mods that go with a modpack.
pub open spec fn supplement_steps(n: nat) -> Seq<ModpackStep> {
    Seq::new(n, |i: int| ModpackStep::Supplement { index: i as usize })
}

/// The steps of the installation of a modpack with so many files and supplements.
pub open spec fn pack_steps(files: nat, supplements: nat) -> Seq<ModpackStep> {
    seq![ModpackStep::MakeModsFolder, ModpackStep::PrimeCache, ModpackStep::BackUpMods]
        + file_steps(files) + seq![
        ModpackStep::ExtractOverrides,
        ModpackStep::AnnounceSupplements,
    ] + supplement_steps(supplements) + seq![
        ModpackStep::SetFullscreen,
        ModpackStep::TuneJava,
        ModpackStep::AddLauncherProfile,
        ModpackStep::DropPack,
        ModpackStep::WriteState,
    ]
}

/// The steps of the installation of a modpack, in order.
pub fn modpack_steps(files: usize, supplements: usize) -> (r: Vec<ModpackStep>)
    ensures
        r@ == pack_steps(files as nat, supplements as nat),
{
    let mut v: Vec<ModpackStep> = Vec::new();
    v.push(ModpackStep::MakeModsFolder);
    v.push(ModpackStep::PrimeCache);
    v.push(ModpackStep::BackUpMods);
    let ghost a = v@;
    let mut i: usize = 0;
    assert(a + file_steps(0) =~= a);
    while i < files
        invariant
            i <= files,
            v@ == a + file_steps(i as nat),
        decreases files - i,
    {
        v.push(ModpackStep::File { index: i });
        assert(v@ =~= a + file_steps((i + 1) as nat));
        i = i + 1;
    }
    let ghost b = v@;
    v.push(ModpackStep::ExtractOverrides);
    v.push(ModpackStep::AnnounceSupplements);
    let ghost c = v@;
    let mut j: usize = 0;
    assert(c =~= b + seq![ModpackStep::ExtractOverrides, ModpackStep::AnnounceSupplements]);
    assert(c + supplement_steps(0) =~= c);
    while j < supplements
        invariant
            j <= supplements,
            v@ == c + supplement_steps(j as nat),
        decreases supplements - j,
    {
        v.push(ModpackStep::Supplement { index: j });
        assert(v@ =~= c + supplement_steps((j + 1) as nat));
        j = j + 1;
    }
    let ghost d = v@;
    v.push(ModpackStep::SetFullscreen);
    v.push(ModpackStep::TuneJava);
    v.push(ModpackStep::AddLauncherProfile);
    v.push(ModpackStep::DropPack);
    v.push(ModpackStep::WriteState);
    assert(a =~= seq![
        ModpackStep::MakeModsFolder,
        ModpackStep::PrimeCache,
        ModpackStep::BackUpMods,
    ]);
    assert(v@ =~= d + seq![
        ModpackStep::SetFullscreen,
        ModpackStep::TuneJava,
        ModpackStep::AddLauncherProfile,
        ModpackStep::DropPack,
        ModpackStep::WriteState,
    ]);
    v
}

/// Where each step stands.
proof fn lemma_pack_steps(files: nat, supplements: nat, j: int)
    requires
        0 <= j < pack_steps(files, supplements).len(),
    ensures
        pack_steps(files, supplements).len() == 10 + files + supplements,
        ({
            let step = pack_steps(files, supplements)[j];
            if j < 3 {
                !(step is File) && !(step is Supplement) && !(step is ExtractOverrides)
            } else if j < 3 + files {
                step == (ModpackStep::File { index: (j - 3) as usize })
            } else if j == 3 + files {
                step is ExtractOverrides
            } else if j == 4 + files {
                step is AnnounceSupplements
            } else if j < 5 + files + supplements {
                step == (ModpackStep::Supplement { index: (j - 5 - files) as usize })
            } else {
                !(step is File) && !(step is Supplement) && !(step is ExtractOverrides)
            }
        }),
        j == 2 ==> pack_steps(files, supplements)[j] is BackUpMods,
        pack_steps(files, supplements)[j] is WriteState <==> j == pack_steps(
            files,
            supplements,
        ).len() - 1,
{
    let a = seq![ModpackStep::MakeModsFolder, ModpackStep::PrimeCache, ModpackStep::BackUpMods];
    let b = a + file_steps(files);
    let c = b + seq![ModpackStep::ExtractOverrides, ModpackStep::AnnounceSupplements];
    let d = c + supplement_steps(supplements);
    assert(d.len() == 5 + files + supplements);
}

/// Every file of the manifest and every supplement has exactly one step.
pub proof fn every_pack_file_has_one_step(files: nat, supplements: nat, k: usize)
    requires
        files <= usize::MAX,
        supplements <= usize::MAX,
    ensures
        ({
            let all = pack_steps(files, supplements);
            &&& k < files ==> all[3 + k] == (ModpackStep::File { index: k }) && forall|j: int|
                0 <= j < all.len() && #[trigger] all[j] == (ModpackStep::File { index: k }) ==> j
                    == 3 + k
            &&& k < supplements ==> all[5 + files + k] == (ModpackStep::Supplement { index: k })
                && forall|j: int|
                0 <= j < all.len() && #[trigger] all[j] == (ModpackStep::Supplement { index: k })
                    ==> j == 5 + files + k
        }),
{
    let all = pack_steps(files, supplements);
    lemma_pack_steps(files, supplements, 0);
    if k < files {
        lemma_pack_steps(files, supplements, 3 + k);
    }
    if k < supplements {
        lemma_pack_steps(files, supplements, 5 + files + k);
    }
    assert forall|j: int|
        0 <= j < all.len() && k < files && #[trigger] all[j] == (ModpackStep::File {
            index: k,
        }) implies j == 3 + k by {
        lemma_pack_steps(files, supplements, j);
    }
    assert forall|j: int|
        0 <= j < all.len() && k < supplements && #[trigger] all[j] == (ModpackStep::Supplement {
            index: k,
        }) implies j == 5 + files + k by {
        lemma_pack_steps(files, supplements, j);
    }
}

/// The mods of earlier installations are moved away before any file is installed; the
/// files that the modpack brings come after those that its manifest lists, and the
/// supplements after both. Which profile the mods belong to is recorded once, when all else
/// is done.
pub proof fn pack_steps_in_order(files: nat, supplements: nat, i: int, j: int)
    requires
        0 <= i < pack_steps(files, supplements).len(),
        0 <= j < pack_steps(files, supplements).len(),
    ensures
        ({
            let all = pack_steps(files, supplements);
            &&& all[2] is BackUpMods
            &&& all[j] is File || all[j] is Supplement ==> j > 2
            &&& all[i] is File && all[j] is ExtractOverrides ==> i < j
            &&& all[i] is ExtractOverrides && all[j] is Supplement ==> i < j
            &&& all[j] is WriteState <==> j == all.len() - 1
        }),
{
    lemma_pack_steps(files, supplements, 2);
    lemma_pack_steps(files, supplements, i);
    lemma_pack_steps(files, supplements, j);
}

/// The report of the installation of a modpack, from what came of the files of its
/// manifest and then of its supplements. Files for servers only count for nothing.
pub fn modpack_report(profile_name: &str, on: &PackLoader, loader_version: &str, outcomes: &Vec<
    Outcome,
>) -> (r: InstallReport)
    requires
        outcomes.len() <= u32::MAX,
    ensures
        r.profile_name@ == profile_name@,
        r.minecraft_version@ == on.mc_version@,
        r.loader_version@ == loader_version@,
        r.mods_installed == items::installed_count(outcomes@),
        r.shaders_installed == 0,
        r.resource_packs_installed == 0,
        text::views(r.skipped@) == items::skip_reasons(outcomes@),
        r.mods_installed + r.skipped.len() == outcomes.len(),
{
    let t = items::tally(outcomes);
    proof {
        items::every_item_is_accounted_for(outcomes@);
        assert(text::views(t.skipped@).len() == t.skipped.len());
    }
    InstallReport {
        profile_name: profile_name.to_owned(),
        minecraft_version: on.mc_version.clone(),
        loader_version: loader_version.to_owned(),
        mods_installed: t.installed,
        shaders_installed: 0,
        resource_packs_installed: 0,
        skipped: t.skipped,
    }
}

/// How many of the files are for clients.
pub open spec fn client_files(files: Seq<MrpackFile>) -> nat
    decreases files.len(),
{
    if files.len() == 0 {
        0
    } else {
        client_files(files.drop_last()) + (if server_only(files.last()) {
            0nat
        } else {
            1nat
        })
    }
}

/// How many files and supplements have an outcome before the step `at`: every supplement
/// that is dealt with has one, and so has every file but those for servers only.
pub open spec fn outcomes_before(at: int, files: Seq<MrpackFile>, supplements: nat) -> int {
    let n = files.len();
    if at <= 3 {
        0
    } else if at <= 3 + n {
        client_files(files.take(at - 3)) as int
    } else if at <= 5 + n {
        client_files(files) as int
    } else if at <= 5 + n + supplements {
        client_files(files) + at - 5 - n
    } else {
        (client_files(files) + supplements) as int
    }
}

/// How the number of outcomes grows with a step: by one for a supplement and for a file for
/// clients, and not at all otherwise.
proof fn lemma_outcomes_grow(files: Seq<MrpackFile>, supplements: nat, at: int)
    requires
        0 <= at < pack_steps(files.len(), supplements).len(),
        files.len() <= usize::MAX,
    ensures
        ({
            let step = pack_steps(files.len(), supplements)[at];
            let grows = step is Supplement || (step is File && !server_only(
                files[step->File_index as int],
            ));
            outcomes_before(at + 1, files, supplements) == outcomes_before(at, files, supplements)
                + (if grows {
                1int
            } else {
                0int
            })
        }),
{
    lemma_pack_steps(files.len(), supplements, at);
    assert(files.take(0) =~= Seq::empty());
    assert(files.take(files.len() as int) =~= files);
    if 3 <= at < 3 + files.len() {
        let now = files.take(at - 2);
        assert(now.drop_last() =~= files.take(at - 3));
        assert(now.last() == files[at - 3]);
    }
}

/// The installation of a modpack: the steps, how many of them are done, and what came of
/// the files and supplements so far.
#[derive(Debug)]
pub struct ModpackInstallation {
    pub steps: Vec<ModpackStep>,
    pub at: usize,
    pub outcomes: Vec<Outcome>,
}

impl ModpackInstallation {
    /// Whether this is the installation of a modpack with these files and so many
    /// supplements: the steps are its steps, and there is one outcome for each supplement
    /// and each file for clients whose step is done.
    pub open spec fn of(self, files: Seq<MrpackFile>, supplements: nat) -> bool {
        &&& self.steps@ == pack_steps(files.len(), supplements)
        &&& self.at <= self.steps.len()
        &&& self.outcomes.len() == outcomes_before(self.at as int, files, supplements)
    }

    /// Whether all steps are done.
    pub open spec fn finished(self) -> bool {
        self.at >= self.steps.len()
    }

    /// Whether the step to take next deals with a file for servers only.
    pub open spec fn ignores(self, files: Seq<MrpackFile>) -> bool {
        let step = self.steps@[self.at as int];
        !self.finished() && step is File && server_only(files[step->File_index as int])
    }

    /// An installation with nothing done.
    pub fn begin(files: &Vec<MrpackFile>, supplements: usize) -> (r: ModpackInstallation)
        ensures
            r.of(files@, supplements as nat),
            r.at == 0,
    {
        ModpackInstallation {
            steps: modpack_steps(files.len(), supplements),
            at: 0,
            outcomes: Vec::new(),
        }
    }

    /// The step to take next; none where all are done.
    pub fn current(&self) -> (r: Option<ModpackStep>)
        ensures
            r == (if self.finished() {
                None
            } else {
                Some(self.steps@[self.at as int])
            }),
    {
        if self.at < self.steps.len() {
            Some(self.steps[self.at])
        } else {
            None
        }
    }

    /// Goes on after a step that installs nothing.
    pub fn step_done(&mut self, files: &Vec<MrpackFile>, supplements: usize)
        requires
            old(self).of(files@, supplements as nat),
            !old(self).finished(),
            !(old(self).steps@[old(self).at as int] is File),
            !(old(self).steps@[old(self).at as int] is Supplement),
        ensures
            final(self).of(files@, supplements as nat),
            final(self).at == old(self).at + 1,
            final(self).outcomes@ == old(self).outcomes@,
    {
        proof {
            lemma_outcomes_grow(files@, supplements as nat, self.at as int);
        }
        self.at = self.at + 1;
    }

    /// Goes on after a step that installs a file or a supplement, with what came of it.
    /// Nothing comes of a file for servers only, and of nothing else.
    pub fn item_done(
        &mut self,
        files: &Vec<MrpackFile>,
        supplements: usize,
        outcome: Option<Outcome>,
    )
        requires
            old(self).of(files@, supplements as nat),
            !old(self).finished(),
            old(self).steps@[old(self).at as int] is File
                || old(self).steps@[old(self).at as int] is Supplement,
            outcome is None <==> old(self).ignores(files@),
        ensures
            final(self).of(files@, supplements as nat),
            final(self).at == old(self).at + 1,
            final(self).outcomes@ == (match outcome {
                Some(o) => old(self).outcomes@.push(o),
                None => old(self).outcomes@,
            }),
    {
        proof {
            lemma_outcomes_grow(files@, supplements as nat, self.at as int);
        }
        match outcome {
            Some(o) => self.outcomes.push(o),
            None => {},
        }
        self.at = self.at + 1;
    }

    /// The report of an installation that is finished: every file of the manifest that is
    /// for clients and every supplement is counted as installed or named among those left
    /// out, and files for servers only are neither.
    pub fn report(
        &self,
        files: &Vec<MrpackFile>,
        supplements: usize,
        profile_name: &str,
        on: &PackLoader,
        loader_version: &str,
    ) -> (r: InstallReport)
        requires
            self.of(files@, supplements as nat),
            self.finished(),
            self.outcomes.len() <= u32::MAX,
        ensures
            r.profile_name@ == profile_name@,
            r.minecraft_version@ == on.mc_version@,
            r.loader_version@ == loader_version@,
            r.mods_installed == items::installed_count(self.outcomes@),
            r.shaders_installed == 0,
            r.resource_packs_installed == 0,
            text::views(r.skipped@) == items::skip_reasons(self.outcomes@),
            r.mods_installed + r.skipped.len() == client_files(files@) + supplements,
    {
        proof {
            lemma_pack_steps(files.len() as nat, supplements as nat, 0);
        }
        modpack_report(profile_name, on, loader_version, &self.outcomes)
    }
}

/// Whether `value` is what stands first under `name` among values.
pub open spec fn stands_under(
    values: Seq<NamedValue>,
    name: Seq<char>,
    value: Seq<char>,
) -> bool {
    exists|i: int|
        0 <= i < values.len() && (#[trigger] values[i]).name@ == name && values[i].value@ == value
            && forall|j: int| 0 <= j < i ==> (#[trigger] values[j]).name@ != name
}

/// Whether nothing stands under `name` among values.
pub open spec fn nothing_under(values: Seq<NamedValue>, name: Seq<char>) -> bool {
    forall|j: int| 0 <= j < values.len() ==> (#[trigger] values[j]).name@ != name
}

/// What is looked up under a name is the first value there, and nothing where none stands
/// there.
pub proof fn first_value_counts(values: Seq<NamedValue>, name: Seq<char>, value: Seq<char>)
    ensures
        stands_under(values, name, value) ==> value_under(values, name) == Some(value),
        nothing_under(values, name) ==> value_under(values, name) is None,
        value_under(values, name) == Some(value) ==> stands_under(values, name, value),
        value_under(values, name) is None ==> nothing_under(values, name),
    decreases values.len(),
{
    if values.len() > 0 {
        let rest = values.skip(1);
        first_value_counts(rest, name, value);
        if values[0].name@ != name {
            if stands_under(values, name, value) {
                let i = choose|i: int|
                    0 <= i < values.len() && (#[trigger] values[i]).name@ == name
                        && values[i].value@ == value && forall|j: int|
                        0 <= j < i ==> (#[trigger] values[j]).name@ != name;
                assert(rest[i - 1] == values[i]);
                assert forall|j: int| 0 <= j < i - 1 implies (#[trigger] rest[j]).name@ != name by {
                    assert(rest[j] == values[j + 1]);
                }
            }
            if nothing_under(values, name) {
                assert forall|j: int| 0 <= j < rest.len() implies (#[trigger] rest[j]).name@
                    != name by {
                    assert(rest[j] == values[j + 1]);
                }
            }
            if value_under(values, name) == Some(value) {
                let i = choose|i: int|
                    0 <= i < rest.len() && (#[trigger] rest[i]).name@ == name && rest[i].value@
                        == value && forall|j: int|
                        0 <= j < i ==> (#[trigger] rest[j]).name@ != name;
                assert(values[i + 1] == rest[i]);
                assert forall|j: int| 0 <= j < i + 1 implies (#[trigger] values[j]).name@
                    != name by {
                    if j > 0 {
                        assert(values[j] == rest[j - 1]);
                    }
                }
            }
            if value_under(values, name) is None {
                assert forall|j: int| 0 <= j < values.len() implies (#[trigger] values[j]).name@
                    != name by {
                    if j > 0 {
                        assert(values[j] == rest[j - 1]);
                    }
                }
            }
        } else {
            assert(values[0].name@ == name);
            if stands_under(values, name, value) {
                let i = choose|i: int|
                    0 <= i < values.len() && (#[trigger] values[i]).name@ == name
                        && values[i].value@ == value && forall|j: int|
                        0 <= j < i ==> (#[trigger] values[j]).name@ != name;
                if i > 0 {
                    assert(values[0].name@ != name);
                }
            }
        }
    }
}

/// The loader that a manifest demands is the one under the name that the format gives it, in
/// exactly the version that stands there: Fabric before NeoForge before Quilt before Forge.
/// Where none of the four stands among the dependencies, no loader is demanded.
pub proof fn manifest_names_its_loader(deps: Seq<NamedValue>, version: Seq<char>)
    ensures
        stands_under(deps, "fabric-loader"@, version) ==> demanded_loader(deps) == Some(
            ("fabric"@, version),
        ),
        nothing_under(deps, "fabric-loader"@) && stands_under(deps, "neoforge"@, version)
            ==> demanded_loader(deps) == Some(("neoforge"@, version)),
        nothing_under(deps, "fabric-loader"@) && nothing_under(deps, "neoforge"@)
            && stands_under(deps, "quilt-loader"@, version) ==> demanded_loader(deps) == Some(
            ("quilt"@, version),
        ),
        nothing_under(deps, "fabric-loader"@) && nothing_under(deps, "neoforge"@)
            && nothing_under(deps, "quilt-loader"@) && stands_under(deps, "forge"@, version)
            ==> demanded_loader(deps) == Some(("forge"@, version)),
        nothing_under(deps, "fabric-loader"@) && nothing_under(deps, "neoforge"@)
            && nothing_under(deps, "quilt-loader"@) && nothing_under(deps, "forge"@)
            ==> demanded_loader(deps) is None,
{
    first_value_counts(deps, "fabric-loader"@, version);
    first_value_counts(deps, "neoforge"@, version);
    first_value_counts(deps, "quilt-loader"@, version);
    first_value_counts(deps, "forge"@, version);
}

/// No dependency matters but those under the names of the four loaders: two manifests with the
/// same values under those names demand the same loader.
pub proof fn other_dependencies_do_not_matter(a: Seq<NamedValue>, b: Seq<NamedValue>)
    requires
        forall|name: Seq<char>|
            name == "fabric-loader"@ || name == "neoforge"@ || name == "quilt-loader"@ || name
                == "forge"@ ==> #[trigger] value_under(a, name) == value_under(b, name),
    ensures
        demanded_loader(a) == demanded_loader(b),
{
    assert(value_under(a, "fabric-loader"@) == value_under(b, "fabric-loader"@));
    assert(value_under(a, "neoforge"@) == value_under(b, "neoforge"@));
    assert(value_under(a, "quilt-loader"@) == value_under(b, "quilt-loader"@));
    assert(value_under(a, "forge"@) == value_under(b, "forge"@));
}

/// A file is left to servers exactly where its environment says that clients do not support
/// it; one of which nothing is said, or anything else, is for clients.
pub proof fn only_unsupported_files_are_left_out(file: MrpackFile, said_of_it: Seq<char>)
    ensures
        stands_under(file.env@, "client"@, "unsupported"@) ==> server_only(file),
        stands_under(file.env@, "client"@, said_of_it) && said_of_it != "unsupported"@
            ==> !server_only(file),
        nothing_under(file.env@, "client"@) ==> !server_only(file),
{
    first_value_counts(file.env@, "client"@, "unsupported"@);
    first_value_counts(file.env@, "client"@, said_of_it);
}

/// What the pack brings below `overrides/` or `client-overrides/` goes to the same path below
/// the game directory; folders, and entries outside the two, go nowhere.
pub proof fn brought_files_go_to_their_paths(entry: Seq<char>, path: Seq<char>)
    ensures
        path.len() > 0 && path.last() != '/' && (entry == "overrides/"@ + path || entry
            == "client-overrides/"@ + path) ==> override_path(entry) == Some(path),
        entry.len() > 0 && entry.last() == '/' ==> override_path(entry) is None,
        !text::starts_with(entry, "overrides/"@) && !text::starts_with(
            entry,
            "client-overrides/"@,
        ) ==> override_path(entry) is None,
{
    reveal_strlit("overrides/");
    reveal_strlit("client-overrides/");
    reveal_strlit("/");
    let a = "overrides/"@;
    let b = "client-overrides/"@;
    if path.len() > 0 && path.last() != '/' {
        assert(!text::ends_with(path, "/"@)) by {
            if text::ends_with(path, "/"@) {
                assert(path.subrange(path.len() - 1, path.len() as int)[0] == '/');
            }
        }
        if entry == a + path {
            assert(entry.subrange(0, a.len() as int) =~= a);
            assert(entry.skip(a.len() as int) =~= path);
        } else if entry == b + path {
            assert(entry[0] == 'c');
            assert(!text::starts_with(entry, a)) by {
                if text::starts_with(entry, a) {
                    assert(entry.subrange(0, a.len() as int)[0] == 'o');
                }
            }
            assert(entry.subrange(0, b.len() as int) =~= b);
            assert(entry.skip(b.len() as int) =~= path);
        }
    }
    if entry.len() > 0 && entry.last() == '/' {
        if override_path(entry) is Some {
            let s = override_path(entry)->Some_0;
            assert(s.last() == '/');
            assert(s.subrange(s.len() - 1, s.len() as int) =~= "/"@);
        }
    }
}

/// A modpack is had as the first version that is offered, which is the newest: its first
/// primary file, or its first file where none is primary.
pub proof fn newest_pack_is_taken(
    slug: Seq<char>,
    versions: Vec<ModrinthVersion>,
    f: int,
    r: Result<PackFile, String>,
)
    requires
        versions.len() > 0,
        0 <= f < versions@[0].files.len(),
        versions@[0].files@[f].primary || f == 0 && (forall|j: int|
            0 <= j < versions@[0].files.len() ==> !(#[trigger] versions@[0].files@[j]).primary),
        forall|j: int| 0 <= j < f ==> !(#[trigger] versions@[0].files@[j]).primary,
        pack_found(slug, Reply::Received(versions), r),
    ensures
        r is Ok,
        r->Ok_0.url@ == versions@[0].files@[f].url@,
        r->Ok_0.filename@ == versions@[0].files@[f].filename@,
        r->Ok_0.version@ == versions@[0].version_number@,
{
    modrinth::first_primary_file_is_taken(versions@[0].files@, f);
}

/// No modpack is had where Modrinth could not be asked, or offers nothing.
pub proof fn no_pack_without_an_offer(
    slug: Seq<char>,
    reply: Reply<Vec<ModrinthVersion>>,
    r: Result<PackFile, String>,
)
    requires
        pack_found(slug, reply, r),
        r is Ok,
    ensures
        reply is Received,
        reply->Received_0.len() > 0,
        reply->Received_0@[0].files.len() > 0,
{
    if reply is Received && reply->Received_0.len() > 0 {
        modrinth::first_primary_file_is_taken(reply->Received_0@[0].files@, 0);
    }
}

/// A modpack runs on the version of the game that its manifest demands as `minecraft` and on
/// the loader that it demands: it cannot be installed without both.
pub proof fn manifest_names_its_game(
    deps: Seq<NamedValue>,
    shown_names: Seq<char>,
    mc: Seq<char>,
    r: Result<PackLoader, String>,
)
    requires
        runs_on(deps, shown_names, r),
    ensures
        stands_under(deps, "minecraft"@, mc) ==> (r is Ok <==> !(nothing_under(
            deps,
            "fabric-loader"@,
        ) && nothing_under(deps, "neoforge"@) && nothing_under(deps, "quilt-loader"@)
            && nothing_under(deps, "forge"@))),
        stands_under(deps, "minecraft"@, mc) && r is Ok ==> r->Ok_0.mc_version@ == mc,
        nothing_under(deps, "minecraft"@) ==> r is Err,
        r is Ok ==> demanded_loader(deps) == Some((r->Ok_0.loader@, r->Ok_0.version@)),
{
    first_value_counts(deps, "minecraft"@, mc);
    first_value_counts(deps, "fabric-loader"@, mc);
    first_value_counts(deps, "neoforge"@, mc);
    first_value_counts(deps, "quilt-loader"@, mc);
    first_value_counts(deps, "forge"@, mc);
}

/// A file that the manifest lists is brought exactly where clients need it and it has an
/// address: from the first that it has, to its path and with its hash. One for servers only
/// is passed over, and one without an address is reported.
pub proof fn listed_files_are_brought(file: MrpackFile, client: Seq<char>, r: PackFilePlan)
    requires
        pack_file_planned(file, r),
    ensures
        stands_under(file.env@, "client"@, client) ==> (r is Ignore <==> client
            == "unsupported"@),
        nothing_under(file.env@, "client"@) ==> !(r is Ignore),
        !(r is Ignore) ==> (r is Fetch <==> file.downloads.len() > 0),
        r is Fetch ==> r->url@ == file.downloads@[0]@ && r->path@ == file.path@ && text::opt_view(
            r->sha1,
        ) == text::opt_view(file.sha1),
{
    first_value_counts(file.env@, "client"@, client);
}

/// A file of the manifest counts as installed exactly where it was brought, under its path.
pub proof fn brought_files_are_installed(
    path: Seq<char>,
    fetched: Result<bool, String>,
    r: ItemResult,
)
    requires
        pack_file_result(path, fetched, r),
    ensures
        r.outcome is Installed <==> fetched is Ok,
        r.outcome is Installed ==> r.outcome->Installed_0@ == path,
{
}

/// The number of files for clients is that of the files which are not for servers only.
pub proof fn client_files_are_counted(files: Seq<MrpackFile>)
    ensures
        client_files(files) == files.filter(|f: MrpackFile| !server_only(f)).len(),
    decreases files.len(),
{
    reveal(Seq::filter);
    if files.len() > 0 {
        client_files_are_counted(files.drop_last());
    }
}

/// The folder for mods is made and files are taken into the cache before the mods are moved
/// away, the arguments for Java are chosen before the installation is added to the launcher,
/// and the file of the modpack is removed only when everything was taken from it.
pub proof fn pack_steps_have_what_they_need(files: nat, supplements: nat)
    ensures
        ({
            let all = pack_steps(files, supplements);
            let n = all.len();
            &&& n == 10 + files + supplements
            &&& all[0] is MakeModsFolder
            &&& all[1] is PrimeCache
            &&& all[2] is BackUpMods
            &&& all[n - 4] is TuneJava
            &&& all[n - 3] is AddLauncherProfile
            &&& all[n - 2] is DropPack
            &&& all[n - 1] is WriteState
        }),
{
    let a = seq![ModpackStep::MakeModsFolder, ModpackStep::PrimeCache, ModpackStep::BackUpMods];
    let b = a + file_steps(files);
    let c = b + seq![ModpackStep::ExtractOverrides, ModpackStep::AnnounceSupplements];
    let d = c + supplement_steps(supplements);
    assert(d.len() == 5 + files + supplements);
}

} // verus!
