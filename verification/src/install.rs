//! The installation of a profile: whether and how it is installed, in which order the
//! steps come, and what is reported at the end.
use vstd::prelude::*;

use crate::items;
use crate::items::{Kind, Outcome};
use crate::loader::LatestMcVersion;
use crate::profile;
use crate::profile::{one, said, two, Level, Profile, Progress};
use crate::text;

verus! {

/// Whether `r` is the profile to install: the one with the given name, if it is supported.
pub open spec fn profile_chosen(
    profiles: Seq<Profile>,
    profile_id: Seq<char>,
    r: Result<Profile, String>,
) -> bool {
    let i = profile::profile_index(profiles, profile_id);
    if i >= profiles.len() {
        r is Err && r->Err_0@ == "Unknown profile: "@ + profile_id
    } else if profiles[i].not_implemented_in_phase_1 {
        r is Err && r->Err_0@ == "'"@ + profiles[i].name@
            + "' is marked not-yet-supported in profiles.yaml."@
    } else {
        r is Ok && r->Ok_0 == profiles[i]
    }
}

/// The profile to install: the one with the given name, if it is supported.
pub fn choose_profile(profiles: Vec<Profile>, profile_id: &str) -> (r: Result<Profile, String>)
    ensures
        profile_chosen(profiles@, profile_id@, r),
{
    match profile::find_profile(profiles, profile_id) {
        Err(e) => Err(e),
        Ok(p) => {
            if p.not_implemented_in_phase_1 {
                Err(
                    text::cat3(
                        "'",
                        p.name.as_str(),
                        "' is marked not-yet-supported in profiles.yaml.",
                    ),
                )
            } else {
                Ok(p)
            }
        },
    }
}

/// The version of the game to install for.
#[derive(Debug)]
pub enum WantedVersion {
    /// The newest release.
    Latest,
    Pinned(String),
}

impl WantedVersion {
    /// Whether this is the version that `name` stands for: `latest` is the newest release,
    /// in whatever case it is written.
    pub open spec fn named(self, name: Seq<char>) -> bool {
        if text::same_ignoring_case(name, "latest"@) {
            self is Latest
        } else {
            self is Pinned && self->Pinned_0@ == name
        }
    }
}

/// The version of the game that a name stands for.
pub fn wanted_version(name: &str) -> (r: WantedVersion)
    ensures
        r.named(name@),
{
    if text::eq_ignoring_case(name, "latest") {
        WantedVersion::Latest
    } else {
        WantedVersion::Pinned(name.to_owned())
    }
}

/// How a profile is installed.
#[derive(Debug)]
pub enum InstallPlan {
    /// As the modpack `slug`.
    Modpack { slug: String },
    /// Item by item, on a loader for a version of the game.
    Direct { loader: String, version: WantedVersion },
}

/// Whether `r` is how a profile is installed, or why it cannot be.
pub open spec fn install_planned(p: Profile, r: Result<InstallPlan, String>) -> bool {
    match p.modpack {
        Some(pack) => if pack.source@ != "modrinth-modpack"@ {
            r is Err && r->Err_0@ == "Unsupported modpack source '"@ + pack.source@
                + "' (expected modrinth-modpack)"@
        } else {
            r is Ok && r->Ok_0 is Modpack && r->Ok_0->slug@ == pack.slug@
        },
        None => match p.loader {
            None => r is Err && r->Err_0@ == "profile has no `loader` and no `modpack` field"@,
            Some(loader) => if loader@ != "fabric"@ && loader@ != "neoforge"@ {
                r is Err && r->Err_0@ == "Unsupported loader '"@ + loader@ + "' on profile '"@
                    + p.name@ + "'."@
            } else {
                match p.minecraft_version {
                    None => r is Err && r->Err_0@
                        == "profile has no `minecraft_version` and no `modpack` field"@,
                    Some(version) => {
                        &&& r is Ok
                        &&& r->Ok_0 is Direct
                        &&& r->Ok_0->loader@ == loader@
                        &&& r->Ok_0->version.named(version@)
                    },
                }
            },
        },
    }
}

/// How a profile is installed, or why it cannot be.
pub fn install_plan(p: &Profile) -> (r: Result<InstallPlan, String>)
    ensures
        install_planned(*p, r),
{
    match &p.modpack {
        Some(pack) => {
            if !text::same(pack.source.as_str(), "modrinth-modpack") {
                Err(
                    text::cat3(
                        "Unsupported modpack source '",
                        pack.source.as_str(),
                        "' (expected modrinth-modpack)",
                    ),
                )
            } else {
                Ok(InstallPlan::Modpack { slug: pack.slug.clone() })
            }
        },
        None => match &p.loader {
            None => Err("profile has no `loader` and no `modpack` field".to_owned()),
            Some(loader) => {
                if !text::same(loader.as_str(), "fabric") && !text::same(
                    loader.as_str(),
                    "neoforge",
                ) {
                    return Err(
                        text::cat5(
                            "Unsupported loader '",
                            loader.as_str(),
                            "' on profile '",
                            p.name.as_str(),
                            "'.",
                        ),
                    );
                }
                match &p.minecraft_version {
                    None => Err(
                        "profile has no `minecraft_version` and no `modpack` field".to_owned(),
                    ),
                    Some(version) => Ok(
                        InstallPlan::Direct {
                            loader: loader.clone(),
                            version: wanted_version(version.as_str()),
                        },
                    ),
                }
            },
        },
    }
}

/// What to say before the newest release is asked for.
pub fn resolving_latest() -> (r: Vec<Progress>)
    ensures
        said(r@) == seq![("Resolving latest Minecraft release..."@, Level::Info)],
{
    one("Resolving latest Minecraft release...".to_owned(), Level::Info)
}

/// What to say when the newest release is known.
pub fn latest_resolved(latest: &LatestMcVersion) -> (r: Vec<Progress>)
    ensures
        said(r@) == seq![("Latest Minecraft release is "@ + latest.release@, Level::Done)],
{
    one(text::cat2("Latest Minecraft release is ", latest.release.as_str()), Level::Done)
}

/// One step of an installation item by item, once the loader is in place.
#[derive(Clone, Copy, Debug, PartialEq, Eq, Structural)]
pub enum InstallStep {
    /// Switch full screen off in `options.txt`.
    SetFullscreen,
    /// Choose the arguments for Java.
    TuneJava,
    /// Add the installation to the launcher.
    AddLauncherProfile,
    /// Make the folder for items of a kind.
    MakeFolder { kind: Kind },
    /// Take files that lie about into the cache.
    PrimeCache,
    /// Move the mods of earlier installations away.
    BackUpMods,
    /// Install the item of the given number.
    Item { kind: Kind, index: usize },
    /// Choose the default shader, where one was installed.
    ChooseShader,
    /// Switch the default resource packs on, where any were installed.
    EnablePacks,
    /// Record which profile the mods belong to.
    WriteState,
}

/// The steps for the items of a kind, in order.
pub open spec fn item_steps(kind: Kind, n: nat) -> Seq<InstallStep> {
    Seq::new(n, |i: int| InstallStep::Item { kind, index: i as usize })
}

/// The steps for the items of a kind, behind that for their folder, where there are any.
pub open spec fn folder_steps(kind: Kind, n: nat) -> Seq<InstallStep> {
    if n == 0 {
        Seq::empty()
    } else {
        seq![InstallStep::MakeFolder { kind }] + item_steps(kind, n)
    }
}

/// The steps that come before any item.
pub open spec fn first_steps() -> Seq<InstallStep> {
    seq![
        InstallStep::SetFullscreen,
        InstallStep::TuneJava,
        InstallStep::AddLauncherProfile,
        InstallStep::MakeFolder { kind: Kind::Mod },
        InstallStep::PrimeCache,
        InstallStep::BackUpMods,
    ]
}

/// The steps of an installation with so many mods, shaders and resource packs.
pub open spec fn steps(mods: nat, shaders: nat, packs: nat) -> Seq<InstallStep> {
    first_steps() + item_steps(Kind::Mod, mods) + folder_steps(Kind::Shader, shaders) + seq![
        InstallStep::ChooseShader,
    ] + folder_steps(Kind::ResourcePack, packs) + seq![
        InstallStep::EnablePacks,
        InstallStep::WriteState,
    ]
}

/// Adds the steps for the items of a kind.
fn push_items(v: &mut Vec<InstallStep>, kind: Kind, n: usize)
    ensures
        final(v)@ == old(v)@ + item_steps(kind, n as nat),
{
    let ghost before = v@;
    let mut i: usize = 0;
    assert(before + item_steps(kind, 0) =~= before);
    while i < n
        invariant
            i <= n,
            v@ == before + item_steps(kind, i as nat),
        decreases n - i,
    {
        let ghost now = v@;
        v.push(InstallStep::Item { kind, index: i });
        assert(v@ =~= before + item_steps(kind, (i + 1) as nat));
        i = i + 1;
    }
}

/// Adds the steps for the items of a kind, behind that for their folder.
fn push_folder(v: &mut Vec<InstallStep>, kind: Kind, n: usize)
    ensures
        final(v)@ == old(v)@ + folder_steps(kind, n as nat),
{
    let ghost before = v@;
    if n > 0 {
        v.push(InstallStep::MakeFolder { kind });
        push_items(v, kind, n);
        assert(v@ =~= before + folder_steps(kind, n as nat));
    } else {
        assert(v@ =~= before + folder_steps(kind, n as nat));
    }
}

/// The steps of an installation item by item, in order.
pub fn install_steps(p: &Profile) -> (r: Vec<InstallStep>)
    ensures
        r@ == steps(p.mods.len() as nat, p.shaders.len() as nat, p.resource_packs.len() as nat),
{
    let mut v: Vec<InstallStep> = Vec::new();
    v.push(InstallStep::SetFullscreen);
    v.push(InstallStep::TuneJava);
    v.push(InstallStep::AddLauncherProfile);
    v.push(InstallStep::MakeFolder { kind: Kind::Mod });
    v.push(InstallStep::PrimeCache);
    v.push(InstallStep::BackUpMods);
    assert(v@ =~= first_steps());
    push_items(&mut v, Kind::Mod, p.mods.len());
    push_folder(&mut v, Kind::Shader, p.shaders.len());
    let ghost before = v@;
    v.push(InstallStep::ChooseShader);
    assert(v@ =~= before + seq![InstallStep::ChooseShader]);
    push_folder(&mut v, Kind::ResourcePack, p.resource_packs.len());
    let ghost then_before = v@;
    v.push(InstallStep::EnablePacks);
    v.push(InstallStep::WriteState);
    assert(v@ =~= then_before + seq![InstallStep::EnablePacks, InstallStep::WriteState]);
    v
}

/// How many items of a kind there are.
pub open spec fn count_of(kind: Kind, mods: nat, shaders: nat, packs: nat) -> nat {
    match kind {
        Kind::Mod => mods,
        Kind::Shader => shaders,
        Kind::ResourcePack => packs,
        Kind::Supplement => 0,
    }
}

/// Where the step for an item stands.
pub open spec fn step_of(kind: Kind, index: int, mods: nat, shaders: nat) -> int {
    let after_shaders = 6 + mods + (if shaders == 0 {
        0
    } else {
        shaders + 1
    });
    match kind {
        Kind::Mod => 6 + index,
        Kind::Shader => 6 + mods + 1 + index,
        _ => after_shaders + 2 + index,
    }
}

/// Where each step stands.
proof fn lemma_steps(mods: nat, shaders: nat, packs: nat, j: int)
    requires
        0 <= j < steps(mods, shaders, packs).len(),
    ensures
        ({
            let step = steps(mods, shaders, packs)[j];
            let s = if shaders == 0 {
                0
            } else {
                shaders + 1
            };
            if j < 6 {
                step == first_steps()[j]
            } else if j < 6 + mods {
                step == (InstallStep::Item { kind: Kind::Mod, index: (j - 6) as usize })
            } else if j < 6 + mods + s {
                if j == 6 + mods {
                    step == (InstallStep::MakeFolder { kind: Kind::Shader })
                } else {
                    step == (InstallStep::Item {
                        kind: Kind::Shader,
                        index: (j - 7 - mods) as usize,
                    })
                }
            } else if j == 6 + mods + s {
                step == InstallStep::ChooseShader
            } else if j == steps(mods, shaders, packs).len() - 1 {
                step == InstallStep::WriteState
            } else if j == steps(mods, shaders, packs).len() - 2 {
                step == InstallStep::EnablePacks
            } else if j == 7 + mods + s {
                step == (InstallStep::MakeFolder { kind: Kind::ResourcePack })
            } else {
                step == (InstallStep::Item {
                    kind: Kind::ResourcePack,
                    index: (j - 8 - mods - s) as usize,
                })
            }
        }),
        steps(mods, shaders, packs).len() == 9 + mods + (if shaders == 0 {
            0
        } else {
            shaders + 1
        }) + (if packs == 0 {
            0
        } else {
            packs + 1
        }),
{
    let a = first_steps();
    let b = a + item_steps(Kind::Mod, mods);
    let c = b + folder_steps(Kind::Shader, shaders);
    let d = c + seq![InstallStep::ChooseShader];
    let e = d + folder_steps(Kind::ResourcePack, packs);
    assert(a.len() == 6);
    assert(b.len() == 6 + mods);
}

/// Every mod, shader and resource pack of a profile has exactly one step.
pub proof fn every_item_has_one_step(
    mods: nat,
    shaders: nat,
    packs: nat,
    kind: Kind,
    index: usize,
)
    requires
        index < count_of(kind, mods, shaders, packs),
        mods <= usize::MAX,
        shaders <= usize::MAX,
        packs <= usize::MAX,
    ensures
        ({
            let all = steps(mods, shaders, packs);
            let at = step_of(kind, index as int, mods, shaders);
            &&& 0 <= at < all.len()
            &&& all[at] == (InstallStep::Item { kind, index })
            &&& forall|j: int|
                0 <= j < all.len() && #[trigger] all[j] == (InstallStep::Item { kind, index })
                    ==> j == at
        }),
{
    let all = steps(mods, shaders, packs);
    let at = step_of(kind, index as int, mods, shaders);
    lemma_steps(mods, shaders, packs, 0);
    lemma_steps(mods, shaders, packs, at);
    assert forall|j: int|
        0 <= j < all.len() && #[trigger] all[j] == (InstallStep::Item {
            kind,
            index,
        }) implies j == at by {
        lemma_steps(mods, shaders, packs, j);
    }
}

/// The mods of earlier installations are moved away before any item is installed, and
/// files are taken into the cache before that.
pub proof fn backup_comes_first(mods: nat, shaders: nat, packs: nat, j: int)
    requires
        0 <= j < steps(mods, shaders, packs).len(),
        steps(mods, shaders, packs)[j] is Item,
    ensures
        steps(mods, shaders, packs)[4] == InstallStep::PrimeCache,
        steps(mods, shaders, packs)[5] == InstallStep::BackUpMods,
        j > 5,
{
    lemma_steps(mods, shaders, packs, 4);
    lemma_steps(mods, shaders, packs, 5);
    lemma_steps(mods, shaders, packs, j);
}

/// The default shader is chosen after all shaders were installed, and the default resource
/// packs are switched on after all resource packs were.
pub proof fn defaults_come_last(mods: nat, shaders: nat, packs: nat, i: int, j: int)
    requires
        0 <= i < steps(mods, shaders, packs).len(),
        0 <= j < steps(mods, shaders, packs).len(),
    ensures
        ({
            let all = steps(mods, shaders, packs);
            &&& all[i] == InstallStep::ChooseShader && (all[j] matches InstallStep::Item {
                kind,
                ..
            } && kind == Kind::Shader) ==> j < i
            &&& all[i] == InstallStep::EnablePacks && all[j] is Item ==> j < i
        }),
{
    lemma_steps(mods, shaders, packs, i);
    lemma_steps(mods, shaders, packs, j);
}

/// Which profile the mods belong to is recorded once, when all else is done.
pub proof fn state_is_written_last(mods: nat, shaders: nat, packs: nat, j: int)
    requires
        0 <= j < steps(mods, shaders, packs).len(),
    ensures
        steps(mods, shaders, packs)[j] == InstallStep::WriteState <==> j == steps(
            mods,
            shaders,
            packs,
        ).len() - 1,
{
    lemma_steps(mods, shaders, packs, j);
}

/// What to say when full screen was switched off.
pub fn fullscreen_is_off() -> (r: Vec<Progress>)
    ensures
        said(r@) == seq![
            (
                "options.txt -> set fullscreen:false (windowed by default; press F11 in-game to toggle)"@,
                Level::Done,
            ),
        ],
{
    one(
        "options.txt -> set fullscreen:false (windowed by default; press F11 in-game to toggle)".to_owned(),
        Level::Done,
    )
}

/// What to say when the arguments for Java were chosen.
pub fn java_is_tuned(java_args: &str) -> (r: Vec<Progress>)
    ensures
        said(r@) == seq![("Java args (auto-tuned): "@ + java_args@, Level::Info)],
{
    one(text::cat2("Java args (auto-tuned): ", java_args), Level::Info)
}

/// What to say before the installation is added to the launcher.
pub fn updating_launcher() -> (r: Vec<Progress>)
    ensures
        said(r@) == seq![("Updating launcher profiles..."@, Level::Info)],
{
    one("Updating launcher profiles...".to_owned(), Level::Info)
}

/// The name of a profile's installation in the launcher.
pub open spec fn launcher_id(profile_id: Seq<char>) -> Seq<char> {
    "mmle5-"@ + profile_id
}

/// The name of a profile's installation in the launcher.
pub fn launcher_profile_id(profile_id: &str) -> (r: String)
    ensures
        r@ == launcher_id(profile_id@),
{
    text::cat2("mmle5-", profile_id)
}

/// What to say when the default shader was chosen: which file was changed, and whether the
/// shader's own file is there.
pub fn shader_is_set(properties_path: &str, filename: &str, zip_path: &str, zip_exists: bool) -> (r:
    Vec<Progress>)
    ensures
        said(r@) == seq![
            (
                "iris.properties -> "@ + properties_path@ + " (shaderPack="@ + filename@
                    + ", enableShaders=true)"@,
                Level::Done,
            ),
            if zip_exists {
                ("verified shader zip exists: "@ + zip_path@, Level::Done)
            } else {
                ("WARNING: shader zip missing at "@ + zip_path@, Level::Warn)
            },
        ],
{
    let first = text::cat5(
        "iris.properties -> ",
        properties_path,
        " (shaderPack=",
        filename,
        ", enableShaders=true)",
    );
    if zip_exists {
        two(
            first,
            Level::Done,
            text::cat2("verified shader zip exists: ", zip_path),
            Level::Done,
        )
    } else {
        two(
            first,
            Level::Done,
            text::cat2("WARNING: shader zip missing at ", zip_path),
            Level::Warn,
        )
    }
}

/// What to say when a default resource pack was switched on: which file was changed, and
/// whether the pack's own file is there.
pub fn pack_is_enabled(options_path: &str, filename: &str, zip_path: &str, zip_exists: bool) -> (r:
    Vec<Progress>)
    ensures
        said(r@) == seq![
            (
                "options.txt -> "@ + options_path@ + " (added \"file/"@ + filename@
                    + "\" to resourcePacks)"@,
                Level::Done,
            ),
            if zip_exists {
                ("verified resource pack zip: "@ + zip_path@, Level::Done)
            } else {
                ("WARNING: resource pack missing at "@ + zip_path@, Level::Warn)
            },
        ],
{
    let first = text::cat5(
        "options.txt -> ",
        options_path,
        " (added \"file/",
        filename,
        "\" to resourcePacks)",
    );
    if zip_exists {
        two(
            first,
            Level::Done,
            text::cat2("verified resource pack zip: ", zip_path),
            Level::Done,
        )
    } else {
        two(
            first,
            Level::Done,
            text::cat2("WARNING: resource pack missing at ", zip_path),
            Level::Warn,
        )
    }
}

/// What is reported at the end of an installation.
#[derive(Debug)]
pub struct InstallReport {
    pub profile_name: String,
    pub minecraft_version: String,
    pub loader_version: String,
    pub mods_installed: u32,
    pub shaders_installed: u32,
    pub resource_packs_installed: u32,
    pub skipped: Vec<String>,
}

impl InstallReport {
    /// Whether this is the report of an installation with these outcomes.
    pub open spec fn tells(
        self,
        profile_name: Seq<char>,
        mc_version: Seq<char>,
        loader_version: Seq<char>,
        mods: Seq<Outcome>,
        shaders: Seq<Outcome>,
        packs: Seq<Outcome>,
    ) -> bool {
        &&& self.profile_name@ == profile_name
        &&& self.minecraft_version@ == mc_version
        &&& self.loader_version@ == loader_version
        &&& self.mods_installed == items::installed_count(mods)
        &&& self.shaders_installed == items::installed_count(shaders)
        &&& self.resource_packs_installed == items::installed_count(packs)
        &&& text::views(self.skipped@) == items::skip_reasons(mods) + items::skip_reasons(shaders)
            + items::skip_reasons(packs)
    }
}

/// Two lists of strings, one behind the other.
fn both(a: Vec<String>, b: Vec<String>) -> (r: Vec<String>)
    ensures
        text::views(r@) == text::views(a@) + text::views(b@),
{
    let mut r = a;
    let mut b = b;
    let ghost x = r@;
    let ghost y = b@;
    r.append(&mut b);
    assert(text::views(r@) =~= text::views(x) + text::views(y));
    r
}

/// The report of an installation, from what came of each item: how many of each kind were
/// installed, and why the others were left out, mods before shaders before resource packs.
pub fn install_report(
    profile_name: &str,
    mc_version: &str,
    loader_version: &str,
    mods: &Vec<Outcome>,
    shaders: &Vec<Outcome>,
    packs: &Vec<Outcome>,
) -> (r: InstallReport)
    requires
        mods.len() <= u32::MAX,
        shaders.len() <= u32::MAX,
        packs.len() <= u32::MAX,
    ensures
        r.tells(profile_name@, mc_version@, loader_version@, mods@, shaders@, packs@),
{
    let m = items::tally(mods);
    let s = items::tally(shaders);
    let p = items::tally(packs);
    InstallReport {
        profile_name: profile_name.to_owned(),
        minecraft_version: mc_version.to_owned(),
        loader_version: loader_version.to_owned(),
        mods_installed: m.installed,
        shaders_installed: s.installed,
        resource_packs_installed: p.installed,
        skipped: both(both(m.skipped, s.skipped), p.skipped),
    }
}

/// The report of an installation accounts for every item: those that were installed and
/// those that were left out are all there are.
pub proof fn report_accounts_for_every_item(
    mods: Seq<Outcome>,
    shaders: Seq<Outcome>,
    packs: Seq<Outcome>,
)
    ensures
        items::installed_count(mods) + items::installed_count(shaders) + items::installed_count(
            packs,
        ) + (items::skip_reasons(mods) + items::skip_reasons(shaders) + items::skip_reasons(
            packs,
        )).len() == mods.len() + shaders.len() + packs.len(),
{
    items::every_item_is_accounted_for(mods);
    items::every_item_is_accounted_for(shaders);
    items::every_item_is_accounted_for(packs);
}

/// How many items of a kind are done before the step `at`.
pub open spec fn done_before(kind: Kind, at: int, mods: nat, shaders: nat, packs: nat) -> int {
    let first = step_of(kind, 0, mods, shaders);
    let n = count_of(kind, mods, shaders, packs);
    if at <= first {
        0
    } else if at - first <= n {
        at - first
    } else {
        n as int
    }
}

/// An installation item by item: the steps, how many of them are done, and what came of
/// the items so far, in the order of the profile.
#[derive(Debug)]
pub struct Installation {
    pub steps: Vec<InstallStep>,
    pub at: usize,
    pub mods: Vec<Outcome>,
    pub shaders: Vec<Outcome>,
    pub packs: Vec<Outcome>,
}

impl Installation {
    /// Whether this is an installation of `p`: the steps are its steps, and there is one
    /// outcome for each item whose step is done.
    pub open spec fn of(self, p: Profile) -> bool {
        let m = p.mods.len() as nat;
        let s = p.shaders.len() as nat;
        let r = p.resource_packs.len() as nat;
        &&& self.steps@ == steps(m, s, r)
        &&& self.at <= self.steps.len()
        &&& self.mods.len() == done_before(Kind::Mod, self.at as int, m, s, r)
        &&& self.shaders.len() == done_before(Kind::Shader, self.at as int, m, s, r)
        &&& self.packs.len() == done_before(Kind::ResourcePack, self.at as int, m, s, r)
    }

    /// Whether all steps are done.
    pub open spec fn finished(self) -> bool {
        self.at >= self.steps.len()
    }

    /// What came of the items of a kind so far.
    pub open spec fn outcomes(self, kind: Kind) -> Seq<Outcome> {
        match kind {
            Kind::Mod | Kind::Supplement => self.mods@,
            Kind::Shader => self.shaders@,
            Kind::ResourcePack => self.packs@,
        }
    }

    /// An installation with nothing done.
    pub fn begin(p: &Profile) -> (r: Installation)
        ensures
            r.of(*p),
            r.at == 0,
    {
        let steps = install_steps(p);
        proof {
            lemma_steps(
                p.mods.len() as nat,
                p.shaders.len() as nat,
                p.resource_packs.len() as nat,
                0,
            );
        }
        Installation {
            steps,
            at: 0,
            mods: Vec::new(),
            shaders: Vec::new(),
            packs: Vec::new(),
        }
    }

    /// The step to take next; none where all are done.
    pub fn current(&self) -> (r: Option<InstallStep>)
        ensures
            r == (if self.finished() {
                None
            } else {
                Some(self.steps@[self.at as int])
            }),
    {
        if self.at < self.steps.len() {
            Some(self.steps[self.at])
        } else {
            None
        }
    }

    /// Goes on after a step that installs no item.
    pub fn step_done(&mut self, p: &Profile)
        requires
            old(self).of(*p),
            !old(self).finished(),
            !(old(self).steps@[old(self).at as int] is Item),
        ensures
            final(self).of(*p),
            final(self).at == old(self).at + 1,
            final(self).mods@ == old(self).mods@,
            final(self).shaders@ == old(self).shaders@,
            final(self).packs@ == old(self).packs@,
    {
        proof {
            lemma_steps(
                p.mods.len() as nat,
                p.shaders.len() as nat,
                p.resource_packs.len() as nat,
                self.at as int,
            );
        }
        self.at = self.at + 1;
    }

    /// Goes on after a step that installs an item, with what came of it.
    pub fn item_done(&mut self, p: &Profile, outcome: Outcome)
        requires
            old(self).of(*p),
            !old(self).finished(),
            old(self).steps@[old(self).at as int] is Item,
        ensures
            final(self).of(*p),
            final(self).at == old(self).at + 1,
            ({
                let step = old(self).steps@[old(self).at as int];
                &&& step->index == old(self).outcomes(step->Item_kind).len()
                &&& final(self).outcomes(step->Item_kind) == old(self).outcomes(
                    step->Item_kind,
                ).push(outcome)
                &&& step->Item_kind != Kind::Mod ==> final(self).mods@ == old(self).mods@
                &&& step->Item_kind != Kind::Shader ==> final(self).shaders@ == old(
                    self,
                ).shaders@
                &&& step->Item_kind != Kind::ResourcePack ==> final(self).packs@ == old(
                    self,
                ).packs@
            }),
    {
        proof {
            lemma_steps(
                p.mods.len() as nat,
                p.shaders.len() as nat,
                p.resource_packs.len() as nat,
                self.at as int,
            );
        }
        match self.steps[self.at] {
            InstallStep::Item { kind: Kind::Shader, .. } => {
                self.shaders.push(outcome);
            },
            InstallStep::Item { kind: Kind::ResourcePack, .. } => {
                self.packs.push(outcome);
            },
            _ => {
                self.mods.push(outcome);
            },
        }
        self.at = self.at + 1;
    }

    /// The report of an installation that is finished: every item of the profile is
    /// counted as installed or named among those left out.
    pub fn report(&self, p: &Profile, mc_version: &str, loader_version: &str) -> (r: InstallReport)
        requires
            self.of(*p),
            self.finished(),
            p.mods.len() <= u32::MAX,
            p.shaders.len() <= u32::MAX,
            p.resource_packs.len() <= u32::MAX,
        ensures
            r.tells(
                p.name@,
                mc_version@,
                loader_version@,
                self.mods@,
                self.shaders@,
                self.packs@,
            ),
            r.mods_installed + r.shaders_installed + r.resource_packs_installed + r.skipped.len()
                == p.mods.len() + p.shaders.len() + p.resource_packs.len(),
    {
        proof {
            lemma_steps(
                p.mods.len() as nat,
                p.shaders.len() as nat,
                p.resource_packs.len() as nat,
                0,
            );
            report_accounts_for_every_item(self.mods@, self.shaders@, self.packs@);
        }
        let r = install_report(
            p.name.as_str(),
            mc_version,
            loader_version,
            &self.mods,
            &self.shaders,
            &self.packs,
        );
        assert(text::views(r.skipped@).len() == r.skipped.len());
        r
    }
}

/// The first profile with the name that was asked for is installed, where it is supported;
/// no other profile ever is.
pub proof fn first_profile_of_the_name_is_installed(
    profiles: Seq<Profile>,
    profile_id: Seq<char>,
    r: Result<Profile, String>,
    i: int,
)
    requires
        profile_chosen(profiles, profile_id, r),
    ensures
        0 <= i < profiles.len() && profiles[i].id@ == profile_id && (forall|j: int|
            0 <= j < i ==> (#[trigger] profiles[j]).id@ != profile_id) ==> (r is Ok
            <==> !profiles[i].not_implemented_in_phase_1) && (r is Ok ==> r->Ok_0 == profiles[i]),
        r is Ok ==> profiles.contains(r->Ok_0) && r->Ok_0.id@ == profile_id,
        (forall|j: int| 0 <= j < profiles.len() ==> (#[trigger] profiles[j]).id@ != profile_id)
            ==> r is Err,
{
    profile::lemma_profile_index(profiles, profile_id);
    let k = profile::profile_index(profiles, profile_id);
    if 0 <= i < profiles.len() && profiles[i].id@ == profile_id && (forall|j: int|
        0 <= j < i ==> (#[trigger] profiles[j]).id@ != profile_id) {
        if k < i {
            assert(profiles[k].id@ != profile_id);
        }
        if i < k {
            assert(profiles[i].id@ != profile_id);
        }
    }
}

/// A profile with a modpack is installed as that modpack or not at all, whatever loader and
/// version of the game it names; one without is installed on the loader and for the version
/// that it names, where the loader is one of the two that can be installed.
pub proof fn modpacks_come_before_loaders(p: Profile, r: Result<InstallPlan, String>)
    requires
        install_planned(p, r),
    ensures
        p.modpack is Some ==> (r is Ok <==> p.modpack->Some_0.source@ == "modrinth-modpack"@),
        p.modpack is Some && r is Ok ==> r->Ok_0 is Modpack && r->Ok_0->slug@
            == p.modpack->Some_0.slug@,
        p.modpack is None ==> (r is Ok <==> p.loader is Some && (p.loader->Some_0@ == "fabric"@
            || p.loader->Some_0@ == "neoforge"@) && p.minecraft_version is Some),
        p.modpack is None && r is Ok ==> r->Ok_0 is Direct && r->Ok_0->loader@ == p.loader->Some_0@
            && r->Ok_0->version.named(p.minecraft_version->Some_0@),
{
}

/// A version of the game that is written `latest`, in whatever case, is the newest release,
/// and any other is taken as it is written.
pub proof fn latest_in_any_case(name: Seq<char>, v: WantedVersion)
    requires
        v.named(name),
    ensures
        v is Latest <==> text::ascii_lower(name) == "latest"@,
        v is Pinned ==> v->Pinned_0@ == name,
{
    reveal_strlit("latest");
    assert(text::ascii_lower("latest"@) =~= "latest"@);
}

/// Before an item is installed its folder was made, and before the installation is added to
/// the launcher the arguments for Java were chosen.
pub proof fn steps_have_what_they_need(mods: nat, shaders: nat, packs: nat, j: int)
    requires
        0 <= j < steps(mods, shaders, packs).len(),
    ensures
        ({
            let all = steps(mods, shaders, packs);
            &&& all[j] matches InstallStep::Item { kind, .. } ==> exists|i: int|
                0 <= i < j && #[trigger] all[i] == (InstallStep::MakeFolder { kind })
            &&& all[j] == InstallStep::AddLauncherProfile ==> exists|i: int|
                0 <= i < j && #[trigger] all[i] == InstallStep::TuneJava
        }),
{
    let all = steps(mods, shaders, packs);
    lemma_steps(mods, shaders, packs, j);
    lemma_steps(mods, shaders, packs, 1);
    lemma_steps(mods, shaders, packs, 3);
    assert(all[1] == InstallStep::TuneJava);
    assert(all[3] == (InstallStep::MakeFolder { kind: Kind::Mod }));
    let s = if shaders == 0 {
        0
    } else {
        shaders + 1
    };
    if all[j] is Item {
        let kind = all[j]->Item_kind;
        if kind == Kind::Shader {
            let i = 6 + mods as int;
            lemma_steps(mods, shaders, packs, i);
            assert(all[i] == (InstallStep::MakeFolder { kind }));
        } else if kind == Kind::ResourcePack {
            let i = 7 + mods + s as int;
            lemma_steps(mods, shaders, packs, i);
            assert(all[i] == (InstallStep::MakeFolder { kind }));
        }
    }
}

/// Each profile has an installation of its own in the launcher, which is known by what its
/// name begins with: installing one profile never renews the entry of another.
pub proof fn profiles_have_their_own_entries(a: Seq<char>, b: Seq<char>)
    ensures
        launcher_id(a) == launcher_id(b) <==> a == b,
        text::starts_with(launcher_id(a), "mmle5-"@),
        launcher_id(a) != a,
{
    reveal_strlit("mmle5-");
    let p = "mmle5-"@;
    assert((p + a).skip(6) =~= a);
    assert((p + b).skip(6) =~= b);
    assert((p + a).subrange(0, 6) =~= p);
    assert((p + a).len() == 6 + a.len());
}

/// The report counts of each kind the items that were installed, and gives the reasons for the
/// others: those of the mods first, then of the shaders, then of the resource packs, each in
/// order.
pub proof fn report_tells_what_came_of_each_kind(
    r: InstallReport,
    profile_name: Seq<char>,
    mc_version: Seq<char>,
    loader_version: Seq<char>,
    mods: Seq<Outcome>,
    shaders: Seq<Outcome>,
    packs: Seq<Outcome>,
)
    requires
        r.tells(profile_name, mc_version, loader_version, mods, shaders, packs),
    ensures
        r.profile_name@ == profile_name,
        r.minecraft_version@ == mc_version,
        r.loader_version@ == loader_version,
        r.mods_installed == mods.filter(|o: Outcome| o is Installed).len(),
        r.shaders_installed == shaders.filter(|o: Outcome| o is Installed).len(),
        r.resource_packs_installed == packs.filter(|o: Outcome| o is Installed).len(),
        text::views(r.skipped@) == (mods + shaders + packs).filter(
            |o: Outcome| o is Skipped,
        ).map_values(|o: Outcome| o->Skipped_0@),
{
    items::outcomes_are_told_apart(mods);
    items::outcomes_are_told_apart(shaders);
    items::outcomes_are_told_apart(packs);
    let out = |o: Outcome| o is Skipped;
    let reason = |o: Outcome| o->Skipped_0@;
    Seq::filter_distributes_over_add(mods, shaders, out);
    Seq::filter_distributes_over_add(mods + shaders, packs, out);
    assert((mods + shaders + packs).filter(out).map_values(reason) =~= mods.filter(out).map_values(
        reason,
    ) + shaders.filter(out).map_values(reason) + packs.filter(out).map_values(reason));
}

} // verus!
