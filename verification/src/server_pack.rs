//! Server packs: the mods of a profile that a server needs, with instructions.
use vstd::prelude::*;

use crate::decimal;
use crate::install::{wanted_version, WantedVersion};
use crate::items;
use crate::lines;
use crate::modrinth;
use crate::modrinth::ModrinthVersion;
use crate::profile;
use crate::profile::{one, said, say, says, ItemRef, Level, Profile, Progress};
use crate::text;
use crate::web::{Body, Reply};

verus! {

/// A server pack that can be made.
#[derive(Debug)]
pub struct ServerPackPlan {
    pub profile: Profile,
    pub loader: String,
    pub version: WantedVersion,
}

/// Whether `r` is the server pack of a profile, or why there is none.
pub open spec fn server_pack_planned(
    p: Profile,
    target_path: Seq<char>,
    r: Result<ServerPackPlan, String>,
) -> bool {
    if p.modpack is Some {
        r is Err && r->Err_0@ == "Server-pack export isn't supported for modpack profiles like '"@
            + p.name@ + "' — install it client-side first."@
    } else {
        match p.loader {
            None => r is Err && r->Err_0@ == "profile has no loader"@,
            Some(loader) => if loader@ != "fabric"@ && loader@ != "neoforge"@ {
                r is Err && r->Err_0@
                    == "Server-pack export only supports Fabric and NeoForge — '"@ + p.name@
                    + "' uses "@ + loader@ + "."@
            } else if target_path.len() == 0 {
                r is Err && r->Err_0@ == "No output path selected"@
            } else {
                match p.minecraft_version {
                    None => r is Err && r->Err_0@ == "profile has no minecraft_version"@,
                    Some(version) => {
                        &&& r is Ok
                        &&& r->Ok_0.profile == p
                        &&& r->Ok_0.loader@ == loader@
                        &&& r->Ok_0.version.named(version@)
                    },
                }
            },
        }
    }
}

/// Whether `r` is the server pack of the profile with the given name, or why there is none.
pub open spec fn server_pack_chosen(
    profiles: Seq<Profile>,
    profile_id: Seq<char>,
    target_path: Seq<char>,
    r: Result<ServerPackPlan, String>,
) -> bool {
    let i = profile::profile_index(profiles, profile_id);
    if i >= profiles.len() {
        r is Err && r->Err_0@ == "Unknown profile: "@ + profile_id
    } else {
        server_pack_planned(profiles[i], target_path, r)
    }
}

/// The server pack of the profile with the given name, or why there is none.
pub fn server_pack_plan(profiles: Vec<Profile>, profile_id: &str, target_path: &str) -> (r: Result<
    ServerPackPlan,
    String,
>)
    ensures
        server_pack_chosen(profiles@, profile_id@, target_path@, r),
{
    let p = match profile::find_profile(profiles, profile_id) {
        Ok(p) => p,
        Err(e) => {
            return Err(e);
        },
    };
    if p.modpack.is_some() {
        return Err(
            text::cat3(
                "Server-pack export isn't supported for modpack profiles like '",
                p.name.as_str(),
                "' — install it client-side first.",
            ),
        );
    }
    let loader = match &p.loader {
        Some(l) => l.clone(),
        None => {
            return Err("profile has no loader".to_owned());
        },
    };
    if !text::same(loader.as_str(), "fabric") && !text::same(loader.as_str(), "neoforge") {
        return Err(
            text::cat5(
                "Server-pack export only supports Fabric and NeoForge — '",
                p.name.as_str(),
                "' uses ",
                loader.as_str(),
                ".",
            ),
        );
    }
    if target_path.is_empty() {
        return Err("No output path selected".to_owned());
    }
    let version = match &p.minecraft_version {
        Some(v) => wanted_version(v.as_str()),
        None => {
            return Err("profile has no minecraft_version".to_owned());
        },
    };
    Ok(ServerPackPlan { profile: p, loader, version })
}

/// What to say before the mods of a server pack are gathered.
pub fn building(name: &str, mc_version: &str, loader: &str) -> (r: Vec<Progress>)
    ensures
        said(r@) == seq![
            (
                "Building server pack for '"@ + name@ + "' (MC "@ + mc_version@ + ", "@ + loader@
                    + ")"@,
                Level::Info,
            ),
        ],
{
    one(
        text::cat7(
            "Building server pack for '",
            name,
            "' (MC ",
            mc_version,
            ", ",
            loader,
            ")",
        ),
        Level::Info,
    )
}

/// What Modrinth says of a project.
#[derive(Debug)]
pub struct ModrinthProjectMeta {
    pub title: Option<String>,
    /// `required`, `optional`, `unsupported` or `unknown`.
    pub server_side: Option<String>,
}

/// What is being done about a mod of the profile, and how it ends.
#[derive(Debug)]
pub enum ServerModPhase {
    Begin,
    /// Ask for the project.
    AskProject { slug: String },
    /// Ask for the versions of the project, which is shown as `title`.
    AskVersions { slug: String, title: String },
    /// Download the file; `line` is its line in the instructions.
    Download { slug: String, url: String, filename: String, line: String },
    /// The mod is in the pack.
    Included { filename: String, bytes: Vec<u8>, line: String },
    /// The mod is left out, for a reason.
    Skipped(String),
    /// The pack cannot be made.
    Failed(String),
}

/// What came of what was being done.
#[derive(Debug)]
pub enum ServerModEvent {
    Begun,
    Project(Reply<ModrinthProjectMeta>),
    Versions(Reply<Vec<ModrinthVersion>>),
    File(Body),
}

/// What to tell the user, and what to do next.
#[derive(Debug)]
pub struct ServerModStep {
    pub next: ServerModPhase,
    pub message: Option<Progress>,
}

impl ServerModPhase {
    /// Whether the event is one that this phase leads to.
    pub open spec fn expects(self, event: ServerModEvent) -> bool {
        match self {
            ServerModPhase::Begin => event is Begun,
            ServerModPhase::AskProject { .. } => event is Project,
            ServerModPhase::AskVersions { .. } => event is Versions,
            ServerModPhase::Download { .. } => event is File,
            _ => false,
        }
    }

    /// How far the work is.
    pub open spec fn progress(self) -> int {
        match self {
            ServerModPhase::Begin => 0,
            ServerModPhase::AskProject { .. } => 1,
            ServerModPhase::AskVersions { .. } => 2,
            ServerModPhase::Download { .. } => 3,
            _ => 4,
        }
    }
}

impl ServerModStep {
    /// Whether the mod is left out for `reason`, without a message.
    pub open spec fn skips(self, reason: Seq<char>) -> bool {
        self.next is Skipped && self.next->Skipped_0@ == reason && self.message is None
    }

    /// Whether the mod is left out for `reason`, with a message.
    pub open spec fn skips_saying(
        self,
        reason: Seq<char>,
        message: Seq<char>,
        level: Level,
    ) -> bool {
        self.next is Skipped && self.next->Skipped_0@ == reason && says(
            self.message,
            message,
            level,
        )
    }

    /// Whether the pack cannot be made, for a reason.
    pub open spec fn fails(self, e: Seq<char>) -> bool {
        self.next is Failed && self.next->Failed_0@ == e && self.message is None
    }
}

/// The reply about a project, or what to say of it.
pub open spec fn project_error(slug: Seq<char>, reply: Reply<ModrinthProjectMeta>) -> Option<
    Seq<char>,
> {
    match reply {
        Reply::Unreachable(e) => Some("modrinth project "@ + slug + ": "@ + e@),
        Reply::Status(s) => Some("modrinth project "@ + slug + ": HTTP "@ + s@),
        Reply::Unreadable(e) => Some("modrinth project "@ + slug + " json: "@ + e@),
        Reply::Received(_) => None,
    }
}

/// What Modrinth says of a project, or what to say where it says nothing.
pub fn modrinth_project_meta(slug: &str, reply: Reply<ModrinthProjectMeta>) -> (r: Result<
    ModrinthProjectMeta,
    String,
>)
    ensures
        match reply {
            Reply::Received(meta) => r is Ok && r->Ok_0 == meta,
            _ => r is Err && Some(r->Err_0@) == project_error(slug@, reply),
        },
{
    match reply {
        Reply::Unreachable(e) => Err(text::cat4("modrinth project ", slug, ": ", e.as_str())),
        Reply::Status(s) => Err(text::cat4("modrinth project ", slug, ": HTTP ", s.as_str())),
        Reply::Unreadable(e) => Err(
            text::cat4("modrinth project ", slug, " json: ", e.as_str()),
        ),
        Reply::Received(meta) => Ok(meta),
    }
}

/// The first step for a mod: only mods of Modrinth can be in the pack.
pub open spec fn begin_leads_to(item: ItemRef, step: ServerModStep) -> bool {
    if item.source@ != "modrinth"@ {
        step.skips(items::called(item) + " (unsupported source "@ + item.source@ + ")"@)
    } else {
        match item.slug {
            None => step.skips(items::called(item) + " (modrinth source missing slug)"@),
            Some(s) => {
                &&& step.next is AskProject
                &&& step.next->AskProject_slug@ == s@
                &&& says(step.message, "Checking "@ + s@ + "..."@, Level::Info)
            },
        }
    }
}

/// The step after the project is known: mods for clients only are left out.
pub open spec fn project_leads_to(
    slug: Seq<char>,
    reply: Reply<ModrinthProjectMeta>,
    step: ServerModStep,
) -> bool {
    match reply {
        Reply::Received(meta) => if text::opt_view(meta.server_side) == Some("unsupported"@) {
            step.skips_saying(
                slug + " (client-only)"@,
                "Skip "@ + slug + " (client-only)"@,
                Level::Info,
            )
        } else {
            &&& step.next is AskVersions
            &&& step.next->AskVersions_slug@ == slug
            &&& step.next->title@ == (match meta.title {
                Some(t) => t@,
                None => slug,
            })
            &&& step.message is None
        },
        _ => {
            let e = project_error(slug, reply)->Some_0;
            step.skips_saying(slug + " ("@ + e + ")"@, "Skip "@ + slug + ": "@ + e, Level::Warn)
        },
    }
}

/// What Modrinth offers of a mod, or what to say where it offers nothing.
pub open spec fn offered(
    slug: Seq<char>,
    mc_version: Seq<char>,
    reply: Reply<Vec<ModrinthVersion>>,
) -> Result<Option<ModrinthVersion>, Seq<char>> {
    match reply {
        Reply::Unreachable(e) => Err("modrinth versions "@ + slug + ": "@ + e@),
        Reply::Status(s) => Err("modrinth "@ + slug + ": HTTP "@ + s@),
        Reply::Unreadable(e) => Err("modrinth versions "@ + slug + " json: "@ + e@),
        Reply::Received(versions) => Ok(modrinth::best_version(versions@, mc_version)),
    }
}

/// The step after the versions are known: one for the version of the game is needed.
pub open spec fn versions_lead_to(
    slug: Seq<char>,
    title: Seq<char>,
    mc_version: Seq<char>,
    loader: Seq<char>,
    reply: Reply<Vec<ModrinthVersion>>,
    step: ServerModStep,
) -> bool {
    match offered(slug, mc_version, reply) {
        Err(e) => step.skips_saying(
            slug + " ("@ + e + ")"@,
            "Skip "@ + slug + ": "@ + e,
            Level::Warn,
        ),
        Ok(None) => step.skips_saying(
            slug + " (no version for MC "@ + mc_version + " + "@ + loader + ")"@,
            "Skip "@ + slug + " (no compatible version)"@,
            Level::Warn,
        ),
        Ok(Some(version)) => if !modrinth::supports(version, mc_version) {
            step.skips(
                slug + " "@ + version.version_number@ + " (supports "@ + items::supported(version)
                    + " not "@ + mc_version + ")"@,
            )
        } else {
            match modrinth::chosen_file(version.files@) {
                None => step.fails("no files for "@ + slug),
                Some(f) => {
                    &&& step.next is Download
                    &&& step.next->Download_slug@ == slug
                    &&& step.next->Download_url@ == f.url@
                    &&& step.next->Download_filename@ == f.filename@
                    &&& step.next->Download_line@ == title + " "@ + version.version_number@
                        + " (`"@ + f.filename@ + "`)"@
                    &&& says(step.message, "Downloading "@ + f.filename@, Level::Info)
                },
            }
        },
    }
}

/// The step from `phase` on `event`, for the mod `item`.
pub open spec fn server_mod_leads_to(
    item: ItemRef,
    mc_version: Seq<char>,
    loader: Seq<char>,
    phase: ServerModPhase,
    event: ServerModEvent,
    step: ServerModStep,
) -> bool {
    match phase {
        ServerModPhase::Begin => begin_leads_to(item, step),
        ServerModPhase::AskProject { slug } => project_leads_to(slug@, event->Project_0, step),
        ServerModPhase::AskVersions { slug, title } => versions_lead_to(
            slug@,
            title@,
            mc_version,
            loader,
            event->Versions_0,
            step,
        ),
        ServerModPhase::Download { slug, filename, line, .. } => match event->File_0 {
            Body::Unreachable(e) => step.fails("download "@ + slug@ + ": "@ + e@),
            Body::Unreadable(e) => step.fails("download "@ + slug@ + " body: "@ + e@),
            Body::Received(bytes) => {
                &&& step.next == (ServerModPhase::Included { filename, bytes, line })
                &&& step.message is None
            },
        },
        _ => false,
    }
}

/// A step without a message.
fn quietly(next: ServerModPhase) -> (step: ServerModStep)
    ensures
        step.next == next,
        step.message is None,
{
    ServerModStep { next, message: None }
}

/// The first step for a mod.
fn begin_mod(item: &ItemRef) -> (step: ServerModStep)
    ensures
        begin_leads_to(*item, step),
{
    let display = profile::ref_display_name(item.source.as_str(), &item.slug, &item.filename);
    if !text::same(item.source.as_str(), "modrinth") {
        return quietly(
            ServerModPhase::Skipped(
                text::cat4(
                    display.as_str(),
                    " (unsupported source ",
                    item.source.as_str(),
                    ")",
                ),
            ),
        );
    }
    match &item.slug {
        None => quietly(
            ServerModPhase::Skipped(
                text::cat2(display.as_str(), " (modrinth source missing slug)"),
            ),
        ),
        Some(s) => ServerModStep {
            next: ServerModPhase::AskProject { slug: s.clone() },
            message: say(text::cat3("Checking ", s.as_str(), "..."), Level::Info),
        },
    }
}

/// The step after the project is known.
fn with_project(slug: String, reply: Reply<ModrinthProjectMeta>) -> (step: ServerModStep)
    ensures
        project_leads_to(slug@, reply, step),
{
    match modrinth_project_meta(slug.as_str(), reply) {
        Err(e) => ServerModStep {
            next: ServerModPhase::Skipped(text::cat4(slug.as_str(), " (", e.as_str(), ")")),
            message: say(
                text::cat4("Skip ", slug.as_str(), ": ", e.as_str()),
                Level::Warn,
            ),
        },
        Ok(meta) => {
            match &meta.server_side {
                Some(side) => {
                    if text::same(side.as_str(), "unsupported") {
                        return ServerModStep {
                            next: ServerModPhase::Skipped(
                                text::cat2(slug.as_str(), " (client-only)"),
                            ),
                            message: say(
                                text::cat3("Skip ", slug.as_str(), " (client-only)"),
                                Level::Info,
                            ),
                        };
                    }
                },
                None => {},
            }
            let title = match meta.title {
                Some(t) => t,
                None => slug.clone(),
            };
            quietly(ServerModPhase::AskVersions { slug, title })
        },
    }
}

/// The step after the versions are known.
fn with_versions(
    slug: String,
    title: String,
    mc_version: &str,
    loader: &str,
    reply: Reply<Vec<ModrinthVersion>>,
) -> (step: ServerModStep)
    ensures
        versions_lead_to(slug@, title@, mc_version@, loader@, reply, step),
{
    match modrinth::modrinth_pick_version(slug.as_str(), mc_version, reply) {
        Err(e) => ServerModStep {
            next: ServerModPhase::Skipped(text::cat4(slug.as_str(), " (", e.as_str(), ")")),
            message: say(
                text::cat4("Skip ", slug.as_str(), ": ", e.as_str()),
                Level::Warn,
            ),
        },
        Ok(None) => ServerModStep {
            next: ServerModPhase::Skipped(
                text::cat6(
                    slug.as_str(),
                    " (no version for MC ",
                    mc_version,
                    " + ",
                    loader,
                    ")",
                ),
            ),
            message: say(
                text::cat3("Skip ", slug.as_str(), " (no compatible version)"),
                Level::Warn,
            ),
        },
        Ok(Some(version)) => {
            if !modrinth::supports_game(&version, mc_version) {
                let supports = lines::joined(&version.game_versions, ", ");
                let front = text::cat3(slug.as_str(), " ", version.version_number.as_str());
                return quietly(
                    ServerModPhase::Skipped(
                        text::cat6(
                            front.as_str(),
                            " (supports ",
                            supports.as_str(),
                            " not ",
                            mc_version,
                            ")",
                        ),
                    ),
                );
            }
            match modrinth::choose_file(&version.files) {
                None => quietly(
                    ServerModPhase::Failed(text::cat2("no files for ", slug.as_str())),
                ),
                Some(f) => {
                    let line = text::cat6(
                        title.as_str(),
                        " ",
                        version.version_number.as_str(),
                        " (`",
                        f.filename.as_str(),
                        "`)",
                    );
                    ServerModStep {
                        next: ServerModPhase::Download {
                            slug,
                            url: f.url.clone(),
                            filename: f.filename.clone(),
                            line,
                        },
                        message: say(
                            text::cat2("Downloading ", f.filename.as_str()),
                            Level::Info,
                        ),
                    }
                },
            }
        },
    }
}

/// What to do next about a mod of the profile. A mod that is for clients only, or that is
/// not to be had for the version of the game, is left out; a file that cannot be
/// downloaded ends the work.
pub fn download_server_pack(
    item: &ItemRef,
    mc_version: &str,
    loader: &str,
    phase: ServerModPhase,
    event: ServerModEvent,
) -> (step: ServerModStep)
    requires
        phase.expects(event),
    ensures
        server_mod_leads_to(*item, mc_version@, loader@, phase, event, step),
{
    match (phase, event) {
        (ServerModPhase::Begin, _) => begin_mod(item),
        (ServerModPhase::AskProject { slug }, ServerModEvent::Project(reply)) => with_project(
            slug,
            reply,
        ),
        (ServerModPhase::AskVersions { slug, title }, ServerModEvent::Versions(reply)) =>
        with_versions(slug, title, mc_version, loader, reply),
        (
            ServerModPhase::Download { slug, filename, line, .. },
            ServerModEvent::File(body),
        ) => match body {
            Body::Unreachable(e) => quietly(
                ServerModPhase::Failed(
                    text::cat4("download ", slug.as_str(), ": ", e.as_str()),
                ),
            ),
            Body::Unreadable(e) => quietly(
                ServerModPhase::Failed(
                    text::cat4("download ", slug.as_str(), " body: ", e.as_str()),
                ),
            ),
            Body::Received(bytes) => quietly(ServerModPhase::Included { filename, bytes, line }),
        },
        (other, _) => quietly(other),
    }
}

/// Every step goes forward, so that the work on a mod ends after four steps at most.
pub proof fn packing_goes_forward(
    item: ItemRef,
    mc_version: Seq<char>,
    loader: Seq<char>,
    phase: ServerModPhase,
    event: ServerModEvent,
    step: ServerModStep,
)
    requires
        phase.expects(event),
        server_mod_leads_to(item, mc_version, loader, phase, event, step),
    ensures
        phase.progress() < step.next.progress() <= 4,
{
}

/// A mod that Modrinth says servers do without never gets as far as a download.
pub proof fn client_mods_stay_out(
    item: ItemRef,
    mc_version: Seq<char>,
    loader: Seq<char>,
    slug: String,
    meta: ModrinthProjectMeta,
    step: ServerModStep,
)
    requires
        text::opt_view(meta.server_side) == Some("unsupported"@),
        server_mod_leads_to(
            item,
            mc_version,
            loader,
            (ServerModPhase::AskProject { slug }),
            ServerModEvent::Project(Reply::Received(meta)),
            step,
        ),
    ensures
        step.next is Skipped,
{
}

/// The lines of a list, each behind a hyphen.
pub open spec fn bullets(ls: Seq<Seq<char>>) -> Seq<char> {
    lines::terminated(Seq::new(ls.len(), |i: int| "- "@ + ls[i]))
}

/// The heading of the instructions.
pub open spec fn readme_heading(
    profile_name: Seq<char>,
    profile_id: Seq<char>,
    mc_version: Seq<char>,
    loader: Seq<char>,
) -> Seq<char> {
    "# "@ + profile_name + " — Server Pack\n\n"@
        + "Generated by Minecraft Mods, Easy from profile `"@ + profile_id
        + "`.\n\nMinecraft **"@ + mc_version + "** · loader **"@ + loader + "**.\n\n"@
}

/// How the server is set up.
pub open spec fn readme_install(mc_version: Seq<char>, loader: Seq<char>) -> Seq<char> {
    let start =
        "## Install\n\n1. Make a fresh folder for your server (e.g. `my-server/`).\n"@;
    if loader == "fabric"@ {
        start
            + "2. Download the Fabric server installer from <https://fabricmc.net/use/server/>.\n3. Run the installer with the matching Minecraft version, e.g.:\n   ```\n   java -jar fabric-installer-<X.Y.Z>.jar server -mcversion "@
            + mc_version
            + " -downloadMinecraft\n   ```\n   This creates `fabric-server-launch.jar` and downloads the vanilla server jar.\n4. Drop the `mods/` folder from this zip into the server folder.\n5. Edit `eula.txt`: set `eula=true` (you must accept Mojang's EULA before the server runs).\n6. Start the server: `java -jar fabric-server-launch.jar nogui`\n\n"@
    } else if loader == "neoforge"@ {
        start + "2. Download the NeoForge installer for MC "@ + mc_version
            + " — same major.minor prefix as the version your Minecraft Mods, Easy client picked. Browse releases at <https://projects.neoforged.net/neoforged/neoforge>.\n3. Run the installer in your server folder:\n   ```\n   java -jar neoforge-<version>-installer.jar --installServer .\n   ```\n4. Drop the `mods/` folder from this zip into the server folder.\n5. Edit `eula.txt`: set `eula=true` (you must accept Mojang's EULA before the server runs).\n6. Start the server using the script the installer generated (`run.sh` on Linux/macOS, `run.bat` on Windows).\n\n"@
    } else {
        start + "2. Install the "@ + loader + " server loader for MC "@ + mc_version
            + " per the loader's documentation.\n3. Drop the `mods/` folder from this zip into the server folder.\n4. Accept the EULA in `eula.txt` and start the server.\n\n"@
    }
}

/// The list of the mods in the pack.
pub open spec fn readme_included(included: Seq<Seq<char>>) -> Seq<char> {
    "## Mods included\n\n"@ + (if included.len() == 0 {
        "_None._\n\n"@
    } else {
        bullets(included) + "\n"@
    })
}

/// The list of the mods that were left out, where there are any.
pub open spec fn readme_skipped(skipped: Seq<Seq<char>>) -> Seq<char> {
    if skipped.len() == 0 {
        ""@
    } else {
        "## Skipped (client-only or unavailable)\n\n"@ + bullets(skipped) + "\n"@
    }
}

/// The instructions that go with a server pack.
pub open spec fn readme(
    profile_name: Seq<char>,
    profile_id: Seq<char>,
    mc_version: Seq<char>,
    loader: Seq<char>,
    included: Seq<Seq<char>>,
    skipped: Seq<Seq<char>>,
) -> Seq<char> {
    readme_heading(profile_name, profile_id, mc_version, loader) + readme_install(
        mc_version,
        loader,
    ) + readme_included(included) + readme_skipped(skipped)
        + "Players need a matching mod set on the **client** to join. Run the same profile in Minecraft Mods, Easy on each player's machine to get a compatible client.\n"@
}

/// The lines of a list, each behind a hyphen.
fn bulleted(ls: &Vec<String>) -> (r: String)
    ensures
        r@ == bullets(text::views(ls@)),
{
    let ghost all = text::views(ls@);
    let ghost want = Seq::new(all.len(), |i: int| "- "@ + all[i]);
    let mut v: Vec<String> = Vec::new();
    let mut i: usize = 0;
    while i < ls.len()
        invariant
            i <= ls.len(),
            all == text::views(ls@),
            want == Seq::new(all.len(), |i: int| "- "@ + all[i]),
            text::views(v@) == want.take(i as int),
        decreases ls.len() - i,
    {
        let ghost before = text::views(v@);
        v.push(text::cat2("- ", ls[i].as_str()));
        assert(text::views(v@) =~= before.push(want[i as int]));
        assert(want.take(i + 1) =~= want.take(i as int).push(want[i as int]));
        i = i + 1;
    }
    assert(text::views(v@) =~= want);
    lines::terminate(&v)
}

/// How the server is set up.
fn install_section(mc_version: &str, loader: &str) -> (r: String)
    ensures
        r@ == readme_install(mc_version@, loader@),
{
    let start = "## Install\n\n1. Make a fresh folder for your server (e.g. `my-server/`).\n";
    if text::same(loader, "fabric") {
        text::cat4(
            start,
            "2. Download the Fabric server installer from <https://fabricmc.net/use/server/>.\n3. Run the installer with the matching Minecraft version, e.g.:\n   ```\n   java -jar fabric-installer-<X.Y.Z>.jar server -mcversion ",
            mc_version,
            " -downloadMinecraft\n   ```\n   This creates `fabric-server-launch.jar` and downloads the vanilla server jar.\n4. Drop the `mods/` folder from this zip into the server folder.\n5. Edit `eula.txt`: set `eula=true` (you must accept Mojang's EULA before the server runs).\n6. Start the server: `java -jar fabric-server-launch.jar nogui`\n\n",
        )
    } else if text::same(loader, "neoforge") {
        text::cat4(
            start,
            "2. Download the NeoForge installer for MC ",
            mc_version,
            " — same major.minor prefix as the version your Minecraft Mods, Easy client picked. Browse releases at <https://projects.neoforged.net/neoforged/neoforge>.\n3. Run the installer in your server folder:\n   ```\n   java -jar neoforge-<version>-installer.jar --installServer .\n   ```\n4. Drop the `mods/` folder from this zip into the server folder.\n5. Edit `eula.txt`: set `eula=true` (you must accept Mojang's EULA before the server runs).\n6. Start the server using the script the installer generated (`run.sh` on Linux/macOS, `run.bat` on Windows).\n\n",
        )
    } else {
        text::cat6(
            start,
            "2. Install the ",
            loader,
            " server loader for MC ",
            mc_version,
            " per the loader's documentation.\n3. Drop the `mods/` folder from this zip into the server folder.\n4. Accept the EULA in `eula.txt` and start the server.\n\n",
        )
    }
}

/// The instructions that go with a server pack.
pub fn build_server_readme(
    profile_name: &str,
    profile_id: &str,
    mc_version: &str,
    loader: &str,
    included: &Vec<String>,
    skipped: &Vec<String>,
) -> (r: String)
    ensures
        r@ == readme(
            profile_name@,
            profile_id@,
            mc_version@,
            loader@,
            text::views(included@),
            text::views(skipped@),
        ),
{
    let title = text::cat5(
        "# ",
        profile_name,
        " — Server Pack\n\n",
        "Generated by Minecraft Mods, Easy from profile `",
        profile_id,
    );
    let heading = text::cat6(
        title.as_str(),
        "`.\n\nMinecraft **",
        mc_version,
        "** · loader **",
        loader,
        "**.\n\n",
    );
    let install = install_section(mc_version, loader);
    let inside = if included.len() == 0 {
        text::cat2("## Mods included\n\n", "_None._\n\n")
    } else {
        let list = bulleted(included);
        let ended = text::cat2(list.as_str(), "\n");
        text::cat2("## Mods included\n\n", ended.as_str())
    };
    let outside = if skipped.len() == 0 {
        "".to_owned()
    } else {
        let list = bulleted(skipped);
        text::cat3("## Skipped (client-only or unavailable)\n\n", list.as_str(), "\n")
    };
    text::cat5(
        heading.as_str(),
        install.as_str(),
        inside.as_str(),
        outside.as_str(),
        "Players need a matching mod set on the **client** to join. Run the same profile in Minecraft Mods, Easy on each player's machine to get a compatible client.\n",
    )
}

/// The names of what is in the archive of a server pack, in order: the instructions, the
/// folder of mods, which is there even if it stays empty, and the mods.
pub open spec fn archive_names(filenames: Seq<Seq<char>>) -> Seq<Seq<char>> {
    seq!["README.md"@, "mods/"@] + Seq::new(filenames.len(), |i: int| "mods/"@ + filenames[i])
}

/// The names of what is in the archive of a server pack, in order.
pub fn archive_entries(filenames: &Vec<String>) -> (r: Vec<String>)
    ensures
        text::views(r@) == archive_names(text::views(filenames@)),
{
    let ghost all = text::views(filenames@);
    let ghost want = archive_names(all);
    let mut r: Vec<String> = Vec::new();
    r.push("README.md".to_owned());
    r.push("mods/".to_owned());
    let mut i: usize = 0;
    assert(text::views(r@) =~= want.take(2));
    while i < filenames.len()
        invariant
            i <= filenames.len(),
            all == text::views(filenames@),
            want == archive_names(all),
            text::views(r@) == want.take(2 + i),
        decreases filenames.len() - i,
    {
        let ghost before = text::views(r@);
        r.push(text::cat2("mods/", filenames[i].as_str()));
        assert(text::views(r@) =~= before.push(want[2 + i]));
        assert(want.take(2 + i + 1) =~= want.take(2 + i).push(want[2 + i]));
        i = i + 1;
    }
    assert(text::views(r@) =~= want);
    r
}

/// What to say before the archive is written.
pub fn writing_zip(target: &str) -> (r: Vec<Progress>)
    ensures
        said(r@) == seq![("Writing zip to "@ + target@, Level::Info)],
{
    one(text::cat2("Writing zip to ", target), Level::Info)
}

/// What is reported of a server pack.
#[derive(Debug)]
pub struct ServerPackReport {
    pub profile_name: String,
    pub minecraft_version: String,
    pub loader: String,
    pub output_path: String,
    pub mods_included: u32,
    pub skipped: Vec<String>,
}

/// What to say when the archive was written.
pub fn zip_written(count: u32, target: &str) -> (r: Vec<Progress>)
    ensures
        said(r@) == seq![
            (
                "Wrote "@ + decimal::decimal(count as nat) + " mod"@ + (if count == 1 {
                    ""@
                } else {
                    "s"@
                }) + " to "@ + target@,
                Level::Done,
            ),
        ],
{
    let digits = decimal::decimal_of(count as u64);
    let plural = if count == 1 {
        ""
    } else {
        "s"
    };
    one(
        text::cat6("Wrote ", digits.as_str(), " mod", plural, " to ", target),
        Level::Done,
    )
}

/// What a server pack holds so far: the files, a line for each in the instructions, and why
/// the other mods were left out.
#[derive(Debug)]
pub struct PackContents {
    pub files: Vec<PackedFile>,
    pub included: Vec<String>,
    pub skipped: Vec<String>,
}

/// A file in a server pack.
#[derive(Debug)]
pub struct PackedFile {
    pub filename: String,
    pub bytes: Vec<u8>,
}

impl PackContents {
    /// Whether `n` mods were dealt with: each is in the pack, with a line in the
    /// instructions, or was left out for a reason.
    pub open spec fn accounts_for(self, n: nat) -> bool {
        self.included.len() == self.files.len() && self.files.len() + self.skipped.len() == n
    }

    /// A pack with nothing in it.
    pub fn empty() -> (r: PackContents)
        ensures
            r.accounts_for(0),
    {
        PackContents { files: Vec::new(), included: Vec::new(), skipped: Vec::new() }
    }

    /// Takes in what came of a mod.
    pub fn take_in(&mut self, end: ServerModPhase)
        requires
            end is Included || end is Skipped,
        ensures
            forall|n: nat|
                #![trigger old(self).accounts_for(n)]
                old(self).accounts_for(n) ==> final(self).accounts_for(n + 1),
            match end {
                ServerModPhase::Included { filename, bytes, line } => {
                    &&& final(self).files@ == old(self).files@.push(
                        (PackedFile { filename, bytes }),
                    )
                    &&& final(self).included@ == old(self).included@.push(line)
                    &&& final(self).skipped@ == old(self).skipped@
                },
                ServerModPhase::Skipped(reason) => {
                    &&& final(self).files@ == old(self).files@
                    &&& final(self).included@ == old(self).included@
                    &&& final(self).skipped@ == old(self).skipped@.push(reason)
                },
                _ => true,
            },
    {
        match end {
            ServerModPhase::Included { filename, bytes, line } => {
                self.files.push(PackedFile { filename, bytes });
                self.included.push(line);
            },
            ServerModPhase::Skipped(reason) => {
                self.skipped.push(reason);
            },
            _ => {},
        }
    }

    /// The names of the files, in order.
    pub fn filenames(&self) -> (r: Vec<String>)
        ensures
            r.len() == self.files.len(),
            forall|i: int| 0 <= i < r.len() ==> (#[trigger] r@[i])@ == self.files@[i].filename@,
    {
        let mut r: Vec<String> = Vec::new();
        let mut i: usize = 0;
        while i < self.files.len()
            invariant
                i <= self.files.len(),
                r.len() == i,
                forall|j: int| 0 <= j < i ==> (#[trigger] r@[j])@ == self.files@[j].filename@,
            decreases self.files.len() - i,
        {
            r.push(self.files[i].filename.clone());
            i = i + 1;
        }
        r
    }
}

/// The report of a server pack: every mod of the profile is counted as included or named
/// among those left out.
pub fn server_pack_report(
    plan: &ServerPackPlan,
    mc_version: &str,
    output_path: &str,
    contents: PackContents,
) -> (r: ServerPackReport)
    requires
        contents.accounts_for(plan.profile.mods.len() as nat),
    ensures
        r.profile_name@ == plan.profile.name@,
        r.minecraft_version@ == mc_version@,
        r.loader@ == plan.loader@,
        r.output_path@ == output_path@,
        r.mods_included == contents.files.len() as u32,
        r.skipped@ == contents.skipped@,
        plan.profile.mods.len() <= u32::MAX ==> r.mods_included + r.skipped.len()
            == plan.profile.mods.len(),
{
    ServerPackReport {
        profile_name: plan.profile.name.clone(),
        minecraft_version: mc_version.to_owned(),
        loader: plan.loader.clone(),
        output_path: output_path.to_owned(),
        mods_included: #[verifier::truncate]
        (contents.files.len() as u32),
        skipped: contents.skipped,
    }
}

/// A server pack is made of a profile exactly where the profile is no modpack, names a loader
/// that servers can have and a version of the game, and a place for the pack was chosen.
pub proof fn packs_are_for_the_two_loaders(
    p: Profile,
    target_path: Seq<char>,
    r: Result<ServerPackPlan, String>,
)
    requires
        server_pack_planned(p, target_path, r),
    ensures
        r is Ok <==> p.modpack is None && p.loader is Some && (p.loader->Some_0@ == "fabric"@
            || p.loader->Some_0@ == "neoforge"@) && target_path.len() > 0 && p.minecraft_version
            is Some,
        r is Ok ==> r->Ok_0.profile == p && r->Ok_0.loader@ == p.loader->Some_0@
            && r->Ok_0.version.named(p.minecraft_version->Some_0@),
{
}

/// A mod is in the pack as the newest version that names the version of the game and supports
/// it: what was downloaded from where the first primary file of that version lies, under the
/// name of that file, with a line that tells the title of the project, the version and the
/// file.
pub proof fn newest_fitting_version_is_packed(
    item: ItemRef,
    mc_version: Seq<char>,
    loader: Seq<char>,
    meta: ModrinthProjectMeta,
    versions: Vec<ModrinthVersion>,
    k: int,
    f: int,
    bytes: Vec<u8>,
    asked: ServerModStep,
    known: ServerModStep,
    fetching: ServerModStep,
    done: ServerModStep,
)
    requires
        item.source@ == "modrinth"@,
        item.slug is Some,
        meta.server_side is None || meta.server_side->Some_0@ != "unsupported"@,
        0 <= k < versions.len(),
        modrinth::names_version(versions@[k].version_number@, mc_version),
        forall|j: int|
            0 <= j < k ==> !modrinth::names_version(
                (#[trigger] versions@[j]).version_number@,
                mc_version,
            ),
        text::views(versions@[k].game_versions@).contains(mc_version),
        0 <= f < versions@[k].files.len(),
        versions@[k].files@[f].primary,
        forall|j: int| 0 <= j < f ==> !(#[trigger] versions@[k].files@[j]).primary,
        server_mod_leads_to(
            item,
            mc_version,
            loader,
            ServerModPhase::Begin,
            ServerModEvent::Begun,
            asked,
        ),
        server_mod_leads_to(
            item,
            mc_version,
            loader,
            asked.next,
            ServerModEvent::Project(Reply::Received(meta)),
            known,
        ),
        server_mod_leads_to(
            item,
            mc_version,
            loader,
            known.next,
            ServerModEvent::Versions(Reply::Received(versions)),
            fetching,
        ),
        server_mod_leads_to(
            item,
            mc_version,
            loader,
            fetching.next,
            ServerModEvent::File(Body::Received(bytes)),
            done,
        ),
    ensures
        asked.next is AskProject,
        asked.next->AskProject_slug@ == item.slug->Some_0@,
        known.next is AskVersions,
        known.next->AskVersions_slug@ == item.slug->Some_0@,
        fetching.next is Download,
        fetching.next->Download_url@ == versions@[k].files@[f].url@,
        done.next is Included,
        done.next->Included_filename@ == versions@[k].files@[f].filename@,
        done.next->bytes == bytes,
        done.next->Included_line@ == (match meta.title {
            Some(t) => t@,
            None => item.slug->Some_0@,
        }) + " "@ + versions@[k].version_number@ + " (`"@ + versions@[k].files@[f].filename@
            + "`)"@,
{
    modrinth::newest_that_names_the_game_is_taken(versions@, mc_version, k);
    modrinth::first_primary_file_is_taken(versions@[k].files@, f);
}

/// A mod is left out before anything is downloaded where it is not from Modrinth, where
/// Modrinth could not be asked about it, and where it is not to be had for the version of the
/// game. The pack fails over nothing but a version without files and a file that could not be
/// downloaded.
pub proof fn packs_do_without_missing_mods(
    item: ItemRef,
    mc_version: Seq<char>,
    loader: Seq<char>,
    phase: ServerModPhase,
    event: ServerModEvent,
    step: ServerModStep,
)
    requires
        phase.expects(event),
        server_mod_leads_to(item, mc_version, loader, phase, event, step),
    ensures
        phase is Begin ==> (step.next is AskProject <==> item.source@ == "modrinth"@ && item.slug
            is Some) && (step.next is AskProject || step.next is Skipped),
        phase is AskProject && !(event->Project_0 is Received) ==> step.next is Skipped,
        phase is AskVersions && !(event->Versions_0 is Received) ==> step.next is Skipped,
        phase is AskVersions && event->Versions_0 is Received
            && event->Versions_0->Received_0.len() == 0 ==> step.next is Skipped,
        phase is Download && !(event->File_0 is Received) ==> step.next is Failed,
        step.next is Failed ==> phase is AskVersions || phase is Download
            && !(event->File_0 is Received),
{
    if phase is AskVersions && event->Versions_0 is Received {
        modrinth::newest_that_names_the_game_is_taken(
            event->Versions_0->Received_0@,
            mc_version,
            0,
        );
    }
}

/// The instructions list every mod of the pack and every one that was left out, each on a
/// line of its own behind a hyphen, in order.
pub proof fn lists_name_every_mod(ls: Seq<Seq<char>>, i: int)
    requires
        forall|j: int| 0 <= j < ls.len() ==> lines::clean_line(#[trigger] ls[j]),
        0 <= i < ls.len(),
    ensures
        lines::lines(bullets(ls)).len() == ls.len(),
        lines::lines(bullets(ls))[i] == "- "@ + ls[i],
{
    reveal_strlit("- ");
    let all = Seq::new(ls.len(), |j: int| "- "@ + ls[j]);
    assert forall|j: int| 0 <= j < all.len() implies lines::one_line(#[trigger] all[j])
        && lines::strip_cr(all[j]) == all[j] by {
        let l = ls[j];
        assert(lines::clean_line(l));
        if all[j].contains('\n') {
            let c = choose|c: int| 0 <= c < all[j].len() && all[j][c] == '\n';
            assert(l[c - 2] == '\n');
        }
        if l.len() > 0 {
            assert(all[j].last() == l.last());
        } else {
            assert(all[j].last() == ' ');
        }
    }
    lines::lemma_lines_terminated(all);
    assert(lines::stripped(all) =~= all);
}

/// The archive holds the instructions, the folder of mods, and in that folder each file of the
/// pack, in order and nothing else.
pub proof fn archive_holds_every_file(filenames: Seq<Seq<char>>, i: int)
    requires
        0 <= i < filenames.len(),
    ensures
        archive_names(filenames).len() == filenames.len() + 2,
        archive_names(filenames)[0] == "README.md"@,
        archive_names(filenames)[1] == "mods/"@,
        archive_names(filenames)[i + 2] == "mods/"@ + filenames[i],
{
}

/// A server pack is that of the first profile with the name that was asked for, and of no
/// other.
pub proof fn pack_is_of_the_first_profile_of_the_name(
    profiles: Seq<Profile>,
    profile_id: Seq<char>,
    target_path: Seq<char>,
    r: Result<ServerPackPlan, String>,
    i: int,
)
    requires
        server_pack_chosen(profiles, profile_id, target_path, r),
    ensures
        r is Ok ==> r->Ok_0.profile.id@ == profile_id && profiles.contains(r->Ok_0.profile),
        0 <= i < profiles.len() && profiles[i].id@ == profile_id && (forall|j: int|
            0 <= j < i ==> (#[trigger] profiles[j]).id@ != profile_id) && r is Ok
            ==> r->Ok_0.profile == profiles[i],
        (forall|j: int| 0 <= j < profiles.len() ==> (#[trigger] profiles[j]).id@ != profile_id)
            ==> r is Err,
{
    profile::lemma_profile_index(profiles, profile_id);
    let k = profile::profile_index(profiles, profile_id);
    if 0 <= i < profiles.len() && profiles[i].id@ == profile_id && (forall|j: int|
        0 <= j < i ==> (#[trigger] profiles[j]).id@ != profile_id) {
        if k < i {
            assert(profiles[k].id@ != profile_id);
        }
        if i < k {
            assert(profiles[i].id@ != profile_id);
        }
    }
}

/// The instructions tell the version of the game and the loader, how that loader's server is
/// set up, and which mods are in the pack and which were left out.
pub proof fn instructions_tell_the_pack(
    profile_name: Seq<char>,
    profile_id: Seq<char>,
    mc_version: Seq<char>,
    loader: Seq<char>,
    included: Seq<Seq<char>>,
    skipped: Seq<Seq<char>>,
)
    ensures
        ({
            let r = readme(profile_name, profile_id, mc_version, loader, included, skipped);
            &&& text::contains(
                r,
                "`.\n\nMinecraft **"@ + mc_version + "** · loader **"@ + loader + "**.\n\n"@,
            )
            &&& text::contains(r, readme_install(mc_version, loader))
            &&& included.len() > 0 ==> text::contains(
                r,
                "## Mods included\n\n"@ + bullets(included),
            )
            &&& skipped.len() > 0 ==> text::contains(
                r,
                "## Skipped (client-only or unavailable)\n\n"@ + bullets(skipped),
            )
        }),
{
    let r = readme(profile_name, profile_id, mc_version, loader, included, skipped);
    let head = "# "@ + profile_name + " — Server Pack\n\n"@
        + "Generated by Minecraft Mods, Easy from profile `"@ + profile_id;
    let line = "`.\n\nMinecraft **"@ + mc_version + "** · loader **"@ + loader + "**.\n\n"@;
    let heading = readme_heading(profile_name, profile_id, mc_version, loader);
    let install = readme_install(mc_version, loader);
    let inside = readme_included(included);
    let outside = readme_skipped(skipped);
    let end =
        "Players need a matching mod set on the **client** to join. Run the same profile in Minecraft Mods, Easy on each player's machine to get a compatible client.\n"@;
    assert(heading =~= head + line);
    assert(r == heading + install + inside + outside + end);
    lemma_piece(head, line, install + inside + outside + end, r);
    lemma_piece(heading, install, inside + outside + end, r);
    if included.len() > 0 {
        let list = "## Mods included\n\n"@ + bullets(included);
        assert(inside =~= list + "\n"@);
        lemma_piece(heading + install, list, "\n"@ + outside + end, r);
    }
    if skipped.len() > 0 {
        let list = "## Skipped (client-only or unavailable)\n\n"@ + bullets(skipped);
        lemma_piece(heading + install + inside, list, "\n"@ + end, r);
    }
}

/// What stands between two pieces of a text stands in the text.
proof fn lemma_piece(front: Seq<char>, piece: Seq<char>, rest: Seq<char>, whole: Seq<char>)
    requires
        whole =~= front + piece + rest,
    ensures
        text::contains(whole, piece),
{
    let n = front.len() as int;
    assert(whole.subrange(n, n + piece.len()) =~= piece);
    assert(text::occurs_at(whole, piece, n));
}

/// How a server is set up is told for the loader that it has and for the version of the game:
/// with the installer of Fabric, with that of NeoForge, or with what any other loader has.
pub proof fn setup_is_that_of_the_loader(mc_version: Seq<char>, other: Seq<char>)
    requires
        other != "fabric"@,
        other != "neoforge"@,
    ensures
        text::contains(
            readme_install(mc_version, "fabric"@),
            "fabric-installer-<X.Y.Z>.jar server -mcversion "@ + mc_version,
        ),
        text::contains(
            readme_install(mc_version, "neoforge"@),
            "NeoForge installer for MC "@ + mc_version,
        ),
        text::contains(
            readme_install(mc_version, other),
            "Install the "@ + other + " server loader for MC "@ + mc_version,
        ),
{
    reveal_strlit("fabric");
    reveal_strlit("neoforge");
    assert("fabric"@.len() == 6 && "neoforge"@.len() == 8);
    let start =
        "## Install\n\n1. Make a fresh folder for your server (e.g. `my-server/`).\n"@;
    reveal_strlit(
        "2. Download the Fabric server installer from <https://fabricmc.net/use/server/>.\n3. Run the installer with the matching Minecraft version, e.g.:\n   ```\n   java -jar fabric-installer-<X.Y.Z>.jar server -mcversion ",
    );
    reveal_strlit("fabric-installer-<X.Y.Z>.jar server -mcversion ");
    let f =
        "2. Download the Fabric server installer from <https://fabricmc.net/use/server/>.\n3. Run the installer with the matching Minecraft version, e.g.:\n   ```\n   java -jar fabric-installer-<X.Y.Z>.jar server -mcversion "@;
    let f_end = "fabric-installer-<X.Y.Z>.jar server -mcversion "@;
    let f_front = f.take(f.len() - f_end.len());
    assert(f =~= f_front + f_end);
    let f_rest =
        " -downloadMinecraft\n   ```\n   This creates `fabric-server-launch.jar` and downloads the vanilla server jar.\n4. Drop the `mods/` folder from this zip into the server folder.\n5. Edit `eula.txt`: set `eula=true` (you must accept Mojang's EULA before the server runs).\n6. Start the server: `java -jar fabric-server-launch.jar nogui`\n\n"@;
    lemma_piece(
        start + f_front,
        f_end + mc_version,
        f_rest,
        readme_install(mc_version, "fabric"@),
    );
    reveal_strlit("2. Download the NeoForge installer for MC ");
    reveal_strlit("NeoForge installer for MC ");
    let n = "2. Download the NeoForge installer for MC "@;
    let n_end = "NeoForge installer for MC "@;
    let n_front = n.take(n.len() - n_end.len());
    assert(n =~= n_front + n_end);
    let n_rest = readme_install(mc_version, "neoforge"@).skip(
        (start.len() + n.len() + mc_version.len()) as int,
    );
    lemma_piece(
        start + n_front,
        n_end + mc_version,
        n_rest,
        readme_install(mc_version, "neoforge"@),
    );
    reveal_strlit("2. Install the ");
    reveal_strlit("Install the ");
    let o = "2. Install the "@;
    let o_front = o.take(3);
    assert(o =~= o_front + "Install the "@);
    let o_rest =
        " per the loader's documentation.\n3. Drop the `mods/` folder from this zip into the server folder.\n4. Accept the EULA in `eula.txt` and start the server.\n\n"@;
    lemma_piece(
        start + o_front,
        "Install the "@ + other + " server loader for MC "@ + mc_version,
        o_rest,
        readme_install(mc_version, other),
    );
}

} // verus!
