//! The installation of the NeoForge loader, whose own installer runs on Java.
use vstd::prelude::*;

use crate::loader;
use crate::loader::VersionFolder;
use crate::profile::{one, said, silence, two, Level, Progress};
use crate::text;
use crate::web;
use crate::web::Body;

verus! {

/// What is being done to install NeoForge, and how it ends.
#[derive(Debug)]
pub enum NeoForgePhase {
    /// Look for Java.
    FindJava,
    /// Ask for the list of versions; those for the game begin with `prefix`.
    ListVersions { prefix: String },
    /// Make the folder for the installer.
    MakeFolder { version: String },
    /// Download the installer.
    Download { version: String },
    /// Write a launcher profile file without profiles where there is none.
    EnsureProfiles { version: String },
    /// Run the installer.
    Run { version: String },
    /// Remove the installer, and look where it put the version.
    FindInstalled { version: String },
    /// The version is installed under the name `version_id`.
    Installed { version: String, version_id: String },
    /// It could not be installed.
    Failed(String),
}

/// How the installer ended, and what it wrote.
#[derive(Debug)]
pub struct RunOutput {
    pub success: bool,
    pub code: Option<i32>,
    pub stdout: String,
    pub stderr: String,
}

/// What came of what was being done.
#[derive(Debug)]
pub enum NeoForgeEvent {
    /// The path of Java, where it was found.
    Java(Option<String>),
    /// The list of versions.
    Versions(Body),
    /// Whether it was done, or why not.
    Done(Result<(), String>),
    /// How the installer ended, or why it did not run.
    Ran(Result<RunOutput, String>),
    /// Whether the description of the version is in the usual place, and the folders of
    /// the installed versions.
    Folders { usual: bool, folders: Vec<VersionFolder> },
}

/// What to tell the user, and what to do next.
#[derive(Debug)]
pub struct NeoForgeStep {
    pub next: NeoForgePhase,
    pub messages: Vec<Progress>,
}

impl NeoForgePhase {
    /// Whether the event is one that this phase leads to.
    pub open spec fn expects(self, event: NeoForgeEvent) -> bool {
        match self {
            NeoForgePhase::FindJava => event is Java,
            NeoForgePhase::ListVersions { .. } => event is Versions,
            NeoForgePhase::MakeFolder { .. } | NeoForgePhase::Download { .. }
            | NeoForgePhase::EnsureProfiles { .. } => event is Done,
            NeoForgePhase::Run { .. } => event is Ran,
            NeoForgePhase::FindInstalled { .. } => event is Folders,
            NeoForgePhase::Installed { .. } | NeoForgePhase::Failed(_) => false,
        }
    }

    /// The version that is being installed, once it is known.
    pub open spec fn version_in_hand(self) -> Option<Seq<char>> {
        match self {
            NeoForgePhase::MakeFolder { version } | NeoForgePhase::Download { version }
            | NeoForgePhase::EnsureProfiles { version } | NeoForgePhase::Run { version }
            | NeoForgePhase::FindInstalled { version }
            | NeoForgePhase::Installed { version, .. } => Some(version@),
            _ => None,
        }
    }

    /// How far the work is.
    pub open spec fn progress(self) -> int {
        match self {
            NeoForgePhase::FindJava => 0,
            NeoForgePhase::ListVersions { .. } => 1,
            NeoForgePhase::MakeFolder { .. } => 2,
            NeoForgePhase::Download { .. } => 3,
            NeoForgePhase::EnsureProfiles { .. } => 4,
            NeoForgePhase::Run { .. } => 5,
            NeoForgePhase::FindInstalled { .. } => 6,
            NeoForgePhase::Installed { .. } | NeoForgePhase::Failed(_) => 7,
        }
    }
}

impl NeoForgeStep {
    /// Whether the step ends the work with the message `e`.
    pub open spec fn fails(self, e: Seq<char>) -> bool {
        self.next is Failed && self.next->Failed_0@ == e
    }
}

/// The step from `phase` on `event`. `pinned` is the version that a modpack demands.
pub open spec fn neoforge_leads_to(
    mc_version: Seq<char>,
    pinned: Option<Seq<char>>,
    phase: NeoForgePhase,
    event: NeoForgeEvent,
    step: NeoForgeStep,
) -> bool {
    let messages = said(step.messages@);
    let quiet = messages == Seq::<(Seq<char>, Level)>::empty();
    match phase {
        NeoForgePhase::FindJava => match event->Java_0 {
            None => quiet && step.fails(
                "Couldn't find Java. Open the Minecraft launcher once so it installs its bundled Java runtime, then try again. (NeoForge requires Java to run its installer.)"@,
            ),
            Some(java) => match pinned {
                Some(v) => {
                    &&& messages == seq![
                        ("Java: "@ + java@, Level::Info),
                        ("NeoForge "@ + v + " (from modpack manifest)"@, Level::Done),
                    ]
                    &&& step.next matches NeoForgePhase::MakeFolder { version } && version@ == v
                },
                None => {
                    &&& messages == seq![
                        ("Java: "@ + java@, Level::Info),
                        ("Resolving NeoForge version..."@, Level::Info),
                    ]
                    &&& match loader::neoforge_prefix(mc_version) {
                        Some(p) => step.next matches NeoForgePhase::ListVersions { prefix }
                            && prefix@ == p,
                        None => step.fails(
                            "Can't map MC "@ + mc_version + " to a NeoForge version"@,
                        ),
                    }
                },
            },
        },
        NeoForgePhase::ListVersions { prefix } => match picked(
            mc_version,
            prefix@,
            event->Versions_0,
        ) {
            Ok(v) => {
                &&& messages == seq![("NeoForge "@ + v, Level::Done)]
                &&& step.next matches NeoForgePhase::MakeFolder { version } && version@ == v
            },
            Err(e) => quiet && step.fails(e),
        },
        NeoForgePhase::MakeFolder { version } => match event->Done_0 {
            Ok(_) => {
                &&& messages == seq![("Downloading NeoForge installer..."@, Level::Info)]
                &&& step.next == (NeoForgePhase::Download { version })
            },
            Err(e) => quiet && step.fails(e@),
        },
        NeoForgePhase::Download { version } => match event->Done_0 {
            Ok(_) => quiet && step.next == (NeoForgePhase::EnsureProfiles { version }),
            Err(e) => quiet && step.fails(e@),
        },
        NeoForgePhase::EnsureProfiles { version } => match event->Done_0 {
            Ok(_) => {
                &&& messages == seq![
                    ("Running NeoForge installer (this can take a minute)..."@, Level::Info),
                ]
                &&& step.next == (NeoForgePhase::Run { version })
            },
            Err(e) => quiet && step.fails(e@),
        },
        NeoForgePhase::Run { version } => quiet && match event->Ran_0 {
            Ok(out) => if out.success {
                step.next == (NeoForgePhase::FindInstalled { version })
            } else {
                step.fails(
                    "NeoForge installer failed (exit "@ + loader::shown_code(out.code)
                        + ").\nstdout (tail):\n"@ + loader::tail(out.stdout@)
                        + "\nstderr (tail):\n"@ + loader::tail(out.stderr@),
                )
            },
            Err(e) => step.fails(e@),
        },
        NeoForgePhase::FindInstalled { version } => quiet && match installed_name(
            version@,
            event->usual,
            event->folders@,
        ) {
            Some(id) => step.next matches NeoForgePhase::Installed { version: v, version_id } && v
                == version && version_id@ == id,
            None => step.fails(
                "NeoForge installer ran but no versions/* entry was created for "@ + version@,
            ),
        },
        NeoForgePhase::Installed { .. } | NeoForgePhase::Failed(_) => false,
    }
}

/// The version to take from the list of versions, or what to say where there is none.
pub open spec fn picked(mc_version: Seq<char>, prefix: Seq<char>, body: Body) -> Result<
    Seq<char>,
    Seq<char>,
> {
    match web::document_in("neoforge versions"@, body) {
        Err(e) => Err(e),
        Ok(m) => match m.field("versions"@) {
            Some(crate::json::JsonModel::Array(items)) => match loader::neoforge_choice(
                crate::json::texts_among(items),
                prefix,
            ) {
                Some(v) => Ok(v),
                None => Err("No NeoForge release for MC "@ + mc_version),
            },
            _ => Err("neoforge versions response missing 'versions' array"@),
        },
    }
}

/// The name under which a version was installed.
pub open spec fn installed_name(
    version: Seq<char>,
    usual: bool,
    folders: Seq<VersionFolder>,
) -> Option<Seq<char>> {
    if usual {
        Some("neoforge-"@ + version)
    } else {
        loader::first_neoforge(folders, version)
    }
}

/// The end of the work with a message.
fn fail(e: String) -> (step: NeoForgeStep)
    ensures
        step.fails(e@),
        said(step.messages@) == Seq::<(Seq<char>, Level)>::empty(),
{
    NeoForgeStep { next: NeoForgePhase::Failed(e), messages: silence() }
}

/// The first step: Java is there or not, and the version is known or asked for.
fn with_java(mc_version: &str, pinned: Option<&str>, java: Option<String>) -> (step: NeoForgeStep)
    ensures
        neoforge_leads_to(
            mc_version@,
            text::opt_str_view(pinned),
            NeoForgePhase::FindJava,
            NeoForgeEvent::Java(java),
            step,
        ),
{
    match java {
        None => fail(
            "Couldn't find Java. Open the Minecraft launcher once so it installs its bundled Java runtime, then try again. (NeoForge requires Java to run its installer.)".to_owned(),
        ),
        Some(path) => {
            let found = text::cat2("Java: ", path.as_str());
            match pinned {
                Some(v) => NeoForgeStep {
                    next: NeoForgePhase::MakeFolder { version: v.to_owned() },
                    messages: two(
                        found,
                        Level::Info,
                        text::cat3("NeoForge ", v, " (from modpack manifest)"),
                        Level::Done,
                    ),
                },
                None => {
                    let messages = two(
                        found,
                        Level::Info,
                        "Resolving NeoForge version...".to_owned(),
                        Level::Info,
                    );
                    match loader::neoforge_family(mc_version) {
                        Ok(prefix) => NeoForgeStep {
                            next: NeoForgePhase::ListVersions { prefix },
                            messages,
                        },
                        Err(e) => NeoForgeStep { next: NeoForgePhase::Failed(e), messages },
                    }
                },
            }
        },
    }
}

/// What to do next to install NeoForge for a version of the game. Without a version that
/// is `pinned` the newest one for the game is taken, and a preview only where there is
/// nothing else.
pub fn install_neoforge(
    mc_version: &str,
    pinned: Option<&str>,
    phase: NeoForgePhase,
    event: NeoForgeEvent,
) -> (step: NeoForgeStep)
    requires
        phase.expects(event),
    ensures
        neoforge_leads_to(mc_version@, text::opt_str_view(pinned), phase, event, step),
{
    match (phase, event) {
        (NeoForgePhase::FindJava, NeoForgeEvent::Java(java)) => with_java(
            mc_version,
            pinned,
            java,
        ),
        (NeoForgePhase::ListVersions { prefix }, NeoForgeEvent::Versions(body)) => {
            match loader::neoforge_pick_version(mc_version, prefix.as_str(), body) {
                Ok(version) => {
                    let messages = one(text::cat2("NeoForge ", version.as_str()), Level::Done);
                    NeoForgeStep { next: NeoForgePhase::MakeFolder { version }, messages }
                },
                Err(e) => fail(e),
            }
        },
        (NeoForgePhase::MakeFolder { version }, NeoForgeEvent::Done(Ok(_))) => NeoForgeStep {
            next: NeoForgePhase::Download { version },
            messages: one("Downloading NeoForge installer...".to_owned(), Level::Info),
        },
        (NeoForgePhase::Download { version }, NeoForgeEvent::Done(Ok(_))) => NeoForgeStep {
            next: NeoForgePhase::EnsureProfiles { version },
            messages: silence(),
        },
        (NeoForgePhase::EnsureProfiles { version }, NeoForgeEvent::Done(Ok(_))) => NeoForgeStep {
            next: NeoForgePhase::Run { version },
            messages: one(
                "Running NeoForge installer (this can take a minute)...".to_owned(),
                Level::Info,
            ),
        },
        (_, NeoForgeEvent::Done(Err(e))) => fail(e),
        (NeoForgePhase::Run { version }, NeoForgeEvent::Ran(Ok(out))) => {
            if out.success {
                NeoForgeStep {
                    next: NeoForgePhase::FindInstalled { version },
                    messages: silence(),
                }
            } else {
                fail(
                    loader::installer_failure(out.code, out.stdout.as_str(), out.stderr.as_str()),
                )
            }
        },
        (NeoForgePhase::Run { .. }, NeoForgeEvent::Ran(Err(e))) => fail(e),
        (NeoForgePhase::FindInstalled { version }, NeoForgeEvent::Folders { usual, folders }) => {
            match loader::find_neoforge_version_id(version.as_str(), usual, &folders) {
                Some(version_id) => NeoForgeStep {
                    next: NeoForgePhase::Installed { version, version_id },
                    messages: silence(),
                },
                None => fail(
                    text::cat2(
                        "NeoForge installer ran but no versions/* entry was created for ",
                        version.as_str(),
                    ),
                ),
            }
        },
        (other, _) => NeoForgeStep { next: other, messages: silence() },
    }
}

/// A version that a modpack demands is the one that is installed, from the first step to
/// the last.
pub proof fn pinned_version_is_kept(
    mc_version: Seq<char>,
    pinned: Seq<char>,
    phase: NeoForgePhase,
    event: NeoForgeEvent,
    step: NeoForgeStep,
)
    requires
        phase.expects(event),
        phase !is ListVersions,
        phase.version_in_hand() is Some ==> phase.version_in_hand() == Some(pinned),
        neoforge_leads_to(mc_version, Some(pinned), phase, event, step),
    ensures
        step.next !is ListVersions,
        step.next.version_in_hand() is Some ==> step.next.version_in_hand() == Some(pinned),
{
}

/// Every step goes forward, so that the work ends after seven steps at most.
pub proof fn installing_goes_forward(
    mc_version: Seq<char>,
    pinned: Option<Seq<char>>,
    phase: NeoForgePhase,
    event: NeoForgeEvent,
    step: NeoForgeStep,
)
    requires
        phase.expects(event),
        neoforge_leads_to(mc_version, pinned, phase, event, step),
    ensures
        phase.progress() < step.next.progress() <= 7,
{
}

/// The version that is installed without one that is pinned is the last stable one for the
/// game in the list that was received, which has the newest last: behind it stand only
/// previews for the game, and versions for other ones.
pub proof fn newest_stable_release_is_installed(
    mc_version: Seq<char>,
    prefix: String,
    bytes: Vec<u8>,
    members: Seq<(Seq<char>, crate::json::JsonModel)>,
    items: Seq<crate::json::JsonModel>,
    k: int,
    step: NeoForgeStep,
)
    requires
        crate::json::json_read(bytes@) == Ok::<crate::json::JsonModel, Seq<char>>(
            crate::json::JsonModel::Object(members),
        ),
        crate::json::has_member(
            members,
            "versions"@,
            crate::json::JsonModel::Array(items),
        ),
        forall|i: int| 0 <= i < items.len() ==> (#[trigger] items[i]) is Text,
        0 <= k < items.len(),
        text::starts_with(items[k]->Text_0, prefix@),
        loader::is_stable(items[k]->Text_0),
        forall|i: int|
            k < i < items.len() && text::starts_with((#[trigger] items[i])->Text_0, prefix@)
                ==> !loader::is_stable(items[i]->Text_0),
        neoforge_leads_to(
            mc_version,
            None,
            (NeoForgePhase::ListVersions { prefix }),
            NeoForgeEvent::Versions(Body::Received(bytes)),
            step,
        ),
    ensures
        step.next is MakeFolder,
        step.next->MakeFolder_version@ == items[k]->Text_0,
{
    let texts = crate::json::texts_among(items);
    crate::json::lookup_gives_the_member(
        crate::json::JsonModel::Object(members),
        "versions"@,
        crate::json::JsonModel::Array(items),
    );
    crate::json::lemma_all_texts(items);
    assert forall|i: int|
        k < i < texts.len() && text::starts_with(
            #[trigger] texts[i],
            prefix@,
        ) implies !loader::is_stable(texts[i]) by {
        assert(items[i]->Text_0 == texts[i]);
    }
    loader::last_fitting_version_is_taken(texts, prefix@, k);
}

/// A version that is in hand stays in hand: the one that was chosen is downloaded, run and
/// found under its name.
pub proof fn chosen_version_is_kept(
    mc_version: Seq<char>,
    pinned: Option<Seq<char>>,
    phase: NeoForgePhase,
    event: NeoForgeEvent,
    step: NeoForgeStep,
)
    requires
        phase.expects(event),
        phase.version_in_hand() is Some,
        neoforge_leads_to(mc_version, pinned, phase, event, step),
    ensures
        step.next.version_in_hand() == phase.version_in_hand() || step.next is Failed,
        event is Done && event->Done_0 is Err ==> step.next is Failed,
        event is Done && event->Done_0 is Ok ==> !(step.next is Failed),
{
}

/// NeoForge counts as installed only after its installer ran without failing, and then under
/// the usual name of the version where the description is there, or else under the name of a
/// folder that names the version and holds it.
pub proof fn installed_means_found(
    mc_version: Seq<char>,
    pinned: Option<Seq<char>>,
    phase: NeoForgePhase,
    event: NeoForgeEvent,
    step: NeoForgeStep,
    i: int,
)
    requires
        phase.expects(event),
        neoforge_leads_to(mc_version, pinned, phase, event, step),
    ensures
        step.next is FindInstalled <==> phase is Run && event->Ran_0 is Ok
            && event->Ran_0->Ok_0.success,
        step.next is Installed ==> phase is FindInstalled,
        phase is FindInstalled && event->usual ==> step.next is Installed
            && step.next->version_id@ == "neoforge-"@ + phase->FindInstalled_version@,
        phase is FindInstalled && !event->usual && 0 <= i < event->folders.len()
            && loader::holds_neoforge(event->folders@[i], phase->FindInstalled_version@) && (
        forall|j: int|
            0 <= j < i ==> !loader::holds_neoforge(
                #[trigger] event->folders@[j],
                phase->FindInstalled_version@,
            )) ==> step.next is Installed && step.next->version_id@ == event->folders@[i].name@,
        phase is FindInstalled && !event->usual && (forall|j: int|
            0 <= j < event->folders.len() ==> !loader::holds_neoforge(
                #[trigger] event->folders@[j],
                phase->FindInstalled_version@,
            )) ==> step.next is Failed,
{
    if phase is FindInstalled {
        let v = phase->FindInstalled_version@;
        let fs = event->folders@;
        if forall|j: int| 0 <= j < i ==> !loader::holds_neoforge(#[trigger] fs[j], v) {
            assert forall|j: int| 0 <= j < i implies !((#[trigger] fs[j]).has_json
                && text::contains(fs[j].name@, v) && text::contains(
                text::ascii_lower(fs[j].name@),
                "neoforge"@,
            )) by {
                assert(!loader::holds_neoforge(fs[j], v));
            }
        }
        if forall|j: int| 0 <= j < fs.len() ==> !loader::holds_neoforge(#[trigger] fs[j], v) {
            assert forall|j: int| 0 <= j < fs.len() implies !((#[trigger] fs[j]).has_json
                && text::contains(fs[j].name@, v) && text::contains(
                text::ascii_lower(fs[j].name@),
                "neoforge"@,
            )) by {
                assert(!loader::holds_neoforge(fs[j], v));
            }
        }
        loader::first_folder_of_a_version_is_found(fs, v, i);
    }
}

/// Without Java nothing is installed; with it a pinned version is taken as it is, and without
/// one the versions for the game are listed, by the beginning that they have.
pub proof fn java_comes_first(
    mc_version: Seq<char>,
    pinned: Option<Seq<char>>,
    java: Option<String>,
    step: NeoForgeStep,
)
    requires
        neoforge_leads_to(
            mc_version,
            pinned,
            NeoForgePhase::FindJava,
            NeoForgeEvent::Java(java),
            step,
        ),
    ensures
        java is None ==> step.next is Failed,
        java is Some && pinned is Some ==> step.next is MakeFolder
            && step.next->MakeFolder_version@ == pinned->Some_0,
        java is Some && pinned is None && loader::neoforge_prefix(mc_version) is Some
            ==> step.next is ListVersions && Some(step.next->prefix@) == loader::neoforge_prefix(
            mc_version,
        ),
        java is Some && pinned is None && loader::neoforge_prefix(mc_version) is None
            ==> step.next is Failed,
{
}

} // verus!
