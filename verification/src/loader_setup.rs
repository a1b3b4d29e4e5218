//! Getting the mod loader of a profile or a modpack into place: one that is installed is
//! used, and otherwise it is installed.
use vstd::prelude::*;

use crate::json::JsonModel;
use crate::loader;
use crate::loader::VersionFiles;
use crate::profile::{one, said, silence, two, Level, Progress};
use crate::text;
use crate::web;
use crate::web::Body;

verus! {

/// What is being done about the loader, and how it ends.
#[derive(Debug)]
pub enum LoaderPhase {
    /// Look for an installed one: the folders of the installed versions, or, where the
    /// version is pinned, whether the description of that version is there.
    Look,
    /// Ask for the Fabric loaders for the version of the game.
    AskVersions,
    /// Ask for the launcher's description of a Fabric loader.
    AskProfile { loader_version: String },
    /// Write the files of the version.
    WriteFiles { loader_version: String, files: VersionFiles },
    /// Install NeoForge.
    RunNeoForge,
    /// The loader is in place.
    Ready { loader_version: String, version_id: String },
    /// It could not be brought into place.
    Failed(String),
}

/// What came of what was being done.
#[derive(Debug)]
pub enum LoaderEvent {
    /// The names of the folders of installed versions.
    Names(Vec<String>),
    /// Whether the description of the pinned version is there.
    Found(bool),
    /// The reply of a service.
    Received(Body),
    /// Whether the files were written, or why not.
    Written(Result<(), String>),
    /// The version and the name of the NeoForge that was installed, or why none was.
    NeoForge(Result<(String, String), String>),
}

/// What to tell the user, and what to do next.
#[derive(Debug)]
pub struct LoaderStep {
    pub next: LoaderPhase,
    pub messages: Vec<Progress>,
}

impl LoaderPhase {
    /// Whether the event is one that this phase leads to.
    pub open spec fn expects(self, pinned: bool, event: LoaderEvent) -> bool {
        match self {
            LoaderPhase::Look => if pinned {
                event is Found
            } else {
                event is Names
            },
            LoaderPhase::AskVersions | LoaderPhase::AskProfile { .. } => event is Received,
            LoaderPhase::WriteFiles { .. } => event is Written,
            LoaderPhase::RunNeoForge => event is NeoForge,
            LoaderPhase::Ready { .. } | LoaderPhase::Failed(_) => false,
        }
    }

    /// How far the work is.
    pub open spec fn progress(self) -> int {
        match self {
            LoaderPhase::Look => 0,
            LoaderPhase::AskVersions => 1,
            LoaderPhase::AskProfile { .. } => 2,
            LoaderPhase::WriteFiles { .. } => 3,
            LoaderPhase::RunNeoForge => 3,
            LoaderPhase::Ready { .. } | LoaderPhase::Failed(_) => 4,
        }
    }

    /// Whether the loader is in place in the given version, under the given name.
    pub open spec fn ready(self, loader_version: Seq<char>, version_id: Seq<char>) -> bool {
        self matches LoaderPhase::Ready { loader_version: v, version_id: id } && v@
            == loader_version && id@ == version_id
    }
}

/// The name under which a pinned version of a loader is installed.
pub open spec fn pinned_id(
    loader_name: Seq<char>,
    pinned: Seq<char>,
    mc_version: Seq<char>,
) -> Seq<char> {
    if loader_name == "fabric"@ {
        "fabric-loader-"@ + pinned + "-"@ + mc_version
    } else {
        "neoforge-"@ + pinned
    }
}

/// The name under which a pinned version of a loader is installed.
pub fn pinned_version_id(loader_name: &str, pinned: &str, mc_version: &str) -> (r: String)
    ensures
        r@ == pinned_id(loader_name@, pinned@, mc_version@),
{
    if text::same(loader_name, "fabric") {
        loader::fabric_version_id(pinned, mc_version)
    } else {
        loader::neoforge_version_id(pinned)
    }
}

/// Whether `r` is the first thing to do about a loader that a modpack demands.
pub open spec fn pinned_begins(loader_name: Seq<char>, r: LoaderPhase) -> bool {
    if loader_name == "fabric"@ || loader_name == "neoforge"@ {
        r is Look
    } else {
        r is Failed && r->Failed_0@ == "modpack uses unsupported loader: "@ + loader_name
            + " (only fabric and neoforge work)"@
    }
}

/// The first thing to do about a loader that a modpack demands; only two are known.
pub fn begin_pinned(loader_name: &str) -> (r: LoaderPhase)
    ensures
        pinned_begins(loader_name@, r),
{
    if text::same(loader_name, "fabric") || text::same(loader_name, "neoforge") {
        LoaderPhase::Look
    } else {
        LoaderPhase::Failed(
            text::cat3(
                "modpack uses unsupported loader: ",
                loader_name,
                " (only fabric and neoforge work)",
            ),
        )
    }
}

impl LoaderStep {
    /// Whether the step ends the work with the message `e`.
    pub open spec fn fails(self, e: Seq<char>) -> bool {
        self.next is Failed && self.next->Failed_0@ == e
    }

    /// Whether the step says the one message `m`.
    pub open spec fn tells(self, m: Seq<char>, level: Level) -> bool {
        said(self.messages@) == seq![(m, level)]
    }

    /// Whether the step says nothing.
    pub open spec fn quiet(self) -> bool {
        said(self.messages@) == Seq::<(Seq<char>, Level)>::empty()
    }
}

/// The first step where the version is not pinned: any installed one will do.
pub open spec fn look_leads_to(
    loader_name: Seq<char>,
    mc_version: Seq<char>,
    names: Seq<Seq<char>>,
    step: LoaderStep,
) -> bool {
    match loader::last_folder(names, loader_name, mc_version) {
        Some(found) => {
            &&& step.next.ready("(existing)"@, found)
            &&& if loader_name == "fabric"@ {
                step.tells(
                    "Using existing Fabric install: "@ + found + " (skipping meta fetch)"@,
                    Level::Done,
                )
            } else {
                step.tells(
                    "Using existing NeoForge install: "@ + found + " (skipping installer)"@,
                    Level::Done,
                )
            }
        },
        None => if loader_name == "fabric"@ {
            step.next is AskVersions && step.tells(
                "Picking Fabric loader for MC "@ + mc_version + "..."@,
                Level::Info,
            )
        } else {
            step.next is RunNeoForge && step.quiet()
        },
    }
}

/// The first step where the version is pinned: only that one will do.
pub open spec fn pinned_look_leads_to(
    loader_name: Seq<char>,
    mc_version: Seq<char>,
    pinned: Seq<char>,
    found: bool,
    step: LoaderStep,
) -> bool {
    if found {
        &&& step.next.ready(pinned, pinned_id(loader_name, pinned, mc_version))
        &&& if loader_name == "fabric"@ {
            step.tells(
                "Using existing Fabric loader "@ + pinned + " (matches manifest)"@,
                Level::Done,
            )
        } else {
            step.tells(
                "Using existing NeoForge "@ + pinned + " (matches manifest)"@,
                Level::Done,
            )
        }
    } else if loader_name == "fabric"@ {
        &&& step.next matches LoaderPhase::AskProfile { loader_version } && loader_version@
            == pinned
        &&& step.tells(
            "Installing Fabric loader "@ + pinned + " for MC "@ + mc_version
                + " (from manifest)..."@,
            Level::Info,
        )
    } else {
        step.next is RunNeoForge && step.quiet()
    }
}

/// The version of the Fabric loader to take, or what to say where there is none.
pub open spec fn fabric_picked(mc_version: Seq<char>, body: Body) -> Result<Seq<char>, Seq<char>> {
    match web::document_in("fabric meta"@, body) {
        Err(e) => Err(e),
        Ok(JsonModel::Array(entries)) => match loader::fabric_choice(entries) {
            Some(v) => Ok(v),
            None => Err("no Fabric loader for MC "@ + mc_version),
        },
        Ok(_) => Err(web::undecodable("fabric meta"@)),
    }
}

/// The step from `phase` on `event`. `pinned` is the version that a modpack demands.
pub open spec fn loader_leads_to(
    loader_name: Seq<char>,
    mc_version: Seq<char>,
    pinned: Option<Seq<char>>,
    phase: LoaderPhase,
    event: LoaderEvent,
    step: LoaderStep,
) -> bool {
    match phase {
        LoaderPhase::Look => match pinned {
            Some(v) => pinned_look_leads_to(loader_name, mc_version, v, event->Found_0, step),
            None => look_leads_to(loader_name, mc_version, text::views(event->Names_0@), step),
        },
        LoaderPhase::AskVersions => match fabric_picked(mc_version, event->Received_0) {
            Ok(v) => {
                &&& said(step.messages@) == seq![
                    ("Fabric loader "@ + v, Level::Done),
                    ("Fetching loader profile..."@, Level::Info),
                ]
                &&& step.next matches LoaderPhase::AskProfile { loader_version }
                    && loader_version@ == v
            },
            Err(e) => step.quiet() && step.fails(e),
        },
        LoaderPhase::AskProfile { loader_version } => match web::document_in(
            "fabric profile"@,
            event->Received_0,
        ) {
            Err(e) => step.quiet() && step.fails(e),
            Ok(m) => match m.text_field("id"@) {
                None => step.quiet() && step.fails("fabric profile json missing 'id'"@),
                Some(id) => {
                    &&& if pinned is Some {
                        step.quiet()
                    } else {
                        step.tells("Writing version files: "@ + id, Level::Info)
                    }
                    &&& step.next matches LoaderPhase::WriteFiles { loader_version: v, files }
                        && v == loader_version && files.describe(id, m)
                },
            },
        },
        LoaderPhase::WriteFiles { loader_version, files } => step.quiet()
            && match event->Written_0 {
            Ok(_) => step.next.ready(loader_version@, files.version_id@),
            Err(e) => step.fails(e@),
        },
        LoaderPhase::RunNeoForge => step.quiet() && match event->NeoForge_0 {
            Ok(pair) => step.next.ready(pair.0@, pair.1@),
            Err(e) => step.fails(e@),
        },
        LoaderPhase::Ready { .. } | LoaderPhase::Failed(_) => false,
    }
}

/// The end of the work with a message.
fn fail(e: String) -> (step: LoaderStep)
    ensures
        step.fails(e@),
        step.quiet(),
{
    LoaderStep { next: LoaderPhase::Failed(e), messages: silence() }
}

/// The first step where the version is not pinned.
fn look(loader_name: &str, mc_version: &str, names: &Vec<String>) -> (step: LoaderStep)
    ensures
        look_leads_to(loader_name@, mc_version@, text::views(names@), step),
{
    let fabric = text::same(loader_name, "fabric");
    match loader::detect_existing_loader_version(names, loader_name, mc_version) {
        Some(found) => {
            let message = if fabric {
                text::cat3(
                    "Using existing Fabric install: ",
                    found.as_str(),
                    " (skipping meta fetch)",
                )
            } else {
                text::cat3(
                    "Using existing NeoForge install: ",
                    found.as_str(),
                    " (skipping installer)",
                )
            };
            LoaderStep {
                next: LoaderPhase::Ready {
                    loader_version: "(existing)".to_owned(),
                    version_id: found,
                },
                messages: one(message, Level::Done),
            }
        },
        None => {
            if fabric {
                LoaderStep {
                    next: LoaderPhase::AskVersions,
                    messages: one(
                        text::cat3("Picking Fabric loader for MC ", mc_version, "..."),
                        Level::Info,
                    ),
                }
            } else {
                LoaderStep { next: LoaderPhase::RunNeoForge, messages: silence() }
            }
        },
    }
}

/// The first step where the version is pinned.
fn look_for_pinned(loader_name: &str, mc_version: &str, pinned: &str, found: bool) -> (step:
    LoaderStep)
    ensures
        pinned_look_leads_to(loader_name@, mc_version@, pinned@, found, step),
{
    let fabric = text::same(loader_name, "fabric");
    if found {
        let message = if fabric {
            text::cat3("Using existing Fabric loader ", pinned, " (matches manifest)")
        } else {
            text::cat3("Using existing NeoForge ", pinned, " (matches manifest)")
        };
        LoaderStep {
            next: LoaderPhase::Ready {
                loader_version: pinned.to_owned(),
                version_id: pinned_version_id(loader_name, pinned, mc_version),
            },
            messages: one(message, Level::Done),
        }
    } else if fabric {
        LoaderStep {
            next: LoaderPhase::AskProfile { loader_version: pinned.to_owned() },
            messages: one(
                text::cat5(
                    "Installing Fabric loader ",
                    pinned,
                    " for MC ",
                    mc_version,
                    " (from manifest)...",
                ),
                Level::Info,
            ),
        }
    } else {
        LoaderStep { next: LoaderPhase::RunNeoForge, messages: silence() }
    }
}

/// What to do next to get a loader into place. An installed one is used: any for the
/// version of the game, or, where a modpack demands a version, exactly that one.
pub fn set_up_loader(
    loader_name: &str,
    mc_version: &str,
    pinned: Option<&str>,
    phase: LoaderPhase,
    event: LoaderEvent,
) -> (step: LoaderStep)
    requires
        phase.expects(pinned is Some, event),
    ensures
        loader_leads_to(
            loader_name@,
            mc_version@,
            text::opt_str_view(pinned),
            phase,
            event,
            step,
        ),
{
    match (phase, event) {
        (LoaderPhase::Look, LoaderEvent::Names(names)) => look(loader_name, mc_version, &names),
        (LoaderPhase::Look, LoaderEvent::Found(found)) => {
            let version = match pinned {
                Some(v) => v,
                None => "",
            };
            look_for_pinned(loader_name, mc_version, version, found)
        },
        (LoaderPhase::AskVersions, LoaderEvent::Received(body)) => {
            match loader::fabric_pick_loader_version(mc_version, body) {
                Ok(v) => {
                    let messages = two(
                        text::cat2("Fabric loader ", v.as_str()),
                        Level::Done,
                        "Fetching loader profile...".to_owned(),
                        Level::Info,
                    );
                    LoaderStep { next: LoaderPhase::AskProfile { loader_version: v }, messages }
                },
                Err(e) => fail(e),
            }
        },
        (LoaderPhase::AskProfile { loader_version }, LoaderEvent::Received(body)) => {
            match loader::fabric_fetch_profile_json(body) {
                Err(e) => fail(e),
                Ok(m) => match loader::write_fabric_version_files(m) {
                    Err(e) => fail(e),
                    Ok(files) => {
                        let messages = if pinned.is_some() {
                            silence()
                        } else {
                            one(
                                text::cat2("Writing version files: ", files.version_id.as_str()),
                                Level::Info,
                            )
                        };
                        LoaderStep {
                            next: LoaderPhase::WriteFiles { loader_version, files },
                            messages,
                        }
                    },
                },
            }
        },
        (LoaderPhase::WriteFiles { loader_version, files }, LoaderEvent::Written(Ok(_))) =>
        LoaderStep {
            next: LoaderPhase::Ready { loader_version, version_id: files.version_id },
            messages: silence(),
        },
        (LoaderPhase::WriteFiles { .. }, LoaderEvent::Written(Err(e))) => fail(e),
        (LoaderPhase::RunNeoForge, LoaderEvent::NeoForge(Ok((v, id)))) => LoaderStep {
            next: LoaderPhase::Ready { loader_version: v, version_id: id },
            messages: silence(),
        },
        (LoaderPhase::RunNeoForge, LoaderEvent::NeoForge(Err(e))) => fail(e),
        (other, _) => LoaderStep { next: other, messages: silence() },
    }
}

/// Every step goes forward, so that the work ends after four steps at most.
pub proof fn setting_up_goes_forward(
    loader_name: Seq<char>,
    mc_version: Seq<char>,
    pinned: Option<Seq<char>>,
    phase: LoaderPhase,
    event: LoaderEvent,
    step: LoaderStep,
)
    requires
        phase.expects(pinned is Some, event),
        loader_leads_to(loader_name, mc_version, pinned, phase, event, step),
    ensures
        phase.progress() < step.next.progress() <= 4,
{
}

/// Whether the version in hand, where there is one, is the pinned one.
pub open spec fn on_pinned_version(phase: LoaderPhase, pinned: Seq<char>) -> bool {
    match phase {
        LoaderPhase::AskVersions => false,
        LoaderPhase::AskProfile { loader_version } => loader_version@ == pinned,
        LoaderPhase::WriteFiles { loader_version, .. } => loader_version@ == pinned,
        LoaderPhase::Ready { loader_version, .. } => loader_version@ == pinned,
        _ => true,
    }
}

/// The Fabric loader that a modpack demands is the one that it gets, from the first step
/// to the last. Of NeoForge the same holds as far as its installation keeps the version.
pub proof fn modpack_gets_its_loader(
    loader_name: Seq<char>,
    mc_version: Seq<char>,
    pinned: Seq<char>,
    phase: LoaderPhase,
    event: LoaderEvent,
    step: LoaderStep,
)
    requires
        phase.expects(true, event),
        on_pinned_version(phase, pinned),
        event matches LoaderEvent::NeoForge(Ok(pair)) ==> pair.0@ == pinned,
        loader_leads_to(loader_name, mc_version, Some(pinned), phase, event, step),
    ensures
        on_pinned_version(step.next, pinned),
{
}

/// Without a version that is pinned an installed loader is used wherever there is one, under
/// the name of a folder that is its own and comes last by name; otherwise a Fabric loader is
/// looked up and any other installed.
pub proof fn installed_loader_is_used(
    loader_name: Seq<char>,
    mc_version: Seq<char>,
    names: Vec<String>,
    step: LoaderStep,
    i: int,
)
    requires
        loader_leads_to(
            loader_name,
            mc_version,
            None,
            LoaderPhase::Look,
            LoaderEvent::Names(names),
            step,
        ),
    ensures
        0 <= i < names.len() && loader::is_loader_folder(names@[i]@, loader_name, mc_version)
            ==> step.next is Ready,
        step.next is Ready ==> {
            let found = step.next->version_id@;
            &&& text::views(names@).contains(found)
            &&& loader::is_loader_folder(found, loader_name, mc_version)
            &&& 0 <= i < names.len() && loader::is_loader_folder(
                names@[i]@,
                loader_name,
                mc_version,
            ) ==> !crate::order::less(found, names@[i]@)
        },
        !(step.next is Ready) && loader_name == "fabric"@ ==> step.next is AskVersions,
        !(step.next is Ready) && loader_name != "fabric"@ ==> step.next is RunNeoForge,
{
    let all = text::views(names@);
    loader::last_folder_comes_last(all, loader_name, mc_version);
    if 0 <= i < names.len() {
        assert(all[i] == names@[i]@);
    }
}

/// A loader that a modpack pins is used where exactly that version is installed, under the
/// name that the version has; otherwise that version is brought.
pub proof fn pinned_loader_is_used_or_brought(
    loader_name: Seq<char>,
    mc_version: Seq<char>,
    pinned: Seq<char>,
    found: bool,
    step: LoaderStep,
)
    requires
        loader_leads_to(
            loader_name,
            mc_version,
            Some(pinned),
            LoaderPhase::Look,
            LoaderEvent::Found(found),
            step,
        ),
    ensures
        found ==> step.next is Ready && step.next->Ready_loader_version@ == pinned,
        found && loader_name == "fabric"@ ==> step.next->version_id@ == "fabric-loader-"@ + pinned
            + "-"@ + mc_version,
        found && loader_name == "neoforge"@ ==> step.next->version_id@ == "neoforge-"@ + pinned,
        !found && loader_name == "fabric"@ ==> step.next is AskProfile
            && step.next->AskProfile_loader_version@ == pinned,
        !found && loader_name == "neoforge"@ ==> step.next is RunNeoForge,
{
    reveal_strlit("fabric");
    reveal_strlit("neoforge");
    assert("fabric"@.len() == 6 && "neoforge"@.len() == 8);
}

/// A Fabric loader that is looked up is the first stable one of the list, and it is installed
/// under the name that its description gives as `id`: the files are named after it, and it is
/// the one that the launcher is told.
pub proof fn fabric_is_installed_under_its_id(
    mc_version: Seq<char>,
    pinned: Option<Seq<char>>,
    loader_version: String,
    bytes: Vec<u8>,
    members: Seq<(Seq<char>, JsonModel)>,
    id: Seq<char>,
    writing: LoaderStep,
    written: Result<(), String>,
    done: LoaderStep,
)
    requires
        crate::json::json_read(bytes@) == Ok::<JsonModel, Seq<char>>(JsonModel::Object(members)),
        crate::json::has_member(members, "id"@, JsonModel::Text(id)),
        loader_leads_to(
            "fabric"@,
            mc_version,
            pinned,
            (LoaderPhase::AskProfile { loader_version }),
            LoaderEvent::Received(Body::Received(bytes)),
            writing,
        ),
        loader_leads_to(
            "fabric"@,
            mc_version,
            pinned,
            writing.next,
            LoaderEvent::Written(written),
            done,
        ),
    ensures
        writing.next is WriteFiles,
        writing.next->files.version_id@ == id,
        writing.next->files.json_name@ == id + ".json"@,
        writing.next->files.jar_name@ == id + ".jar"@,
        writing.next->files.json@ == crate::json::pretty_bytes(JsonModel::Object(members)),
        written is Ok ==> done.next is Ready && done.next->version_id@ == id
            && done.next->Ready_loader_version@ == loader_version@,
        written is Err ==> done.next is Failed,
{
    crate::json::lookup_gives_the_member(
        JsonModel::Object(members),
        "id"@,
        JsonModel::Text(id),
    );
}

/// The Fabric loader that is asked for is the one that the list of loaders leads to.
pub proof fn listed_fabric_loader_is_asked_for(
    mc_version: Seq<char>,
    bytes: Vec<u8>,
    entries: Seq<JsonModel>,
    versions: Seq<Seq<char>>,
    stable: Seq<bool>,
    i: int,
    step: LoaderStep,
)
    requires
        crate::json::json_read(bytes@) == Ok::<JsonModel, Seq<char>>(JsonModel::Array(entries)),
        versions.len() == entries.len(),
        stable.len() == entries.len(),
        forall|k: int|
            0 <= k < entries.len() ==> loader::lists_loader(
                #[trigger] entries[k],
                versions[k],
                stable[k],
            ),
        0 <= i < entries.len(),
        stable[i],
        forall|j: int| 0 <= j < i ==> !stable[j],
        loader_leads_to(
            "fabric"@,
            mc_version,
            None,
            LoaderPhase::AskVersions,
            LoaderEvent::Received(Body::Received(bytes)),
            step,
        ),
    ensures
        step.next is AskProfile,
        step.next->AskProfile_loader_version@ == versions[i],
{
    loader::first_stable_loader_is_taken(entries, versions, stable, i);
}

/// What NeoForge's own installation ends with is what the loader is ready under.
pub proof fn neoforge_is_ready_as_installed(
    loader_name: Seq<char>,
    mc_version: Seq<char>,
    pinned: Option<Seq<char>>,
    ended: Result<(String, String), String>,
    step: LoaderStep,
)
    requires
        loader_leads_to(
            loader_name,
            mc_version,
            pinned,
            LoaderPhase::RunNeoForge,
            LoaderEvent::NeoForge(ended),
            step,
        ),
    ensures
        ended is Ok <==> step.next is Ready,
        ended is Ok ==> step.next->Ready_loader_version@ == ended->Ok_0.0@
            && step.next->version_id@ == ended->Ok_0.1@,
        ended is Err ==> step.next is Failed && step.next->Failed_0@ == ended->Err_0@,
{
}

/// A modpack can be installed on Fabric and on NeoForge, and on no other loader: of the
/// loaders that a manifest may demand, Quilt and Forge are turned down.
pub proof fn two_loaders_can_be_installed(
    deps: Seq<crate::modpack::NamedValue>,
    version: Seq<char>,
    r: LoaderPhase,
)
    requires
        crate::modpack::demanded_loader(deps) is Some,
        pinned_begins(crate::modpack::demanded_loader(deps)->Some_0.0, r),
    ensures
        crate::modpack::stands_under(deps, "fabric-loader"@, version) ==> r is Look,
        crate::modpack::nothing_under(deps, "fabric-loader"@) && crate::modpack::stands_under(
            deps,
            "neoforge"@,
            version,
        ) ==> r is Look,
        crate::modpack::nothing_under(deps, "fabric-loader"@) && crate::modpack::nothing_under(
            deps,
            "neoforge"@,
        ) ==> r is Failed,
{
    crate::modpack::first_value_counts(deps, "fabric-loader"@, version);
    crate::modpack::first_value_counts(deps, "neoforge"@, version);
    reveal_strlit("fabric");
    reveal_strlit("neoforge");
    reveal_strlit("quilt");
    reveal_strlit("forge");
    assert("fabric"@.len() == 6 && "neoforge"@.len() == 8 && "quilt"@.len() == 5 && "forge"@.len()
        == 5);
}

} // verus!
