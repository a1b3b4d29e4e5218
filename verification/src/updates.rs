//! Updates of installed files: which there are, and how one is applied.
use vstd::prelude::*;

use crate::decimal;
use crate::json;
use crate::json::Json;
use crate::modrinth;
use crate::modrinth::{ModrinthVersion, VersionQuery};
use crate::profile::{one, said, silence, Level, Progress};
use crate::text;
use crate::web::Reply;

verus! {

/// An update of an installed file. `kind` is `mod`, `shader` or `resourcepack`.
#[derive(Debug)]
pub struct UpdateInfo {
    pub kind: String,
    pub title: String,
    pub project_id: String,
    pub current_filename: String,
    pub current_version: String,
    pub latest_version: String,
    pub latest_filename: String,
    pub latest_url: String,
    pub current_path: String,
}

/// A folder in which installed files are looked for, and the extension that they have.
#[derive(Debug)]
pub struct ScanTarget {
    pub kind: String,
    pub folder: String,
    pub extension: String,
}

impl ScanTarget {
    /// Whether files of `kind` with `extension` are looked for in `folder`.
    pub open spec fn is(self, kind: Seq<char>, folder: Seq<char>, extension: Seq<char>) -> bool {
        self.kind@ == kind && self.folder@ == folder && self.extension@ == extension
    }
}

fn target(kind: &str, folder: &str, extension: &str) -> (r: ScanTarget)
    ensures
        r.is(kind@, folder@, extension@),
{
    ScanTarget {
        kind: kind.to_owned(),
        folder: folder.to_owned(),
        extension: extension.to_owned(),
    }
}

/// The folders in which installed files are looked for, in order.
pub fn scan_targets() -> (r: Vec<ScanTarget>)
    ensures
        r.len() == 3,
        r[0].is("mod"@, "mods"@, "jar"@),
        r[1].is("shader"@, "shaderpacks"@, "zip"@),
        r[2].is("resourcepack"@, "resourcepacks"@, "zip"@),
        forall|i: int|
            0 <= i < r.len() ==> update_folder((#[trigger] r@[i]).kind@) == Some(r@[i].folder@),
{
    proof {
        kinds_have_their_places("mod"@);
    }
    let mut r: Vec<ScanTarget> = Vec::new();
    r.push(target("mod", "mods", "jar"));
    r.push(target("shader", "shaderpacks", "zip"));
    r.push(target("resourcepack", "resourcepacks", "zip"));
    r
}

impl ScanTarget {
    /// Whether a file with the extension `extension` is one of those that are looked for.
    pub open spec fn takes(self, extension: Option<Seq<char>>) -> bool {
        extension is Some && text::same_ignoring_case(extension->Some_0, self.extension@)
    }
}

/// Whether a file is one of those that are looked for, by its extension.
pub fn is_scanned(target: &ScanTarget, extension: Option<&str>) -> (r: bool)
    ensures
        r == target.takes(text::opt_str_view(extension)),
{
    match extension {
        Some(e) => text::eq_ignoring_case(e, target.extension.as_str()),
        None => false,
    }
}

/// What to say before a file is checked.
pub fn checking(filename: &str) -> (r: Vec<Progress>)
    ensures
        said(r@) == seq![("Checking "@ + filename@ + "..."@, Level::Info)],
{
    one(text::cat3("Checking ", filename, "..."), Level::Info)
}

/// An installed file that is checked.
#[derive(Debug)]
pub struct InstalledFile {
    pub kind: String,
    pub filename: String,
    pub path: String,
}

/// What Modrinth knows of an installed file.
#[derive(Debug)]
pub struct CurrentVersion {
    pub project_id: String,
    pub version: String,
    pub game_versions: Vec<String>,
    pub loaders: Vec<String>,
}

impl CurrentVersion {
    /// Whether this is what the document `m` says of a file.
    pub open spec fn read_from(self, m: json::JsonModel) -> bool {
        &&& self.project_id@ == (match m.text_field("project_id"@) {
            Some(s) => s,
            None => ""@,
        })
        &&& self.version@ == (match m.text_field("version_number"@) {
            Some(s) => s,
            None => "?"@,
        })
        &&& text::views(self.game_versions@) == m.texts_field("game_versions"@)
        &&& text::views(self.loaders@) == m.texts_field("loaders"@)
    }
}

/// What Modrinth knows of an installed file.
fn current_version(info: &Json) -> (r: CurrentVersion)
    ensures
        r.read_from(info@),
{
    CurrentVersion {
        project_id: match info.get_text("project_id") {
            Some(s) => s,
            None => "".to_owned(),
        },
        version: match info.get_text("version_number") {
            Some(s) => s,
            None => "?".to_owned(),
        },
        game_versions: info.get_texts("game_versions"),
        loaders: info.get_texts("loaders"),
    }
}

/// A filter, where there is something to filter by.
pub open spec fn filter_by(words: Seq<Seq<char>>) -> Option<Seq<char>> {
    if words.len() == 0 {
        None
    } else {
        Some(modrinth::filter_text(words))
    }
}

impl VersionQuery {
    /// Whether this asks for the versions that can replace a file: those for the same
    /// versions of the game and, for a mod, for the same loaders.
    pub open spec fn asks(self, kind: Seq<char>, current: CurrentVersion) -> bool {
        &&& self.url@ == modrinth::version_list_address(current.project_id@)
        &&& text::opt_view(self.game_versions) == filter_by(text::views(current.game_versions@))
        &&& text::opt_view(self.loaders) == (if kind == "mod"@ {
            filter_by(text::views(current.loaders@))
        } else {
            None
        })
    }
}

/// A filter, where there is something to filter by.
fn filter_for(words: &Vec<String>) -> (r: Option<String>)
    ensures
        text::opt_view(r) == filter_by(text::views(words@)),
{
    if words.len() == 0 {
        None
    } else {
        Some(modrinth::query_filter(words))
    }
}

/// The request for the versions that can replace a file.
fn version_query(kind: &str, current: &CurrentVersion) -> (r: VersionQuery)
    ensures
        r.asks(kind@, *current),
{
    VersionQuery {
        url: modrinth::version_list_url(current.project_id.as_str()),
        game_versions: filter_for(&current.game_versions),
        loaders: if text::same(kind, "mod") {
            filter_for(&current.loaders)
        } else {
            None
        },
    }
}

/// The document in a reply, where there is one.
pub open spec fn reply_document(reply: Reply<Vec<u8>>) -> Option<json::JsonModel> {
    match reply {
        Reply::Received(bytes) => match json::json_read(bytes@) {
            Ok(m) => Some(m),
            Err(_) => None,
        },
        _ => None,
    }
}

/// What Modrinth says of the file with a hash, where it knows it.
pub fn modrinth_lookup_by_hash(reply: Reply<Vec<u8>>) -> (r: Option<Json>)
    ensures
        match r {
            Some(j) => reply_document(reply) == Some(j@),
            None => reply_document(reply) is None,
        },
{
    match reply {
        Reply::Received(bytes) => match json::parse(bytes.as_slice()) {
            Ok(j) => Some(j),
            Err(_) => None,
        },
        _ => None,
    }
}

/// The title in a reply about a project, where there is one.
pub open spec fn reply_title(reply: Reply<Vec<u8>>) -> Option<Seq<char>> {
    match reply_document(reply) {
        Some(m) => m.text_field("title"@),
        None => None,
    }
}

/// The title of a project, from the reply to the request for it.
pub fn modrinth_project_title(reply: Reply<Vec<u8>>) -> (r: Option<String>)
    ensures
        text::opt_view(r) == reply_title(reply),
{
    match modrinth_lookup_by_hash(reply) {
        Some(j) => j.get_text("title"),
        None => None,
    }
}

/// The newest version among those that fit, from the reply to the request for them.
pub fn modrinth_latest_compatible(reply: Reply<Vec<ModrinthVersion>>) -> (r: Option<
    ModrinthVersion,
>)
    ensures
        r == (match reply {
            Reply::Received(versions) if versions.len() > 0 => Some(versions@[0]),
            _ => None,
        }),
{
    match reply {
        Reply::Received(versions) => {
            let mut versions = versions;
            if versions.len() > 0 {
                Some(versions.swap_remove(0))
            } else {
                None
            }
        },
        _ => None,
    }
}

/// What is being done to check an installed file, and how it ends.
#[derive(Debug)]
pub enum CheckPhase {
    /// Compute the SHA-1 of the file.
    Hash,
    /// Ask which version holds the file.
    AskCurrent { url: String },
    /// Ask for the versions that can replace it.
    AskLatest { current: CurrentVersion, query: VersionQuery },
    /// Ask for the title of the project.
    AskTitle {
        current: CurrentVersion,
        latest_version: String,
        latest_filename: String,
        latest_url: String,
        url: String,
    },
    /// There is an update.
    Update(UpdateInfo),
    /// There is none, or nothing is known of the file.
    Nothing,
}

/// What came of what was being done.
#[derive(Debug)]
pub enum CheckEvent {
    Hashed(Result<String, String>),
    Document(Reply<Vec<u8>>),
    Versions(Reply<Vec<ModrinthVersion>>),
}

impl CheckPhase {
    /// Whether the event is one that this phase leads to.
    pub open spec fn expects(self, event: CheckEvent) -> bool {
        match self {
            CheckPhase::Hash => event is Hashed,
            CheckPhase::AskCurrent { .. } | CheckPhase::AskTitle { .. } => event is Document,
            CheckPhase::AskLatest { .. } => event is Versions,
            CheckPhase::Update(_) | CheckPhase::Nothing => false,
        }
    }

    /// How far the work is.
    pub open spec fn progress(self) -> int {
        match self {
            CheckPhase::Hash => 0,
            CheckPhase::AskCurrent { .. } => 1,
            CheckPhase::AskLatest { .. } => 2,
            CheckPhase::AskTitle { .. } => 3,
            CheckPhase::Update(_) | CheckPhase::Nothing => 4,
        }
    }

    /// Whether an update that is in hand is one: its version is not the installed one.
    pub open spec fn differs(self) -> bool {
        match self {
            CheckPhase::AskTitle { current, latest_version, .. } => latest_version@
                != current.version@,
            CheckPhase::Update(info) => info.latest_version@ != info.current_version@,
            _ => true,
        }
    }
}

/// The newest version that fits, where there is one.
pub open spec fn latest_in(reply: Reply<Vec<ModrinthVersion>>) -> Option<ModrinthVersion> {
    match reply {
        Reply::Received(versions) if versions.len() > 0 => Some(versions@[0]),
        _ => None,
    }
}

/// The phase after `phase` on `event`, for the file `file`.
pub open spec fn check_leads_to(
    file: InstalledFile,
    phase: CheckPhase,
    event: CheckEvent,
    next: CheckPhase,
) -> bool {
    match phase {
        CheckPhase::Hash => match event->Hashed_0 {
            Ok(hash) => next is AskCurrent && next->AskCurrent_url@
                == "https://api.modrinth.com/v2/version_file/"@ + hash@ + "?algorithm=sha1"@,
            Err(_) => next is Nothing,
        },
        CheckPhase::AskCurrent { .. } => match reply_document(event->Document_0) {
            Some(m) => next matches CheckPhase::AskLatest { current, query } && current.read_from(
                m,
            ) && query.asks(file.kind@, current),
            None => next is Nothing,
        },
        CheckPhase::AskLatest { current, .. } => match latest_in(event->Versions_0) {
            Some(latest) => match modrinth::chosen_file(latest.files@) {
                Some(f) if latest.version_number@ != current.version@ => {
                    &&& next is AskTitle
                    &&& next->AskTitle_current == current
                    &&& next->AskTitle_latest_version@ == latest.version_number@
                    &&& next->AskTitle_latest_filename@ == f.filename@
                    &&& next->AskTitle_latest_url@ == f.url@
                    &&& next->AskTitle_url@ == "https://api.modrinth.com/v2/project/"@
                        + current.project_id@
                },
                _ => next is Nothing,
            },
            None => next is Nothing,
        },
        CheckPhase::AskTitle { current, latest_version, latest_filename, latest_url, .. } => {
            &&& next is Update
            &&& next->Update_0.kind@ == file.kind@
            &&& next->Update_0.title@ == (match reply_title(event->Document_0) {
                Some(t) => t,
                None => current.project_id@,
            })
            &&& next->Update_0.project_id@ == current.project_id@
            &&& next->Update_0.current_filename@ == file.filename@
            &&& next->Update_0.current_version@ == current.version@
            &&& next->Update_0.latest_version@ == latest_version@
            &&& next->Update_0.latest_filename@ == latest_filename@
            &&& next->Update_0.latest_url@ == latest_url@
            &&& next->Update_0.current_path@ == file.path@
        },
        CheckPhase::Update(_) | CheckPhase::Nothing => false,
    }
}

/// The phase after the newest version that fits is known: an update is one in another
/// version that has a file.
fn with_latest(current: CurrentVersion, latest: Option<ModrinthVersion>) -> (next: CheckPhase)
    ensures
        match latest {
            Some(version) => match modrinth::chosen_file(version.files@) {
                Some(f) if version.version_number@ != current.version@ => {
                    &&& next is AskTitle
                    &&& next->AskTitle_current == current
                    &&& next->AskTitle_latest_version@ == version.version_number@
                    &&& next->AskTitle_latest_filename@ == f.filename@
                    &&& next->AskTitle_latest_url@ == f.url@
                    &&& next->AskTitle_url@ == "https://api.modrinth.com/v2/project/"@
                        + current.project_id@
                },
                _ => next is Nothing,
            },
            None => next is Nothing,
        },
{
    match latest {
        None => CheckPhase::Nothing,
        Some(version) => {
            if text::same(version.version_number.as_str(), current.version.as_str()) {
                return CheckPhase::Nothing;
            }
            match modrinth::choose_file(&version.files) {
                None => CheckPhase::Nothing,
                Some(f) => {
                    let url = modrinth::project_url(current.project_id.as_str());
                    CheckPhase::AskTitle {
                        current,
                        latest_version: version.version_number.clone(),
                        latest_filename: f.filename.clone(),
                        latest_url: f.url.clone(),
                        url,
                    }
                },
            }
        },
    }
}

/// What to do next to check an installed file for an update. Nothing comes of a file that
/// cannot be read, that Modrinth does not know, or of which it has nothing newer.
pub fn check_for_updates(file: &InstalledFile, phase: CheckPhase, event: CheckEvent) -> (next:
    CheckPhase)
    requires
        phase.expects(event),
    ensures
        check_leads_to(*file, phase, event, next),
{
    match (phase, event) {
        (CheckPhase::Hash, CheckEvent::Hashed(Ok(hash))) => CheckPhase::AskCurrent {
            url: modrinth::hash_lookup_url(hash.as_str()),
        },
        (CheckPhase::AskCurrent { .. }, CheckEvent::Document(reply)) => {
            match modrinth_lookup_by_hash(reply) {
                Some(info) => {
                    let current = current_version(&info);
                    let query = version_query(file.kind.as_str(), &current);
                    CheckPhase::AskLatest { current, query }
                },
                None => CheckPhase::Nothing,
            }
        },
        (CheckPhase::AskLatest { current, .. }, CheckEvent::Versions(reply)) => with_latest(
            current,
            modrinth_latest_compatible(reply),
        ),
        (
            CheckPhase::AskTitle { current, latest_version, latest_filename, latest_url, .. },
            CheckEvent::Document(reply),
        ) => {
            let title = match modrinth_project_title(reply) {
                Some(t) => t,
                None => current.project_id.clone(),
            };
            CheckPhase::Update(
                UpdateInfo {
                    kind: file.kind.clone(),
                    title,
                    project_id: current.project_id,
                    current_filename: file.filename.clone(),
                    current_version: current.version,
                    latest_version,
                    latest_filename,
                    latest_url,
                    current_path: file.path.clone(),
                },
            )
        },
        _ => CheckPhase::Nothing,
    }
}

/// What is offered as an update is never the version that is installed, and every check
/// goes forward.
pub proof fn updates_differ_from_installed(
    file: InstalledFile,
    phase: CheckPhase,
    event: CheckEvent,
    next: CheckPhase,
)
    requires
        phase.expects(event),
        phase.differs(),
        check_leads_to(file, phase, event, next),
    ensures
        next.differs(),
        phase.progress() < next.progress() <= 4,
{
}

/// What to say when all files were checked.
pub fn updates_found(n: usize) -> (r: Vec<Progress>)
    ensures
        said(r@) == seq![
            (
                "Found "@ + decimal::decimal(n as nat) + " update(s)."@,
                if n == 0 {
                    Level::Info
                } else {
                    Level::Done
                },
            ),
        ],
{
    let digits = decimal::decimal_of(n as u64);
    let level = if n == 0 {
        Level::Info
    } else {
        Level::Done
    };
    one(text::cat3("Found ", digits.as_str(), " update(s)."), level)
}

/// The settings that name the file that an update replaces.
#[derive(Clone, Copy, Debug, PartialEq, Eq, Structural)]
pub enum SettingsFile {
    /// No settings do.
    Untouched,
    /// The shader loader's `iris.properties`.
    Iris,
    /// The game's `options.txt`.
    Options,
}

/// The folder that a file of a kind goes to; none where the kind is not known.
pub open spec fn update_folder(kind: Seq<char>) -> Option<Seq<char>> {
    if kind == "mod"@ {
        Some("mods"@)
    } else if kind == "shader"@ {
        Some("shaderpacks"@)
    } else if kind == "resourcepack"@ {
        Some("resourcepacks"@)
    } else {
        None
    }
}

/// The settings that name a file of a kind.
pub open spec fn update_settings(kind: Seq<char>) -> SettingsFile {
    if kind == "shader"@ {
        SettingsFile::Iris
    } else if kind == "resourcepack"@ {
        SettingsFile::Options
    } else {
        SettingsFile::Untouched
    }
}

/// What is being done to apply an update, and how it ends.
#[derive(Debug)]
pub enum ApplyPhase {
    Begin,
    /// Make the folder of the game directory that the new file goes to.
    MakeFolder { folder: String },
    /// Download the file at `url` to the folder, under `filename`.
    Download { url: String, folder: String, filename: String },
    /// Look whether the file at the path `old` is there, and whether the path is that of
    /// `filename` in the folder.
    LookAtOld { old: String, folder: String, filename: String },
    /// Remove the old file, at `path`.
    RemoveOld { path: String },
    /// Put the name `new` of the new file in the place of `old` in the settings.
    ChangeSettings { file: SettingsFile, old: String, new: String },
    Applied,
    Failed(String),
}

/// What came of what was being done.
#[derive(Debug)]
pub enum ApplyEvent {
    Begun,
    /// Whether it succeeded, or why it did not.
    Done(Result<(), String>),
    /// Whether the path of the old file is that of the new one, and whether the old file is
    /// there.
    Old { same: bool, present: bool },
}

/// What to tell the user, and what to do next.
#[derive(Debug)]
pub struct ApplyStep {
    pub next: ApplyPhase,
    pub messages: Vec<Progress>,
}

impl ApplyPhase {
    /// Whether the event is one that this phase leads to.
    pub open spec fn expects(self, event: ApplyEvent) -> bool {
        match self {
            ApplyPhase::Begin => event is Begun,
            ApplyPhase::LookAtOld { .. } => event is Old,
            ApplyPhase::Applied | ApplyPhase::Failed(_) => false,
            _ => event is Done,
        }
    }

    /// How far the work is.
    pub open spec fn progress(self) -> int {
        match self {
            ApplyPhase::Begin => 0,
            ApplyPhase::MakeFolder { .. } => 1,
            ApplyPhase::Download { .. } => 2,
            ApplyPhase::LookAtOld { .. } => 3,
            ApplyPhase::RemoveOld { .. } => 4,
            ApplyPhase::ChangeSettings { .. } => 5,
            ApplyPhase::Applied | ApplyPhase::Failed(_) => 6,
        }
    }

    /// Whether the work failed, with `e` to say.
    pub open spec fn fails(self, e: Seq<char>) -> bool {
        self is Failed && self->Failed_0@ == e
    }
}

/// Whether `next` is what is done about an update once the old file is out of the way.
pub open spec fn settings_next(update: UpdateInfo, next: ApplyPhase) -> bool {
    if update_settings(update.kind@) == SettingsFile::Untouched {
        next is Applied
    } else {
        &&& next is ChangeSettings
        &&& next->file == update_settings(update.kind@)
        &&& next->ChangeSettings_old@ == update.current_filename@
        &&& next->new@ == update.latest_filename@
    }
}

/// Whether `next` is the phase after `phase` on `event`. The old file is removed only where
/// it is there and is not the new one, and the settings are changed after that.
pub open spec fn apply_leads_to(
    update: UpdateInfo,
    phase: ApplyPhase,
    event: ApplyEvent,
    next: ApplyPhase,
) -> bool {
    match phase {
        ApplyPhase::Begin => match update_folder(update.kind@) {
            Some(folder) => next is MakeFolder && next->MakeFolder_folder@ == folder,
            None => next.fails("unknown kind: "@ + update.kind@),
        },
        ApplyPhase::MakeFolder { folder } => match event->Done_0 {
            Ok(_) => {
                &&& next is Download
                &&& next->url@ == update.latest_url@
                &&& next->Download_folder@ == folder@
                &&& next->Download_filename@ == update.latest_filename@
            },
            Err(e) => next.fails("mkdir: "@ + e@),
        },
        ApplyPhase::Download { folder, filename, .. } => match event->Done_0 {
            Ok(_) => {
                &&& next is LookAtOld
                &&& next->LookAtOld_old@ == update.current_path@
                &&& next->LookAtOld_folder@ == folder@
                &&& next->LookAtOld_filename@ == filename@
            },
            Err(e) => next.fails(e@),
        },
        ApplyPhase::LookAtOld { .. } => if !event->same && event->present {
            next is RemoveOld && next->path@ == update.current_path@
        } else {
            settings_next(update, next)
        },
        ApplyPhase::RemoveOld { .. } => match event->Done_0 {
            Ok(_) => settings_next(update, next),
            Err(e) => next.fails("remove old "@ + update.current_path@ + ": "@ + e@),
        },
        ApplyPhase::ChangeSettings { .. } => match event->Done_0 {
            Ok(_) => next is Applied,
            Err(e) => next.fails(e@),
        },
        _ => false,
    }
}

/// What is said on the way to a phase.
pub open spec fn apply_says(update: UpdateInfo, next: ApplyPhase) -> Seq<(Seq<char>, Level)> {
    match next {
        ApplyPhase::Download { .. } => seq![
            (
                "Downloading "@ + update.latest_filename@ + " (was "@ + update.current_filename@
                    + ")"@,
                Level::Info,
            ),
        ],
        ApplyPhase::Applied => seq![
            ("Updated "@ + update.title@ + " -> "@ + update.latest_version@, Level::Done),
        ],
        _ => Seq::empty(),
    }
}

/// What is done about an update once the old file is out of the way.
fn after_old(update: &UpdateInfo) -> (next: ApplyPhase)
    ensures
        settings_next(*update, next),
{
    let file = if text::same(update.kind.as_str(), "shader") {
        SettingsFile::Iris
    } else if text::same(update.kind.as_str(), "resourcepack") {
        SettingsFile::Options
    } else {
        return ApplyPhase::Applied;
    };
    ApplyPhase::ChangeSettings {
        file,
        old: update.current_filename.clone(),
        new: update.latest_filename.clone(),
    }
}

/// The first phase of an update that is applied.
fn begin_update(update: &UpdateInfo) -> (next: ApplyPhase)
    ensures
        apply_leads_to(*update, ApplyPhase::Begin, ApplyEvent::Begun, next),
{
    let kind = update.kind.as_str();
    if text::same(kind, "mod") {
        ApplyPhase::MakeFolder { folder: "mods".to_owned() }
    } else if text::same(kind, "shader") {
        ApplyPhase::MakeFolder { folder: "shaderpacks".to_owned() }
    } else if text::same(kind, "resourcepack") {
        ApplyPhase::MakeFolder { folder: "resourcepacks".to_owned() }
    } else {
        ApplyPhase::Failed(text::cat2("unknown kind: ", kind))
    }
}

/// What is said on the way to a phase.
fn messages_for(update: &UpdateInfo, next: &ApplyPhase) -> (r: Vec<Progress>)
    ensures
        said(r@) == apply_says(*update, *next),
{
    match next {
        ApplyPhase::Download { .. } => one(
            text::cat5(
                "Downloading ",
                update.latest_filename.as_str(),
                " (was ",
                update.current_filename.as_str(),
                ")",
            ),
            Level::Info,
        ),
        ApplyPhase::Applied => one(
            text::cat4(
                "Updated ",
                update.title.as_str(),
                " -> ",
                update.latest_version.as_str(),
            ),
            Level::Done,
        ),
        _ => silence(),
    }
}

/// The next step in applying an update, from what came of the last one: the new file is
/// brought to its folder, then the old one goes unless it is the same, and then the settings
/// that name it follow.
pub fn apply_update(update: &UpdateInfo, phase: ApplyPhase, event: ApplyEvent) -> (step: ApplyStep)
    requires
        phase.expects(event),
    ensures
        apply_leads_to(*update, phase, event, step.next),
        said(step.messages@) == apply_says(*update, step.next),
{
    let next: ApplyPhase = match (phase, event) {
        (ApplyPhase::Begin, _) => begin_update(update),
        (ApplyPhase::MakeFolder { folder }, ApplyEvent::Done(Ok(_))) => {
            ApplyPhase::Download {
                url: update.latest_url.clone(),
                folder,
                filename: update.latest_filename.clone(),
            }
        },
        (ApplyPhase::MakeFolder { .. }, ApplyEvent::Done(Err(e))) => {
            ApplyPhase::Failed(text::cat2("mkdir: ", e.as_str()))
        },
        (ApplyPhase::Download { folder, filename, .. }, ApplyEvent::Done(Ok(_))) => {
            ApplyPhase::LookAtOld { old: update.current_path.clone(), folder, filename }
        },
        (ApplyPhase::LookAtOld { .. }, ApplyEvent::Old { same, present }) => {
            if !same && present {
                ApplyPhase::RemoveOld { path: update.current_path.clone() }
            } else {
                after_old(update)
            }
        },
        (ApplyPhase::RemoveOld { .. }, ApplyEvent::Done(Ok(_))) => after_old(update),
        (ApplyPhase::RemoveOld { .. }, ApplyEvent::Done(Err(e))) => {
            ApplyPhase::Failed(
                text::cat4("remove old ", update.current_path.as_str(), ": ", e.as_str()),
            )
        },
        (ApplyPhase::ChangeSettings { .. }, ApplyEvent::Done(Ok(_))) => ApplyPhase::Applied,
        (_, ApplyEvent::Done(Err(e))) => ApplyPhase::Failed(e),
        (other, _) => other,
    };
    let messages = messages_for(update, &next);
    ApplyStep { next, messages }
}

/// Applying an update goes forward and ends.
pub proof fn applying_goes_forward(
    update: UpdateInfo,
    phase: ApplyPhase,
    event: ApplyEvent,
    next: ApplyPhase,
)
    requires
        phase.expects(event),
        apply_leads_to(update, phase, event, next),
    ensures
        phase.progress() < next.progress() <= 6,
{
}

/// Whether these are the phases through which an update is applied, from the first on, with
/// what came of each but the last.
pub open spec fn applies(
    update: UpdateInfo,
    phases: Seq<ApplyPhase>,
    events: Seq<ApplyEvent>,
) -> bool {
    &&& phases.len() == events.len() + 1
    &&& phases[0] is Begin
    &&& forall|k: int|
        0 <= k < events.len() ==> (#[trigger] phases[k]).expects(events[k]) && apply_leads_to(
            update,
            phases[k],
            events[k],
            phases[k + 1],
        )
}

/// Nothing but a success of the download leads on to the old file and the settings: where
/// the download fails, both stay as they are, and so they do for a kind that is not known.
pub proof fn old_file_outlives_a_failed_download(
    update: UpdateInfo,
    phases: Seq<ApplyPhase>,
    events: Seq<ApplyEvent>,
    k: int,
)
    requires
        applies(update, phases, events),
        0 <= k < phases.len(),
        phases[k].progress() >= 3 && !(phases[k] is Failed),
    ensures
        update_folder(update.kind@) is Some,
        exists|j: int|
            0 <= j < k && (#[trigger] phases[j]) is Download && events[j]->Done_0 is Ok,
    decreases k,
{
    assert(phases[k - 1].expects(events[k - 1]));
    if phases[k - 1] is Download {
        assert(phases[k - 2].expects(events[k - 2]));
        assert(phases[k - 2] is MakeFolder);
        assert(phases[k - 3].expects(events[k - 3]));
    } else {
        old_file_outlives_a_failed_download(update, phases, events, k - 1);
    }
}

/// Where an update was applied, the old file is gone: it was the new one, or was not there,
/// or was removed.
pub proof fn applied_update_leaves_no_old_file(
    update: UpdateInfo,
    phases: Seq<ApplyPhase>,
    events: Seq<ApplyEvent>,
    k: int,
)
    requires
        applies(update, phases, events),
        0 <= k < phases.len(),
        phases[k] is Applied,
    ensures
        exists|j: int|
            0 <= j < k && (#[trigger] phases[j]) is LookAtOld && (events[j]->same
                || !events[j]->present || (phases[j + 1] is RemoveOld && j + 1 < k && events[j
                + 1]->Done_0 is Ok)),
{
    assert(phases[k - 1].expects(events[k - 1]));
    let m = if phases[k - 1] is ChangeSettings {
        k - 1
    } else {
        k
    };
    assert(phases[m - 1].expects(events[m - 1]));
    if phases[m - 1] is RemoveOld {
        assert(phases[m - 2].expects(events[m - 2]));
        assert(phases[m - 2] is LookAtOld);
        assert(phases[m - 2 + 1] is RemoveOld);
    } else {
        assert(phases[m - 1] is LookAtOld);
    }
}

/// Mods, shaders and resource packs each have a folder of their own, and no other kind has
/// one. The settings name shaders and resource packs, each in a file of their own, and no
/// mods.
pub proof fn kinds_have_their_places(kind: Seq<char>)
    ensures
        update_folder("mod"@) == Some("mods"@),
        update_folder("shader"@) == Some("shaderpacks"@),
        update_folder("resourcepack"@) == Some("resourcepacks"@),
        update_settings("mod"@) == SettingsFile::Untouched,
        update_settings("shader"@) == SettingsFile::Iris,
        update_settings("resourcepack"@) == SettingsFile::Options,
        update_folder(kind) is Some <==> kind == "mod"@ || kind == "shader"@ || kind
            == "resourcepack"@,
{
    reveal_strlit("mod");
    reveal_strlit("shader");
    reveal_strlit("resourcepack");
    assert("mod"@.len() == 3 && "shader"@.len() == 6 && "resourcepack"@.len() == 12);
}

/// What is asked for to replace a file of any kind fits the versions of the game that the
/// installed version is for: where the document about it lists any under `game_versions`, the
/// request names exactly those. A mod's loaders count likewise, and those of no other kind.
pub proof fn replacement_fits_the_same_game(
    file: InstalledFile,
    url: String,
    doc: Vec<u8>,
    members: Seq<(Seq<char>, json::JsonModel)>,
    next: CheckPhase,
    items: Seq<json::JsonModel>,
    id: Seq<char>,
)
    requires
        json::json_read(doc@) == Ok::<json::JsonModel, Seq<char>>(
            json::JsonModel::Object(members),
        ),
        check_leads_to(
            file,
            (CheckPhase::AskCurrent { url }),
            CheckEvent::Document(Reply::Received(doc)),
            next,
        ),
    ensures
        next is AskLatest,
        ({
            let texts = items.filter(|m: json::JsonModel| m is Text).map_values(
                |m: json::JsonModel| m->Text_0,
            );
            let asked = text::opt_view(next->query.game_versions);
            let loaders = text::opt_view(next->query.loaders);
            &&& json::has_member(members, "game_versions"@, json::JsonModel::Array(items)) ==> (
            asked is Some <==> texts.len() > 0) && (texts.len() > 0 ==> asked == Some(
                modrinth::filter_text(texts),
            ))
            &&& json::lacks_member(members, "game_versions"@) ==> asked is None
            &&& json::has_member(members, "loaders"@, json::JsonModel::Array(items)) && file.kind@
                == "mod"@ && texts.len() > 0 ==> loaders == Some(modrinth::filter_text(texts))
            &&& json::has_member(members, "loaders"@, json::JsonModel::Array(items))
                && texts.len() == 0 ==> loaders is None
            &&& json::lacks_member(members, "loaders"@) ==> loaders is None
            &&& file.kind@ != "mod"@ ==> loaders is None
        }),
        json::has_member(members, "project_id"@, json::JsonModel::Text(id)) ==> next->query.url@
            == "https://api.modrinth.com/v2/project/"@ + id + "/version"@,
{
    json::member_texts_are_read(members, "game_versions"@, json::JsonModel::Array(items));
    json::member_texts_are_read(members, "loaders"@, json::JsonModel::Array(items));
    json::lookup_gives_the_member(
        json::JsonModel::Object(members),
        "project_id"@,
        json::JsonModel::Text(id),
    );
}

/// From what Modrinth says of an installed file and of the versions that fit, an update is
/// made of the first of those versions and the file to take of it; it names the file that is
/// installed and the version that it holds. There is none where no version fits, where the
/// first has the number that is installed, or where it has no file.
pub proof fn update_is_the_first_fitting_version(
    file: InstalledFile,
    url: String,
    doc: Vec<u8>,
    members: Seq<(Seq<char>, json::JsonModel)>,
    asking: CheckPhase,
    versions: Vec<ModrinthVersion>,
    titling: CheckPhase,
    reply: Reply<Vec<u8>>,
    last: CheckPhase,
    installed: Seq<char>,
    id: Seq<char>,
    k: int,
)
    requires
        json::json_read(doc@) == Ok::<json::JsonModel, Seq<char>>(
            json::JsonModel::Object(members),
        ),
        json::has_member(members, "version_number"@, json::JsonModel::Text(installed)),
        json::has_member(members, "project_id"@, json::JsonModel::Text(id)),
        check_leads_to(
            file,
            (CheckPhase::AskCurrent { url }),
            CheckEvent::Document(Reply::Received(doc)),
            asking,
        ),
        check_leads_to(file, asking, CheckEvent::Versions(Reply::Received(versions)), titling),
        titling is AskTitle ==> check_leads_to(file, titling, CheckEvent::Document(reply), last),
    ensures
        titling is AskTitle <==> versions.len() > 0 && versions@[0].version_number@ != installed
            && versions@[0].files.len() > 0,
        titling is Nothing <==> !(titling is AskTitle),
        titling is AskTitle ==> {
            let info = last->Update_0;
            let files = versions@[0].files@;
            &&& titling->AskTitle_url@ == "https://api.modrinth.com/v2/project/"@ + id
            &&& last is Update
            &&& info.kind@ == file.kind@
            &&& info.current_filename@ == file.filename@
            &&& info.current_path@ == file.path@
            &&& info.current_version@ == installed
            &&& info.latest_version@ == versions@[0].version_number@
            &&& info.project_id@ == id
            &&& 0 <= k < files.len() && files[k].primary && (forall|j: int|
                0 <= j < k ==> !(#[trigger] files[j]).primary) ==> info.latest_url@
                == files[k].url@ && info.latest_filename@ == files[k].filename@
            &&& (forall|j: int| 0 <= j < files.len() ==> !(#[trigger] files[j]).primary)
                ==> info.latest_url@ == files[0].url@ && info.latest_filename@
                == files[0].filename@
            &&& !(reply is Received) ==> info.title@ == id
        },
{
    let m = json::JsonModel::Object(members);
    json::lookup_gives_the_member(m, "version_number"@, json::JsonModel::Text(installed));
    json::lookup_gives_the_member(m, "project_id"@, json::JsonModel::Text(id));
    if versions.len() > 0 {
        let files = versions@[0].files@;
        modrinth::first_primary_file_is_taken(files, k);
        if files.len() > 0 {
            modrinth::primary_file_wins(files, 0);
        }
    }
}

/// An update is titled after its project: by the text under `title` in the answer about it.
pub proof fn update_is_titled_after_its_project(
    file: InstalledFile,
    phase: CheckPhase,
    about: Vec<u8>,
    members: Seq<(Seq<char>, json::JsonModel)>,
    title: Seq<char>,
    last: CheckPhase,
)
    requires
        phase is AskTitle,
        json::json_read(about@) == Ok::<json::JsonModel, Seq<char>>(
            json::JsonModel::Object(members),
        ),
        json::has_member(members, "title"@, json::JsonModel::Text(title)),
        check_leads_to(file, phase, CheckEvent::Document(Reply::Received(about)), last),
    ensures
        last is Update,
        last->Update_0.title@ == title,
{
    json::lookup_gives_the_member(
        json::JsonModel::Object(members),
        "title"@,
        json::JsonModel::Text(title),
    );
}

/// A file is asked for by its hash, and nothing comes of one that cannot be read or that the
/// service does not know.
pub proof fn file_is_asked_for_by_its_hash(
    file: InstalledFile,
    hashed: Result<String, String>,
    next: CheckPhase,
    reply: Reply<Vec<u8>>,
    after: CheckPhase,
)
    requires
        check_leads_to(file, CheckPhase::Hash, CheckEvent::Hashed(hashed), next),
        next is AskCurrent ==> check_leads_to(file, next, CheckEvent::Document(reply), after),
    ensures
        hashed is Err <==> next is Nothing,
        hashed is Ok ==> next is AskCurrent && next->AskCurrent_url@
            == "https://api.modrinth.com/v2/version_file/"@ + hashed->Ok_0@ + "?algorithm=sha1"@,
        hashed is Ok && !(reply is Received) ==> after is Nothing,
        hashed is Ok && reply is Received && json::json_read(reply->Received_0@) is Err
            ==> after is Nothing,
{
}

/// What each step of applying an update works on is what the update says: its address and
/// name for the new file, its path for the old one, and both names for the settings.
pub proof fn update_is_applied_as_it_says(
    update: UpdateInfo,
    phase: ApplyPhase,
    event: ApplyEvent,
    next: ApplyPhase,
)
    requires
        phase.expects(event),
        apply_leads_to(update, phase, event, next),
    ensures
        next is Download ==> next->url@ == update.latest_url@ && next->Download_filename@
            == update.latest_filename@ && phase is MakeFolder && next->Download_folder@
            == phase->MakeFolder_folder@,
        next is MakeFolder ==> Some(next->MakeFolder_folder@) == update_folder(update.kind@),
        next is RemoveOld ==> next->path@ == update.current_path@ && !event->same
            && event->present,
        phase is LookAtOld && event->same ==> !(next is RemoveOld) && !(next is Failed),
        next is ChangeSettings ==> next->ChangeSettings_old@ == update.current_filename@
            && next->new@ == update.latest_filename@ && next->file == update_settings(
            update.kind@,
        ) && update.kind@ != "mod"@,
        event is Done && event->Done_0 is Err <==> next is Failed && !(phase is Begin),
        phase is Begin && next is Failed <==> phase is Begin && update.kind@ != "mod"@
            && update.kind@ != "shader"@ && update.kind@ != "resourcepack"@,
{
    kinds_have_their_places(update.kind@);
}

/// Files are looked for by their extension, in whatever case it is written: a file without one
/// is passed over.
pub proof fn extensions_count_in_any_case(target: ScanTarget, a: Seq<char>, b: Seq<char>)
    requires
        text::ascii_lower(a) == text::ascii_lower(b),
    ensures
        target.takes(Some(a)) == target.takes(Some(b)),
        target.takes(Some(target.extension@)),
        target.takes(Some(a)) ==> text::ascii_lower(a) == text::ascii_lower(target.extension@),
        !target.takes(None),
{
}

} // verus!
