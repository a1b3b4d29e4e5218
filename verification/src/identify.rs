//! What a jar is: the project and version that Modrinth knows its contents as.
use vstd::prelude::*;

use crate::cache;
use crate::json;
use crate::json::{Json, JsonModel};
use crate::modrinth;
use crate::text;
use crate::web;

verus! {

/// What a jar is.
#[derive(Debug)]
pub struct JarIdentity {
    pub matched: bool,
    pub title: Option<String>,
    pub version_number: Option<String>,
    pub loaders: Vec<String>,
    pub game_versions: Vec<String>,
    pub project_id: Option<String>,
}

impl JarIdentity {
    /// Whether nothing is known of the jar.
    pub open spec fn is_unknown(self) -> bool {
        &&& !self.matched
        &&& self.title is None
        &&& self.version_number is None
        &&& self.loaders.len() == 0
        &&& self.game_versions.len() == 0
        &&& self.project_id is None
    }

    /// Whether this is what the document `m` says of the jar, with `title` for the title
    /// of the project.
    pub open spec fn describes(self, m: JsonModel, title: Option<Seq<char>>) -> bool {
        &&& self.matched
        &&& text::opt_view(self.title) == title
        &&& text::opt_view(self.version_number) == m.text_field("version_number"@)
        &&& text::views(self.loaders@) == m.texts_field("loaders"@)
        &&& text::views(self.game_versions@) == m.texts_field("game_versions"@)
        &&& text::opt_view(self.project_id) == m.text_field("project_id"@)
    }
}

/// What is being done to identify a jar, and how it ends.
#[derive(Debug)]
pub enum IdentifyPhase {
    /// Read the file.
    Read,
    /// Ask which version holds the file.
    Ask { url: String },
    /// Read the body of the answer.
    ReadAnswer,
    /// Ask for the project.
    AskProject { url: String, version: Json },
    Identified(JarIdentity),
    Failed(String),
}

/// What came of what was being done.
#[derive(Debug)]
pub enum IdentifyEvent {
    /// The contents of the file, or why it could not be read.
    File(Result<Vec<u8>, String>),
    /// The status of the answer and how it is shown, or why there was none.
    Status(Result<(u16, String), String>),
    /// The body of the answer, or why it could not be read.
    Body(Result<Vec<u8>, String>),
    /// The body of the answer about the project, whatever its status, where there is one.
    Project(Option<Vec<u8>>),
}

impl IdentifyPhase {
    /// Whether the event is one that this phase leads to.
    pub open spec fn expects(self, event: IdentifyEvent) -> bool {
        match self {
            IdentifyPhase::Read => event is File,
            IdentifyPhase::Ask { .. } => event is Status,
            IdentifyPhase::ReadAnswer => event is Body,
            IdentifyPhase::AskProject { .. } => event is Project,
            IdentifyPhase::Identified(_) | IdentifyPhase::Failed(_) => false,
        }
    }

    /// Whether this ends the work with the message `e`.
    pub open spec fn fails(self, e: Seq<char>) -> bool {
        self is Failed && self->Failed_0@ == e
    }

    /// How far the work is.
    pub open spec fn progress(self) -> int {
        match self {
            IdentifyPhase::Read => 0,
            IdentifyPhase::Ask { .. } => 1,
            IdentifyPhase::ReadAnswer => 2,
            IdentifyPhase::AskProject { .. } => 3,
            IdentifyPhase::Identified(_) | IdentifyPhase::Failed(_) => 4,
        }
    }
}

/// The title of a project in a body, where there is one.
pub open spec fn title_in(body: Option<Vec<u8>>) -> Option<Seq<char>> {
    match body {
        Some(bytes) => match json::json_read(bytes@) {
            Ok(m) => m.text_field("title"@),
            Err(_) => None,
        },
        None => None,
    }
}

/// The phase after `phase` on `event`, for the jar at `path`.
pub open spec fn identify_leads_to(
    path: Seq<char>,
    phase: IdentifyPhase,
    event: IdentifyEvent,
    next: IdentifyPhase,
) -> bool {
    match phase {
        IdentifyPhase::Read => match event->File_0 {
            Err(e) => next.fails("read "@ + path + ": "@ + e@),
            Ok(bytes) => next is Ask && next->Ask_url@
                == "https://api.modrinth.com/v2/version_file/"@ + cache::hex_of(
                cache::sha1_of(bytes@),
            ) + "?algorithm=sha1"@,
        },
        IdentifyPhase::Ask { .. } => match event->Status_0 {
            Err(e) => next.fails("hash lookup: "@ + e@),
            Ok(status) => if status.0 == 404 {
                next is Identified && next->Identified_0.is_unknown()
            } else if 200 <= status.0 < 300 {
                next is ReadAnswer
            } else {
                next.fails("hash lookup: HTTP "@ + status.1@)
            },
        },
        IdentifyPhase::ReadAnswer => match event->Body_0 {
            Err(e) => next.fails("hash lookup json: "@ + e@),
            Ok(bytes) => match json::json_read(bytes@) {
                Err(_) => next.fails(web::undecodable("hash lookup"@)),
                Ok(m) => match m.text_field("project_id"@) {
                    Some(id) => {
                        &&& next is AskProject
                        &&& next->AskProject_url@ == "https://api.modrinth.com/v2/project/"@ + id
                        &&& next->version@ == m
                    },
                    None => next is Identified && next->Identified_0.describes(m, None),
                },
            },
        },
        IdentifyPhase::AskProject { version, .. } => next is Identified
            && next->Identified_0.describes(version@, title_in(event->Project_0)),
        IdentifyPhase::Identified(_) | IdentifyPhase::Failed(_) => false,
    }
}

/// What a document says of a jar.
fn identity(m: &Json, title: Option<String>) -> (r: JarIdentity)
    ensures
        r.describes(m@, text::opt_view(title)),
{
    JarIdentity {
        matched: true,
        title,
        version_number: m.get_text("version_number"),
        loaders: m.get_texts("loaders"),
        game_versions: m.get_texts("game_versions"),
        project_id: m.get_text("project_id"),
    }
}

/// The title of a project in a body, where there is one.
fn project_title(body: Option<Vec<u8>>) -> (r: Option<String>)
    ensures
        text::opt_view(r) == title_in(body),
{
    match body {
        Some(bytes) => match json::parse(bytes.as_slice()) {
            Ok(m) => m.get_text("title"),
            Err(_) => None,
        },
        None => None,
    }
}

/// What to do next to find out what the jar at `path` is. A jar that Modrinth does not know
/// is no error.
pub fn identify_jar(path: &str, phase: IdentifyPhase, event: IdentifyEvent) -> (next: IdentifyPhase)
    requires
        phase.expects(event),
    ensures
        identify_leads_to(path@, phase, event, next),
{
    match (phase, event) {
        (IdentifyPhase::Read, IdentifyEvent::File(Err(e))) => IdentifyPhase::Failed(
            text::cat4("read ", path, ": ", e.as_str()),
        ),
        (IdentifyPhase::Read, IdentifyEvent::File(Ok(bytes))) => {
            let hash = cache::hash_sha1_of(bytes.as_slice());
            IdentifyPhase::Ask { url: modrinth::hash_lookup_url(hash.as_str()) }
        },
        (IdentifyPhase::Ask { .. }, IdentifyEvent::Status(Err(e))) => IdentifyPhase::Failed(
            text::cat2("hash lookup: ", e.as_str()),
        ),
        (IdentifyPhase::Ask { .. }, IdentifyEvent::Status(Ok((status, shown)))) => {
            if status == 404 {
                IdentifyPhase::Identified(
                    JarIdentity {
                        matched: false,
                        title: None,
                        version_number: None,
                        loaders: Vec::new(),
                        game_versions: Vec::new(),
                        project_id: None,
                    },
                )
            } else if 200 <= status && status < 300 {
                IdentifyPhase::ReadAnswer
            } else {
                IdentifyPhase::Failed(text::cat2("hash lookup: HTTP ", shown.as_str()))
            }
        },
        (IdentifyPhase::ReadAnswer, IdentifyEvent::Body(Err(e))) => IdentifyPhase::Failed(
            text::cat2("hash lookup json: ", e.as_str()),
        ),
        (IdentifyPhase::ReadAnswer, IdentifyEvent::Body(Ok(bytes))) => {
            match json::parse(bytes.as_slice()) {
                Err(_) => IdentifyPhase::Failed(web::undecodable_body("hash lookup")),
                Ok(m) => match m.get_text("project_id") {
                    Some(id) => IdentifyPhase::AskProject {
                        url: modrinth::project_url(id.as_str()),
                        version: m,
                    },
                    None => IdentifyPhase::Identified(identity(&m, None)),
                },
            }
        },
        (IdentifyPhase::AskProject { version, .. }, IdentifyEvent::Project(body)) => {
            IdentifyPhase::Identified(identity(&version, project_title(body)))
        },
        (other, _) => other,
    }
}

/// Every step goes forward, so that a jar is identified after four steps at most.
pub proof fn identifying_goes_forward(
    path: Seq<char>,
    phase: IdentifyPhase,
    event: IdentifyEvent,
    next: IdentifyPhase,
)
    requires
        phase.expects(event),
        identify_leads_to(path, phase, event, next),
    ensures
        phase.progress() < next.progress() <= 4,
{
}

/// What Modrinth's answer says of a jar is what the jar is said to be: the texts that the
/// answer gives under `version_number` and `project_id`, and all texts, in order, of its lists
/// of `loaders` and of `game_versions`. `mid` is what follows the answer, and `last` what
/// follows the project where that is asked for.
pub proof fn jar_is_what_the_answer_says(
    path: Seq<char>,
    body: Vec<u8>,
    members: Seq<(Seq<char>, JsonModel)>,
    mid: IdentifyPhase,
    project: Option<Vec<u8>>,
    last: IdentifyPhase,
    v: JsonModel,
)
    requires
        json::json_read(body@) == Ok::<JsonModel, Seq<char>>(JsonModel::Object(members)),
        identify_leads_to(path, IdentifyPhase::ReadAnswer, IdentifyEvent::Body(Ok(body)), mid),
        if mid is AskProject {
            identify_leads_to(path, mid, IdentifyEvent::Project(project), last)
        } else {
            last == mid
        },
    ensures
        last is Identified,
        last->Identified_0.matched,
        json::has_member(members, "game_versions"@, v) && v is Array ==> text::views(
            last->Identified_0.game_versions@,
        ) == v->Array_0.filter(|m: JsonModel| m is Text).map_values(|m: JsonModel| m->Text_0),
        json::has_member(members, "game_versions"@, v) && v is Array ==> forall|i: int|
            0 <= i < v->Array_0.len() && (#[trigger] v->Array_0[i]) is Text ==> text::views(
                last->Identified_0.game_versions@,
            ).contains(v->Array_0[i]->Text_0),
        json::has_member(members, "loaders"@, v) && v is Array ==> text::views(
            last->Identified_0.loaders@,
        ) == v->Array_0.filter(|m: JsonModel| m is Text).map_values(|m: JsonModel| m->Text_0),
        json::has_member(members, "version_number"@, v) && v is Text ==> text::opt_view(
            last->Identified_0.version_number,
        ) == Some(v->Text_0),
        json::has_member(members, "project_id"@, v) && v is Text ==> text::opt_view(
            last->Identified_0.project_id,
        ) == Some(v->Text_0),
        json::lacks_member(members, "game_versions"@) ==> last->Identified_0.game_versions.len()
            == 0,
        json::lacks_member(members, "loaders"@) ==> last->Identified_0.loaders.len() == 0,
        json::lacks_member(members, "version_number"@) ==> last->Identified_0.version_number
            is None,
        json::lacks_member(members, "project_id"@) ==> last->Identified_0.project_id is None
            && last->Identified_0.title is None,
{
    let m = JsonModel::Object(members);
    json::member_texts_are_read(members, "game_versions"@, v);
    json::member_texts_are_read(members, "loaders"@, v);
    json::lookup_gives_the_member(m, "version_number"@, v);
    json::lookup_gives_the_member(m, "project_id"@, v);
    if v is Array {
        json::texts_are_those_in_the_list(v->Array_0);
        json::lookup_gives_the_member(m, "game_versions"@, v);
    }
    let jar = last->Identified_0;
    assert(jar.game_versions.len() == text::views(jar.game_versions@).len());
    assert(jar.loaders.len() == text::views(jar.loaders@).len());
}

/// The title of a jar is the one that Modrinth's answer about its project gives under
/// `title`; the project is asked for under the name that the answer about the jar gives. A jar
/// whose project cannot be had is identified without a title.
pub proof fn jar_is_titled_after_its_project(
    path: Seq<char>,
    body: Vec<u8>,
    members: Seq<(Seq<char>, JsonModel)>,
    id: Seq<char>,
    mid: IdentifyPhase,
    project: Option<Vec<u8>>,
    last: IdentifyPhase,
    about: Seq<(Seq<char>, JsonModel)>,
    title: Seq<char>,
)
    requires
        json::json_read(body@) == Ok::<JsonModel, Seq<char>>(JsonModel::Object(members)),
        json::has_member(members, "project_id"@, JsonModel::Text(id)),
        identify_leads_to(path, IdentifyPhase::ReadAnswer, IdentifyEvent::Body(Ok(body)), mid),
        identify_leads_to(path, mid, IdentifyEvent::Project(project), last),
    ensures
        mid is AskProject,
        mid->AskProject_url@ == "https://api.modrinth.com/v2/project/"@ + id,
        last is Identified,
        project is Some && json::json_read(project->Some_0@) == Ok::<JsonModel, Seq<char>>(
            JsonModel::Object(about),
        ) && json::has_member(about, "title"@, JsonModel::Text(title)) ==> text::opt_view(
            last->Identified_0.title,
        ) == Some(title),
        project is None ==> last->Identified_0.title is None,
{
    json::lookup_gives_the_member(JsonModel::Object(members), "project_id"@, JsonModel::Text(id));
    json::lookup_gives_the_member(JsonModel::Object(about), "title"@, JsonModel::Text(title));
}

/// A jar is asked for by the SHA-1 of its contents: two files are asked for alike exactly
/// where their hashes are the same.
pub proof fn jar_is_asked_for_by_its_contents(
    path_a: Seq<char>,
    a: Vec<u8>,
    next_a: IdentifyPhase,
    path_b: Seq<char>,
    b: Vec<u8>,
    next_b: IdentifyPhase,
)
    requires
        identify_leads_to(path_a, IdentifyPhase::Read, IdentifyEvent::File(Ok(a)), next_a),
        identify_leads_to(path_b, IdentifyPhase::Read, IdentifyEvent::File(Ok(b)), next_b),
    ensures
        next_a is Ask && next_b is Ask,
        next_a->Ask_url@ == next_b->Ask_url@ <==> cache::hex_of(cache::sha1_of(a@))
            == cache::hex_of(cache::sha1_of(b@)),
        next_a->Ask_url@ == "https://api.modrinth.com/v2/version_file/"@ + cache::hex_of(
            cache::sha1_of(a@),
        ) + "?algorithm=sha1"@,
{
    let front = "https://api.modrinth.com/v2/version_file/"@;
    let rest = "?algorithm=sha1"@;
    let x = cache::hex_of(cache::sha1_of(a@));
    let y = cache::hex_of(cache::sha1_of(b@));
    assert(next_a->Ask_url@ == front + x + rest);
    if front + x + rest == front + y + rest {
        assert((front + x + rest).len() == front.len() + x.len() + rest.len());
        assert(x =~= (front + x + rest).subrange(front.len() as int, front.len() + x.len() as int));
        assert(y =~= (front + y + rest).subrange(front.len() as int, front.len() + y.len() as int));
    }
}

/// A jar that the service does not know is no error: nothing is known of it. Any other status
/// than a success is one.
pub proof fn status_decides(
    path: Seq<char>,
    url: String,
    status: u16,
    shown: String,
    next: IdentifyPhase,
)
    requires
        identify_leads_to(
            path,
            (IdentifyPhase::Ask { url }),
            IdentifyEvent::Status(Ok((status, shown))),
            next,
        ),
    ensures
        status == 404 <==> next is Identified,
        next is Identified ==> !next->Identified_0.matched && next->Identified_0.title is None
            && next->Identified_0.game_versions.len() == 0,
        next is ReadAnswer <==> 200 <= status <= 299,
        next is Failed <==> status != 404 && !(200 <= status <= 299),
{
}

} // verus!
