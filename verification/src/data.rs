//! Where the catalogue of profiles comes from, and how it is kept up to date.
use vstd::prelude::*;

use crate::json;
use crate::places;
use crate::profile::Profile;
use crate::text;
use crate::web;
use crate::web::Reply;

verus! {

/// The directory of a catalogue for development, from the environment variable that names
/// it: an empty name stands for none.
pub fn local_data_dir(variable: Option<String>) -> (r: Option<String>)
    ensures
        text::opt_view(r) == (match variable {
            Some(s) if s@.len() > 0 => Some(s@),
            _ => None,
        }),
{
    places::requested_dir(variable)
}

/// What came of reading a catalogue.
#[derive(Debug)]
pub enum CatalogueRead {
    /// The file could not be read, for a reason.
    Unread(String),
    /// It is no catalogue, for a reason.
    Unparsed(String),
    Parsed(Vec<Profile>),
}

/// Whether `r` is the profiles to offer, or why there are none.
pub open spec fn offers_profiles(
    local: Option<(String, CatalogueRead)>,
    cached: Option<CatalogueRead>,
    embedded: Result<Vec<Profile>, String>,
    r: Result<Vec<Profile>, String>,
) -> bool {
    match local {
        Some(l) => match l.1 {
            CatalogueRead::Unread(e) => r is Err && r->Err_0@ == "MMLE5_LOCAL_DATA read "@ + l.0@
                + ": "@ + e@,
            CatalogueRead::Unparsed(e) => r is Err && r->Err_0@ == "MMLE5_LOCAL_DATA parse "@
                + l.0@ + ": "@ + e@,
            CatalogueRead::Parsed(profiles) => r is Ok && r->Ok_0 == profiles,
        },
        None => match cached {
            Some(CatalogueRead::Parsed(profiles)) => r is Ok && r->Ok_0 == profiles,
            _ => match embedded {
                Ok(profiles) => r is Ok && r->Ok_0 == profiles,
                Err(e) => r is Err && r->Err_0@ == "parse profiles.yaml: "@ + e@,
            },
        },
    }
}

/// The profiles to offer. A catalogue for development, where there is one, counts alone and
/// must be in order; `local` holds its path and what came of reading it. Otherwise the
/// cached one counts where it can be used, and the one of the program where it cannot.
pub fn read_profiles(
    local: Option<(String, CatalogueRead)>,
    cached: Option<CatalogueRead>,
    embedded: Result<Vec<Profile>, String>,
) -> (r: Result<Vec<Profile>, String>)
    ensures
        offers_profiles(local, cached, embedded, r),
{
    match local {
        Some((path, CatalogueRead::Unread(e))) => Err(
            text::cat4("MMLE5_LOCAL_DATA read ", path.as_str(), ": ", e.as_str()),
        ),
        Some((path, CatalogueRead::Unparsed(e))) => Err(
            text::cat4("MMLE5_LOCAL_DATA parse ", path.as_str(), ": ", e.as_str()),
        ),
        Some((_, CatalogueRead::Parsed(profiles))) => Ok(profiles),
        None => match cached {
            Some(CatalogueRead::Parsed(profiles)) => Ok(profiles),
            _ => match embedded {
                Ok(profiles) => Ok(profiles),
                Err(e) => Err(text::cat2("parse profiles.yaml: ", e.as_str())),
            },
        },
    }
}

/// Which catalogue is in use.
#[derive(Debug)]
pub struct DataManifest {
    pub label: String,
    pub published_at: Option<String>,
    pub using_cache: bool,
}

/// The address of the release of the catalogue.
pub fn data_release_url() -> (r: &'static str)
    ensures
        r@
            == "https://api.github.com/repos/zlmitchell/minecraft-mod-like-im-five/releases/tags/data-latest"@,
{
    "https://api.github.com/repos/zlmitchell/minecraft-mod-like-im-five/releases/tags/data-latest"
}

/// Which catalogue is in use where there is one for development.
pub fn local_data_manifest(dir: &str) -> (r: DataManifest)
    ensures
        r.label@ == "local-dev: "@ + dir@,
        r.published_at is None,
        !r.using_cache,
{
    DataManifest {
        label: text::cat2("local-dev: ", dir),
        published_at: None,
        using_cache: false,
    }
}

/// Whether `r` says which catalogue is in use, or why that is not known.
pub open spec fn tells_catalogue(
    using_cache: bool,
    reply: Reply<Vec<u8>>,
    r: Result<DataManifest, String>,
) -> bool {
    match reply {
        Reply::Unreachable(e) => r is Err && r->Err_0@ == "data-latest api: "@ + e@,
        Reply::Status(_) => {
            &&& r is Ok
            &&& r->Ok_0.label@ == "embedded"@
            &&& r->Ok_0.published_at is None
            &&& r->Ok_0.using_cache == using_cache
        },
        Reply::Unreadable(e) => r is Err && r->Err_0@ == "data-latest json: "@ + e@,
        Reply::Received(bytes) => match json::json_read(bytes@) {
            Err(_) => r is Err && r->Err_0@ == web::undecodable("data-latest"@),
            Ok(m) => {
                &&& r is Ok
                &&& r->Ok_0.label@ == (match m.text_field("name"@) {
                    Some(s) => s,
                    None => "data-latest"@,
                })
                &&& text::opt_view(r->Ok_0.published_at) == m.text_field("published_at"@)
                &&& r->Ok_0.using_cache == using_cache
            },
        },
    }
}

/// Which catalogue is in use, from the reply to the request for its release. `using_cache`
/// says whether there is a cached one.
pub fn get_data_manifest(using_cache: bool, reply: Reply<Vec<u8>>) -> (r: Result<
    DataManifest,
    String,
>)
    ensures
        tells_catalogue(using_cache, reply, r),
{
    match reply {
        Reply::Unreachable(e) => Err(text::cat2("data-latest api: ", e.as_str())),
        Reply::Status(_) => Ok(
            DataManifest { label: "embedded".to_owned(), published_at: None, using_cache },
        ),
        Reply::Unreadable(e) => Err(text::cat2("data-latest json: ", e.as_str())),
        Reply::Received(bytes) => match json::parse(bytes.as_slice()) {
            Err(_) => Err(web::undecodable_body("data-latest")),
            Ok(m) => {
                let label = match m.get_text("name") {
                    Some(s) => s,
                    None => "data-latest".to_owned(),
                };
                Ok(
                    DataManifest {
                        label,
                        published_at: m.get_text("published_at"),
                        using_cache,
                    },
                )
            },
        },
    }
}

/// The files of the catalogue that are kept in the cache, in order.
pub fn data_files() -> (r: Vec<String>)
    ensures
        text::views(r@) == seq!["profiles.yaml"@, "frameworks.yaml"@],
{
    let mut r: Vec<String> = Vec::new();
    r.push("profiles.yaml".to_owned());
    r.push("frameworks.yaml".to_owned());
    assert(text::views(r@) =~= seq!["profiles.yaml"@, "frameworks.yaml"@]);
    r
}

/// The address of a file of the catalogue.
pub fn data_file_url(filename: &str) -> (r: String)
    ensures
        r@
            == "https://github.com/zlmitchell/minecraft-mod-like-im-five/releases/download/data-latest/"@
            + filename@,
{
    text::cat2(
        "https://github.com/zlmitchell/minecraft-mod-like-im-five/releases/download/data-latest/",
        filename,
    )
}

/// What to write to the cache for a file of the catalogue.
pub open spec fn cached_text(reply: Reply<String>) -> Option<Seq<char>> {
    match reply {
        Reply::Received(body) if json::yaml_readable(body@) => Some(body@),
        _ => None,
    }
}

/// What to write to the cache for a file of the catalogue: the text that was received,
/// where one was and it can be read. Otherwise the cache stays as it is.
pub fn text_to_cache(reply: Reply<String>) -> (r: Option<String>)
    ensures
        text::opt_view(r) == cached_text(reply),
{
    match reply {
        Reply::Received(body) => {
            if json::yaml_parses(body.as_str()) {
                Some(body)
            } else {
                None
            }
        },
        _ => None,
    }
}

/// Whether the cache was refreshed: whether any of its files was written.
pub fn any_written(written: &Vec<bool>) -> (r: bool)
    ensures
        r == written@.contains(true),
{
    let mut i: usize = 0;
    while i < written.len()
        invariant
            i <= written.len(),
            forall|j: int| 0 <= j < i ==> !written@[j],
        decreases written.len() - i,
    {
        if written[i] {
            assert(written@[i as int] == true);
            return true;
        }
        i = i + 1;
    }
    false
}

/// A catalogue for development counts alone, in order or not; otherwise the cached one counts
/// wherever it can be used; and the one of the program counts only where neither does.
pub proof fn catalogues_count_in_order(
    local: Option<(String, CatalogueRead)>,
    cached: Option<CatalogueRead>,
    embedded: Result<Vec<Profile>, String>,
    r: Result<Vec<Profile>, String>,
)
    requires
        offers_profiles(local, cached, embedded, r),
    ensures
        local is Some ==> (r is Ok <==> local->Some_0.1 is Parsed),
        local is Some && r is Ok ==> r->Ok_0 == local->Some_0.1->Parsed_0,
        local is None && cached is Some && cached->Some_0 is Parsed ==> r is Ok && r->Ok_0
            == cached->Some_0->Parsed_0,
        local is None && !(cached is Some && cached->Some_0 is Parsed) ==> (r is Ok
            <==> embedded is Ok) && (r is Ok ==> r->Ok_0 == embedded->Ok_0),
{
}

/// The catalogue in use is called what its release is called as `name`, and was published when
/// that release says as `published_at`.
pub proof fn catalogue_is_named_after_its_release(
    using_cache: bool,
    bytes: Vec<u8>,
    members: Seq<(Seq<char>, json::JsonModel)>,
    name: Seq<char>,
    published: Seq<char>,
    r: Result<DataManifest, String>,
)
    requires
        json::json_read(bytes@) == Ok::<json::JsonModel, Seq<char>>(
            json::JsonModel::Object(members),
        ),
        json::has_member(members, "name"@, json::JsonModel::Text(name)),
        json::has_member(members, "published_at"@, json::JsonModel::Text(published)),
        tells_catalogue(using_cache, Reply::Received(bytes), r),
    ensures
        r is Ok,
        r->Ok_0.label@ == name,
        r->Ok_0.published_at is Some,
        r->Ok_0.published_at->Some_0@ == published,
        r->Ok_0.using_cache == using_cache,
{
    json::text_member_is_read(members, "name"@, json::JsonModel::Text(name));
    json::text_member_is_read(members, "published_at"@, json::JsonModel::Text(published));
}

/// A file of the cache is replaced by nothing but a text that was received and can be read,
/// and by that text as it is.
pub proof fn only_readable_text_is_cached(reply: Reply<String>)
    ensures
        cached_text(reply) is Some <==> reply is Received && json::yaml_readable(
            reply->Received_0@,
        ),
        cached_text(reply) is Some ==> cached_text(reply)->Some_0 == reply->Received_0@,
{
}

} // verus!
