//! Profiles: what the user can choose to install.
use vstd::prelude::*;

use crate::text;

verus! {

/// A mod, a shader or a resource pack of a profile, and where it comes from.
///
/// `source` names the provider. `modrinth` needs `slug`; `url` needs `url` and
/// `filename`; `curseforge`, for mods alone, needs `file_id` and `filename`. `default`
/// marks a shader or a resource pack to switch on after the install.
#[derive(Debug)]
pub struct ItemRef {
    pub source: String,
    pub slug: Option<String>,
    pub url: Option<String>,
    pub filename: Option<String>,
    pub file_id: Option<u64>,
    pub role: Option<String>,
    pub default: bool,
}

/// A modpack that a profile installs as a whole.
#[derive(Debug)]
pub struct ModpackRef {
    pub source: String,
    pub slug: String,
}

/// One profile of the catalogue.
#[derive(Debug)]
pub struct Profile {
    pub id: String,
    pub name: String,
    pub short_description: String,
    /// A modpack pins its own version, so its profile needs none.
    pub minecraft_version: Option<String>,
    pub loader: Option<String>,
    pub color: Option<String>,
    pub accent: Option<String>,
    /// A block name of the game or a `data:` address of a picture.
    pub icon: Option<String>,
    pub not_implemented_in_phase_1: bool,
    pub java_xmx_gb: Option<u32>,
    pub modpack: Option<ModpackRef>,
    /// Jars that go into the mods folder after a modpack, which could not bring them.
    pub modpack_supplements: Vec<ItemRef>,
    pub mods: Vec<ItemRef>,
    pub shaders: Vec<ItemRef>,
    pub resource_packs: Vec<ItemRef>,
}

/// How severe a message to the user is.
#[derive(Clone, Copy, Debug, PartialEq, Eq, Structural)]
pub enum Level {
    Info,
    Done,
    Warn,
}

/// One message about the progress of the work.
#[derive(Debug)]
pub struct Progress {
    pub message: String,
    pub level: Level,
}

impl Progress {
    /// Whether this is the message `message` at `level`.
    pub open spec fn is(self, message: Seq<char>, level: Level) -> bool {
        self.message@ == message && self.level == level
    }
}

/// Whether `p` is the message `message` at `level`.
pub open spec fn says(p: Option<Progress>, message: Seq<char>, level: Level) -> bool {
    p is Some && p->Some_0.is(message, level)
}

/// A message at `level`.
pub fn say(message: String, level: Level) -> (p: Option<Progress>)
    ensures
        says(p, message@, level),
{
    Some(Progress { message, level })
}

/// The messages of a list with their levels, in order.
pub open spec fn said(v: Seq<Progress>) -> Seq<(Seq<char>, Level)> {
    Seq::new(v.len(), |i: int| (v[i].message@, v[i].level))
}

/// No message.
pub fn silence() -> (v: Vec<Progress>)
    ensures
        said(v@) == Seq::<(Seq<char>, Level)>::empty(),
{
    let v: Vec<Progress> = Vec::new();
    assert(said(v@) =~= Seq::<(Seq<char>, Level)>::empty());
    v
}

/// A list of one message.
pub fn one(message: String, level: Level) -> (v: Vec<Progress>)
    ensures
        said(v@) == seq![(message@, level)],
{
    let mut v: Vec<Progress> = Vec::new();
    let ghost m = message@;
    v.push(Progress { message, level });
    assert(said(v@) =~= seq![(m, level)]);
    v
}

/// A list of two messages.
pub fn two(first: String, level: Level, second: String, then_level: Level) -> (v: Vec<Progress>)
    ensures
        said(v@) == seq![(first@, level), (second@, then_level)],
{
    let mut v: Vec<Progress> = Vec::new();
    let ghost m = first@;
    let ghost n = second@;
    v.push(Progress { message: first, level });
    v.push(Progress { message: second, level: then_level });
    assert(said(v@) =~= seq![(m, level), (n, then_level)]);
    v
}

/// The word that stands for a level in the message that goes out.
pub fn level_name(level: Level) -> (r: &'static str)
    ensures
        r@ == (match level {
            Level::Info => "info"@,
            Level::Done => "ok"@,
            Level::Warn => "warn"@,
        }),
{
    match level {
        Level::Info => "info",
        Level::Done => "ok",
        Level::Warn => "warn",
    }
}

/// What an item is called: its slug, else its file name, else its source.
pub open spec fn display_name(
    source: Seq<char>,
    slug: Option<Seq<char>>,
    filename: Option<Seq<char>>,
) -> Seq<char> {
    match slug {
        Some(s) => s,
        None => match filename {
            Some(f) => f,
            None => source,
        },
    }
}

/// What an item is called.
pub fn ref_display_name(source: &str, slug: &Option<String>, filename: &Option<String>) -> (r:
    String)
    ensures
        r@ == display_name(source@, text::opt_view(*slug), text::opt_view(*filename)),
{
    match slug {
        Some(s) => s.clone(),
        None => match filename {
            Some(f) => f.clone(),
            None => source.to_owned(),
        },
    }
}

/// Where the profile `id` stands first among `profiles`; their number where it does
/// not.
pub open spec fn profile_index(profiles: Seq<Profile>, id: Seq<char>) -> int
    decreases profiles.len(),
{
    if profiles.len() == 0 || profiles[0].id@ == id {
        0
    } else {
        1 + profile_index(profiles.skip(1), id)
    }
}

/// The index is one of a profile with that name, or the number of profiles.
pub proof fn lemma_profile_index(profiles: Seq<Profile>, id: Seq<char>)
    ensures
        0 <= profile_index(profiles, id) <= profiles.len(),
        profile_index(profiles, id) < profiles.len() ==> profiles[profile_index(profiles, id)].id@
            == id,
        forall|j: int|
            0 <= j < profile_index(profiles, id) ==> (#[trigger] profiles[j]).id@ != id,
    decreases profiles.len(),
{
    if profiles.len() > 0 && profiles[0].id@ != id {
        lemma_profile_index(profiles.skip(1), id);
        assert forall|j: int| 0 <= j < profile_index(profiles, id) implies (
        #[trigger] profiles[j]).id@ != id by {
            if j > 0 {
                assert(profiles[j] == profiles.skip(1)[j - 1]);
            }
        }
    }
}

/// The first profile with the given name.
pub fn find_profile(profiles: Vec<Profile>, profile_id: &str) -> (r: Result<Profile, String>)
    ensures
        match r {
            Ok(p) => {
                &&& profile_index(profiles@, profile_id@) < profiles.len()
                &&& p == profiles@[profile_index(profiles@, profile_id@)]
            },
            Err(e) => {
                &&& profile_index(profiles@, profile_id@) == profiles.len()
                &&& e@ == "Unknown profile: "@ + profile_id@
            },
        },
{
    let mut profiles = profiles;
    let ghost all = profiles@;
    let mut i: usize = 0;
    proof {
        lemma_profile_index(all, profile_id@);
        assert(all.skip(0) =~= all);
    }
    while i < profiles.len() && !text::same(profiles[i].id.as_str(), profile_id)
        invariant
            profiles@ == all,
            i <= all.len(),
            profile_index(all, profile_id@) == i + profile_index(all.skip(i as int), profile_id@),
        decreases all.len() - i,
    {
        assert(all.skip(i as int).skip(1) =~= all.skip(i + 1));
        i = i + 1;
    }
    if i == profiles.len() {
        Err(text::cat2("Unknown profile: ", profile_id))
    } else {
        Ok(profiles.swap_remove(i))
    }
}

/// An item is called by its slug where it has one, by its file where it has that alone, and
/// by its source where it has neither.
pub proof fn items_are_called_by_their_slug(
    source: Seq<char>,
    slug: Seq<char>,
    filename: Seq<char>,
    any: Option<Seq<char>>,
)
    ensures
        display_name(source, Some(slug), any) == slug,
        display_name(source, None, Some(filename)) == filename,
        display_name(source, None, None) == source,
{
}

} // verus!
