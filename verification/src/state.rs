//! The record of the last installation, which stands beside the mods: which profile they
//! belong to, and what it was installed for.
use vstd::prelude::*;

use crate::clock;
use crate::json;
use crate::json::{text_member, Json, JsonModel, Member};
use crate::order;
use crate::profile::Profile;
use crate::text;

verus! {

/// What is recorded of an installation. Only a modpack has a version of its own.
#[derive(Debug)]
pub struct InstallState {
    pub profile_id: String,
    pub profile_name: String,
    pub mc_version: Option<String>,
    pub loader: Option<String>,
    pub loader_version: Option<String>,
    pub modpack_version: Option<String>,
    pub installed_at: String,
}

/// A text, or nothing, as a value of a document.
pub open spec fn optional(s: Option<Seq<char>>) -> JsonModel {
    match s {
        Some(t) => JsonModel::Text(t),
        None => JsonModel::Null,
    }
}

impl InstallState {
    /// The members of the record.
    pub open spec fn members(self) -> Seq<(Seq<char>, JsonModel)> {
        seq![
            ("installed_at"@, JsonModel::Text(self.installed_at@)),
            ("loader"@, optional(text::opt_view(self.loader))),
            ("loader_version"@, optional(text::opt_view(self.loader_version))),
            ("mc_version"@, optional(text::opt_view(self.mc_version))),
            ("modpack_version"@, optional(text::opt_view(self.modpack_version))),
            ("profile_id"@, JsonModel::Text(self.profile_id@)),
            ("profile_name"@, JsonModel::Text(self.profile_name@)),
        ]
    }

    /// The record as a document.
    pub open spec fn document(self) -> JsonModel {
        JsonModel::Object(self.members())
    }

    /// Whether this is the record of an installation of `p` at the second `secs`.
    pub open spec fn records(
        self,
        p: Profile,
        mc_version: Seq<char>,
        loader: Seq<char>,
        loader_version: Seq<char>,
        modpack_version: Option<Seq<char>>,
        secs: int,
    ) -> bool {
        &&& self.profile_id@ == p.id@
        &&& self.profile_name@ == p.name@
        &&& text::opt_view(self.mc_version) == Some(mc_version)
        &&& text::opt_view(self.loader) == Some(loader)
        &&& text::opt_view(self.loader_version) == Some(loader_version)
        &&& text::opt_view(self.modpack_version) == modpack_version
        &&& self.installed_at@ == clock::stamp(clock::time_of(secs), ':')
    }
}

/// The name of the file that holds the record, in the folder for mods.
pub fn state_filename() -> (r: String)
    ensures
        r@ == ".mmle5-state.json"@,
{
    ".mmle5-state.json".to_owned()
}

/// The record of an installation of a profile at the second `secs`, counted from 1970.
pub fn install_state(
    p: &Profile,
    mc_version: &str,
    loader: &str,
    loader_version: &str,
    modpack_version: Option<&str>,
    secs: u64,
) -> (r: InstallState)
    requires
        clock::year_fits(secs as int),
    ensures
        r.records(
            *p,
            mc_version@,
            loader@,
            loader_version@,
            text::opt_str_view(modpack_version),
            secs as int,
        ),
{
    InstallState {
        profile_id: p.id.clone(),
        profile_name: p.name.clone(),
        mc_version: Some(mc_version.to_owned()),
        loader: Some(loader.to_owned()),
        loader_version: Some(loader_version.to_owned()),
        modpack_version: match modpack_version {
            Some(v) => Some(v.to_owned()),
            None => None,
        },
        installed_at: clock::rfc3339_now(secs),
    }
}

/// The names of the members stand in order, and the record nests no deeper than itself.
proof fn lemma_document(s: InstallState)
    ensures
        json::names_in_order(s.members()),
        json::ordered(s.document()),
        json::plain(s.document(), 127),
{
    reveal_strlit("installed_at");
    reveal_strlit("loader");
    reveal_strlit("loader_version");
    reveal_strlit("mc_version");
    reveal_strlit("modpack_version");
    reveal_strlit("profile_id");
    reveal_strlit("profile_name");
    let ms = s.members();
    reveal_with_fuel(order::less, 10);
    assert(order::less("loader"@, "loader_version"@));
    assert(order::less("mc_version"@, "modpack_version"@));
    assert(order::less("profile_id"@, "profile_name"@));
    assert(json::names_in_order(ms));
    assert forall|i: int| 0 <= i < ms.len() implies json::plain((#[trigger] ms[i]).1, 126)
        && json::ordered(ms[i].1) by {
        assert(ms[i].1 is Text || ms[i].1 is Null);
    }
}

/// The record gives back what was put into it: who reads it finds the profile that the
/// mods belong to, and what it was installed for.
pub proof fn record_tells_the_installation(s: InstallState)
    ensures
        s.document().text_field("profile_id"@) == Some(s.profile_id@),
        s.document().text_field("profile_name"@) == Some(s.profile_name@),
        s.document().text_field("mc_version"@) == text::opt_view(s.mc_version),
        s.document().text_field("loader"@) == text::opt_view(s.loader),
        s.document().text_field("loader_version"@) == text::opt_view(s.loader_version),
        s.document().text_field("modpack_version"@) == text::opt_view(s.modpack_version),
        s.document().text_field("installed_at"@) == Some(s.installed_at@),
{
    let ms = s.members();
    lemma_document(s);
    assert forall|i: int| 0 <= i < ms.len() implies json::member_index(
        ms,
        (#[trigger] ms[i]).0,
    ) == i by {
        let k = json::member_index(ms, ms[i].0);
        json::lemma_member_index(ms, ms[i].0);
        order::lemma_less_total(ms[i].0, ms[i].0);
        if k < i {
            assert(order::less(ms[k].0, ms[i].0));
        }
        if k > i {
            assert(ms[i].0 != ms[i].0);
        }
    }
    assert(json::member_index(ms, ms[0].0) == 0);
    assert(json::member_index(ms, ms[1].0) == 1);
    assert(json::member_index(ms, ms[2].0) == 2);
    assert(json::member_index(ms, ms[3].0) == 3);
    assert(json::member_index(ms, ms[4].0) == 4);
    assert(json::member_index(ms, ms[5].0) == 5);
    assert(json::member_index(ms, ms[6].0) == 6);
}

/// A text, or nothing, as a member of an object.
fn optional_member(name: &str, value: &Option<String>) -> (m: Member)
    ensures
        m.name@ == name@,
        m.value@ == optional(text::opt_view(*value)),
{
    match value {
        Some(s) => text_member(name, s.as_str()),
        None => Member { name: name.to_owned(), value: Json::Null },
    }
}

/// The bytes of the record, which are read back as it.
pub fn state_bytes(s: &InstallState) -> (r: Result<Vec<u8>, String>)
    ensures
        r is Ok,
        r->Ok_0@ == json::pretty_bytes(s.document()),
        json::reads_as(r->Ok_0@, s.document()),
{
    let mut members: Vec<Member> = Vec::new();
    members.push(text_member("installed_at", s.installed_at.as_str()));
    members.push(optional_member("loader", &s.loader));
    members.push(optional_member("loader_version", &s.loader_version));
    members.push(optional_member("mc_version", &s.mc_version));
    members.push(optional_member("modpack_version", &s.modpack_version));
    members.push(text_member("profile_id", s.profile_id.as_str()));
    members.push(text_member("profile_name", s.profile_name.as_str()));
    proof {
        json::lemma_object_model(members);
        assert(json::member_models(members@) =~= s.members());
        lemma_document(*s);
    }
    json::pretty(Json::Object(members))
}

/// What is recorded of an installation is read back from the record as it was: the profile, the
/// versions that it was installed for, and when that was.
pub proof fn record_is_of_the_installation(
    s: InstallState,
    p: Profile,
    mc_version: Seq<char>,
    loader: Seq<char>,
    loader_version: Seq<char>,
    modpack_version: Option<Seq<char>>,
    secs: int,
)
    requires
        s.records(p, mc_version, loader, loader_version, modpack_version, secs),
    ensures
        s.document().text_field("profile_id"@) == Some(p.id@),
        s.document().text_field("profile_name"@) == Some(p.name@),
        s.document().text_field("mc_version"@) == Some(mc_version),
        s.document().text_field("loader"@) == Some(loader),
        s.document().text_field("loader_version"@) == Some(loader_version),
        s.document().text_field("modpack_version"@) == modpack_version,
        s.document().text_field("installed_at"@) == Some(
            clock::stamp(clock::time_of(secs), ':'),
        ),
{
    record_tells_the_installation(s);
}

} // verus!
