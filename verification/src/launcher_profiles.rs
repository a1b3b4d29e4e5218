//! The launcher's `launcher_profiles.json`: the installations that it offers.
use vstd::prelude::*;

use crate::clock;
use crate::json;
use crate::json::{member, text_member, Json, JsonModel, Member};
use crate::order;
use crate::text;

verus! {

/// A file without installations, as the launcher would make it.
pub open spec fn empty_file() -> JsonModel {
    JsonModel::Object(
        seq![
            ("profiles"@, JsonModel::Object(Seq::empty())),
            ("settings"@, JsonModel::Object(Seq::empty())),
            ("version"@, JsonModel::Number(json::whole_number(3))),
        ],
    )
}

/// The icon to show: the one that is asked for, without white space around it, and a
/// crafting table where that leaves nothing.
pub open spec fn shown_icon(icon: Option<Seq<char>>) -> Seq<char> {
    match icon {
        Some(s) if text::trim(s).len() > 0 => text::trim(s),
        _ => "Crafting_Table"@,
    }
}

/// The members of an installation's entry.
pub open spec fn entry_members(
    name: Seq<char>,
    now: Seq<char>,
    version_id: Seq<char>,
    java_args: Option<Seq<char>>,
    icon: Option<Seq<char>>,
) -> Seq<(Seq<char>, JsonModel)> {
    let first = seq![
        ("created"@, JsonModel::Text(now)),
        ("icon"@, JsonModel::Text(shown_icon(icon))),
    ];
    let args = match java_args {
        Some(args) => seq![("javaArgs"@, JsonModel::Text(args))],
        None => Seq::empty(),
    };
    first + args + seq![
        ("lastUsed"@, JsonModel::Text(now)),
        ("lastVersionId"@, JsonModel::Text(version_id)),
        ("name"@, JsonModel::Text(name)),
        (
            "resolution"@,
            JsonModel::Object(
                seq![
                    ("height"@, JsonModel::Number(json::whole_number(720))),
                    ("width"@, JsonModel::Number(json::whole_number(1280))),
                ],
            ),
        ),
        ("type"@, JsonModel::Text("custom"@)),
    ]
}

/// How many members in front have names that come before `name`.
pub open spec fn place_for(members: Seq<(Seq<char>, JsonModel)>, name: Seq<char>) -> int
    decreases members.len(),
{
    if members.len() == 0 || !order::less(members[0].0, name) {
        0
    } else {
        1 + place_for(members.skip(1), name)
    }
}

/// The members with `value` for the name `name`: in its place where it is there, and where
/// it belongs by the order of names where it is not.
pub open spec fn set_member(
    members: Seq<(Seq<char>, JsonModel)>,
    name: Seq<char>,
    value: JsonModel,
) -> Seq<(Seq<char>, JsonModel)> {
    let i = json::member_index(members, name);
    if 0 <= i < members.len() {
        members.update(i, (name, value))
    } else {
        members.insert(place_for(members, name), (name, value))
    }
}

/// The place is behind the members whose names come before `name`.
proof fn lemma_place_for(members: Seq<(Seq<char>, JsonModel)>, name: Seq<char>)
    ensures
        0 <= place_for(members, name) <= members.len(),
        forall|j: int|
            0 <= j < place_for(members, name) ==> order::less((#[trigger] members[j]).0, name),
        place_for(members, name) < members.len() ==> !order::less(
            members[place_for(members, name)].0,
            name,
        ),
    decreases members.len(),
{
    if members.len() > 0 && order::less(members[0].0, name) {
        let rest = members.skip(1);
        lemma_place_for(rest, name);
        assert forall|j: int| 0 <= j < place_for(members, name) implies order::less(
            (#[trigger] members[j]).0,
            name,
        ) by {
            if j > 0 {
                assert(members[j] == rest[j - 1]);
            }
        }
    }
}

/// Setting a member keeps the names in order.
pub proof fn set_member_keeps_order(
    members: Seq<(Seq<char>, JsonModel)>,
    name: Seq<char>,
    value: JsonModel,
)
    requires
        json::names_in_order(members),
    ensures
        json::names_in_order(set_member(members, name, value)),
{
    let r = set_member(members, name, value);
    json::lemma_member_index(members, name);
    lemma_place_for(members, name);
    let i = json::member_index(members, name);
    let p = place_for(members, name);
    if i < members.len() {
        assert forall|a: int, b: int| 0 <= a < b < r.len() implies order::less(
            (#[trigger] r[a]).0,
            (#[trigger] r[b]).0,
        ) by {
            assert(r[a].0 == members[a].0 && r[b].0 == members[b].0);
        }
    } else {
        assert forall|a: int, b: int| 0 <= a < b < r.len() implies order::less(
            (#[trigger] r[a]).0,
            (#[trigger] r[b]).0,
        ) by {
            if b < p {
                assert(r[a] == members[a] && r[b] == members[b]);
            } else if b == p {
                assert(r[a] == members[a]);
            } else {
                assert(r[b] == members[b - 1]);
                if a < p {
                    assert(r[a] == members[a]);
                } else if a > p {
                    assert(r[a] == members[a - 1]);
                } else {
                    order::lemma_less_total(name, members[p].0);
                    assert(members[p].0 != name);
                    if b - 1 > p {
                        order::lemma_less_transitive(name, members[p].0, members[b - 1].0);
                    }
                }
            }
        }
    }
}

/// The file with `entry` as the installation `profile_id`; `None` where the file has no
/// object of installations.
pub open spec fn with_profile(
    root: JsonModel,
    profile_id: Seq<char>,
    entry: JsonModel,
) -> Option<JsonModel> {
    match root {
        JsonModel::Object(members) => match root.field("profiles"@) {
            Some(JsonModel::Object(profiles)) => Some(
                JsonModel::Object(
                    set_member(
                        members,
                        "profiles"@,
                        JsonModel::Object(set_member(profiles, profile_id, entry)),
                    ),
                ),
            ),
            _ => None,
        },
        _ => None,
    }
}

/// The first member with a name is the one that is looked up.
proof fn lemma_member_index_is(members: Seq<(Seq<char>, JsonModel)>, name: Seq<char>, i: int)
    requires
        0 <= i <= members.len(),
        i < members.len() ==> members[i].0 == name,
        forall|j: int| 0 <= j < i ==> (#[trigger] members[j]).0 != name,
    ensures
        json::member_index(members, name) == i,
{
    json::lemma_member_index(members, name);
    let k = json::member_index(members, name);
    if k < i {
        assert(members[k].0 != name);
    } else if i < k {
        assert(members[i].0 != name);
    }
}

/// A member that is set has its value, and the others keep theirs.
pub proof fn set_member_changes_one(
    members: Seq<(Seq<char>, JsonModel)>,
    name: Seq<char>,
    value: JsonModel,
    other: Seq<char>,
)
    ensures
        JsonModel::Object(set_member(members, name, value)).field(other) == (if other == name {
            Some(value)
        } else {
            JsonModel::Object(members).field(other)
        }),
{
    let r = set_member(members, name, value);
    json::lemma_member_index(members, name);
    json::lemma_member_index(members, other);
    lemma_place_for(members, name);
    let i = json::member_index(members, name);
    let p = place_for(members, name);
    let j = json::member_index(members, other);
    let at = if i < members.len() {
        if other == name {
            i
        } else {
            j
        }
    } else if other == name {
        p
    } else if j < p {
        j
    } else {
        j + 1
    };
    assert forall|k: int| 0 <= k < at implies (#[trigger] r[k]).0 != other by {
        if i >= members.len() {
            if k < p {
                assert(r[k] == members[k]);
            } else if k > p {
                assert(r[k] == members[k - 1]);
            }
        } else if k != i {
            assert(r[k] == members[k]);
        }
    }
    lemma_member_index_is(r, other, at);
}

/// Adding an installation puts its entry under its name, keeps every other installation,
/// and keeps everything else in the file.
pub proof fn adding_keeps_the_rest(
    root: JsonModel,
    profile_id: Seq<char>,
    entry: JsonModel,
    other_profile: Seq<char>,
    other_member: Seq<char>,
)
    requires
        with_profile(root, profile_id, entry) is Some,
    ensures
        ({
            let after = with_profile(root, profile_id, entry)->Some_0;
            let had = root.field("profiles"@)->Some_0;
            &&& after.field("profiles"@) is Some
            &&& after.field("profiles"@)->Some_0.field(profile_id) == Some(entry)
            &&& other_profile != profile_id ==> after.field("profiles"@)->Some_0.field(
                other_profile,
            ) == had.field(other_profile)
            &&& other_member != "profiles"@ ==> after.field(other_member) == root.field(
                other_member,
            )
        }),
{
    let members = root->Object_0;
    let profiles = root.field("profiles"@)->Some_0->Object_0;
    let set = JsonModel::Object(set_member(profiles, profile_id, entry));
    set_member_changes_one(members, "profiles"@, set, "profiles"@);
    set_member_changes_one(members, "profiles"@, set, other_member);
    set_member_changes_one(profiles, profile_id, entry, profile_id);
    set_member_changes_one(profiles, profile_id, entry, other_profile);
}

/// The last entry that is added under a name counts.
pub proof fn last_entry_counts(
    root: JsonModel,
    profile_id: Seq<char>,
    first: JsonModel,
    second: JsonModel,
)
    requires
        with_profile(root, profile_id, first) is Some,
    ensures
        with_profile(with_profile(root, profile_id, first)->Some_0, profile_id, second)
            == with_profile(root, profile_id, second),
{
    let members = root->Object_0;
    let profiles = root.field("profiles"@)->Some_0->Object_0;
    let once = set_member(profiles, profile_id, first);
    let after = set_member(members, "profiles"@, JsonModel::Object(once));
    set_member_changes_one(members, "profiles"@, JsonModel::Object(once), "profiles"@);
    lemma_set_twice(profiles, profile_id, first, second);
    lemma_set_twice(
        members,
        "profiles"@,
        JsonModel::Object(once),
        JsonModel::Object(set_member(profiles, profile_id, second)),
    );
}

/// Setting a member twice is setting it to the second value.
proof fn lemma_set_twice(
    members: Seq<(Seq<char>, JsonModel)>,
    name: Seq<char>,
    first: JsonModel,
    second: JsonModel,
)
    ensures
        set_member(set_member(members, name, first), name, second) == set_member(
            members,
            name,
            second,
        ),
{
    let once = set_member(members, name, first);
    json::lemma_member_index(members, name);
    lemma_place_for(members, name);
    let i = json::member_index(members, name);
    let at = if i < members.len() {
        i
    } else {
        place_for(members, name)
    };
    assert forall|k: int| 0 <= k < at implies (#[trigger] once[k]).0 != name by {
        assert(once[k] == members[k]);
    }
    lemma_member_index_is(once, name, at);
    assert(set_member(once, name, second) =~= set_member(members, name, second));
}

/// An entry is plain, and its members are in order.
proof fn lemma_entry_plain(
    name: Seq<char>,
    now: Seq<char>,
    version_id: Seq<char>,
    java_args: Option<Seq<char>>,
    icon: Option<Seq<char>>,
)
    ensures
        json::plain(
            JsonModel::Object(entry_members(name, now, version_id, java_args, icon)),
            125,
        ),
        json::ordered(JsonModel::Object(entry_members(name, now, version_id, java_args, icon))),
{
    reveal_strlit("created");
    reveal_strlit("icon");
    reveal_strlit("javaArgs");
    reveal_strlit("lastUsed");
    reveal_strlit("lastVersionId");
    reveal_strlit("name");
    reveal_strlit("resolution");
    reveal_strlit("type");
    reveal_strlit("height");
    reveal_strlit("width");
    let ms = entry_members(name, now, version_id, java_args, icon);
    let size = seq![
        ("height"@, JsonModel::Number(json::whole_number(720))),
        ("width"@, JsonModel::Number(json::whole_number(1280))),
    ];
    assert(order::less("lastUsed"@, "lastVersionId"@)) by {
        reveal_with_fuel(order::less, 6);
    }
    assert(json::names_in_order(ms));
    assert(json::plain(JsonModel::Object(size), 124)) by {
        assert(json::plain(size[0].1, 123));
        assert(json::plain(size[1].1, 123));
    }
    assert(json::ordered(JsonModel::Object(size))) by {
        assert(json::ordered(size[0].1));
        assert(json::ordered(size[1].1));
    }
    assert forall|i: int| 0 <= i < ms.len() implies json::plain((#[trigger] ms[i]).1, 124)
        && json::ordered(ms[i].1) by {
        if ms[i].1 !is Text {
            assert(ms[i].1 == JsonModel::Object(size));
        }
    }
}

/// A file without installations is plain, and its members are in order.
proof fn lemma_empty_plain()
    ensures
        json::plain(empty_file(), 127),
        json::ordered(empty_file()),
{
    reveal_strlit("profiles");
    reveal_strlit("settings");
    reveal_strlit("version");
    let ms = empty_file()->Object_0;
    assert(json::names_in_order(ms));
    assert forall|i: int| 0 <= i < ms.len() implies json::plain((#[trigger] ms[i]).1, 126)
        && json::ordered(ms[i].1) by {
        if i < 2 {
            assert(ms[i].1 == JsonModel::Object(Seq::empty()));
        }
    }
}

/// Setting a member to a value that `good` holds of, among members of which it holds, leaves
/// such members.
proof fn lemma_set_member_all(
    members: Seq<(Seq<char>, JsonModel)>,
    name: Seq<char>,
    value: JsonModel,
    good: spec_fn(JsonModel) -> bool,
)
    requires
        good(value),
        forall|i: int| 0 <= i < members.len() ==> good((#[trigger] members[i]).1),
    ensures
        forall|i: int|
            0 <= i < set_member(members, name, value).len() ==> good(
                (#[trigger] set_member(members, name, value)[i]).1,
            ),
{
    let r = set_member(members, name, value);
    json::lemma_member_index(members, name);
    lemma_place_for(members, name);
    let i = json::member_index(members, name);
    let p = place_for(members, name);
    assert forall|j: int| 0 <= j < r.len() implies good((#[trigger] r[j]).1) by {
        if i < members.len() {
            if j != i {
                assert(r[j] == members[j]);
            }
        } else if j < p {
            assert(r[j] == members[j]);
        } else if j > p {
            assert(r[j] == members[j - 1]);
        }
    }
}

/// Adding an entry to a file keeps the members in order, and keeps a plain file plain.
proof fn lemma_with_profile_plain(root: JsonModel, profile_id: Seq<char>, entry: JsonModel)
    requires
        json::ordered(root),
        json::ordered(entry),
        json::plain(entry, 125),
        with_profile(root, profile_id, entry) is Some,
    ensures
        json::ordered(with_profile(root, profile_id, entry)->Some_0),
        json::plain(root, 127) ==> json::plain(with_profile(root, profile_id, entry)->Some_0, 127),
{
    let members = root->Object_0;
    let i = json::member_index(members, "profiles"@);
    json::lemma_member_index(members, "profiles"@);
    let had = members[i].1;
    assert(json::ordered(had));
    let profiles = had->Object_0;
    let set = JsonModel::Object(set_member(profiles, profile_id, entry));
    set_member_keeps_order(profiles, profile_id, entry);
    lemma_set_member_all(profiles, profile_id, entry, |m: JsonModel| json::ordered(m));
    assert(json::ordered(set));
    set_member_keeps_order(members, "profiles"@, set);
    lemma_set_member_all(members, "profiles"@, set, |m: JsonModel| json::ordered(m));
    if json::plain(root, 127) {
        assert(json::plain(had, 126));
        lemma_set_member_all(profiles, profile_id, entry, |m: JsonModel| json::plain(m, 125));
        assert(json::plain(set, 126));
        lemma_set_member_all(members, "profiles"@, set, |m: JsonModel| json::plain(m, 126));
    }
}

/// A file without installations.
fn empty_launcher_profiles() -> (r: Json)
    ensures
        r@ == empty_file(),
{
    let none: Vec<Member> = Vec::new();
    let also_none: Vec<Member> = Vec::new();
    proof {
        json::lemma_object_model(none);
        json::lemma_object_model(also_none);
        assert(json::member_models(none@) =~= Seq::empty());
        assert(json::member_models(also_none@) =~= Seq::empty());
    }
    let mut members: Vec<Member> = Vec::new();
    members.push(member("profiles", Json::Object(none)));
    members.push(member("settings", Json::Object(also_none)));
    members.push(member("version", json::whole(3)));
    proof {
        json::lemma_object_model(members);
        assert(json::member_models(members@) =~= empty_file()->Object_0);
    }
    Json::Object(members)
}

/// The bytes of a file without installations, for a game directory that has none yet.
pub fn launcher_profiles_stub() -> (r: Result<Vec<u8>, String>)
    ensures
        r is Ok,
        r->Ok_0@ == json::pretty_bytes(empty_file()),
        json::reads_as(r->Ok_0@, empty_file()),
        json::plain(empty_file(), 127),
{
    proof {
        lemma_empty_plain();
    }
    json::pretty(empty_launcher_profiles())
}

/// The icon to show.
fn resolved_icon(icon: Option<&str>) -> (r: String)
    ensures
        r@ == shown_icon(text::opt_str_view(icon)),
{
    match icon {
        Some(s) => {
            let t = text::trimmed(s);
            if t.as_str().is_empty() {
                "Crafting_Table".to_owned()
            } else {
                t
            }
        },
        None => "Crafting_Table".to_owned(),
    }
}

/// The entry of an installation.
fn profile_entry(
    name: &str,
    now: &str,
    version_id: &str,
    java_args: Option<&str>,
    icon: Option<&str>,
) -> (r: Json)
    ensures
        r@ == JsonModel::Object(
            entry_members(
                name@,
                now@,
                version_id@,
                text::opt_str_view(java_args),
                text::opt_str_view(icon),
            ),
        ),
{
    let shown = resolved_icon(icon);
    let mut size: Vec<Member> = Vec::new();
    size.push(member("height", json::whole(720)));
    size.push(member("width", json::whole(1280)));
    proof {
        json::lemma_object_model(size);
        assert(json::member_models(size@) =~= seq![
            ("height"@, JsonModel::Number(json::whole_number(720))),
            ("width"@, JsonModel::Number(json::whole_number(1280))),
        ]);
    }
    let mut members: Vec<Member> = Vec::new();
    members.push(text_member("created", now));
    members.push(text_member("icon", shown.as_str()));
    match java_args {
        Some(args) => members.push(text_member("javaArgs", args)),
        None => {},
    }
    members.push(text_member("lastUsed", now));
    members.push(text_member("lastVersionId", version_id));
    members.push(text_member("name", name));
    members.push(member("resolution", Json::Object(size)));
    members.push(text_member("type", "custom"));
    proof {
        json::lemma_object_model(members);
        assert(json::member_models(members@) =~= entry_members(
            name@,
            now@,
            version_id@,
            text::opt_str_view(java_args),
            text::opt_str_view(icon),
        ));
    }
    Json::Object(members)
}

/// How many members in front have names that come before `name`.
fn find_place(members: &Vec<Member>, name: &str) -> (r: usize)
    ensures
        r == place_for(json::member_models(members@), name@),
        r <= members.len(),
{
    let ghost all = json::member_models(members@);
    let mut i: usize = 0;
    assert(all.skip(0) =~= all);
    while i < members.len() && order::comes_before(members[i].name.as_str(), name)
        invariant
            i <= members.len(),
            all == json::member_models(members@),
            place_for(all, name@) == i + place_for(all.skip(i as int), name@),
        decreases members.len() - i,
    {
        assert(all.skip(i as int)[0] == all[i as int]);
        assert(all.skip(i as int).skip(1) =~= all.skip(i + 1));
        i = i + 1;
    }
    proof {
        if i < members.len() {
            assert(all.skip(i as int)[0] == all[i as int]);
        }
    }
    i
}

/// Sets a member of an object.
fn put_member(members: &mut Vec<Member>, name: &str, value: Json)
    ensures
        json::member_models(final(members)@) == set_member(
            json::member_models(old(members)@),
            name@,
            value@,
        ),
{
    let ghost before = json::member_models(members@);
    let ghost v = value@;
    let i = json::find_member(members, name);
    if i < members.len() {
        members.set(i, member(name, value));
        assert(json::member_models(members@) =~= before.update(i as int, (name@, v)));
    } else {
        let p = find_place(members, name);
        members.insert(p, member(name, value));
        assert(json::member_models(members@) =~= before.insert(p as int, (name@, v)));
    }
}

/// Adds an installation to the file.
fn add_profile(root: Json, profile_id: &str, entry: Json) -> (r: Option<Json>)
    ensures
        match r {
            Some(j) => with_profile(root@, profile_id@, entry@) == Some(j@),
            None => with_profile(root@, profile_id@, entry@) is None,
        },
{
    match root {
        Json::Object(found) => {
            let mut members = found;
            let ghost all = json::member_models(members@);
            proof {
                json::lemma_object_model(members);
                json::lemma_member_index(all, "profiles"@);
            }
            let i = json::find_member(&members, "profiles");
            if i >= members.len() {
                return None;
            }
            let had = members.remove(i);
            assert(had.value@ == all[i as int].1);
            match had.value {
                Json::Object(found_profiles) => {
                    let mut profiles = found_profiles;
                    proof {
                        json::lemma_object_model(profiles);
                    }
                    put_member(&mut profiles, profile_id, entry);
                    proof {
                        json::lemma_object_model(profiles);
                    }
                    members.insert(i, member("profiles", Json::Object(profiles)));
                    proof {
                        json::lemma_object_model(members);
                        assert(json::member_models(members@) =~= set_member(
                            all,
                            "profiles"@,
                            Json::Object(profiles)@,
                        ));
                    }
                    Some(Json::Object(members))
                },
                _ => None,
            }
        },
        _ => None,
    }
}

/// What the file reads as: an empty one where there is none.
pub open spec fn launcher_document(existing: Option<Seq<char>>) -> Result<JsonModel, Seq<char>> {
    match existing {
        Some(content) => json::json_read(vstd::utf8::encode_utf8(content)),
        None => Ok(empty_file()),
    }
}

/// Whether `r` is the bytes of the file with `entry` as the installation `profile_id`, or why
/// it cannot be written.
pub open spec fn file_written(
    existing: Option<Seq<char>>,
    path: Seq<char>,
    profile_id: Seq<char>,
    entry: JsonModel,
    r: Result<Vec<u8>, String>,
) -> bool {
    match launcher_document(existing) {
        Err(e) => r is Err && r->Err_0@ == "parse "@ + path + ": "@ + e,
        Ok(root) => match with_profile(root, profile_id, entry) {
            None => r is Err && r->Err_0@ == "launcher_profiles.json missing 'profiles' object"@,
            Some(after) => {
                &&& r is Ok
                &&& r->Ok_0@ == json::pretty_bytes(after)
                &&& json::plain(root, 127) ==> json::reads_as(r->Ok_0@, after) && json::plain(
                    after,
                    127,
                )
            },
        },
    }
}

/// The bytes of `launcher_profiles.json` with an installation added or renewed, created
/// at the second `secs`. `existing` is the content of the file where there is one, `path`
/// its name in messages. Where the file that was there is plain, what is written is read
/// back as the file with the installation, and is plain again.
pub fn upsert_launcher_profile(
    existing: Option<&str>,
    path: &str,
    secs: u64,
    profile_id: &str,
    name: &str,
    version_id: &str,
    java_args: Option<&str>,
    icon: Option<&str>,
) -> (r: Result<Vec<u8>, String>)
    requires
        clock::year_fits(secs as int),
    ensures
        file_written(
            text::opt_str_view(existing),
            path@,
            profile_id@,
            JsonModel::Object(
                entry_members(
                    name@,
                    clock::stamp(clock::time_of(secs as int), ':'),
                    version_id@,
                    text::opt_str_view(java_args),
                    text::opt_str_view(icon),
                ),
            ),
            r,
        ),
{
    let root: Json = match existing {
        Some(content) => match json::parse(content.as_bytes()) {
            Ok(j) => j,
            Err(e) => {
                return Err(text::cat4("parse ", path, ": ", e.as_str()));
            },
        },
        None => {
            proof {
                lemma_empty_plain();
            }
            empty_launcher_profiles()
        },
    };
    let now = clock::rfc3339_now(secs);
    let entry = profile_entry(name, now.as_str(), version_id, java_args, icon);
    proof {
        lemma_entry_plain(
            name@,
            now@,
            version_id@,
            text::opt_str_view(java_args),
            text::opt_str_view(icon),
        );
        if with_profile(root@, profile_id@, entry@) is Some {
            lemma_with_profile_plain(root@, profile_id@, entry@);
        }
    }
    match add_profile(root, profile_id, entry) {
        Some(after) => json::pretty(after),
        None => Err("launcher_profiles.json missing 'profiles' object".to_owned()),
    }
}

/// In members in order each is looked up under its name.
proof fn lemma_each_is_found(ms: Seq<(Seq<char>, JsonModel)>, i: int)
    requires
        json::names_in_order(ms),
        0 <= i < ms.len(),
    ensures
        JsonModel::Object(ms).field(ms[i].0) == Some(ms[i].1),
{
    json::lemma_member_index(ms, ms[i].0);
    order::lemma_less_total(ms[i].0, ms[i].0);
    let k = json::member_index(ms, ms[i].0);
    if k < i {
        assert(order::less(ms[k].0, ms[i].0));
    }
    if k > i {
        assert(ms[i].0 != ms[i].0);
    }
}

/// The entry of an installation tells the launcher what it reads: the name to show, the
/// version to start, the arguments for Java where there are any, when it was made, and its
/// icon.
pub proof fn entry_tells_the_launcher(
    name: Seq<char>,
    now: Seq<char>,
    version_id: Seq<char>,
    java_args: Option<Seq<char>>,
    icon: Option<Seq<char>>,
)
    ensures
        ({
            let e = JsonModel::Object(entry_members(name, now, version_id, java_args, icon));
            &&& e.text_field("name"@) == Some(name)
            &&& e.text_field("lastVersionId"@) == Some(version_id)
            &&& e.text_field("javaArgs"@) == java_args
            &&& e.text_field("created"@) == Some(now)
            &&& e.text_field("lastUsed"@) == Some(now)
            &&& e.text_field("icon"@) == Some(shown_icon(icon))
            &&& e.text_field("type"@) == Some("custom"@)
            &&& e.field("resolution"@) is Some
            &&& e.field("resolution"@)->Some_0.field("width"@) == Some(
                JsonModel::Number(json::whole_number(1280)),
            )
            &&& e.field("resolution"@)->Some_0.field("height"@) == Some(
                JsonModel::Number(json::whole_number(720)),
            )
        }),
{
    let ms = entry_members(name, now, version_id, java_args, icon);
    let n = ms.len() as int;
    lemma_entry_plain(name, now, version_id, java_args, icon);
    lemma_each_is_found(ms, 0);
    lemma_each_is_found(ms, 1);
    lemma_each_is_found(ms, n - 5);
    lemma_each_is_found(ms, n - 4);
    lemma_each_is_found(ms, n - 3);
    lemma_each_is_found(ms, n - 2);
    lemma_each_is_found(ms, n - 1);
    let size = ms[n - 2].1->Object_0;
    assert(json::ordered(ms[n - 2].1));
    lemma_each_is_found(size, 0);
    lemma_each_is_found(size, 1);
    match java_args {
        Some(_) => lemma_each_is_found(ms, 2),
        None => {
            reveal_strlit("javaArgs");
            reveal_strlit("created");
            reveal_strlit("icon");
            reveal_strlit("lastUsed");
            reveal_strlit("lastVersionId");
            reveal_strlit("name");
            reveal_strlit("resolution");
            reveal_strlit("type");
            assert("javaArgs"@[0] == 'j');
            assert(json::lacks_member(ms, "javaArgs"@)) by {
                assert forall|j: int| 0 <= j < ms.len() implies (#[trigger] ms[j]).0
                    != "javaArgs"@ by {
                    assert(ms[j].0[0] != 'j');
                }
            }
            json::lookup_gives_the_member(
                JsonModel::Object(ms),
                "javaArgs"@,
                JsonModel::Null,
            );
        },
    }
}

/// An installation is added exactly where the file is an object with an object of
/// installations as `profiles`, which a file without installations is.
pub proof fn installations_stand_under_profiles(
    members: Seq<(Seq<char>, JsonModel)>,
    held: JsonModel,
    profile_id: Seq<char>,
    entry: JsonModel,
)
    ensures
        json::has_member(members, "profiles"@, held) ==> (with_profile(
            JsonModel::Object(members),
            profile_id,
            entry,
        ) is Some <==> held is Object),
        json::lacks_member(members, "profiles"@) ==> with_profile(
            JsonModel::Object(members),
            profile_id,
            entry,
        ) is None,
        with_profile(empty_file(), profile_id, entry) is Some,
        empty_file().field("profiles"@) == Some(JsonModel::Object(Seq::empty())),
{
    json::lookup_gives_the_member(JsonModel::Object(members), "profiles"@, held);
    lemma_empty_plain();
    lemma_each_is_found(empty_file()->Object_0, 0);
}

/// An icon without white space around it is shown as it is, and without an icon, or with one
/// of white space alone, the crafting table is.
pub proof fn icons_are_shown(icon: Seq<char>)
    ensures
        text::is_trimmed(icon) && icon.len() > 0 ==> shown_icon(Some(icon)) == icon,
        text::trim(icon).len() == 0 ==> shown_icon(Some(icon)) == "Crafting_Table"@,
        shown_icon(None) == "Crafting_Table"@,
{
    if text::is_trimmed(icon) {
        text::lemma_trimmed_stays(icon);
    }
}

/// Who reads the file that was written finds the installation under its name, with the name to
/// show, the version to start and the arguments that were given; every other installation that
/// was in the file is in it still, and so is everything else. A file that could not be read is
/// never written over.
pub proof fn launcher_finds_the_installation(
    existing: Option<Seq<char>>,
    path: Seq<char>,
    profile_id: Seq<char>,
    name: Seq<char>,
    now: Seq<char>,
    version_id: Seq<char>,
    java_args: Option<Seq<char>>,
    icon: Option<Seq<char>>,
    r: Result<Vec<u8>, String>,
    other_profile: Seq<char>,
    other_member: Seq<char>,
)
    requires
        file_written(
            existing,
            path,
            profile_id,
            JsonModel::Object(entry_members(name, now, version_id, java_args, icon)),
            r,
        ),
    ensures
        existing is Some && json::json_read(vstd::utf8::encode_utf8(existing->Some_0)) is Err
            ==> r is Err,
        existing is None ==> r is Ok,
        r is Ok && launcher_document(existing) is Ok && json::plain(
            launcher_document(existing)->Ok_0,
            127,
        ) ==> {
            let root = launcher_document(existing)->Ok_0;
            let after = json::json_read(r->Ok_0@);
            &&& after is Ok
            &&& after->Ok_0.field("profiles"@) is Some
            &&& {
                let all = after->Ok_0.field("profiles"@)->Some_0;
                &&& all.field(profile_id) is Some
                &&& all.field(profile_id)->Some_0.text_field("name"@) == Some(name)
                &&& all.field(profile_id)->Some_0.text_field("lastVersionId"@) == Some(version_id)
                &&& all.field(profile_id)->Some_0.text_field("javaArgs"@) == java_args
                &&& other_profile != profile_id ==> all.field(other_profile)
                    == root.field("profiles"@)->Some_0.field(other_profile)
            }
            &&& other_member != "profiles"@ ==> after->Ok_0.field(other_member) == root.field(
                other_member,
            )
        },
{
    let entry = JsonModel::Object(entry_members(name, now, version_id, java_args, icon));
    entry_tells_the_launcher(name, now, version_id, java_args, icon);
    installations_stand_under_profiles(Seq::empty(), entry, profile_id, entry);
    if launcher_document(existing) is Ok {
        let root = launcher_document(existing)->Ok_0;
        if with_profile(root, profile_id, entry) is Some {
            adding_keeps_the_rest(root, profile_id, entry, other_profile, other_member);
        }
    }
}

} // verus!
