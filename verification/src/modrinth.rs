//! What the Modrinth and CurseForge services are asked, and what is made of the
//! versions and files that they offer.
use vstd::prelude::*;

use crate::decimal;
use crate::lines;
use crate::text;
use crate::web::Reply;

verus! {

/// One file of a version.
#[derive(Debug)]
pub struct ModrinthFile {
    pub url: String,
    pub filename: String,
    pub primary: bool,
    pub sha1: Option<String>,
}

/// One version of a project.
#[derive(Debug)]
pub struct ModrinthVersion {
    pub id: String,
    pub version_number: String,
    pub files: Vec<ModrinthFile>,
    pub game_versions: Vec<String>,
    pub loaders: Vec<String>,
}

/// Whether a version of the game may be a piece of a longer one, as `1.21` is of `1.21.1`:
/// it is made of numbers, and of fewer than the three that a version has at most.
pub open spec fn can_go_on(mc_version: Seq<char>) -> bool {
    &&& forall|k: int|
        0 <= k < mc_version.len() ==> decimal::is_digit(#[trigger] mc_version[k]) || mc_version[k]
            == '.'
    &&& forall|j: int, k: int|
        0 <= j < k < mc_version.len() ==> !(#[trigger] mc_version[j] == '.'
            && #[trigger] mc_version[k] == '.')
}

/// Whether `mc_version` stands in the number of a version at `i` as a version of its own,
/// and not as a piece of another one such as `1.21.10` for `1.21.1` or `1.21.1` for `1.21`:
/// no digit stands directly before or behind it and, where it may be a piece of a longer
/// version, no digit stands beyond a dot before or behind it either.
pub open spec fn stands_alone(number: Seq<char>, mc_version: Seq<char>, i: int) -> bool {
    let end = i + mc_version.len();
    &&& text::occurs_at(number, mc_version, i)
    &&& i > 0 ==> !decimal::is_digit(number[i - 1])
    &&& end < number.len() ==> !decimal::is_digit(number[end])
    &&& can_go_on(mc_version) ==> {
        &&& i > 1 && number[i - 1] == '.' ==> !decimal::is_digit(number[i - 2])
        &&& end + 1 < number.len() && number[end] == '.' ==> !decimal::is_digit(number[end + 1])
    }
}

/// Whether the number of a version names `mc_version` of the game.
pub open spec fn names_version(number: Seq<char>, mc_version: Seq<char>) -> bool {
    exists|i: int| stands_alone(number, mc_version, i)
}

/// Whether a version of the game may be a piece of a longer one.
fn may_go_on(mc: &Vec<char>) -> (r: bool)
    ensures
        r == can_go_on(mc@),
{
    let mut dot: Option<usize> = None;
    let mut i: usize = 0;
    while i < mc.len()
        invariant
            i <= mc.len(),
            forall|k: int|
                0 <= k < i ==> decimal::is_digit(#[trigger] mc@[k]) || mc@[k] == '.',
            match dot {
                Some(d) => d < i && mc@[d as int] == '.' && forall|k: int|
                    0 <= k < i && #[trigger] mc@[k] == '.' ==> k == d,
                None => forall|k: int| 0 <= k < i ==> #[trigger] mc@[k] != '.',
            },
        decreases mc.len() - i,
    {
        if mc[i] == '.' {
            if dot.is_some() {
                return false;
            }
            dot = Some(i);
        } else if !decimal::digit_char(mc[i]) {
            return false;
        }
        i = i + 1;
    }
    true
}

/// Whether `mc` stands in `number` at `i` as a version of its own. `goes_on` says whether
/// it may be a piece of a longer version.
fn alone_at(number: &Vec<char>, mc: &Vec<char>, goes_on: bool, i: usize) -> (r: bool)
    requires
        goes_on == can_go_on(mc@),
    ensures
        r == stands_alone(number@, mc@, i as int),
{
    if !text::chars_occur_at(number, mc, i) {
        return false;
    }
    assert(i + mc.len() <= number.len());
    let end: usize = i + mc.len();
    if i > 0 && decimal::digit_char(number[i - 1]) {
        return false;
    }
    if end < number.len() && decimal::digit_char(number[end]) {
        return false;
    }
    if !goes_on {
        return true;
    }
    if i > 1 && number[i - 1] == '.' && decimal::digit_char(number[i - 2]) {
        return false;
    }
    !(end < number.len() && number.len() - end > 1 && number[end] == '.' && decimal::digit_char(
        number[end + 1],
    ))
}

/// Whether the number of a version names `mc_version` of the game.
pub fn names_game(number: &str, mc_version: &str) -> (r: bool)
    ensures
        r == names_version(number@, mc_version@),
{
    let cs = text::chars_of(number);
    let mc = text::chars_of(mc_version);
    let goes_on = may_go_on(&mc);
    let mut i: usize = 0;
    while i < cs.len()
        invariant
            cs@ == number@,
            mc@ == mc_version@,
            goes_on == can_go_on(mc@),
            i <= cs.len(),
            forall|j: int| 0 <= j < i ==> !stands_alone(number@, mc_version@, j),
        decreases cs.len() - i,
    {
        if alone_at(&cs, &mc, goes_on, i) {
            return true;
        }
        i = i + 1;
    }
    alone_at(&cs, &mc, goes_on, i)
}

/// Where the first version stands whose number names `mc_version`; the number of
/// versions where none does.
pub open spec fn naming_index(versions: Seq<ModrinthVersion>, mc_version: Seq<char>) -> int
    decreases versions.len(),
{
    if versions.len() == 0 || names_version(versions[0].version_number@, mc_version) {
        0
    } else {
        1 + naming_index(versions.skip(1), mc_version)
    }
}

/// The version to take: the first whose number names the version of the game, and the
/// first of all where none does.
pub open spec fn best_version(
    versions: Seq<ModrinthVersion>,
    mc_version: Seq<char>,
) -> Option<ModrinthVersion> {
    let i = naming_index(versions, mc_version);
    if 0 <= i < versions.len() {
        Some(versions[i])
    } else if versions.len() > 0 {
        Some(versions[0])
    } else {
        None
    }
}

/// The version to take. A version that is newest by date may belong to a later version
/// of the game and merely tolerate this one, so one that names it is preferred.
pub fn pick_best_version(versions: Vec<ModrinthVersion>, mc_version: &str) -> (r: Option<
    ModrinthVersion,
>)
    ensures
        r == best_version(versions@, mc_version@),
        r is Some <==> versions.len() > 0,
        forall|i: int|
            0 <= i < versions.len() && (forall|j: int|
                0 <= j < i ==> !names_version(
                    (#[trigger] versions@[j]).version_number@,
                    mc_version@,
                )) && names_version((#[trigger] versions@[i]).version_number@, mc_version@) ==> r
                == Some(versions@[i]),
{
    proof {
        assert forall|i: int|
            0 <= i < versions.len() && (forall|j: int|
                0 <= j < i ==> !names_version(
                    (#[trigger] versions@[j]).version_number@,
                    mc_version@,
                )) && names_version(
                (#[trigger] versions@[i]).version_number@,
                mc_version@,
            ) implies best_version(versions@, mc_version@) == Some(versions@[i]) by {
            newest_that_names_the_game_is_taken(versions@, mc_version@, i);
        }
    }
    let mut versions = versions;
    let ghost all = versions@;
    let mut i: usize = 0;
    assert(all.skip(0) =~= all);
    while i < versions.len() && !names_game(versions[i].version_number.as_str(), mc_version)
        invariant
            versions@ == all,
            i <= all.len(),
            naming_index(all, mc_version@) == i + naming_index(all.skip(i as int), mc_version@),
        decreases all.len() - i,
    {
        assert(all.skip(i as int).skip(1) =~= all.skip(i + 1));
        i = i + 1;
    }
    if i < versions.len() {
        Some(versions.swap_remove(i))
    } else if versions.len() > 0 {
        Some(versions.swap_remove(0))
    } else {
        None
    }
}

/// Where the first primary file stands; the number of files where none is primary.
pub open spec fn primary_index(files: Seq<ModrinthFile>) -> int
    decreases files.len(),
{
    if files.len() == 0 || files[0].primary {
        0
    } else {
        1 + primary_index(files.skip(1))
    }
}

/// The file to take: the first primary one, and the first of all where none is.
pub open spec fn chosen_file(files: Seq<ModrinthFile>) -> Option<ModrinthFile> {
    let i = primary_index(files);
    if 0 <= i < files.len() {
        Some(files[i])
    } else if files.len() > 0 {
        Some(files[0])
    } else {
        None
    }
}

/// The file of a version to take.
pub fn choose_file(files: &Vec<ModrinthFile>) -> (r: Option<&ModrinthFile>)
    ensures
        match r {
            Some(f) => chosen_file(files@) == Some(*f),
            None => chosen_file(files@) is None,
        },
{
    let mut i: usize = 0;
    assert(files@.skip(0) =~= files@);
    while i < files.len() && !files[i].primary
        invariant
            i <= files.len(),
            primary_index(files@) == i + primary_index(files@.skip(i as int)),
        decreases files.len() - i,
    {
        assert(files@.skip(i as int).skip(1) =~= files@.skip(i + 1));
        i = i + 1;
    }
    if i < files.len() {
        Some(&files[i])
    } else if files.len() > 0 {
        Some(&files[0])
    } else {
        None
    }
}

/// A version whose number names the version of the game is taken wherever one is offered,
/// and some version is taken wherever any is offered.
pub proof fn version_that_names_the_game_wins(
    versions: Seq<ModrinthVersion>,
    mc_version: Seq<char>,
    i: int,
)
    requires
        0 <= i < versions.len(),
    ensures
        best_version(versions, mc_version) is Some,
        names_version(versions[i].version_number@, mc_version) ==> names_version(
            best_version(versions, mc_version)->Some_0.version_number@,
            mc_version,
        ),
{
    lemma_naming_index(versions, mc_version);
}

/// The index is one of a version that names the version of the game, with none before it.
proof fn lemma_naming_index(versions: Seq<ModrinthVersion>, mc_version: Seq<char>)
    ensures
        0 <= naming_index(versions, mc_version) <= versions.len(),
        naming_index(versions, mc_version) < versions.len() ==> names_version(
            versions[naming_index(versions, mc_version)].version_number@,
            mc_version,
        ),
        forall|j: int|
            0 <= j < naming_index(versions, mc_version) ==> !names_version(
                (#[trigger] versions[j]).version_number@,
                mc_version,
            ),
    decreases versions.len(),
{
    if versions.len() > 0 && !names_version(versions[0].version_number@, mc_version) {
        let rest = versions.skip(1);
        lemma_naming_index(rest, mc_version);
        assert forall|j: int| 0 <= j < naming_index(versions, mc_version) implies !names_version(
            (#[trigger] versions[j]).version_number@,
            mc_version,
        ) by {
            if j > 0 {
                assert(versions[j] == rest[j - 1]);
            }
        }
    }
}

/// A primary file is taken wherever a version has one, and some file is taken wherever it
/// has any.
pub proof fn primary_file_wins(files: Seq<ModrinthFile>, i: int)
    requires
        0 <= i < files.len(),
    ensures
        chosen_file(files) is Some,
        files[i].primary ==> chosen_file(files)->Some_0.primary,
    decreases files.len(),
{
    if !files[0].primary && files.len() > 1 {
        let rest = files.skip(1);
        if i > 0 {
            primary_file_wins(rest, i - 1);
            assert(rest[i - 1] == files[i]);
        } else {
            primary_file_wins(rest, 0);
        }
        assert(primary_index(files) == 1 + primary_index(rest));
        lemma_primary_index(rest);
    }
}

/// The index is that of a primary file, or the number of files.
proof fn lemma_primary_index(files: Seq<ModrinthFile>)
    ensures
        0 <= primary_index(files) <= files.len(),
        primary_index(files) < files.len() ==> files[primary_index(files)].primary,
    decreases files.len(),
{
    if files.len() > 0 && !files[0].primary {
        lemma_primary_index(files.skip(1));
    }
}

/// Whether a version supports `mc_version` of the game.
pub open spec fn supports(version: ModrinthVersion, mc_version: Seq<char>) -> bool {
    text::views(version.game_versions@).contains(mc_version)
}

/// Whether a version supports `mc_version` of the game.
pub fn supports_game(version: &ModrinthVersion, mc_version: &str) -> (r: bool)
    ensures
        r == supports(*version, mc_version@),
{
    let mut i: usize = 0;
    while i < version.game_versions.len()
        invariant
            i <= version.game_versions.len(),
            forall|j: int|
                0 <= j < i ==> text::views(version.game_versions@)[j] != mc_version@,
        decreases version.game_versions.len() - i,
    {
        if text::same(version.game_versions[i].as_str(), mc_version) {
            assert(text::views(version.game_versions@)[i as int] == mc_version@);
            return true;
        }
        i = i + 1;
    }
    false
}

/// The address of CurseForge's open store for a file: the number of the file in
/// thousands, the rest of it in three digits, and the name.
pub open spec fn curseforge_url(file_id: nat, filename: Seq<char>) -> Seq<char> {
    "https://edge.forgecdn.net/files/"@ + decimal::decimal(file_id / 1000) + "/"@
        + decimal::padded(file_id % 1000, 3) + "/"@ + filename
}

/// The address of a file in CurseForge's open store.
pub fn curseforge_cdn_url(file_id: u64, filename: &str) -> (r: String)
    ensures
        r@ == curseforge_url(file_id as nat, filename@),
{
    let high = decimal::decimal_of(file_id / 1000);
    let low = decimal::padded_of(file_id % 1000, 3);
    text::cat6(
        "https://edge.forgecdn.net/files/",
        high.as_str(),
        "/",
        low.as_str(),
        "/",
        filename,
    )
}

/// The address at which the versions of a project are listed.
pub open spec fn version_list_address(slug: Seq<char>) -> Seq<char> {
    "https://api.modrinth.com/v2/project/"@ + slug + "/version"@
}

/// The address at which the versions of a project are listed.
pub fn version_list_url(slug: &str) -> (r: String)
    ensures
        r@ == version_list_address(slug@),
{
    text::cat3("https://api.modrinth.com/v2/project/", slug, "/version")
}

/// The address of a project.
pub open spec fn project_address(project_id: Seq<char>) -> Seq<char> {
    "https://api.modrinth.com/v2/project/"@ + project_id
}

/// The address at which the version that holds a file is looked up by the file's SHA-1.
pub open spec fn hash_address(hash: Seq<char>) -> Seq<char> {
    "https://api.modrinth.com/v2/version_file/"@ + hash + "?algorithm=sha1"@
}

/// The address of a project.
pub fn project_url(project_id: &str) -> (r: String)
    ensures
        r@ == project_address(project_id@),
{
    text::cat2("https://api.modrinth.com/v2/project/", project_id)
}

/// The address at which the version that holds a file is looked up by the file's SHA-1.
pub fn hash_lookup_url(hash: &str) -> (r: String)
    ensures
        r@ == hash_address(hash@),
{
    text::cat3("https://api.modrinth.com/v2/version_file/", hash, "?algorithm=sha1")
}

/// The words of a list in quotation marks.
pub open spec fn quoted(words: Seq<Seq<char>>) -> Seq<Seq<char>> {
    Seq::new(words.len(), |i: int| "\""@ + words[i] + "\""@)
}

/// A filter for a query: the words in quotation marks, with commas, in brackets.
pub open spec fn filter_text(words: Seq<Seq<char>>) -> Seq<char> {
    "["@ + lines::join(quoted(words), ","@) + "]"@
}

/// A filter for a query.
pub fn query_filter(words: &Vec<String>) -> (r: String)
    ensures
        r@ == filter_text(text::views(words@)),
{
    let mut q: Vec<String> = Vec::new();
    let mut i: usize = 0;
    while i < words.len()
        invariant
            i <= words.len(),
            text::views(q@) == quoted(text::views(words@)).take(i as int),
        decreases words.len() - i,
    {
        let ghost before = text::views(q@);
        q.push(text::cat3("\"", words[i].as_str(), "\""));
        assert(text::views(q@) =~= before.push(quoted(text::views(words@))[i as int]));
        i = i + 1;
    }
    assert(text::views(q@) =~= quoted(text::views(words@)));
    let inner = lines::joined(&q, ",");
    text::cat3("[", inner.as_str(), "]")
}

/// A filter for a query with one word.
pub fn query_filter_one(word: &str) -> (r: String)
    ensures
        r@ == filter_text(seq![word@]),
{
    let mut words: Vec<String> = Vec::new();
    words.push(word.to_owned());
    assert(text::views(words@) =~= seq![word@]);
    query_filter(&words)
}

/// A request for the versions of a project, with the filters that it has.
#[derive(Debug)]
pub struct VersionQuery {
    pub url: String,
    pub game_versions: Option<String>,
    pub loaders: Option<String>,
}

/// What is made of the reply to a request for the versions of a project; `what` names
/// the request in the message of an error.
pub open spec fn picked_version(
    what: Seq<char>,
    slug: Seq<char>,
    mc_version: Seq<char>,
    reply: Reply<Vec<ModrinthVersion>>,
    r: Result<Option<ModrinthVersion>, String>,
) -> bool {
    match reply {
        Reply::Unreachable(e) => r is Err && r->Err_0@ == what + slug + ": "@ + e@,
        Reply::Status(s) => r is Err && r->Err_0@ == "modrinth "@ + slug + ": HTTP "@ + s@,
        Reply::Unreadable(e) => r is Err && r->Err_0@ == what + slug + " json: "@ + e@,
        Reply::Received(versions) => r is Ok && r->Ok_0 == best_version(versions@, mc_version),
    }
}

fn version_from_reply(
    what: &str,
    slug: &str,
    mc_version: &str,
    reply: Reply<Vec<ModrinthVersion>>,
) -> (r: Result<Option<ModrinthVersion>, String>)
    ensures
        picked_version(what@, slug@, mc_version@, reply, r),
{
    match reply {
        Reply::Unreachable(e) => Err(text::cat4(what, slug, ": ", e.as_str())),
        Reply::Status(s) => Err(text::cat4("modrinth ", slug, ": HTTP ", s.as_str())),
        Reply::Unreadable(e) => Err(text::cat4(what, slug, " json: ", e.as_str())),
        Reply::Received(versions) => Ok(pick_best_version(versions, mc_version)),
    }
}

/// The version of a mod to install, from the reply to the request for those that fit
/// the version of the game and the loader.
pub fn modrinth_pick_version(
    slug: &str,
    mc_version: &str,
    reply: Reply<Vec<ModrinthVersion>>,
) -> (r: Result<Option<ModrinthVersion>, String>)
    ensures
        picked_version("modrinth versions "@, slug@, mc_version@, reply, r),
{
    version_from_reply("modrinth versions ", slug, mc_version, reply)
}

/// The version of a shader or resource pack to install, from the reply to the request
/// for those that fit the version of the game.
pub fn modrinth_pick_shader_version(
    slug: &str,
    mc_version: &str,
    reply: Reply<Vec<ModrinthVersion>>,
) -> (r: Result<Option<ModrinthVersion>, String>)
    ensures
        picked_version("modrinth shader "@, slug@, mc_version@, reply, r),
{
    version_from_reply("modrinth shader ", slug, mc_version, reply)
}

/// Of the versions that are offered, newest first, the first whose number names the version
/// of the game is taken: none that names it stands before it. Where none names it, the
/// first of all is taken, and where none is offered, none.
pub proof fn newest_that_names_the_game_is_taken(
    versions: Seq<ModrinthVersion>,
    mc_version: Seq<char>,
    i: int,
)
    ensures
        0 <= i < versions.len() && names_version(versions[i].version_number@, mc_version) && (
        forall|j: int|
            0 <= j < i ==> !names_version((#[trigger] versions[j]).version_number@, mc_version))
            ==> best_version(versions, mc_version) == Some(versions[i]),
        versions.len() > 0 && (forall|j: int|
            0 <= j < versions.len() ==> !names_version(
                (#[trigger] versions[j]).version_number@,
                mc_version,
            )) ==> best_version(versions, mc_version) == Some(versions[0]),
        versions.len() == 0 ==> best_version(versions, mc_version) is None,
{
    lemma_naming_index(versions, mc_version);
    let k = naming_index(versions, mc_version);
    if 0 <= i < versions.len() && names_version(versions[i].version_number@, mc_version) && (
    forall|j: int|
        0 <= j < i ==> !names_version((#[trigger] versions[j]).version_number@, mc_version)) {
        if k < i {
            assert(!names_version(versions[k].version_number@, mc_version));
        }
        if i < k {
            assert(!names_version(versions[i].version_number@, mc_version));
        }
    }
}

/// Whether what stands before a version of the game ends as if it belonged to the version:
/// in a digit or, for a version that may be a piece of a longer one, in a digit and a dot.
pub open spec fn runs_into(front: Seq<char>, mc_version: Seq<char>) -> bool {
    ||| front.len() > 0 && decimal::is_digit(front.last())
    ||| can_go_on(mc_version) && front.len() > 1 && front.last() == '.' && decimal::is_digit(
        front[front.len() - 2],
    )
}

/// Whether what stands behind a version of the game begins as if it belonged to the version.
pub open spec fn runs_out_of(mc_version: Seq<char>, rest: Seq<char>) -> bool {
    ||| rest.len() > 0 && decimal::is_digit(rest[0])
    ||| can_go_on(mc_version) && rest.len() > 1 && rest[0] == '.' && decimal::is_digit(rest[1])
}

/// The number of a version names a version of the game exactly where it is made of a front,
/// that version and a rest, neither of which runs into it: `1.21.10` does not name `1.21.1`,
/// and `1.21.1` does not name `1.21`.
pub proof fn named_version_stands_by_itself(number: Seq<char>, mc_version: Seq<char>)
    ensures
        names_version(number, mc_version) <==> exists|front: Seq<char>, rest: Seq<char>|
            number == #[trigger] (front + mc_version + rest) && !runs_into(front, mc_version)
                && !runs_out_of(mc_version, rest),
{
    if names_version(number, mc_version) {
        let i = choose|i: int| stands_alone(number, mc_version, i);
        let front = number.take(i);
        let rest = number.skip(i + mc_version.len());
        assert(number =~= front + mc_version + rest);
        assert(!runs_into(front, mc_version) && !runs_out_of(mc_version, rest));
    }
    if exists|front: Seq<char>, rest: Seq<char>|
        number == #[trigger] (front + mc_version + rest) && !runs_into(front, mc_version)
            && !runs_out_of(mc_version, rest) {
        let (front, rest) = choose|front: Seq<char>, rest: Seq<char>|
            number == #[trigger] (front + mc_version + rest) && !runs_into(front, mc_version)
                && !runs_out_of(mc_version, rest);
        let i = front.len() as int;
        assert(number.subrange(i, i + mc_version.len()) =~= mc_version);
        assert(stands_alone(number, mc_version, i));
    }
}

/// No number that goes on with a digit right behind the version of the game, and holds it
/// nowhere else, names that version.
pub proof fn neighbour_is_not_named(front: Seq<char>, mc_version: Seq<char>, rest: Seq<char>)
    requires
        rest.len() > 0 && decimal::is_digit(rest[0]),
        forall|i: int|
            #[trigger] text::occurs_at(front + mc_version + rest, mc_version, i) ==> i
                == front.len(),
    ensures
        !names_version(front + mc_version + rest, mc_version),
{
    let number = front + mc_version + rest;
    assert forall|i: int| !stands_alone(number, mc_version, i) by {
        if text::occurs_at(number, mc_version, i) {
            assert(number[i + mc_version.len()] == rest[0]);
        }
    }
}

/// A version of the game may be a piece of a longer one exactly where it consists of at most
/// two numbers.
pub proof fn two_numbers_may_go_on(a: Seq<char>, b: Seq<char>, c: Seq<char>)
    requires
        forall|k: int| 0 <= k < a.len() ==> decimal::is_digit(#[trigger] a[k]),
        forall|k: int| 0 <= k < b.len() ==> decimal::is_digit(#[trigger] b[k]),
    ensures
        can_go_on(a),
        can_go_on(a + seq!['.'] + b),
        !can_go_on(a + seq!['.'] + b + seq!['.'] + c),
{
    let two = a + seq!['.'] + b;
    let three = two + seq!['.'] + c;
    assert forall|k: int| 0 <= k < two.len() implies decimal::is_digit(#[trigger] two[k]) || two[k]
        == '.' by {
        if k < a.len() {
            assert(two[k] == a[k]);
        } else if k > a.len() {
            assert(two[k] == b[k - a.len() - 1]);
        }
    }
    assert forall|j: int, k: int| 0 <= j < k < two.len() implies !(#[trigger] two[j] == '.'
        && #[trigger] two[k] == '.') by {
        if j < a.len() {
            assert(two[j] == a[j]);
        } else {
            assert(two[k] == b[k - a.len() - 1]);
        }
    }
    assert(three[a.len() as int] == '.' && three[two.len() as int] == '.');
}

/// Of the files of a version the first primary one is taken, and the first of all where none
/// is primary.
pub proof fn first_primary_file_is_taken(files: Seq<ModrinthFile>, i: int)
    ensures
        0 <= i < files.len() && files[i].primary && (forall|j: int|
            0 <= j < i ==> !(#[trigger] files[j]).primary) ==> chosen_file(files) == Some(files[i]),
        files.len() > 0 && (forall|j: int|
            0 <= j < files.len() ==> !(#[trigger] files[j]).primary) ==> chosen_file(files)
            == Some(files[0]),
        files.len() == 0 ==> chosen_file(files) is None,
{
    lemma_primary_index(files);
    lemma_none_primary_before(files);
    let k = primary_index(files);
    if 0 <= i < files.len() && files[i].primary && (forall|j: int|
        0 <= j < i ==> !(#[trigger] files[j]).primary) {
        if k < i {
            assert(!files[k].primary);
        }
        if i < k {
            assert(!files[i].primary);
        }
    }
}

/// No file before the index is primary.
proof fn lemma_none_primary_before(files: Seq<ModrinthFile>)
    ensures
        forall|j: int| 0 <= j < primary_index(files) ==> !(#[trigger] files[j]).primary,
    decreases files.len(),
{
    if files.len() > 0 && !files[0].primary {
        lemma_none_primary_before(files.skip(1));
        lemma_primary_index(files);
        assert forall|j: int| 0 <= j < primary_index(files) implies !(
        #[trigger] files[j]).primary by {
            if j > 0 {
                assert(files[j] == files.skip(1)[j - 1]);
            }
        }
    }
}

/// A version supports a version of the game exactly where it lists it.
pub proof fn supported_versions_are_listed(version: ModrinthVersion, mc_version: Seq<char>)
    ensures
        supports(version, mc_version) <==> exists|i: int|
            0 <= i < version.game_versions.len() && (#[trigger] version.game_versions@[i])@
                == mc_version,
{
    let all = text::views(version.game_versions@);
    if supports(version, mc_version) {
        let i = choose|i: int| 0 <= i < all.len() && all[i] == mc_version;
        assert(version.game_versions@[i]@ == mc_version);
    }
    if exists|i: int|
        0 <= i < version.game_versions.len() && (#[trigger] version.game_versions@[i])@
            == mc_version {
        let i = choose|i: int|
            0 <= i < version.game_versions.len() && (#[trigger] version.game_versions@[i])@
                == mc_version;
        assert(all[i] == mc_version);
    }
}

/// The address of a file in CurseForge's store gives back the number of the file: it stands
/// there in two parts, of which the second has the last three digits.
pub proof fn store_address_holds_the_number(file_id: nat, filename: Seq<char>)
    ensures
        exists|high: Seq<char>, low: Seq<char>|
            curseforge_url(file_id, filename) == #[trigger] ("https://edge.forgecdn.net/files/"@
                + high + "/"@ + low + "/"@ + filename) && low.len() == 3
                && decimal::number_in(high) * 1000 + decimal::number_in(low) == file_id && (
            high.len() > 1 ==> high[0] != '0'),
{
    let high = decimal::decimal(file_id / 1000);
    let low = decimal::padded(file_id % 1000, 3);
    decimal::digits_give_back_the_number(file_id / 1000);
    decimal::padding_keeps_the_number(file_id % 1000, 3);
    assert(decimal::decimal(file_id % 1000).len() <= 3) by {
        reveal_with_fuel(decimal::decimal, 4);
    }
    assert(curseforge_url(file_id, filename) == "https://edge.forgecdn.net/files/"@ + high + "/"@
        + low + "/"@ + filename);
}

/// A filter for one word is the word in quotation marks and brackets, and each further word
/// stands behind a comma at its end: every word is named, in order, and nothing else.
pub proof fn filter_names_every_word(words: Seq<Seq<char>>, word: Seq<char>)
    ensures
        filter_text(seq![word]) == "[\""@ + word + "\"]"@,
        words.len() > 0 ==> filter_text(words.push(word)) == filter_text(words).drop_last()
            + ",\""@ + word + "\"]"@,
{
    reveal_strlit("[");
    reveal_strlit("]");
    reveal_strlit("\"");
    reveal_strlit(",");
    reveal_strlit("[\"");
    reveal_strlit("\"]");
    reveal_strlit(",\"");
    let one = seq![word];
    assert(quoted(one) =~= seq!["\""@ + word + "\""@]);
    assert(filter_text(one) =~= "[\""@ + word + "\"]"@);
    if words.len() > 0 {
        let q = "\""@ + word + "\""@;
        assert(quoted(words.push(word)) =~= quoted(words).push(q));
        lines::lemma_join_push(quoted(words), ","@, q);
        assert(filter_text(words.push(word)) =~= filter_text(words).drop_last() + ",\""@ + word
            + "\"]"@);
    }
}

/// The versions of a project are listed below the project, and a file is looked up by the
/// hash that the rest of the address says it is.
pub proof fn versions_lie_below_their_project(slug: Seq<char>, hash: Seq<char>)
    ensures
        project_address(slug) == "https://api.modrinth.com/v2/project/"@ + slug,
        version_list_address(slug) == project_address(slug) + "/version"@,
        hash_address(hash) == "https://api.modrinth.com/v2/version_file/"@ + hash
            + "?algorithm=sha1"@,
{
}

} // verus!
