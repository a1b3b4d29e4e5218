//! The items of a profile: where each is had from, whether it fits, and what came of it.
use vstd::prelude::*;

use crate::lines;
use crate::modrinth;
use crate::modrinth::{ModrinthVersion, VersionQuery};
use crate::profile;
use crate::profile::{say, says, ItemRef, Level, Progress};
use crate::text;
use crate::web::Reply;

verus! {

/// What an item is.
#[derive(Clone, Copy, Debug, PartialEq, Eq, Structural)]
pub enum Kind {
    Mod,
    Shader,
    ResourcePack,
    /// A mod that goes with a modpack.
    Supplement,
}

/// What stands before the name of an item of a kind in messages.
pub open spec fn label(kind: Kind) -> Seq<char> {
    match kind {
        Kind::Mod => ""@,
        Kind::Shader => "shader "@,
        Kind::ResourcePack => "resource pack "@,
        Kind::Supplement => "supplement "@,
    }
}

/// What stands before the name of an item of a kind in messages.
fn kind_label(kind: Kind) -> (r: &'static str)
    ensures
        r@ == label(kind),
{
    match kind {
        Kind::Mod => "",
        Kind::Shader => "shader ",
        Kind::ResourcePack => "resource pack ",
        Kind::Supplement => "supplement ",
    }
}

/// The folder of the game directory that items of a kind go to.
pub open spec fn folder(kind: Kind) -> Seq<char> {
    match kind {
        Kind::Mod | Kind::Supplement => "mods"@,
        Kind::Shader => "shaderpacks"@,
        Kind::ResourcePack => "resourcepacks"@,
    }
}

/// The folder of the game directory that items of a kind go to.
pub fn folder_of(kind: Kind) -> (r: &'static str)
    ensures
        r@ == folder(kind),
{
    match kind {
        Kind::Mod | Kind::Supplement => "mods",
        Kind::Shader => "shaderpacks",
        Kind::ResourcePack => "resourcepacks",
    }
}

/// What to do about an item.
#[derive(Debug)]
pub enum ItemPlan {
    /// Leave it out, for a reason.
    Skip { reason: String, message: Option<Progress> },
    /// Ask Modrinth for its versions.
    Resolve { slug: String, message: Option<Progress> },
    /// Bring the file to its folder. `required` says whether the whole installation fails
    /// where the file cannot be had.
    Fetch {
        url: String,
        filename: String,
        sha1: Option<String>,
        required: bool,
        message: Option<Progress>,
    },
}

impl ItemPlan {
    /// Whether the item is left out for `reason`, without a message.
    pub open spec fn skips(self, reason: Seq<char>) -> bool {
        self is Skip && self->reason@ == reason && self->Skip_message is None
    }

    /// Whether the item is left out for `reason`, with a message.
    pub open spec fn skips_saying(
        self,
        reason: Seq<char>,
        message: Seq<char>,
        level: Level,
    ) -> bool {
        self is Skip && self->reason@ == reason && says(self->Skip_message, message, level)
    }

    /// Whether the file `filename` at `url` is to be brought.
    pub open spec fn fetches(
        self,
        url: Seq<char>,
        filename: Seq<char>,
        sha1: Option<Seq<char>>,
        required: bool,
    ) -> bool {
        &&& self is Fetch
        &&& self->url@ == url
        &&& self->filename@ == filename
        &&& text::opt_view(self->sha1) == sha1
        &&& self->required == required
    }
}

/// Whether a source gives the address of the file itself.
pub open spec fn by_address(source: Seq<char>) -> bool {
    source == "url"@ || source == "planetminecraft"@ || source == "curseforge_url"@
}

/// Whether a source gives the address of the file itself.
fn is_by_address(source: &str) -> (r: bool)
    ensures
        r == by_address(source@),
{
    text::same(source, "url") || text::same(source, "planetminecraft") || text::same(
        source,
        "curseforge_url",
    )
}

/// What an item is called.
pub open spec fn called(item: ItemRef) -> Seq<char> {
    profile::display_name(item.source@, text::opt_view(item.slug), text::opt_view(item.filename))
}

/// Leaving an item out without a message.
fn skip(reason: String) -> (r: ItemPlan)
    ensures
        r.skips(reason@),
{
    ItemPlan::Skip { reason, message: None }
}

/// Whether `plan` is what to do about an item of a profile. Of the items, mods alone have
/// the number of a file in CurseForge's open store.
pub open spec fn planned(kind: Kind, item: ItemRef, plan: ItemPlan) -> bool {
    let name = label(kind) + called(item);
    if item.source@ == "modrinth"@ {
        match item.slug {
            None => plan.skips(name + " (modrinth source missing slug)"@),
            Some(slug) => {
                &&& plan is Resolve
                &&& plan->slug@ == slug@
                &&& says(
                    plan->Resolve_message,
                    "Resolving "@ + label(kind) + slug@ + "..."@,
                    Level::Info,
                )
            },
        }
    } else if by_address(item.source@) {
        match item.url {
            None => plan.skips(name + " (url source missing url)"@),
            Some(url) => match item.filename {
                None => plan.skips(name + " (url source missing filename)"@),
                Some(filename) => {
                    &&& plan.fetches(url@, filename@, None, false)
                    &&& if kind == Kind::Mod {
                        says(
                            plan->Fetch_message,
                            filename@ + " (url source, no MC version check)"@,
                            Level::Info,
                        )
                    } else {
                        plan->Fetch_message is None
                    }
                },
            },
        }
    } else if kind == Kind::Mod && item.source@ == "curseforge"@ {
        match item.file_id {
            None => plan.skips(name + " (curseforge source missing file_id)"@),
            Some(id) => match item.filename {
                None => plan.skips(name + " (curseforge source missing filename)"@),
                Some(filename) => {
                    &&& plan.fetches(
                        modrinth::curseforge_url(id as nat, filename@),
                        filename@,
                        None,
                        false,
                    )
                    &&& says(
                        plan->Fetch_message,
                        filename@ + " (curseforge source, no MC version check)"@,
                        Level::Info,
                    )
                },
            },
        }
    } else {
        let reason = name + " (unsupported source: "@ + item.source@ + ")"@;
        if kind == Kind::Mod {
            plan.skips_saying(
                reason,
                "Skip "@ + called(item) + ": unknown source "@ + item.source@,
                Level::Warn,
            )
        } else {
            plan.skips(reason)
        }
    }
}

/// What to do about a mod, a shader or a resource pack of a profile.
pub fn plan_item(kind: Kind, item: &ItemRef) -> (plan: ItemPlan)
    ensures
        planned(kind, *item, plan),
{
    let display = profile::ref_display_name(item.source.as_str(), &item.slug, &item.filename);
    let name = text::cat2(kind_label(kind), display.as_str());
    if text::same(item.source.as_str(), "modrinth") {
        match &item.slug {
            None => skip(text::cat2(name.as_str(), " (modrinth source missing slug)")),
            Some(slug) => ItemPlan::Resolve {
                slug: slug.clone(),
                message: say(
                    text::cat4("Resolving ", kind_label(kind), slug.as_str(), "..."),
                    Level::Info,
                ),
            },
        }
    } else if is_by_address(item.source.as_str()) {
        match &item.url {
            None => skip(text::cat2(name.as_str(), " (url source missing url)")),
            Some(url) => match &item.filename {
                None => skip(text::cat2(name.as_str(), " (url source missing filename)")),
                Some(filename) => ItemPlan::Fetch {
                    url: url.clone(),
                    filename: filename.clone(),
                    sha1: None,
                    required: false,
                    message: if kind == Kind::Mod {
                        say(
                            text::cat2(filename.as_str(), " (url source, no MC version check)"),
                            Level::Info,
                        )
                    } else {
                        None
                    },
                },
            },
        }
    } else if kind == Kind::Mod && text::same(item.source.as_str(), "curseforge") {
        match item.file_id {
            None => skip(text::cat2(name.as_str(), " (curseforge source missing file_id)")),
            Some(id) => match &item.filename {
                None => skip(text::cat2(name.as_str(), " (curseforge source missing filename)")),
                Some(filename) => ItemPlan::Fetch {
                    url: modrinth::curseforge_cdn_url(id, filename.as_str()),
                    filename: filename.clone(),
                    sha1: None,
                    required: false,
                    message: say(
                        text::cat2(filename.as_str(), " (curseforge source, no MC version check)"),
                        Level::Info,
                    ),
                },
            },
        }
    } else {
        let reason = text::cat4(
            name.as_str(),
            " (unsupported source: ",
            item.source.as_str(),
            ")",
        );
        if kind == Kind::Mod {
            ItemPlan::Skip {
                reason,
                message: say(
                    text::cat4(
                        "Skip ",
                        display.as_str(),
                        ": unknown source ",
                        item.source.as_str(),
                    ),
                    Level::Warn,
                ),
            }
        } else {
            skip(reason)
        }
    }
}

/// Whether `plan` is what to do about a mod that goes with a modpack.
pub open spec fn supplement_planned(item: ItemRef, plan: ItemPlan) -> bool {
    let name = "supplement "@ + called(item);
    if by_address(item.source@) {
        match item.url {
            None => plan.skips(name + " (missing url)"@),
            Some(url) => match item.filename {
                None => plan.skips(name + " (missing filename)"@),
                Some(filename) => plan.fetches(url@, filename@, None, false) && plan->Fetch_message
                    is None,
            },
        }
    } else if item.source@ == "curseforge"@ {
        match item.file_id {
            None => plan.skips(name + " (missing file_id)"@),
            Some(id) => match item.filename {
                None => plan.skips(name + " (missing filename)"@),
                Some(filename) => plan.fetches(
                    modrinth::curseforge_url(id as nat, filename@),
                    filename@,
                    None,
                    false,
                ) && plan->Fetch_message is None,
            },
        }
    } else {
        plan.skips(name + " (unsupported source "@ + item.source@ + ")"@)
    }
}

/// What to do about a mod that goes with a modpack.
pub fn plan_supplement(item: &ItemRef) -> (plan: ItemPlan)
    ensures
        supplement_planned(*item, plan),
{
    let display = profile::ref_display_name(item.source.as_str(), &item.slug, &item.filename);
    let name = text::cat2("supplement ", display.as_str());
    if is_by_address(item.source.as_str()) {
        match &item.url {
            None => skip(text::cat2(name.as_str(), " (missing url)")),
            Some(url) => match &item.filename {
                None => skip(text::cat2(name.as_str(), " (missing filename)")),
                Some(filename) => ItemPlan::Fetch {
                    url: url.clone(),
                    filename: filename.clone(),
                    sha1: None,
                    required: false,
                    message: None,
                },
            },
        }
    } else if text::same(item.source.as_str(), "curseforge") {
        match item.file_id {
            None => skip(text::cat2(name.as_str(), " (missing file_id)")),
            Some(id) => match &item.filename {
                None => skip(text::cat2(name.as_str(), " (missing filename)")),
                Some(filename) => ItemPlan::Fetch {
                    url: modrinth::curseforge_cdn_url(id, filename.as_str()),
                    filename: filename.clone(),
                    sha1: None,
                    required: false,
                    message: None,
                },
            },
        }
    } else {
        skip(text::cat4(name.as_str(), " (unsupported source ", item.source.as_str(), ")"))
    }
}

/// Whether `r` is the request for the versions of an item that fit: those for the version
/// of the game and, for a mod, for the loader.
pub open spec fn asks_for(
    kind: Kind,
    slug: Seq<char>,
    mc_version: Seq<char>,
    loader: Seq<char>,
    r: VersionQuery,
) -> bool {
    &&& r.url@ == modrinth::version_list_address(slug)
    &&& text::opt_view(r.game_versions) == Some(modrinth::filter_text(seq![mc_version]))
    &&& text::opt_view(r.loaders) == (if kind == Kind::Mod {
        Some(modrinth::filter_text(seq![loader]))
    } else {
        None
    })
}

/// The request for the versions of an item that fit: those for the version of the game
/// and, for a mod, for the loader.
pub fn item_query(kind: Kind, slug: &str, mc_version: &str, loader: &str) -> (r: VersionQuery)
    ensures
        asks_for(kind, slug@, mc_version@, loader@, r),
{
    VersionQuery {
        url: modrinth::version_list_url(slug),
        game_versions: Some(modrinth::query_filter_one(mc_version)),
        loaders: if kind == Kind::Mod {
            Some(modrinth::query_filter_one(loader))
        } else {
            None
        },
    }
}

/// The version of an item to install, from the reply to the request for those that fit.
pub fn item_version(
    kind: Kind,
    slug: &str,
    mc_version: &str,
    reply: Reply<Vec<ModrinthVersion>>,
) -> (r: Result<Option<ModrinthVersion>, String>)
    ensures
        modrinth::picked_version(
            if kind == Kind::Mod {
                "modrinth versions "@
            } else {
                "modrinth shader "@
            },
            slug@,
            mc_version@,
            reply,
            r,
        ),
{
    if kind == Kind::Mod {
        modrinth::modrinth_pick_version(slug, mc_version, reply)
    } else {
        modrinth::modrinth_pick_shader_version(slug, mc_version, reply)
    }
}

/// The versions of the game that a version supports, as they are shown.
pub open spec fn supported(version: ModrinthVersion) -> Seq<char> {
    lines::join(text::views(version.game_versions@), ", "@)
}

/// Whether `r` is what to do about an item of which Modrinth offers `picked`.
pub open spec fn version_planned(
    kind: Kind,
    slug: Seq<char>,
    mc_version: Seq<char>,
    loader: Seq<char>,
    picked: Result<Option<ModrinthVersion>, String>,
    r: Result<ItemPlan, String>,
) -> bool {
    let name = label(kind) + slug;
    match picked {
        Err(e) => r is Ok && if kind == Kind::Mod {
            r->Ok_0.skips_saying(
                name + " ("@ + e@ + ")"@,
                "Skip "@ + slug + ": "@ + e@,
                Level::Warn,
            )
        } else {
            r->Ok_0.skips(name + " ("@ + e@ + ")"@)
        },
        Ok(None) => r is Ok && if kind == Kind::Mod {
            r->Ok_0.skips_saying(
                name + " (no version for MC "@ + mc_version + " + "@ + loader + ")"@,
                "Skip "@ + slug + " (no compatible version)"@,
                Level::Warn,
            )
        } else {
            r->Ok_0.skips(name + " (no version for MC "@ + mc_version + ")"@)
        },
        Ok(Some(version)) => if kind == Kind::Mod && !modrinth::supports(version, mc_version) {
            r is Ok && r->Ok_0.skips_saying(
                slug + " "@ + version.version_number@ + " (supports MC "@ + supported(version)
                    + " but not "@ + mc_version + ")"@,
                "Skip "@ + slug + " "@ + version.version_number@ + " — supports "@ + supported(
                    version,
                ) + " not "@ + mc_version,
                Level::Warn,
            )
        } else {
            match modrinth::chosen_file(version.files@) {
                None => r is Err && r->Err_0@ == "no files for "@ + name,
                Some(file) => {
                    &&& r is Ok
                    &&& r->Ok_0.fetches(
                        file.url@,
                        file.filename@,
                        text::opt_view(file.sha1),
                        true,
                    )
                    &&& if kind == Kind::Mod {
                        says(
                            r->Ok_0->Fetch_message,
                            slug + " "@ + version.version_number@ + " (supports MC: "@ + supported(
                                version,
                            ) + ")"@,
                            Level::Info,
                        )
                    } else {
                        r->Ok_0->Fetch_message is None
                    }
                },
            }
        },
    }
}

/// What to do about a mod that Modrinth offers in a version which does not support the
/// version of the game.
fn unfit(slug: &str, version: &ModrinthVersion, mc_version: &str) -> (plan: ItemPlan)
    ensures
        plan.skips_saying(
            slug@ + " "@ + version.version_number@ + " (supports MC "@ + supported(*version)
                + " but not "@ + mc_version@ + ")"@,
            "Skip "@ + slug@ + " "@ + version.version_number@ + " — supports "@ + supported(
                *version,
            ) + " not "@ + mc_version@,
            Level::Warn,
        ),
{
    let supports = lines::joined(&version.game_versions, ", ");
    let front = text::cat3(slug, " ", version.version_number.as_str());
    let reason = text::cat6(
        front.as_str(),
        " (supports MC ",
        supports.as_str(),
        " but not ",
        mc_version,
        ")",
    );
    let start = text::cat4("Skip ", slug, " ", version.version_number.as_str());
    let message = text::cat5(
        start.as_str(),
        " — supports ",
        supports.as_str(),
        " not ",
        mc_version,
    );
    ItemPlan::Skip { reason, message: say(message, Level::Warn) }
}

/// What to do about an item of which Modrinth offers a version, none, or nothing that
/// could be read. The installation fails where a version has no files.
pub fn plan_version(
    kind: Kind,
    slug: &str,
    mc_version: &str,
    loader: &str,
    picked: Result<Option<ModrinthVersion>, String>,
) -> (r: Result<ItemPlan, String>)
    ensures
        version_planned(kind, slug@, mc_version@, loader@, picked, r),
{
    let name = text::cat2(kind_label(kind), slug);
    match picked {
        Err(e) => {
            let reason = text::cat4(name.as_str(), " (", e.as_str(), ")");
            if kind == Kind::Mod {
                Ok(
                    ItemPlan::Skip {
                        reason,
                        message: say(text::cat4("Skip ", slug, ": ", e.as_str()), Level::Warn),
                    },
                )
            } else {
                Ok(skip(reason))
            }
        },
        Ok(None) => {
            if kind == Kind::Mod {
                Ok(
                    ItemPlan::Skip {
                        reason: text::cat6(
                            name.as_str(),
                            " (no version for MC ",
                            mc_version,
                            " + ",
                            loader,
                            ")",
                        ),
                        message: say(
                            text::cat3("Skip ", slug, " (no compatible version)"),
                            Level::Warn,
                        ),
                    },
                )
            } else {
                Ok(skip(text::cat4(name.as_str(), " (no version for MC ", mc_version, ")")))
            }
        },
        Ok(Some(version)) => {
            if kind == Kind::Mod && !modrinth::supports_game(&version, mc_version) {
                return Ok(unfit(slug, &version, mc_version));
            }
            match modrinth::choose_file(&version.files) {
                None => Err(text::cat2("no files for ", name.as_str())),
                Some(file) => {
                    let message: Option<Progress> = if kind == Kind::Mod {
                        let supports = lines::joined(&version.game_versions, ", ");
                        say(
                            text::cat6(
                                slug,
                                " ",
                                version.version_number.as_str(),
                                " (supports MC: ",
                                supports.as_str(),
                                ")",
                            ),
                            Level::Info,
                        )
                    } else {
                        None
                    };
                    Ok(
                        ItemPlan::Fetch {
                            url: file.url.clone(),
                            filename: file.filename.clone(),
                            sha1: text::copy_of(&file.sha1),
                            required: true,
                            message,
                        },
                    )
                },
            }
        },
    }
}

/// What came of an item: the name of the file that was installed, or why it was left out.
#[derive(Debug)]
pub enum Outcome {
    Installed(String),
    Skipped(String),
}

/// What came of an item, and what to say about it.
#[derive(Debug)]
pub struct ItemResult {
    pub outcome: Outcome,
    pub message: Option<Progress>,
}

/// Whether `r` is what comes of bringing a file to its folder.
pub open spec fn fetch_result(
    kind: Kind,
    required: bool,
    filename: Seq<char>,
    fetched: Result<bool, String>,
    r: Result<ItemResult, String>,
) -> bool {
    match fetched {
        Ok(_) => {
            &&& r is Ok
            &&& r->Ok_0.outcome is Installed
            &&& r->Ok_0.outcome->Installed_0@ == filename
            &&& r->Ok_0.message is None
        },
        Err(e) => if required {
            r is Err && r->Err_0@ == e@
        } else {
            &&& r is Ok
            &&& r->Ok_0.outcome is Skipped
            &&& r->Ok_0.outcome->Skipped_0@ == label(kind) + filename + " ("@ + e@ + ")"@
            &&& says(
                r->Ok_0.message,
                "Skip "@ + label(kind) + filename + ": "@ + e@,
                Level::Warn,
            )
        },
    }
}

/// What comes of an item whose file was brought to its folder, or could not be: the
/// installation fails where the file is `required`, and goes on without it otherwise.
pub fn item_fetched(
    kind: Kind,
    required: bool,
    filename: &str,
    fetched: Result<bool, String>,
) -> (r: Result<ItemResult, String>)
    ensures
        fetch_result(kind, required, filename@, fetched, r),
{
    match fetched {
        Ok(_) => Ok(
            ItemResult { outcome: Outcome::Installed(filename.to_owned()), message: None },
        ),
        Err(e) => {
            if required {
                Err(e)
            } else {
                let reason = text::cat5(kind_label(kind), filename, " (", e.as_str(), ")");
                let message = text::cat5("Skip ", kind_label(kind), filename, ": ", e.as_str());
                Ok(
                    ItemResult {
                        outcome: Outcome::Skipped(reason),
                        message: say(message, Level::Warn),
                    },
                )
            }
        },
    }
}

/// How many items were installed.
pub open spec fn installed_count(outcomes: Seq<Outcome>) -> nat
    decreases outcomes.len(),
{
    if outcomes.len() == 0 {
        0
    } else {
        installed_count(outcomes.drop_last()) + (if outcomes.last() is Installed {
            1nat
        } else {
            0nat
        })
    }
}

/// Why items were left out, in order.
pub open spec fn skip_reasons(outcomes: Seq<Outcome>) -> Seq<Seq<char>>
    decreases outcomes.len(),
{
    if outcomes.len() == 0 {
        Seq::empty()
    } else {
        match outcomes.last() {
            Outcome::Skipped(reason) => skip_reasons(outcomes.drop_last()).push(reason@),
            Outcome::Installed(_) => skip_reasons(outcomes.drop_last()),
        }
    }
}

/// Every item was installed or left out for a reason that is reported.
pub proof fn every_item_is_accounted_for(outcomes: Seq<Outcome>)
    ensures
        installed_count(outcomes) + skip_reasons(outcomes).len() == outcomes.len(),
    decreases outcomes.len(),
{
    if outcomes.len() > 0 {
        every_item_is_accounted_for(outcomes.drop_last());
    }
}

/// What came of a list of items.
#[derive(Debug)]
pub struct Tally {
    pub installed: u32,
    pub skipped: Vec<String>,
}

/// What came of a list of items.
pub fn tally(outcomes: &Vec<Outcome>) -> (r: Tally)
    requires
        outcomes.len() <= u32::MAX,
    ensures
        r.installed == installed_count(outcomes@),
        text::views(r.skipped@) == skip_reasons(outcomes@),
{
    let mut installed: u32 = 0;
    let mut skipped: Vec<String> = Vec::new();
    let mut i: usize = 0;
    assert(outcomes@.take(0) =~= Seq::empty());
    assert(text::views(skipped@) =~= Seq::empty());
    while i < outcomes.len()
        invariant
            i <= outcomes.len() <= u32::MAX,
            installed <= i,
            installed == installed_count(outcomes@.take(i as int)),
            text::views(skipped@) == skip_reasons(outcomes@.take(i as int)),
        decreases outcomes.len() - i,
    {
        let ghost now = outcomes@.take(i + 1);
        let ghost before = text::views(skipped@);
        assert(now.drop_last() =~= outcomes@.take(i as int));
        assert(now.last() == outcomes@[i as int]);
        match &outcomes[i] {
            Outcome::Installed(_) => {
                installed = installed + 1;
            },
            Outcome::Skipped(reason) => {
                skipped.push(reason.clone());
                assert(text::views(skipped@) =~= before.push(reason@));
            },
        }
        i = i + 1;
    }
    assert(outcomes@.take(i as int) =~= outcomes@);
    Tally { installed, skipped }
}

/// The file of the first item that is marked as the default and was installed.
pub open spec fn default_file(marked: Seq<bool>, outcomes: Seq<Outcome>) -> Option<Seq<char>>
    decreases outcomes.len(),
{
    if outcomes.len() == 0 || marked.len() == 0 {
        None
    } else if marked[0] && outcomes[0] is Installed {
        Some(outcomes[0]->Installed_0@)
    } else {
        default_file(marked.skip(1), outcomes.skip(1))
    }
}

/// Which items are marked as the default.
pub open spec fn marks(items: Seq<ItemRef>) -> Seq<bool> {
    Seq::new(items.len(), |i: int| items[i].default)
}

/// The file of the first item that is marked as the default and was installed.
pub fn default_filename(items: &Vec<ItemRef>, outcomes: &Vec<Outcome>) -> (r: Option<String>)
    ensures
        text::opt_view(r) == default_file(marks(items@), outcomes@),
{
    let ghost ms = marks(items@);
    let mut i: usize = 0;
    assert(ms.skip(0) =~= ms);
    assert(outcomes@.skip(0) =~= outcomes@);
    while i < items.len() && i < outcomes.len()
        invariant
            i <= items.len(),
            i <= outcomes.len(),
            ms == marks(items@),
            default_file(ms, outcomes@) == default_file(
                ms.skip(i as int),
                outcomes@.skip(i as int),
            ),
        decreases items.len() - i,
    {
        assert(ms.skip(i as int)[0] == items@[i as int].default);
        assert(ms.skip(i as int).skip(1) =~= ms.skip(i + 1));
        assert(outcomes@.skip(i as int).skip(1) =~= outcomes@.skip(i + 1));
        if items[i].default {
            match &outcomes[i] {
                Outcome::Installed(filename) => {
                    return Some(filename.clone());
                },
                Outcome::Skipped(_) => {},
            }
        }
        i = i + 1;
    }
    None
}

/// The default is the file of an item that was installed and is marked, and no item before
/// it is both; there is none only where no item is both.
pub proof fn default_is_first_marked(marked: Seq<bool>, outcomes: Seq<Outcome>)
    requires
        marked.len() == outcomes.len(),
    ensures
        match default_file(marked, outcomes) {
            Some(f) => exists|i: int|
                0 <= i < outcomes.len() && marked[i] && #[trigger] outcomes[i] is Installed
                    && outcomes[i]->Installed_0@ == f && forall|j: int|
                    0 <= j < i ==> !(marked[j] && #[trigger] outcomes[j] is Installed),
            None => forall|j: int|
                0 <= j < outcomes.len() ==> !(marked[j] && #[trigger] outcomes[j] is Installed),
        },
    decreases outcomes.len(),
{
    if outcomes.len() > 0 {
        if marked[0] && outcomes[0] is Installed {
            assert(outcomes[0] is Installed);
        } else {
            let m = marked.skip(1);
            let o = outcomes.skip(1);
            default_is_first_marked(m, o);
            match default_file(m, o) {
                Some(f) => {
                    let i = choose|i: int|
                        0 <= i < o.len() && m[i] && #[trigger] o[i] is Installed
                            && o[i]->Installed_0@ == f && forall|j: int|
                            0 <= j < i ==> !(m[j] && #[trigger] o[j] is Installed);
                    assert(outcomes[i + 1] == o[i]);
                    assert forall|j: int| 0 <= j < i + 1 implies !(marked[j]
                        && #[trigger] outcomes[j] is Installed) by {
                        if j > 0 {
                            assert(o[j - 1] == outcomes[j]);
                        }
                    }
                },
                None => {
                    assert forall|j: int| 0 <= j < outcomes.len() implies !(marked[j]
                        && #[trigger] outcomes[j] is Installed) by {
                        if j > 0 {
                            assert(o[j - 1] == outcomes[j]);
                        }
                    }
                },
            }
        }
    }
}

/// The files of the items that are marked as defaults and were installed, in order.
pub open spec fn default_files(marked: Seq<bool>, outcomes: Seq<Outcome>) -> Seq<Seq<char>>
    decreases outcomes.len(),
{
    if outcomes.len() == 0 {
        Seq::empty()
    } else {
        let i = outcomes.len() - 1;
        let earlier = default_files(marked, outcomes.drop_last());
        if i < marked.len() && marked[i] && outcomes[i] is Installed {
            earlier.push(outcomes[i]->Installed_0@)
        } else {
            earlier
        }
    }
}

/// The files of all items that are marked as defaults and were installed, in order.
pub fn default_filenames(items: &Vec<ItemRef>, outcomes: &Vec<Outcome>) -> (r: Vec<String>)
    ensures
        text::views(r@) == default_files(marks(items@), outcomes@),
{
    let mut r: Vec<String> = Vec::new();
    let mut i: usize = 0;
    assert(text::views(r@) =~= Seq::empty());
    while i < outcomes.len()
        invariant
            i <= outcomes.len(),
            text::views(r@) == default_files(marks(items@), outcomes@.take(i as int)),
        decreases outcomes.len() - i,
    {
        let ghost now = outcomes@.take(i + 1);
        let ghost before = text::views(r@);
        assert(now.drop_last() =~= outcomes@.take(i as int));
        assert(now[i as int] == outcomes@[i as int]);
        if i < items.len() && items[i].default {
            match &outcomes[i] {
                Outcome::Installed(filename) => {
                    r.push(filename.clone());
                    assert(text::views(r@) =~= before.push(filename@));
                },
                Outcome::Skipped(_) => {},
            }
        }
        i = i + 1;
    }
    assert(outcomes@.take(i as int) =~= outcomes@);
    r
}

/// Every item that is marked as a default and was installed is among the defaults, and
/// nothing else is.
pub proof fn defaults_are_the_marked(marked: Seq<bool>, outcomes: Seq<Outcome>)
    ensures
        forall|i: int|
            0 <= i < outcomes.len() && i < marked.len() && marked[i] && (
            #[trigger] outcomes[i]) is Installed ==> default_files(marked, outcomes).contains(
                outcomes[i]->Installed_0@,
            ),
        forall|k: int|
            0 <= k < default_files(marked, outcomes).len() ==> exists|i: int|
                0 <= i < outcomes.len() && i < marked.len() && marked[i] && (
                #[trigger] outcomes[i]) is Installed && outcomes[i]->Installed_0@
                    == #[trigger] default_files(marked, outcomes)[k],
    decreases outcomes.len(),
{
    if outcomes.len() > 0 {
        let front = outcomes.drop_last();
        let last = outcomes.len() - 1;
        let earlier = default_files(marked, front);
        let all = default_files(marked, outcomes);
        defaults_are_the_marked(marked, front);
        assert forall|i: int|
            0 <= i < outcomes.len() && i < marked.len() && marked[i] && (
            #[trigger] outcomes[i]) is Installed implies all.contains(
            outcomes[i]->Installed_0@,
        ) by {
            if i < last {
                assert(front[i] == outcomes[i]);
                let k = choose|k: int|
                    0 <= k < earlier.len() && earlier[k] == outcomes[i]->Installed_0@;
                assert(all[k] == earlier[k]);
            } else {
                assert(all[all.len() - 1] == outcomes[i]->Installed_0@);
            }
        }
        assert forall|k: int| 0 <= k < all.len() implies exists|i: int|
            0 <= i < outcomes.len() && i < marked.len() && marked[i] && (
            #[trigger] outcomes[i]) is Installed && outcomes[i]->Installed_0@
                == #[trigger] all[k] by {
            if k < earlier.len() {
                assert(all[k] == earlier[k]);
                let i = choose|i: int|
                    0 <= i < front.len() && i < marked.len() && marked[i] && (
                    #[trigger] front[i]) is Installed && front[i]->Installed_0@ == earlier[k];
                assert(outcomes[i] == front[i]);
            } else {
                assert(outcomes[last] is Installed);
            }
        }
    }
}

/// A mod of Modrinth is brought only in a version that supports the version of the game.
pub proof fn mods_fit_the_game(
    slug: Seq<char>,
    mc_version: Seq<char>,
    loader: Seq<char>,
    picked: Result<Option<ModrinthVersion>, String>,
    r: Result<ItemPlan, String>,
)
    requires
        version_planned(Kind::Mod, slug, mc_version, loader, picked, r),
        r is Ok && r->Ok_0 is Fetch,
    ensures
        picked is Ok,
        picked->Ok_0 is Some,
        modrinth::supports(picked->Ok_0->Some_0, mc_version),
{
}

/// Each kind of item has a folder of its own, except that supplements are mods; an update
/// goes to the folder that the item was installed to, and what lies there is looked at when
/// files are taken into the cache.
pub proof fn items_stay_in_their_folders(names: Seq<Seq<char>>, kind: Kind)
    ensures
        folder(Kind::Supplement) == folder(Kind::Mod),
        folder(Kind::Mod) != folder(Kind::Shader),
        folder(Kind::Mod) != folder(Kind::ResourcePack),
        folder(Kind::Shader) != folder(Kind::ResourcePack),
        crate::updates::update_folder("mod"@) == Some(folder(Kind::Mod)),
        crate::updates::update_folder("shader"@) == Some(folder(Kind::Shader)),
        crate::updates::update_folder("resourcepack"@) == Some(folder(Kind::ResourcePack)),
        crate::cache::cache_sources(names).contains(folder(kind)),
        folder(Kind::Mod) == "mods"@,
        folder(Kind::Shader) == "shaderpacks"@,
        folder(Kind::ResourcePack) == "resourcepacks"@,
{
    crate::updates::kinds_have_their_places("mod"@);
    crate::cache::backups_are_looked_through(names, "mods"@);
    reveal_strlit("mod");
    reveal_strlit("shader");
    reveal_strlit("resourcepack");
    reveal_strlit("mods");
    reveal_strlit("shaderpacks");
    reveal_strlit("resourcepacks");
    assert("mod"@.len() == 3 && "shader"@.len() == 6 && "resourcepack"@.len() == 12);
    assert("mods"@.len() == 4 && "shaderpacks"@.len() == 11 && "resourcepacks"@.len() == 13);
}

/// Modrinth is asked about an item exactly where the item is from there and has a slug, and
/// then by that slug. A file is brought without asking exactly where the item gives its
/// address or, for a mod, its number in CurseForge's store, and the name of the file; it is
/// brought from there under that name, and the installation goes on without it where it
/// cannot be had. Every other item is left out.
pub proof fn items_come_from_their_source(kind: Kind, item: ItemRef, plan: ItemPlan)
    requires
        planned(kind, item, plan),
    ensures
        plan is Resolve <==> item.source@ == "modrinth"@ && item.slug is Some,
        plan is Resolve ==> plan->slug@ == item.slug->Some_0@,
        plan is Fetch <==> item.filename is Some && ((item.source@ == "url"@ || item.source@
            == "planetminecraft"@ || item.source@ == "curseforge_url"@) && item.url is Some || kind
            == Kind::Mod && item.source@ == "curseforge"@ && item.file_id is Some),
        plan is Fetch ==> plan->filename@ == item.filename->Some_0@ && plan->sha1 is None
            && !plan->required,
        plan is Fetch && item.source@ != "curseforge"@ ==> plan->url@ == item.url->Some_0@,
        plan is Fetch && item.source@ == "curseforge"@ ==> plan->url@ == modrinth::curseforge_url(
            item.file_id->Some_0 as nat,
            item.filename->Some_0@,
        ),
{
    reveal_strlit("modrinth");
    reveal_strlit("url");
    reveal_strlit("planetminecraft");
    reveal_strlit("curseforge_url");
    reveal_strlit("curseforge");
    assert("modrinth"@.len() == 8 && "url"@.len() == 3 && "planetminecraft"@.len() == 15);
    assert("curseforge_url"@.len() == 14 && "curseforge"@.len() == 10);
}

/// A mod that goes with a modpack is brought exactly where a mod of a profile with the same
/// source would be brought without asking Modrinth, from the same place and under the same
/// name.
pub proof fn supplements_come_as_mods_do(item: ItemRef, as_mod: ItemPlan, plan: ItemPlan)
    requires
        planned(Kind::Mod, item, as_mod),
        supplement_planned(item, plan),
    ensures
        plan is Fetch <==> as_mod is Fetch,
        plan is Fetch ==> plan->url@ == as_mod->url@ && plan->filename@ == as_mod->filename@
            && text::opt_view(plan->sha1) == text::opt_view(as_mod->sha1) && plan->required
            == as_mod->required,
        !(plan is Resolve),
{
    items_come_from_their_source(Kind::Mod, item, as_mod);
    reveal_strlit("modrinth");
    reveal_strlit("url");
    reveal_strlit("planetminecraft");
    reveal_strlit("curseforge_url");
    reveal_strlit("curseforge");
    assert("modrinth"@.len() == 8 && "url"@.len() == 3 && "planetminecraft"@.len() == 15);
    assert("curseforge_url"@.len() == 14 && "curseforge"@.len() == 10);
}

/// Whatever the kind, the versions that are asked for are those for the version of the game;
/// those of a mod are for the loader as well, and those of a shader or a resource pack for
/// any loader.
pub proof fn versions_are_asked_for_the_game(
    kind: Kind,
    slug: Seq<char>,
    mc_version: Seq<char>,
    loader: Seq<char>,
    r: VersionQuery,
)
    requires
        asks_for(kind, slug, mc_version, loader, r),
    ensures
        r.url@ == "https://api.modrinth.com/v2/project/"@ + slug + "/version"@,
        r.game_versions is Some,
        r.game_versions->Some_0@ == "[\""@ + mc_version + "\"]"@,
        r.loaders is Some <==> kind == Kind::Mod,
        r.loaders is Some ==> r.loaders->Some_0@ == "[\""@ + loader + "\"]"@,
{
    modrinth::filter_names_every_word(Seq::empty(), mc_version);
    modrinth::filter_names_every_word(Seq::empty(), loader);
}

/// Of the versions of an item that Modrinth lists, newest first, the first whose number names
/// the version of the game is brought: its first primary file, from where that file lies,
/// under its name and with its hash. For a mod the version must support the game.
pub proof fn newest_fitting_version_is_brought(
    kind: Kind,
    what: Seq<char>,
    slug: Seq<char>,
    mc_version: Seq<char>,
    loader: Seq<char>,
    versions: Vec<ModrinthVersion>,
    k: int,
    f: int,
    picked: Result<Option<ModrinthVersion>, String>,
    r: Result<ItemPlan, String>,
)
    requires
        0 <= k < versions.len(),
        modrinth::names_version(versions@[k].version_number@, mc_version),
        forall|j: int|
            0 <= j < k ==> !modrinth::names_version(
                (#[trigger] versions@[j]).version_number@,
                mc_version,
            ),
        0 <= f < versions@[k].files.len(),
        versions@[k].files@[f].primary,
        forall|j: int| 0 <= j < f ==> !(#[trigger] versions@[k].files@[j]).primary,
        modrinth::picked_version(what, slug, mc_version, Reply::Received(versions), picked),
        version_planned(kind, slug, mc_version, loader, picked, r),
    ensures
        r is Ok,
        r->Ok_0 is Fetch <==> kind != Kind::Mod || text::views(
            versions@[k].game_versions@,
        ).contains(mc_version),
        r->Ok_0 is Fetch ==> {
            let file = versions@[k].files@[f];
            &&& r->Ok_0->url@ == file.url@
            &&& r->Ok_0->filename@ == file.filename@
            &&& text::opt_view(r->Ok_0->sha1) == text::opt_view(file.sha1)
            &&& r->Ok_0->required
        },
        !(r->Ok_0 is Fetch) ==> r->Ok_0 is Skip,
{
    modrinth::newest_that_names_the_game_is_taken(versions@, mc_version, k);
    modrinth::first_primary_file_is_taken(versions@[k].files@, f);
}

/// An item of which Modrinth offers nothing, or of which it could not be asked, is left out,
/// and the installation goes on; it fails only over a version without files.
pub proof fn missing_versions_are_left_out(
    kind: Kind,
    slug: Seq<char>,
    mc_version: Seq<char>,
    loader: Seq<char>,
    picked: Result<Option<ModrinthVersion>, String>,
    r: Result<ItemPlan, String>,
)
    requires
        version_planned(kind, slug, mc_version, loader, picked, r),
    ensures
        picked is Err ==> r is Ok && r->Ok_0 is Skip,
        picked is Ok && picked->Ok_0 is None ==> r is Ok && r->Ok_0 is Skip,
        r is Err ==> picked is Ok && picked->Ok_0 is Some && picked->Ok_0->Some_0.files.len() == 0,
        r is Ok ==> !(r->Ok_0 is Resolve),
{
    if picked is Ok && picked->Ok_0 is Some {
        modrinth::first_primary_file_is_taken(picked->Ok_0->Some_0.files@, 0);
    }
}

/// An item counts as installed exactly where its file was brought, under the name of the
/// file. Where it was not, the installation fails if the file is required, and otherwise goes
/// on with a reason for leaving the item out.
pub proof fn installed_means_brought(
    kind: Kind,
    required: bool,
    filename: Seq<char>,
    fetched: Result<bool, String>,
    r: Result<ItemResult, String>,
)
    requires
        fetch_result(kind, required, filename, fetched, r),
    ensures
        fetched is Ok <==> r is Ok && r->Ok_0.outcome is Installed,
        fetched is Ok ==> r->Ok_0.outcome->Installed_0@ == filename,
        r is Err <==> fetched is Err && required,
        r is Err ==> r->Err_0@ == fetched->Err_0@,
{
}

/// The number of items that were installed is that of the outcomes which say so, and the
/// reasons for leaving items out are those of the other outcomes, in order.
pub proof fn outcomes_are_told_apart(outcomes: Seq<Outcome>)
    ensures
        installed_count(outcomes) == outcomes.filter(|o: Outcome| o is Installed).len(),
        skip_reasons(outcomes) == outcomes.filter(|o: Outcome| o is Skipped).map_values(
            |o: Outcome| o->Skipped_0@,
        ),
    decreases outcomes.len(),
{
    let done = |o: Outcome| o is Installed;
    let out = |o: Outcome| o is Skipped;
    let reason = |o: Outcome| o->Skipped_0@;
    reveal(Seq::filter);
    if outcomes.len() > 0 {
        let front = outcomes.drop_last();
        outcomes_are_told_apart(front);
        if outcomes.last() is Skipped {
            assert(outcomes.filter(out) =~= front.filter(out).push(outcomes.last()));
            assert(outcomes.filter(out).map_values(reason) =~= front.filter(out).map_values(
                reason,
            ).push(outcomes.last()->Skipped_0@));
        } else {
            assert(outcomes.filter(out) =~= front.filter(out));
        }
    } else {
        assert(outcomes.filter(out).map_values(reason) =~= Seq::empty());
    }
}

/// The default is the file of the first item that the profile marks as one and that was
/// installed; all the defaults are the files of those items and of no others.
pub proof fn defaults_are_marked_in_the_profile(
    items: Seq<ItemRef>,
    outcomes: Seq<Outcome>,
    i: int,
)
    requires
        items.len() == outcomes.len(),
    ensures
        0 <= i < items.len() && items[i].default && outcomes[i] is Installed && (forall|j: int|
            0 <= j < i ==> !((#[trigger] items[j]).default && outcomes[j] is Installed))
            ==> default_file(marks(items), outcomes) == Some(outcomes[i]->Installed_0@),
        0 <= i < items.len() && items[i].default && outcomes[i] is Installed ==> default_files(
            marks(items),
            outcomes,
        ).contains(outcomes[i]->Installed_0@),
        (forall|j: int|
            0 <= j < items.len() ==> !((#[trigger] items[j]).default && outcomes[j] is Installed))
            ==> default_file(marks(items), outcomes) is None && default_files(
            marks(items),
            outcomes,
        ).len() == 0,
{
    let ms = marks(items);
    default_is_first_marked(ms, outcomes);
    defaults_are_the_marked(ms, outcomes);
    assert forall|j: int| 0 <= j < items.len() implies ms[j] == (#[trigger] items[j]).default by {}
    if 0 <= i < items.len() && items[i].default && outcomes[i] is Installed {
        assert(ms[i] && outcomes[i] is Installed);
        if default_file(ms, outcomes) is Some && (forall|j: int|
            0 <= j < i ==> !((#[trigger] items[j]).default && outcomes[j] is Installed)) {
            let k = choose|k: int|
                0 <= k < outcomes.len() && ms[k] && #[trigger] outcomes[k] is Installed
                    && outcomes[k]->Installed_0@ == default_file(ms, outcomes)->Some_0
                    && forall|j: int|
                    0 <= j < k ==> !(ms[j] && #[trigger] outcomes[j] is Installed);
            if k < i {
                assert(items[k].default);
            }
            if i < k {
                assert(!(ms[i] && outcomes[i] is Installed));
            }
        }
    }
    if forall|j: int|
        0 <= j < items.len() ==> !((#[trigger] items[j]).default && outcomes[j] is Installed) {
        if default_file(ms, outcomes) is Some {
            let k = choose|k: int|
                0 <= k < outcomes.len() && ms[k] && #[trigger] outcomes[k] is Installed
                    && outcomes[k]->Installed_0@ == default_file(ms, outcomes)->Some_0
                    && forall|j: int|
                    0 <= j < k ==> !(ms[j] && #[trigger] outcomes[j] is Installed);
            assert(items[k].default);
        }
        if default_files(ms, outcomes).len() > 0 {
            let f = default_files(ms, outcomes)[0];
            let k = choose|k: int|
                0 <= k < outcomes.len() && k < ms.len() && ms[k] && (#[trigger] outcomes[k])
                    is Installed && outcomes[k]->Installed_0@ == f;
            assert(items[k].default);
        }
    }
}

} // verus!
