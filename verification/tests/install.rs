use mods_easy::install::{
    choose_profile, fullscreen_is_off, install_plan, java_is_tuned, latest_resolved,
    launcher_profile_id, pack_is_enabled, resolving_latest, shader_is_set, updating_launcher,
    wanted_version, InstallPlan, InstallStep, Installation, WantedVersion,
};
use mods_easy::items::{
    default_filename, default_filenames, folder_of, item_fetched, item_query, item_version,
    plan_item, plan_supplement, plan_version, tally, ItemPlan, Kind, Outcome,
};
use mods_easy::json::{parse, Json};
use mods_easy::loader::LatestMcVersion;
use mods_easy::modrinth::{ModrinthFile, ModrinthVersion};
use mods_easy::options::enable_resource_packs;
use mods_easy::places::{
    anchor_variable, default_minecraft_dir, game_dir, get_minecraft_dir, launcher_runtime_roots,
    require_dir, Anchor, Platform,
};
use mods_easy::profile::{
    find_profile, level_name, ref_display_name, ItemRef, ModpackRef, Profile, Progress,
};
use mods_easy::state::{install_state, state_bytes, state_filename};
use mods_easy::web::Reply;

fn told(messages: &[Progress]) -> Vec<String> {
    messages.iter().map(|p| format!("{} {}", level_name(p.level), p.message)).collect()
}

fn said(p: &Option<Progress>) -> String {
    match p {
        Some(p) => format!("{} {}", level_name(p.level), p.message),
        None => String::new(),
    }
}

fn text(s: &str) -> Option<String> {
    Some(s.to_string())
}

fn item(source: &str, slug: Option<&str>, url: Option<&str>, filename: Option<&str>) -> ItemRef {
    ItemRef {
        source: source.to_string(),
        slug: slug.map(String::from),
        url: url.map(String::from),
        filename: filename.map(String::from),
        file_id: None,
        role: None,
        default: false,
    }
}

fn profile(id: &str) -> Profile {
    Profile {
        id: id.to_string(),
        name: format!("Profile {id}"),
        short_description: String::new(),
        minecraft_version: text("1.21"),
        loader: text("fabric"),
        color: None,
        accent: None,
        icon: None,
        not_implemented_in_phase_1: false,
        java_xmx_gb: None,
        modpack: None,
        modpack_supplements: vec![],
        mods: vec![],
        shaders: vec![],
        resource_packs: vec![],
    }
}

fn version(number: &str, games: &[&str], files: Vec<ModrinthFile>) -> ModrinthVersion {
    ModrinthVersion {
        id: String::new(),
        version_number: number.to_string(),
        files,
        game_versions: games.iter().map(|s| s.to_string()).collect(),
        loaders: vec![],
    }
}

fn file(name: &str, primary: bool) -> ModrinthFile {
    ModrinthFile { url: format!("https://x/{name}"), filename: name.to_string(), primary, sha1: text("abc") }
}

#[test]
fn items_are_called_by_their_best_name() {
    assert_eq!(ref_display_name("url", &text("slug"), &text("f.jar")), "slug");
    assert_eq!(ref_display_name("url", &None, &text("f.jar")), "f.jar");
    assert_eq!(ref_display_name("url", &None, &None), "url");
}

#[test]
fn profiles_are_found_by_name() {
    assert_eq!(find_profile(vec![profile("a"), profile("b")], "b").unwrap().id, "b");
    assert_eq!(find_profile(vec![profile("a")], "c").unwrap_err(), "Unknown profile: c");
    let mut p = profile("a");
    p.not_implemented_in_phase_1 = true;
    assert_eq!(
        choose_profile(vec![p], "a").unwrap_err(),
        "'Profile a' is marked not-yet-supported in profiles.yaml."
    );
    assert_eq!(choose_profile(vec![profile("a")], "a").unwrap().name, "Profile a");
}

#[test]
fn a_profile_is_installed_in_one_of_two_ways() {
    match install_plan(&profile("a")).unwrap() {
        InstallPlan::Direct { loader, version: WantedVersion::Pinned(v) } => {
            assert_eq!(loader, "fabric");
            assert_eq!(v, "1.21");
        }
        _ => panic!("not direct"),
    }
    let mut p = profile("a");
    p.minecraft_version = text("Latest");
    assert!(matches!(install_plan(&p).unwrap(), InstallPlan::Direct { version: WantedVersion::Latest, .. }));
    p.minecraft_version = None;
    assert_eq!(install_plan(&p).unwrap_err(), "profile has no `minecraft_version` and no `modpack` field");
    p.loader = text("quilt");
    assert_eq!(install_plan(&p).unwrap_err(), "Unsupported loader 'quilt' on profile 'Profile a'.");
    p.loader = None;
    assert_eq!(install_plan(&p).unwrap_err(), "profile has no `loader` and no `modpack` field");
    p.modpack = Some(ModpackRef { source: "modrinth-modpack".to_string(), slug: "pack".to_string() });
    assert!(matches!(install_plan(&p).unwrap(), InstallPlan::Modpack { slug } if slug == "pack"));
    p.modpack = Some(ModpackRef { source: "zip".to_string(), slug: "pack".to_string() });
    assert_eq!(
        install_plan(&p).unwrap_err(),
        "Unsupported modpack source 'zip' (expected modrinth-modpack)"
    );
    assert!(matches!(wanted_version("LATEST"), WantedVersion::Latest));
}

#[test]
fn the_game_directory_is_asked_for_or_usual() {
    assert_eq!(game_dir(text("/a"), text("/b")).unwrap(), "/a");
    assert_eq!(game_dir(text(""), text("/b")).unwrap(), "/b");
    assert_eq!(game_dir(None, None).unwrap_err(), "can't find .minecraft");
    assert_eq!(require_dir("/a", true), Ok(()));
    assert_eq!(require_dir("/a", false).unwrap_err(), "Folder doesn't exist: /a");
    assert_eq!(get_minecraft_dir(None, true).unwrap_err(), "Cannot determine .minecraft path");
    assert_eq!(
        get_minecraft_dir(text("/a"), false).unwrap_err(),
        "Minecraft folder not found at /a. Open the Minecraft launcher once to create it."
    );
    assert_eq!(get_minecraft_dir(text("/a"), true).unwrap(), "/a");
}

#[test]
fn places_depend_on_the_platform() {
    let p = default_minecraft_dir(Platform::Windows);
    assert_eq!((p.anchor, p.parts), (Anchor::AppData, vec![".minecraft".to_string()]));
    let p = default_minecraft_dir(Platform::MacOs);
    assert_eq!(p.parts, vec!["Library/Application Support/minecraft"]);
    assert_eq!(launcher_runtime_roots(Platform::Windows).len(), 3);
    assert_eq!(launcher_runtime_roots(Platform::Linux)[0].parts, vec![".minecraft", "runtime"]);
    assert_eq!(anchor_variable(Anchor::ProgramFilesX86), Some("ProgramFiles(x86)"));
    assert_eq!(anchor_variable(Anchor::Home), None);
}

fn skipped(plan: ItemPlan) -> (String, String) {
    match plan {
        ItemPlan::Skip { reason, message } => (reason, said(&message)),
        _ => panic!("not skipped"),
    }
}

#[test]
fn incomplete_items_are_skipped() {
    let skip = |kind: Kind, i: ItemRef| skipped(plan_item(kind, &i));
    assert_eq!(skip(Kind::Mod, item("modrinth", None, None, Some("f"))).0, "f (modrinth source missing slug)");
    assert_eq!(skip(Kind::Shader, item("url", None, None, Some("f"))).0, "shader f (url source missing url)");
    assert_eq!(
        skip(Kind::ResourcePack, item("planetminecraft", None, Some("u"), None)).0,
        "resource pack planetminecraft (url source missing filename)"
    );
    assert_eq!(
        skip(Kind::Mod, item("curseforge", None, None, Some("f"))),
        ("f (curseforge source missing file_id)".to_string(), String::new())
    );
    let mut nameless = item("curseforge", None, None, None);
    nameless.file_id = Some(7);
    assert_eq!(skip(Kind::Mod, nameless).0, "curseforge (curseforge source missing filename)");
    assert_eq!(
        skip(Kind::Mod, item("ftp", None, None, Some("f"))),
        ("f (unsupported source: ftp)".to_string(), "warn Skip f: unknown source ftp".to_string())
    );
    assert_eq!(
        skip(Kind::Shader, item("curseforge", None, None, Some("f"))).0,
        "shader f (unsupported source: curseforge)"
    );
    assert_eq!(
        skip(Kind::Shader, item("ftp", None, None, None)),
        ("shader ftp (unsupported source: ftp)".to_string(), String::new())
    );
}

#[test]
fn complete_items_are_resolved_or_fetched() {
    match plan_item(Kind::Shader, &item("modrinth", Some("bsl"), None, None)) {
        ItemPlan::Resolve { slug, message } => {
            assert_eq!(slug, "bsl");
            assert_eq!(said(&message), "info Resolving shader bsl...");
        }
        _ => panic!("not resolved"),
    }
    match plan_item(Kind::Mod, &item("curseforge_url", None, Some("u"), Some("f.jar"))) {
        ItemPlan::Fetch { url, filename, sha1, required, message } => {
            assert_eq!((url.as_str(), filename.as_str(), sha1, required), ("u", "f.jar", None, false));
            assert_eq!(said(&message), "info f.jar (url source, no MC version check)");
        }
        _ => panic!("not fetched"),
    }
    assert!(matches!(
        plan_item(Kind::Shader, &item("url", None, Some("u"), Some("f"))),
        ItemPlan::Fetch { message: None, .. }
    ));
    assert_eq!(folder_of(Kind::Supplement), "mods");
    assert_eq!(folder_of(Kind::Shader), "shaderpacks");
    assert_eq!(folder_of(Kind::ResourcePack), "resourcepacks");
}

#[test]
fn mods_may_come_from_curseforge() {
    let mut i = item("curseforge", None, None, Some("m.jar"));
    i.file_id = Some(4926069);
    match plan_item(Kind::Mod, &i) {
        ItemPlan::Fetch { url, filename, sha1, required, message } => {
            assert_eq!(url, "https://edge.forgecdn.net/files/4926/069/m.jar");
            assert_eq!((filename.as_str(), sha1, required), ("m.jar", None, false));
            assert_eq!(said(&message), "info m.jar (curseforge source, no MC version check)");
        }
        _ => panic!("not fetched"),
    }
    let r = item_fetched(Kind::Mod, false, "m.jar", Ok(true)).unwrap();
    assert_eq!(tally(&vec![r.outcome]).installed, 1);
}

#[test]
fn mods_are_asked_for_with_their_loader() {
    let q = item_query(Kind::Mod, "sodium", "1.21.1", "neoforge");
    assert_eq!(q.url, "https://api.modrinth.com/v2/project/sodium/version");
    assert_eq!((q.game_versions, q.loaders), (text("[\"1.21.1\"]"), text("[\"neoforge\"]")));
    let q = item_query(Kind::Shader, "bsl", "1.21.1", "neoforge");
    assert_eq!((q.game_versions, q.loaders), (text("[\"1.21.1\"]"), None));
    let q = item_query(Kind::ResourcePack, "faithful", "1.21.1", "neoforge");
    assert_eq!(q.loaders, None);
    let off = || Reply::Unreachable("off".to_string());
    assert_eq!(item_version(Kind::Mod, "s", "1.21", off()).unwrap_err(), "modrinth versions s: off");
    assert_eq!(item_version(Kind::ResourcePack, "s", "1.21", off()).unwrap_err(), "modrinth shader s: off");
}

#[test]
fn supplements_may_come_from_curseforge() {
    let mut i = item("curseforge", None, None, Some("m.jar"));
    assert_eq!(skipped(plan_supplement(&i)).0, "supplement m.jar (missing file_id)");
    i.file_id = Some(4926069);
    match plan_supplement(&i) {
        ItemPlan::Fetch { url, filename, .. } => {
            assert_eq!(url, "https://edge.forgecdn.net/files/4926/069/m.jar");
            assert_eq!(filename, "m.jar");
        }
        _ => panic!("not fetched"),
    }
    i.filename = None;
    assert_eq!(skipped(plan_supplement(&i)).0, "supplement curseforge (missing filename)");
    assert_eq!(skipped(plan_supplement(&item("url", None, None, None))).0, "supplement url (missing url)");
    assert_eq!(
        skipped(plan_supplement(&item("modrinth", Some("s"), None, None))).0,
        "supplement s (unsupported source modrinth)"
    );
}

#[test]
fn a_mod_must_support_the_game() {
    let v = version("2.0", &["1.20", "1.20.1"], vec![file("a.jar", true)]);
    let (reason, message) = skipped(plan_version(Kind::Mod, "lithium", "1.21", "fabric", Ok(Some(v))).unwrap());
    assert_eq!(reason, "lithium 2.0 (supports MC 1.20, 1.20.1 but not 1.21)");
    assert_eq!(message, "warn Skip lithium 2.0 — supports 1.20, 1.20.1 not 1.21");
    let v = version("2.0", &["1.20"], vec![file("a.zip", true)]);
    assert!(matches!(plan_version(Kind::Shader, "bsl", "1.21", "fabric", Ok(Some(v))), Ok(ItemPlan::Fetch { .. })));
}

#[test]
fn the_primary_file_is_fetched() {
    let v = version("2.0", &["1.21"], vec![file("a.jar", false), file("b.jar", true)]);
    match plan_version(Kind::Mod, "lithium", "1.21", "fabric", Ok(Some(v))).unwrap() {
        ItemPlan::Fetch { url, filename, sha1, required, message } => {
            assert_eq!((url.as_str(), filename.as_str(), sha1, required), ("https://x/b.jar", "b.jar", text("abc"), true));
            assert_eq!(said(&message), "info lithium 2.0 (supports MC: 1.21)");
        }
        _ => panic!("not fetched"),
    }
    let v = version("2.0", &["1.21"], vec![]);
    assert_eq!(plan_version(Kind::ResourcePack, "p", "1.21", "fabric", Ok(Some(v))).unwrap_err(), "no files for resource pack p");
}

#[test]
fn items_that_are_not_offered_are_skipped() {
    let (reason, message) = skipped(plan_version(Kind::Mod, "m", "1.21", "fabric", Ok(None)).unwrap());
    assert_eq!((reason.as_str(), message.as_str()), ("m (no version for MC 1.21 + fabric)", "warn Skip m (no compatible version)"));
    let (reason, message) = skipped(plan_version(Kind::Shader, "s", "1.21", "fabric", Ok(None)).unwrap());
    assert_eq!((reason.as_str(), message.as_str()), ("shader s (no version for MC 1.21)", ""));
    let (reason, message) = skipped(plan_version(Kind::Mod, "m", "1.21", "fabric", Err("off".to_string())).unwrap());
    assert_eq!((reason.as_str(), message.as_str()), ("m (off)", "warn Skip m: off"));
    let (reason, message) = skipped(plan_version(Kind::ResourcePack, "p", "1.21", "fabric", Err("off".to_string())).unwrap());
    assert_eq!((reason.as_str(), message.as_str()), ("resource pack p (off)", ""));
}

#[test]
fn a_required_file_that_is_missing_ends_the_work() {
    let r = item_fetched(Kind::Mod, true, "a.jar", Err("no".to_string()));
    assert_eq!(r.unwrap_err(), "no");
    let r = item_fetched(Kind::Supplement, false, "a.jar", Err("no".to_string())).unwrap();
    assert!(matches!(r.outcome, Outcome::Skipped(reason) if reason == "supplement a.jar (no)"));
    assert_eq!(said(&r.message), "warn Skip supplement a.jar: no");
    let r = item_fetched(Kind::Mod, false, "a.jar", Ok(false)).unwrap();
    assert!(matches!(r.outcome, Outcome::Installed(f) if f == "a.jar"));
}

#[test]
fn outcomes_are_counted() {
    let outcomes = vec![
        Outcome::Installed("a".to_string()),
        Outcome::Skipped("b".to_string()),
        Outcome::Installed("c".to_string()),
        Outcome::Skipped("d".to_string()),
    ];
    let t = tally(&outcomes);
    assert_eq!(t.installed, 2);
    assert_eq!(t.skipped, vec!["b", "d"]);
}

#[test]
fn the_first_installed_default_wins() {
    let mut items: Vec<ItemRef> = (0..3).map(|_| item("url", None, None, None)).collect();
    let outcomes = vec![
        Outcome::Skipped("x".to_string()),
        Outcome::Installed("b".to_string()),
        Outcome::Installed("c".to_string()),
    ];
    assert_eq!(default_filename(&items, &outcomes), None);
    items[0].default = true;
    items[1].default = true;
    items[2].default = true;
    assert_eq!(default_filename(&items, &outcomes), text("b"));
}

#[test]
fn every_installed_default_pack_is_switched_on() {
    let mut items: Vec<ItemRef> = (0..4).map(|_| item("url", None, None, None)).collect();
    let outcomes = vec![
        Outcome::Skipped("x".to_string()),
        Outcome::Installed("b.zip".to_string()),
        Outcome::Installed("c.zip".to_string()),
        Outcome::Installed("d.zip".to_string()),
    ];
    assert!(default_filenames(&items, &outcomes).is_empty());
    items[0].default = true;
    items[1].default = true;
    items[3].default = true;
    let names = default_filenames(&items, &outcomes);
    assert_eq!(names, vec!["b.zip", "d.zip"]);
    assert_eq!(
        enable_resource_packs("resourcePacks:[\"vanilla\",\"fabric\"]\n", &names).unwrap(),
        "resourcePacks:[\"vanilla\",\"fabric\",\"file/b.zip\",\"file/d.zip\"]\n"
    );
    assert_eq!(enable_resource_packs("a:1", &vec![]).unwrap(), "a:1");
}

#[test]
fn the_installation_is_recorded() {
    let s = install_state(&profile("a"), "1.21.1", "neoforge", "21.1.5", None, 86400);
    assert_eq!(state_filename(), ".mmle5-state.json");
    let j = parse(&state_bytes(&s).unwrap()).unwrap();
    assert_eq!(j.get_text("profile_id"), text("a"));
    assert_eq!(j.get_text("profile_name"), text("Profile a"));
    assert_eq!(j.get_text("mc_version"), text("1.21.1"));
    assert_eq!(j.get_text("loader"), text("neoforge"));
    assert_eq!(j.get_text("loader_version"), text("21.1.5"));
    assert!(matches!(j.get("modpack_version"), Some(Json::Null)));
    assert_eq!(j.get_text("installed_at"), text("1970-01-02T00:00:00Z"));
    let s = install_state(&profile("a"), "1.21.1", "fabric", "0.16", Some("5.0"), 0);
    let j = parse(&state_bytes(&s).unwrap()).unwrap();
    assert_eq!(j.get_text("modpack_version"), text("5.0"));
}

#[test]
fn an_installation_goes_through_its_steps() {
    let mut p = profile("a");
    p.mods = vec![item("url", None, None, None), item("url", None, None, None)];
    p.resource_packs = vec![item("url", None, None, None)];
    let mut i = Installation::begin(&p);
    let mut seen = vec![];
    while let Some(step) = i.current() {
        seen.push(step);
        match step {
            InstallStep::Item { kind: Kind::Mod, index: 0 } => i.item_done(&p, Outcome::Installed("m".to_string())),
            InstallStep::Item { .. } => i.item_done(&p, Outcome::Skipped("no".to_string())),
            _ => i.step_done(&p),
        }
    }
    assert_eq!(
        seen,
        vec![
            InstallStep::SetFullscreen,
            InstallStep::TuneJava,
            InstallStep::AddLauncherProfile,
            InstallStep::MakeFolder { kind: Kind::Mod },
            InstallStep::PrimeCache,
            InstallStep::BackUpMods,
            InstallStep::Item { kind: Kind::Mod, index: 0 },
            InstallStep::Item { kind: Kind::Mod, index: 1 },
            InstallStep::ChooseShader,
            InstallStep::MakeFolder { kind: Kind::ResourcePack },
            InstallStep::Item { kind: Kind::ResourcePack, index: 0 },
            InstallStep::EnablePacks,
            InstallStep::WriteState,
        ]
    );
    let r = i.report(&p, "1.21", "0.16");
    assert_eq!((r.mods_installed, r.shaders_installed, r.resource_packs_installed), (1, 0, 0));
    assert_eq!(r.skipped, vec!["no", "no"]);
    assert_eq!(r.profile_name, "Profile a");
    assert_eq!((r.minecraft_version.as_str(), r.loader_version.as_str()), ("1.21", "0.16"));
}

#[test]
fn the_user_is_told_of_each_step() {
    assert_eq!(told(&resolving_latest()), vec!["info Resolving latest Minecraft release..."]);
    let latest = LatestMcVersion { release: "1.21.9".to_string(), snapshot: None };
    assert_eq!(told(&latest_resolved(&latest)), vec!["ok Latest Minecraft release is 1.21.9"]);
    assert_eq!(
        told(&fullscreen_is_off()),
        vec!["ok options.txt -> set fullscreen:false (windowed by default; press F11 in-game to toggle)"]
    );
    assert_eq!(told(&java_is_tuned("-Xmx2G")), vec!["info Java args (auto-tuned): -Xmx2G"]);
    assert_eq!(told(&updating_launcher()), vec!["info Updating launcher profiles..."]);
    assert_eq!(launcher_profile_id("x"), "mmle5-x");
    assert_eq!(
        told(&shader_is_set("/i", "s.zip", "/s.zip", false)),
        vec!["ok iris.properties -> /i (shaderPack=s.zip, enableShaders=true)", "warn WARNING: shader zip missing at /s.zip"]
    );
    assert_eq!(told(&shader_is_set("/i", "s.zip", "/s.zip", true))[1], "ok verified shader zip exists: /s.zip");
    assert_eq!(
        told(&pack_is_enabled("/o", "p.zip", "/p.zip", true)),
        vec!["ok options.txt -> /o (added \"file/p.zip\" to resourcePacks)", "ok verified resource pack zip: /p.zip"]
    );
    assert_eq!(told(&pack_is_enabled("/o", "p", "/p", false))[1], "warn WARNING: resource pack missing at /p");
}
