use mods_easy::backup::{backup_folder_name, backup_pruned, backups_to_prune, mods_moved, mods_to_move, ModFile};
use mods_easy::data::{
    data_file_url, data_files, get_data_manifest, local_data_dir, local_data_manifest,
    read_profiles, any_written, text_to_cache, CatalogueRead,
};
use mods_easy::identify::{identify_jar, IdentifyEvent, IdentifyPhase};
use mods_easy::items::Outcome;
use mods_easy::launch::{
    launch_command, launch_minecraft_launcher, launch_steps, next_launch, LaunchOutcome, LaunchStep,
};
use mods_easy::modpack::{
    getting_modpack, installing_supplements, is_server_only, manifest_loader, modpack_file, modpack_known,
    modpack_report, modpack_steps, override_target, overrides_extracted, pack_file_fetched,
    plan_pack_file, resolving_modpack, ModpackInstallation, ModpackStep, MrpackFile, MrpackIndex, NamedValue,
    PackFilePlan, PackLoader,
};
use mods_easy::modrinth::{
    curseforge_cdn_url, hash_lookup_url, modrinth_pick_shader_version, modrinth_pick_version,
    names_game, pick_best_version, project_url, query_filter, query_filter_one, supports_game,
    version_list_url, ModrinthFile, ModrinthVersion,
};
use mods_easy::processes::{collect_minecraft_processes, count_stopped, ProcessInfo};
use mods_easy::profile::{level_name, ItemRef, ModpackRef, Profile, Progress};
use mods_easy::server_pack::{
    build_server_readme, building, download_server_pack, server_pack_plan, server_pack_report,
    archive_entries, writing_zip, zip_written, ModrinthProjectMeta, PackContents,
    ServerModEvent, ServerModPhase,
};
use mods_easy::updates::{
    apply_update, check_for_updates, checking, is_scanned, scan_targets, updates_found, ApplyEvent,
    ApplyPhase, CheckEvent, CheckPhase, InstalledFile, SettingsFile, UpdateInfo,
};
use mods_easy::web::{Body, Reply};

fn told(messages: &[Progress]) -> Vec<String> {
    messages.iter().map(|p| format!("{} {}", level_name(p.level), p.message)).collect()
}

fn said(p: &Option<Progress>) -> String {
    match p {
        Some(p) => format!("{} {}", level_name(p.level), p.message),
        None => String::new(),
    }
}

fn words(list: &[&str]) -> Vec<String> {
    list.iter().map(|s| s.to_string()).collect()
}

fn text(s: &str) -> Option<String> {
    Some(s.to_string())
}

fn version(number: &str, games: &[&str], files: Vec<ModrinthFile>) -> ModrinthVersion {
    ModrinthVersion {
        id: String::new(),
        version_number: number.to_string(),
        files,
        game_versions: words(games),
        loaders: vec![],
    }
}

fn file(name: &str) -> ModrinthFile {
    ModrinthFile { url: format!("https://x/{name}"), filename: name.to_string(), primary: false, sha1: None }
}

fn profile(mods: Vec<ItemRef>) -> Profile {
    Profile {
        id: "p".to_string(),
        name: "Pro".to_string(),
        short_description: String::new(),
        minecraft_version: text("1.21"),
        loader: text("fabric"),
        color: None,
        accent: None,
        icon: None,
        not_implemented_in_phase_1: false,
        java_xmx_gb: None,
        modpack: None,
        modpack_supplements: vec![],
        mods,
        shaders: vec![],
        resource_packs: vec![],
    }
}

fn modrinth_item(slug: Option<&str>) -> ItemRef {
    ItemRef {
        source: "modrinth".to_string(),
        slug: slug.map(String::from),
        url: None,
        filename: None,
        file_id: None,
        role: None,
        default: false,
    }
}

#[test]
fn a_version_that_names_the_game_is_preferred() {
    let offered = || vec![version("0.138.3+1.21.10", &[], vec![]), version("0.134+1.21.9", &[], vec![]), version("0.133+1.21.9", &[], vec![])];
    assert_eq!(pick_best_version(offered(), "1.21.9").unwrap().version_number, "0.134+1.21.9");
    assert_eq!(pick_best_version(offered(), "1.20").unwrap().version_number, "0.138.3+1.21.10");
    assert!(pick_best_version(vec![], "1.20").is_none());
    let neighbours = vec![version("0.138.3+1.21.10-fabric", &[], vec![]), version("0.116.7+1.21.1-fabric", &[], vec![])];
    assert_eq!(pick_best_version(neighbours, "1.21.1").unwrap().version_number, "0.116.7+1.21.1-fabric");
    assert!(names_game("mc1.21.1", "1.21.1") && names_game("1.21.1.", "1.21.1") && names_game("1.21.10+1.21.1", "1.21.1"));
    assert!(!names_game("0.5+1.21.1", "1.21") && !names_game("0.1.21", "1.21") && !names_game("11.21", "1.21"));
    assert!(!names_game("2.0", "1.21"));
    let behind_a_word = vec![version("2.1.0+mc1.20.4", &[], vec![]), version("2.0.0+fabric.1.21.1", &[], vec![])];
    assert_eq!(pick_best_version(behind_a_word, "1.21.1").unwrap().version_number, "2.0.0+fabric.1.21.1");
    assert!(names_game("mc.1.21-2", "1.21") && names_game(".1.21", "1.21") && !names_game("mc.1.21.1", "1.21"));
    assert!(names_game("1.21.1.5", "1.21.1") && names_game("5.1.21.1", "1.21.1") && !names_game("5.1.21.10", "1.21.1"));
    assert!(names_game("0.5+24w10a.2", "24w10a") && !names_game("1.21.1-rc10", "1.21.1-rc1"));
    assert!(supports_game(&version("1", &["1.20", "1.21"], vec![]), "1.21"));
    assert!(!supports_game(&version("1", &["1.20"], vec![]), "1.21"));
}

#[test]
fn replies_about_versions_are_read() {
    let v = modrinth_pick_version("s", "1.21", Reply::Received(vec![version("1", &[], vec![])])).unwrap();
    assert_eq!(v.unwrap().version_number, "1");
    assert_eq!(modrinth_pick_version("s", "1.21", Reply::Unreachable("off".to_string())).unwrap_err(), "modrinth versions s: off");
    assert_eq!(modrinth_pick_version("s", "1.21", Reply::Status("404 Not Found".to_string())).unwrap_err(), "modrinth s: HTTP 404 Not Found");
    assert_eq!(modrinth_pick_shader_version("s", "1.21", Reply::Unreadable("bad".to_string())).unwrap_err(), "modrinth shader s json: bad");
    assert!(modrinth_pick_shader_version("s", "1.21", Reply::Received(vec![])).unwrap().is_none());
}

#[test]
fn addresses_are_built() {
    assert_eq!(curseforge_cdn_url(4926069, "a.jar"), "https://edge.forgecdn.net/files/4926/069/a.jar");
    assert_eq!(curseforge_cdn_url(6402485, "a.jar"), "https://edge.forgecdn.net/files/6402/485/a.jar");
    assert_eq!(curseforge_cdn_url(999999, "a.jar"), "https://edge.forgecdn.net/files/999/999/a.jar");
    assert_eq!(version_list_url("s"), "https://api.modrinth.com/v2/project/s/version");
    assert_eq!(project_url("s"), "https://api.modrinth.com/v2/project/s");
    assert_eq!(hash_lookup_url("ab"), "https://api.modrinth.com/v2/version_file/ab?algorithm=sha1");
    assert_eq!(query_filter_one("1.21"), "[\"1.21\"]");
    assert_eq!(query_filter(&words(&["a", "b"])), "[\"a\",\"b\"]");
    assert_eq!(data_file_url("profiles.yaml"), "https://github.com/zlmitchell/minecraft-mod-like-im-five/releases/download/data-latest/profiles.yaml");
}

#[test]
fn only_jars_are_moved_away() {
    let f = |name: &str, e: Option<&str>| ModFile { name: name.to_string(), extension: e.map(String::from) };
    let files = vec![f("a.jar", Some("jar")), f("b.txt", Some("txt")), f("c.JAR", Some("JAR")), f("d", None)];
    assert_eq!(mods_to_move(&files), vec!["a.jar", "c.JAR"]);
    assert_eq!(told(&mods_moved(1, "b")), vec!["warn Moved 1 existing mod to b"]);
    assert_eq!(told(&mods_moved(2, "b")), vec!["warn Moved 2 existing mods to b"]);
    assert_eq!(backup_folder_name(1_000_000_000), "mods.backup-2001-09-09T01-46-40Z");
}

#[test]
fn the_five_newest_backups_stay() {
    let names = words(&[
        "mods.backup-2024-05", "mods", "mods.backup-2024-01", "mods.backup-2024-03", "mods.backup.x",
        "mods.backup-2024-07", "mods.backup-2024-02", "mods.backup-2024-06", "mods.backup-2024-04",
    ]);
    assert_eq!(backups_to_prune(&names), vec!["mods.backup-2024-01", "mods.backup-2024-02"]);
    assert!(backups_to_prune(&names[..6].to_vec()).is_empty());
    assert_eq!(told(&backup_pruned("n", "/n", Ok(()))), vec!["info Pruned old backup: n"]);
    assert_eq!(told(&backup_pruned("n", "/n", Err("e".to_string()))), vec!["warn Could not remove old backup /n: e"]);
}

#[test]
fn later_backups_have_later_names() {
    let mut last = backup_folder_name(0);
    for secs in [1u64, 60, 86_399, 86_400, 951_782_400, 1_735_689_599, 1_735_689_600] {
        let name = backup_folder_name(secs);
        assert!(last < name);
        last = name;
    }
}

#[test]
fn the_processes_of_the_game_are_found() {
    let p = |pid: u32, name: &str, cmd: &[&str]| ProcessInfo { pid, name: name.to_string(), cmd: words(cmd) };
    let all = vec![
        p(1, "minecraft-mod-like-im-five", &[]),
        p(2, "Minecraft.exe", &[]),
        p(3, "javaw.exe", &["-cp", "C:\\Users\\k\\.MINECRAFT\\x.jar"]),
        p(4, "java", &["-jar", "server.jar"]),
        p(5, "python", &[".minecraft"]),
        p(6, "minecraft", &[]),
    ];
    let found = collect_minecraft_processes(6, &all);
    let listed: Vec<(u32, &str)> = found.iter().map(|r| (r.pid, r.name.as_str())).collect();
    assert_eq!(listed, vec![(2, "Minecraft.exe"), (3, "javaw.exe")]);
    assert_eq!(count_stopped(&vec![true, false, true]), 2);
    assert_eq!(count_stopped(&vec![]), 0);
}

#[test]
fn the_launcher_is_started_in_several_ways() {
    let steps = launch_steps();
    assert_eq!(steps.len(), 10);
    let c = launch_command(&steps[0], "C:\\a.lnk");
    assert_eq!((c.program.as_str(), c.args), ("cmd", words(&["/c", "start", "", "C:\\a.lnk"])));
    let c = launch_command(&steps[4], "C:\\l.exe");
    assert_eq!((c.program.as_str(), c.args.len()), ("C:\\l.exe", 0));
    let c = launch_command(&steps[7], "");
    assert_eq!(c.args, words(&["shell:AppsFolder\\Microsoft.4297127D64EC6_8wekyb3d8bbwe!Minecraft"]));
    let c = launch_command(&steps[8], "");
    assert_eq!(c.args[3], "minecraft://");
    match &steps[6] {
        LaunchStep::Program(place) => assert_eq!(place.parts, vec!["Programs\\Minecraft Launcher\\MinecraftLauncher.exe"]),
        _ => panic!("no program"),
    }
}

#[test]
fn a_launcher_that_does_not_start_is_reported() {
    let steps = launch_steps();
    let failed = |path: &str| LaunchOutcome::Failed { path: path.to_string(), error: "no".to_string() };
    let mut outcomes = vec![failed("/a"), LaunchOutcome::Absent, LaunchOutcome::Absent, LaunchOutcome::Absent, failed("/b"), LaunchOutcome::Absent, LaunchOutcome::Absent];
    outcomes.push(failed(""));
    outcomes.push(failed(""));
    outcomes.push(failed(""));
    assert_eq!(
        launch_minecraft_launcher(&steps, &outcomes).unwrap_err(),
        "Couldn't find the Minecraft launcher. Open it from the Start Menu yourself. Tried: /a: no; /b: no; shell:AppsFolder; minecraft://; minecraft-launcher://"
    );
    assert_eq!(launch_minecraft_launcher(&steps, &vec![LaunchOutcome::Absent, LaunchOutcome::Started]), Ok(()));
}

fn named(name: &str, value: &str) -> NamedValue {
    NamedValue { name: name.to_string(), value: value.to_string() }
}

#[test]
fn the_file_of_a_modpack_is_chosen() {
    assert_eq!(told(&resolving_modpack("m")), vec!["info Resolving modpack m..."]);
    let f = modpack_file("m", Reply::Received(vec![version("2", &[], vec![file("m.mrpack")]), version("1", &[], vec![])])).unwrap();
    assert_eq!(f.filename, "m.mrpack");
    assert_eq!(modpack_file("m", Reply::Received(vec![])).unwrap_err(), "no versions for modpack m");
    assert_eq!(modpack_file("m", Reply::Received(vec![version("2", &[], vec![])])).unwrap_err(), "no files for modpack m");
    assert_eq!(modpack_file("m", Reply::Status("500".to_string())).unwrap_err(), "modpack m: HTTP 500");
    assert_eq!(modpack_file("m", Reply::Unreachable("off".to_string())).unwrap_err(), "modpack versions: off");
    assert_eq!(modpack_file("m", Reply::Unreadable("bad".to_string())).unwrap_err(), "modpack json: bad");
    assert_eq!(told(&getting_modpack("f", false)), vec!["info Downloading modpack f ..."]);
    assert_eq!(told(&getting_modpack("f", true)), vec!["info Reusing already-downloaded f"]);
}

#[test]
fn the_manifest_names_the_loader() {
    let index = |deps: Vec<NamedValue>| MrpackIndex { name: "Pack".to_string(), files: vec![], dependencies: deps };
    let on = manifest_loader(&index(vec![named("quilt-loader", "9"), named("minecraft", "1.21"), named("fabric-loader", "0.18")]), "").unwrap();
    assert_eq!((on.mc_version.as_str(), on.loader.as_str(), on.version.as_str()), ("1.21", "fabric", "0.18"));
    assert_eq!(told(&modpack_known("Pack", &on)), vec!["ok Modpack 'Pack' for MC 1.21 (fabric 0.18)"]);
    let on = manifest_loader(&index(vec![named("forge", "52"), named("minecraft", "1.21")]), "").unwrap();
    assert_eq!(on.loader, "forge");
    assert_eq!(manifest_loader(&index(vec![named("forge", "52")]), "").unwrap_err(), "modpack manifest missing minecraft dep");
    assert_eq!(
        manifest_loader(&index(vec![named("minecraft", "1.21")]), "[\"minecraft\"]").unwrap_err(),
        "modpack manifest specifies no supported loader (deps: [\"minecraft\"])"
    );
}

#[test]
fn files_of_a_modpack_are_fetched_for_the_client() {
    let f = |env: Vec<NamedValue>, downloads: &[&str]| MrpackFile { path: "mods/a.jar".to_string(), sha1: text("ff"), downloads: words(downloads), env };
    assert!(matches!(plan_pack_file(&f(vec![named("client", "unsupported")], &["u"])), PackFilePlan::Ignore));
    assert!(matches!(plan_pack_file(&f(vec![named("client", "required")], &[])), PackFilePlan::Skip { reason } if reason == "mods/a.jar (no download URL)"));
    match plan_pack_file(&f(vec![named("server", "unsupported")], &["u", "v"])) {
        PackFilePlan::Fetch { url, path, sha1 } => assert_eq!((url.as_str(), path.as_str(), sha1), ("u", "mods/a.jar", text("ff"))),
        _ => panic!("not fetched"),
    }
    let r = pack_file_fetched("mods/a.jar", Err("no".to_string()));
    assert!(matches!(r.outcome, Outcome::Skipped(reason) if reason == "mods/a.jar (no)"));
    assert_eq!(said(&r.message), "warn Skip mods/a.jar: no");
    assert!(matches!(pack_file_fetched("p", Ok(true)).outcome, Outcome::Installed(_)));
}

#[test]
fn overrides_lose_their_folder() {
    assert_eq!(override_target("overrides/config/a.txt"), text("config/a.txt"));
    assert_eq!(override_target("client-overrides/b"), text("b"));
    assert_eq!(override_target("overrides/"), None);
    assert_eq!(override_target("overrides/config/"), None);
    assert_eq!(override_target("server-overrides/c"), None);
    assert_eq!(override_target("modrinth.index.json"), None);
    assert_eq!(told(&overrides_extracted(12)), vec!["ok Extracted 12 override file(s)"]);
    assert_eq!(told(&installing_supplements(2)), vec!["info Installing 2 supplemental mod(s)..."]);
    assert!(installing_supplements(0).is_empty());
}

#[test]
fn a_modpack_is_installed_in_order() {
    assert_eq!(
        modpack_steps(2, 1),
        vec![
            ModpackStep::MakeModsFolder,
            ModpackStep::PrimeCache,
            ModpackStep::BackUpMods,
            ModpackStep::File { index: 0 },
            ModpackStep::File { index: 1 },
            ModpackStep::ExtractOverrides,
            ModpackStep::AnnounceSupplements,
            ModpackStep::Supplement { index: 0 },
            ModpackStep::SetFullscreen,
            ModpackStep::TuneJava,
            ModpackStep::AddLauncherProfile,
            ModpackStep::DropPack,
            ModpackStep::WriteState,
        ]
    );
    let on = PackLoader { mc_version: "1.21".to_string(), loader: "fabric".to_string(), version: "0.18".to_string() };
    let r = modpack_report("Pro", &on, "0.18", &vec![Outcome::Installed("a".to_string()), Outcome::Skipped("b".to_string())]);
    assert_eq!((r.mods_installed, r.shaders_installed, r.skipped), (1, 0, words(&["b"])));
}

fn installed() -> InstalledFile {
    InstalledFile { kind: "mod".to_string(), filename: "old.jar".to_string(), path: "/mods/old.jar".to_string() }
}

fn doc(s: &str) -> CheckEvent {
    CheckEvent::Document(Reply::Received(s.as_bytes().to_vec()))
}

#[test]
fn every_file_of_a_modpack_is_accounted_for() {
    let on = PackLoader { mc_version: "1.21".to_string(), loader: "fabric".to_string(), version: "0.18".to_string() };
    let listed = |client: &str| MrpackFile {
        path: "mods/a.jar".to_string(),
        sha1: None,
        downloads: vec![],
        env: vec![NamedValue { name: "client".to_string(), value: client.to_string() }],
    };
    let files = vec![listed("unsupported"), listed("required"), listed("optional")];
    let mut work = ModpackInstallation::begin(&files, 1);
    while let Some(step) = work.current() {
        match step {
            ModpackStep::File { index } if is_server_only(&files[index]) => work.item_done(&files, 1, None),
            ModpackStep::File { index } => work.item_done(&files, 1, Some(Outcome::Installed(format!("f{index}")))),
            ModpackStep::Supplement { .. } => work.item_done(&files, 1, Some(Outcome::Skipped("s".to_string()))),
            _ => work.step_done(&files, 1),
        }
    }
    let r = work.report(&files, 1, "Pro", &on, "0.18");
    assert_eq!((r.mods_installed, r.skipped), (2, words(&["s"])));
    assert_eq!((r.profile_name.as_str(), r.minecraft_version.as_str()), ("Pro", "1.21"));
}

#[test]
fn an_update_is_found() {
    let f = installed();
    let p = check_for_updates(&f, CheckPhase::Hash, CheckEvent::Hashed(Ok("ab".to_string())));
    match &p {
        CheckPhase::AskCurrent { url } => assert_eq!(url, "https://api.modrinth.com/v2/version_file/ab?algorithm=sha1"),
        _ => panic!("not asked"),
    }
    let p = check_for_updates(&f, p, doc("{\"project_id\":\"P\",\"version_number\":\"1\",\"game_versions\":[\"1.21\",3],\"loaders\":[\"fabric\"]}"));
    match &p {
        CheckPhase::AskLatest { query, .. } => {
            assert_eq!(query.url, "https://api.modrinth.com/v2/project/P/version");
            assert_eq!(query.game_versions, text("[\"1.21\"]"));
            assert_eq!(query.loaders, text("[\"fabric\"]"));
        }
        _ => panic!("not asked"),
    }
    let p = check_for_updates(&f, p, CheckEvent::Versions(Reply::Received(vec![version("2", &[], vec![file("new.jar")])])));
    let p = check_for_updates(&f, p, doc("{\"title\":\"Proj\"}"));
    match p {
        CheckPhase::Update(u) => {
            assert_eq!((u.title.as_str(), u.project_id.as_str(), u.kind.as_str()), ("Proj", "P", "mod"));
            assert_eq!((u.current_version.as_str(), u.latest_version.as_str()), ("1", "2"));
            assert_eq!((u.current_filename.as_str(), u.latest_filename.as_str()), ("old.jar", "new.jar"));
            assert_eq!((u.latest_url.as_str(), u.current_path.as_str()), ("https://x/new.jar", "/mods/old.jar"));
        }
        _ => panic!("no update"),
    }
}

#[test]
fn nothing_is_found_of_unknown_or_current_files() {
    let f = InstalledFile { kind: "shader".to_string(), filename: "s.zip".to_string(), path: "/s.zip".to_string() };
    let nothing = |p: CheckPhase| matches!(p, CheckPhase::Nothing);
    assert!(nothing(check_for_updates(&f, CheckPhase::Hash, CheckEvent::Hashed(Err("x".to_string())))));
    let ask = || CheckPhase::AskCurrent { url: String::new() };
    assert!(nothing(check_for_updates(&f, ask(), CheckEvent::Document(Reply::Status("404".to_string())))));
    assert!(nothing(check_for_updates(&f, ask(), doc("oops"))));
    let latest = || check_for_updates(&f, ask(), doc("{\"version_number\":\"1\",\"loaders\":[\"iris\"]}"));
    match latest() {
        CheckPhase::AskLatest { query, current } => {
            assert_eq!((query.game_versions, query.loaders), (None, None));
            assert_eq!(current.project_id, "");
        }
        _ => panic!("not asked"),
    }
    let versions = |v: Vec<ModrinthVersion>| CheckEvent::Versions(Reply::Received(v));
    assert!(nothing(check_for_updates(&f, latest(), versions(vec![version("1", &[], vec![file("s.zip")])]))));
    assert!(nothing(check_for_updates(&f, latest(), versions(vec![version("2", &[], vec![])]))));
    assert!(nothing(check_for_updates(&f, latest(), versions(vec![]))));
}

#[test]
fn installed_files_are_looked_for_by_kind() {
    let targets = scan_targets();
    assert_eq!(targets[2].folder, "resourcepacks");
    assert!(is_scanned(&targets[0], Some("Jar")));
    assert!(!is_scanned(&targets[1], Some("jar")));
    assert!(!is_scanned(&targets[1], None));
    assert_eq!(told(&checking("a")), vec!["info Checking a..."]);
    assert_eq!(told(&updates_found(0)), vec!["info Found 0 update(s)."]);
    assert_eq!(told(&updates_found(3)), vec!["ok Found 3 update(s)."]);
}

fn update(kind: &str) -> UpdateInfo {
    UpdateInfo {
        kind: kind.to_string(),
        title: "T".to_string(),
        project_id: String::new(),
        current_filename: "old".to_string(),
        current_version: "1".to_string(),
        latest_version: "2".to_string(),
        latest_filename: "new".to_string(),
        latest_url: "https://x/new".to_string(),
        current_path: "/old".to_string(),
    }
}

#[test]
fn an_update_is_applied_by_kind() {
    let begun = |kind: &str| apply_update(&update(kind), ApplyPhase::Begin, ApplyEvent::Begun).next;
    assert!(matches!(begun("mod"), ApplyPhase::MakeFolder { folder } if folder == "mods"));
    assert!(matches!(begun("shader"), ApplyPhase::MakeFolder { folder } if folder == "shaderpacks"));
    assert!(matches!(begun("resourcepack"), ApplyPhase::MakeFolder { folder } if folder == "resourcepacks"));
    assert!(matches!(begun("map"), ApplyPhase::Failed(e) if e == "unknown kind: map"));

    let u = update("shader");
    let done = || ApplyEvent::Done(Ok(()));
    let s = apply_update(&u, begun("shader"), done());
    assert_eq!(told(&s.messages), vec!["info Downloading new (was old)"]);
    assert!(matches!(&s.next, ApplyPhase::Download { url, folder, filename }
        if url == "https://x/new" && folder == "shaderpacks" && filename == "new"));
    let s = apply_update(&u, s.next, done());
    assert!(s.messages.is_empty());
    assert!(matches!(&s.next, ApplyPhase::LookAtOld { old, filename, .. } if old == "/old" && filename == "new"));
    let s = apply_update(&u, s.next, ApplyEvent::Old { same: false, present: true });
    assert!(matches!(&s.next, ApplyPhase::RemoveOld { path } if path == "/old"));
    let s = apply_update(&u, s.next, done());
    assert!(matches!(&s.next, ApplyPhase::ChangeSettings { file: SettingsFile::Iris, old, new } if old == "old" && new == "new"));
    let s = apply_update(&u, s.next, done());
    assert!(matches!(s.next, ApplyPhase::Applied));
    assert_eq!(told(&s.messages), vec!["ok Updated T -> 2"]);
}

#[test]
fn a_failed_download_keeps_the_old_file() {
    let u = update("resourcepack");
    let at = || ApplyPhase::Download { url: String::new(), folder: String::new(), filename: String::new() };
    let old = || ApplyPhase::LookAtOld { old: String::new(), folder: String::new(), filename: String::new() };
    let failed = |p: ApplyPhase, e: &str| match apply_update(&u, p, ApplyEvent::Done(Err(e.to_string()))).next {
        ApplyPhase::Failed(e) => e,
        _ => panic!("did not fail"),
    };
    assert_eq!(failed(at(), "no net"), "no net");
    assert_eq!(failed(ApplyPhase::MakeFolder { folder: String::new() }, "full"), "mkdir: full");
    assert_eq!(failed(ApplyPhase::RemoveOld { path: String::new() }, "busy"), "remove old /old: busy");
    let change = ApplyPhase::ChangeSettings { file: SettingsFile::Options, old: String::new(), new: String::new() };
    assert_eq!(failed(change, "write options.txt: full"), "write options.txt: full");
    let s = apply_update(&u, old(), ApplyEvent::Old { same: true, present: true });
    assert!(matches!(s.next, ApplyPhase::ChangeSettings { file: SettingsFile::Options, .. }));
    let s = apply_update(&update("mod"), old(), ApplyEvent::Old { same: false, present: false });
    assert!(matches!(s.next, ApplyPhase::Applied));
}

#[test]
fn a_jar_is_identified() {
    let p = identify_jar("/a.jar", IdentifyPhase::Read, IdentifyEvent::File(Ok(b"abc".to_vec())));
    match &p {
        IdentifyPhase::Ask { url } => assert_eq!(
            url,
            "https://api.modrinth.com/v2/version_file/a9993e364706816aba3e25717850c26c9cd0d89d?algorithm=sha1"
        ),
        _ => panic!("not asked"),
    }
    let p = identify_jar("/a.jar", p, IdentifyEvent::Status(Ok((200, "200 OK".to_string()))));
    let p = identify_jar("/a.jar", p, IdentifyEvent::Body(Ok(b"{\"project_id\":\"P\",\"version_number\":\"1\",\"loaders\":[\"fabric\"]}".to_vec())));
    let p = identify_jar("/a.jar", p, IdentifyEvent::Project(Some(b"{\"title\":\"T\"}".to_vec())));
    match p {
        IdentifyPhase::Identified(j) => {
            assert!(j.matched);
            assert_eq!((j.title, j.version_number, j.project_id), (text("T"), text("1"), text("P")));
            assert_eq!((j.loaders, j.game_versions.len()), (words(&["fabric"]), 0));
        }
        _ => panic!("not identified"),
    }
}

#[test]
fn an_unknown_jar_is_no_error() {
    let ask = || IdentifyPhase::Ask { url: String::new() };
    match identify_jar("p", ask(), IdentifyEvent::Status(Ok((404, "404 Not Found".to_string())))) {
        IdentifyPhase::Identified(j) => assert!(!j.matched && j.title.is_none() && j.loaders.is_empty()),
        _ => panic!("not identified"),
    }
    let failed = |p: IdentifyPhase| match p {
        IdentifyPhase::Failed(e) => e,
        _ => panic!("did not fail"),
    };
    assert_eq!(failed(identify_jar("p", ask(), IdentifyEvent::Status(Ok((503, "503 Busy".to_string()))))), "hash lookup: HTTP 503 Busy");
    assert_eq!(failed(identify_jar("p", ask(), IdentifyEvent::Status(Err("off".to_string())))), "hash lookup: off");
    assert_eq!(failed(identify_jar("p", IdentifyPhase::Read, IdentifyEvent::File(Err("gone".to_string())))), "read p: gone");
    assert_eq!(failed(identify_jar("p", IdentifyPhase::ReadAnswer, IdentifyEvent::Body(Ok(b"oops".to_vec())))), "hash lookup json: error decoding response body");
    assert_eq!(failed(identify_jar("p", IdentifyPhase::ReadAnswer, IdentifyEvent::Body(Err("cut".to_string())))), "hash lookup json: cut");
    match identify_jar("p", IdentifyPhase::ReadAnswer, IdentifyEvent::Body(Ok(b"{}".to_vec()))) {
        IdentifyPhase::Identified(j) => assert!(j.matched && j.project_id.is_none()),
        _ => panic!("not identified"),
    }
}

#[test]
fn server_packs_are_for_plain_profiles() {
    assert_eq!(server_pack_plan(vec![], "p", "/z").unwrap_err(), "Unknown profile: p");
    let mut p = profile(vec![]);
    p.modpack = Some(ModpackRef { source: String::new(), slug: String::new() });
    assert_eq!(
        server_pack_plan(vec![p], "p", "/z").unwrap_err(),
        "Server-pack export isn't supported for modpack profiles like 'Pro' — install it client-side first."
    );
    let mut p = profile(vec![]);
    p.loader = text("quilt");
    assert_eq!(
        server_pack_plan(vec![p], "p", "/z").unwrap_err(),
        "Server-pack export only supports Fabric and NeoForge — 'Pro' uses quilt."
    );
    let mut p = profile(vec![]);
    p.loader = None;
    assert_eq!(server_pack_plan(vec![p], "p", "/z").unwrap_err(), "profile has no loader");
    let mut p = profile(vec![]);
    p.minecraft_version = None;
    assert_eq!(server_pack_plan(vec![p], "p", "/z").unwrap_err(), "profile has no minecraft_version");
    assert_eq!(server_pack_plan(vec![profile(vec![])], "p", "").unwrap_err(), "No output path selected");
    let plan = server_pack_plan(vec![profile(vec![])], "p", "/z").unwrap();
    assert_eq!(plan.loader, "fabric");
    assert_eq!(told(&building("Pro", "1.21", "fabric")), vec!["info Building server pack for 'Pro' (MC 1.21, fabric)"]);
}

#[test]
fn a_mod_gets_into_a_server_pack() {
    let i = modrinth_item(Some("lithium"));
    let s = download_server_pack(&i, "1.21", "fabric", ServerModPhase::Begin, ServerModEvent::Begun);
    assert_eq!(said(&s.message), "info Checking lithium...");
    let meta = ModrinthProjectMeta { title: text("Lithium"), server_side: text("optional") };
    let s = download_server_pack(&i, "1.21", "fabric", s.next, ServerModEvent::Project(Reply::Received(meta)));
    let s = download_server_pack(&i, "1.21", "fabric", s.next, ServerModEvent::Versions(Reply::Received(vec![version("0.14", &["1.21"], vec![file("l.jar")])])));
    assert_eq!(said(&s.message), "info Downloading l.jar");
    let s = download_server_pack(&i, "1.21", "fabric", s.next, ServerModEvent::File(Body::Received(vec![7])));
    let mut contents = PackContents::empty();
    contents.take_in(s.next);
    contents.take_in(ServerModPhase::Skipped("x (client-only)".to_string()));
    assert_eq!(contents.filenames(), vec!["l.jar"]);
    assert_eq!(contents.files[0].bytes, vec![7]);
    assert_eq!(contents.included, vec!["Lithium 0.14 (`l.jar`)"]);
    let plan = server_pack_plan(vec![profile(vec![i, modrinth_item(Some("x"))])], "p", "/z").unwrap();
    let r = server_pack_report(&plan, "1.21", "/z", contents);
    assert_eq!((r.mods_included, r.skipped, r.output_path.as_str()), (1, words(&["x (client-only)"]), "/z"));
}

#[test]
fn mods_stay_out_of_a_server_pack_for_a_reason() {
    let i = modrinth_item(Some("m"));
    let skip = |phase: ServerModPhase, event: ServerModEvent| {
        let s = download_server_pack(&i, "1.21", "fabric", phase, event);
        match s.next {
            ServerModPhase::Skipped(reason) => (reason, said(&s.message)),
            _ => panic!("not skipped"),
        }
    };
    let project = || ServerModPhase::AskProject { slug: "m".to_string() };
    let versions = || ServerModPhase::AskVersions { slug: "m".to_string(), title: "M".to_string() };
    let meta = ModrinthProjectMeta { title: None, server_side: text("unsupported") };
    assert_eq!(skip(project(), ServerModEvent::Project(Reply::Received(meta))), ("m (client-only)".to_string(), "info Skip m (client-only)".to_string()));
    assert_eq!(
        skip(project(), ServerModEvent::Project(Reply::Status("404".to_string()))),
        ("m (modrinth project m: HTTP 404)".to_string(), "warn Skip m: modrinth project m: HTTP 404".to_string())
    );
    assert_eq!(skip(versions(), ServerModEvent::Versions(Reply::Received(vec![]))).0, "m (no version for MC 1.21 + fabric)");
    assert_eq!(
        skip(versions(), ServerModEvent::Versions(Reply::Received(vec![version("1", &["1.20"], vec![])]))),
        ("m 1 (supports 1.20 not 1.21)".to_string(), String::new())
    );
    assert_eq!(skip(versions(), ServerModEvent::Versions(Reply::Unreadable("bad".to_string()))).0, "m (modrinth versions m json: bad)");
    let mut other = modrinth_item(None);
    let s = download_server_pack(&other, "1.21", "fabric", ServerModPhase::Begin, ServerModEvent::Begun);
    assert!(matches!(s.next, ServerModPhase::Skipped(r) if r == "modrinth (modrinth source missing slug)"));
    other.source = "url".to_string();
    let s = download_server_pack(&other, "1.21", "fabric", ServerModPhase::Begin, ServerModEvent::Begun);
    assert!(matches!(s.next, ServerModPhase::Skipped(r) if r == "url (unsupported source url)"));
    let s = download_server_pack(&i, "1.21", "fabric", versions(), ServerModEvent::Versions(Reply::Received(vec![version("1", &["1.21"], vec![])])));
    assert!(matches!(s.next, ServerModPhase::Failed(e) if e == "no files for m"));
    let download = ServerModPhase::Download { slug: "m".to_string(), url: String::new(), filename: String::new(), line: String::new() };
    let s = download_server_pack(&i, "1.21", "fabric", download, ServerModEvent::File(Body::Unreadable("cut".to_string())));
    assert!(matches!(s.next, ServerModPhase::Failed(e) if e == "download m body: cut"));
}

#[test]
fn the_readme_explains_fabric() {
    let readme = build_server_readme("Pro", "p", "1.21", "fabric", &words(&["A 1 (`a.jar`)"]), &words(&["b (client-only)"]));
    let expected = "# Pro — Server Pack\n\nGenerated by Minecraft Mods, Easy from profile `p`.\n\nMinecraft **1.21** · loader **fabric**.\n\n## Install\n\n1. Make a fresh folder for your server (e.g. `my-server/`).\n2. Download the Fabric server installer from <https://fabricmc.net/use/server/>.\n3. Run the installer with the matching Minecraft version, e.g.:\n   ```\n   java -jar fabric-installer-<X.Y.Z>.jar server -mcversion 1.21 -downloadMinecraft\n   ```\n   This creates `fabric-server-launch.jar` and downloads the vanilla server jar.\n4. Drop the `mods/` folder from this zip into the server folder.\n5. Edit `eula.txt`: set `eula=true` (you must accept Mojang's EULA before the server runs).\n6. Start the server: `java -jar fabric-server-launch.jar nogui`\n\n## Mods included\n\n- A 1 (`a.jar`)\n\n## Skipped (client-only or unavailable)\n\n- b (client-only)\n\nPlayers need a matching mod set on the **client** to join. Run the same profile in Minecraft Mods, Easy on each player's machine to get a compatible client.\n";
    assert_eq!(readme, expected);
}

#[test]
fn the_readme_explains_other_loaders() {
    let readme = build_server_readme("Pro", "p", "1.21", "neoforge", &vec![], &vec![]);
    assert!(readme.contains("2. Download the NeoForge installer for MC 1.21 — same major.minor prefix"));
    assert!(readme.contains("(`run.sh` on Linux/macOS, `run.bat` on Windows).\n\n## Mods included\n\n_None._\n\nPlayers need"));
    let readme = build_server_readme("Pro", "p", "1.21", "quilt", &vec![], &vec![]);
    assert!(readme.contains("2. Install the quilt server loader for MC 1.21 per the loader's documentation.\n3. Drop"));
}

#[test]
fn the_archive_always_has_a_mods_folder() {
    assert_eq!(archive_entries(&words(&["a.jar"])), vec!["README.md", "mods/", "mods/a.jar"]);
    assert_eq!(archive_entries(&vec![]), vec!["README.md", "mods/"]);
    assert_eq!(told(&writing_zip("/z")), vec!["info Writing zip to /z"]);
    assert_eq!(told(&zip_written(1, "/z")), vec!["ok Wrote 1 mod to /z"]);
    assert_eq!(told(&zip_written(0, "/z")), vec!["ok Wrote 0 mods to /z"]);
}

#[test]
fn the_catalogue_comes_from_the_best_place() {
    let parsed = || CatalogueRead::Parsed(vec![profile(vec![])]);
    assert_eq!(read_profiles(Some(("/p".to_string(), parsed())), None, Err("x".to_string())).unwrap().len(), 1);
    assert_eq!(
        read_profiles(Some(("/p".to_string(), CatalogueRead::Unread("no".to_string()))), Some(parsed()), Ok(vec![])).unwrap_err(),
        "MMLE5_LOCAL_DATA read /p: no"
    );
    assert_eq!(
        read_profiles(Some(("/p".to_string(), CatalogueRead::Unparsed("bad".to_string()))), Some(parsed()), Ok(vec![])).unwrap_err(),
        "MMLE5_LOCAL_DATA parse /p: bad"
    );
    assert_eq!(read_profiles(None, Some(parsed()), Ok(vec![])).unwrap().len(), 1);
    assert!(read_profiles(None, Some(CatalogueRead::Unparsed("bad".to_string())), Ok(vec![])).unwrap().is_empty());
    assert_eq!(read_profiles(None, None, Err("bad".to_string())).unwrap_err(), "parse profiles.yaml: bad");
    assert_eq!(local_data_dir(text("")), None);
    assert_eq!(local_data_dir(text("/d")), text("/d"));
}

#[test]
fn the_release_of_the_catalogue_is_named() {
    let m = get_data_manifest(true, Reply::Received(b"{\"name\":\"Data 7\",\"published_at\":\"2024\"}".to_vec())).unwrap();
    assert_eq!((m.label.as_str(), m.published_at, m.using_cache), ("Data 7", text("2024"), true));
    let m = get_data_manifest(false, Reply::Received(b"{}".to_vec())).unwrap();
    assert_eq!((m.label.as_str(), m.published_at), ("data-latest", None));
    assert_eq!(get_data_manifest(true, Reply::Status("403".to_string())).unwrap().label, "embedded");
    assert_eq!(get_data_manifest(true, Reply::Unreachable("off".to_string())).unwrap_err(), "data-latest api: off");
    assert_eq!(get_data_manifest(true, Reply::Unreadable("cut".to_string())).unwrap_err(), "data-latest json: cut");
    assert_eq!(
        get_data_manifest(true, Reply::Received(b"oops".to_vec())).unwrap_err(),
        "data-latest json: error decoding response body"
    );
    assert_eq!(local_data_manifest("/d").label, "local-dev: /d");
}

#[test]
fn only_readable_catalogues_are_cached() {
    assert_eq!(text_to_cache(Reply::Received("version: 1\nprofiles: []\n".to_string())), text("version: 1\nprofiles: []\n"));
    assert_eq!(text_to_cache(Reply::Received("a: [1".to_string())), None);
    assert_eq!(text_to_cache(Reply::Status("404".to_string())), None);
    assert_eq!(data_files(), vec!["profiles.yaml", "frameworks.yaml"]);
    assert!(any_written(&vec![false, true]));
    assert!(!any_written(&vec![false, false]));
}

#[test]
fn the_first_way_that_starts_is_the_last_one_tried() {
    let steps = launch_steps();
    let mut outcomes = vec![];
    while let Some(i) = next_launch(&steps, &outcomes) {
        assert_eq!(i, outcomes.len());
        outcomes.push(if i == 3 { LaunchOutcome::Started } else { LaunchOutcome::Absent });
    }
    assert_eq!(outcomes.len(), 4);
    assert_eq!(launch_minecraft_launcher(&steps, &outcomes), Ok(()));
    let all: Vec<LaunchOutcome> = steps.iter().map(|_| LaunchOutcome::Absent).collect();
    assert_eq!(next_launch(&steps, &all), None);
}
