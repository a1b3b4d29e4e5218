use mods_easy::json;
use mods_easy::loader::{
    detect_existing_loader_version, fabric_loader_url, fabric_pick_loader_version,
    fabric_profile_url, fetch_latest_minecraft_version, find_neoforge_version_id,
    installer_failure, neoforge_family, neoforge_installer_name, neoforge_installer_url,
    neoforge_pick_version, neoforge_prefix_for_mc, write_fabric_version_files, VersionFolder,
};
use mods_easy::loader_setup::{
    begin_pinned, pinned_version_id, set_up_loader, LoaderEvent, LoaderPhase,
};
use mods_easy::neoforge::{install_neoforge, NeoForgeEvent, NeoForgePhase, RunOutput};
use mods_easy::profile::{level_name, Progress};
use mods_easy::web::{downloaded, Body};

fn body(s: &str) -> Body {
    Body::Received(s.as_bytes().to_vec())
}

fn told(messages: &[Progress]) -> Vec<String> {
    messages.iter().map(|p| format!("{} {}", level_name(p.level), p.message)).collect()
}

#[test]
fn the_newest_release_is_read() {
    let v = fetch_latest_minecraft_version(body("{\"latest\":{\"release\":\"1.21.9\",\"snapshot\":\"25w01a\"}}")).unwrap();
    assert_eq!(v.release, "1.21.9");
    assert_eq!(v.snapshot, Some("25w01a".to_string()));
    let v = fetch_latest_minecraft_version(body("{\"latest\":{\"release\":\"1.21.9\",\"snapshot\":4}}")).unwrap();
    assert_eq!(v.snapshot, None);
    assert_eq!(fetch_latest_minecraft_version(body("{}")).unwrap_err(), "manifest missing latest.release");
    assert_eq!(
        fetch_latest_minecraft_version(body("oops")).unwrap_err(),
        "mojang manifest json: error decoding response body"
    );
    assert_eq!(fetch_latest_minecraft_version(Body::Unreachable("off".to_string())).unwrap_err(), "mojang manifest: off");
    assert_eq!(fetch_latest_minecraft_version(Body::Unreadable("cut".to_string())).unwrap_err(), "mojang manifest json: cut");
}

#[test]
fn the_first_stable_fabric_loader_is_taken() {
    let list = "[{\"loader\":{\"version\":\"0.18\",\"stable\":false}},{\"loader\":{\"stable\":true}},{\"loader\":{\"version\":\"0.16\",\"stable\":true}}]";
    assert_eq!(fabric_pick_loader_version("1.21", body(list)).unwrap(), "0.16");
    let list = "[{\"loader\":{\"version\":\"0.18\"}},{\"loader\":{\"version\":\"0.17\",\"stable\":false}}]";
    assert_eq!(fabric_pick_loader_version("1.21", body(list)).unwrap(), "0.18");
    assert_eq!(fabric_pick_loader_version("1.21", body("[]")).unwrap_err(), "no Fabric loader for MC 1.21");
    assert_eq!(
        fabric_pick_loader_version("1.21", body("{}")).unwrap_err(),
        "fabric meta json: error decoding response body"
    );
    assert_eq!(fabric_loader_url("1.21"), "https://meta.fabricmc.net/v2/versions/loader/1.21");
    assert_eq!(
        fabric_profile_url("1.21", "0.16"),
        "https://meta.fabricmc.net/v2/versions/loader/1.21/0.16/profile/json"
    );
}

#[test]
fn fabric_files_are_named_after_the_version() {
    let j = json::parse(b"{\"id\":\"fabric-loader-0.16-1.21\",\"n\":1}").unwrap();
    let files = write_fabric_version_files(j).unwrap();
    assert_eq!(files.version_id, "fabric-loader-0.16-1.21");
    assert_eq!(files.json_name, "fabric-loader-0.16-1.21.json");
    assert_eq!(files.jar_name, "fabric-loader-0.16-1.21.jar");
    assert_eq!(String::from_utf8(files.json).unwrap(), "{\n  \"id\": \"fabric-loader-0.16-1.21\",\n  \"n\": 1\n}");
    let j = json::parse(b"{}").unwrap();
    assert_eq!(write_fabric_version_files(j).unwrap_err(), "fabric profile json missing 'id'");
}

#[test]
fn neoforge_versions_follow_the_game() {
    assert_eq!(neoforge_prefix_for_mc("1.21.1"), Some("21.1.".to_string()));
    assert_eq!(neoforge_prefix_for_mc("1.21"), Some("21.0.".to_string()));
    assert_eq!(neoforge_prefix_for_mc("1"), None);
    assert_eq!(neoforge_prefix_for_mc("2.0"), None);
    assert_eq!(neoforge_prefix_for_mc(""), None);
    assert_eq!(neoforge_family("b1.7").unwrap_err(), "Can't map MC b1.7 to a NeoForge version");
}

#[test]
fn the_newest_stable_neoforge_is_taken() {
    let list = "{\"versions\":[\"21.1.1\",7,\"21.1.2\",\"21.1.3-BETA\",\"21.10.9\"]}";
    assert_eq!(neoforge_pick_version("1.21.1", "21.1.", body(list)).unwrap(), "21.1.2");
    let list = "{\"versions\":[\"21.1.1-beta\",\"21.1.2-rc1\"]}";
    assert_eq!(neoforge_pick_version("1.21.1", "21.1.", body(list)).unwrap(), "21.1.2-rc1");
    assert_eq!(
        neoforge_pick_version("1.21.1", "21.1.", body("{\"versions\":[]}")).unwrap_err(),
        "No NeoForge release for MC 1.21.1"
    );
    assert_eq!(
        neoforge_pick_version("1.21.1", "21.1.", body("{\"versions\":3}")).unwrap_err(),
        "neoforge versions response missing 'versions' array"
    );
}

#[test]
fn an_installed_neoforge_is_found() {
    let folder = |name: &str, has_json: bool| VersionFolder { name: name.to_string(), has_json };
    let folders = vec![folder("21.1.5", true), folder("NeoForge-21.1.5", false), folder("1.21.1-NeoForge-21.1.5", true)];
    assert_eq!(find_neoforge_version_id("21.1.5", true, &folders), Some("neoforge-21.1.5".to_string()));
    assert_eq!(find_neoforge_version_id("21.1.5", false, &folders), Some("1.21.1-NeoForge-21.1.5".to_string()));
    assert_eq!(find_neoforge_version_id("21.1.6", false, &folders), None);
}

#[test]
fn the_last_installed_loader_is_found() {
    let names: Vec<String> = [
        "1.21.1", "Fabric-Loader-0.15.0-1.21.1", "fabric-loader-0.16.0-1.21.1", "fabric-loader-0.9-1.21",
        "quilt-loader-0.2-1.21.1", "neoforge-21.1.9", "neoforge-21.1.10", "forge-1.21.1-52",
    ].iter().map(|s| s.to_string()).collect();
    let found = |loader: &str, mc: &str| detect_existing_loader_version(&names, loader, mc);
    assert_eq!(found("fabric", "1.21.1"), Some("fabric-loader-0.16.0-1.21.1".to_string()));
    assert_eq!(found("fabric", "1.21"), Some("fabric-loader-0.9-1.21".to_string()));
    assert_eq!(found("quilt", "1.21.1"), Some("quilt-loader-0.2-1.21.1".to_string()));
    assert_eq!(found("neoforge", "1.7"), Some("neoforge-21.1.9".to_string()));
    assert_eq!(found("forge", "1.21.1"), Some("forge-1.21.1-52".to_string()));
    assert_eq!(found("forge", "1.21"), None);
    assert_eq!(found("other", "1.21.1"), None);
}

#[test]
fn a_failed_installer_shows_its_last_lines() {
    let out: String = (1..=25).map(|i| format!("line {i}\n")).collect();
    let text = installer_failure(Some(-1), &out, "a\nb");
    assert!(text.starts_with("NeoForge installer failed (exit Some(-1)).\nstdout (tail):\nline 6\nline 7\n"));
    assert!(text.ends_with("line 25\nstderr (tail):\na\nb"));
    assert!(installer_failure(None, "", "").starts_with("NeoForge installer failed (exit None)"));
    assert!(installer_failure(Some(10), "", "").starts_with("NeoForge installer failed (exit Some(10))"));
}

#[test]
fn neoforge_is_installed_step_by_step() {
    let s = install_neoforge("1.21.1", None, NeoForgePhase::FindJava, NeoForgeEvent::Java(Some("/java".to_string())));
    assert_eq!(told(&s.messages), vec!["info Java: /java", "info Resolving NeoForge version..."]);
    let s = install_neoforge("1.21.1", None, s.next, NeoForgeEvent::Versions(body("{\"versions\":[\"21.1.5\"]}")));
    assert_eq!(told(&s.messages), vec!["ok NeoForge 21.1.5"]);
    let s = install_neoforge("1.21.1", None, s.next, NeoForgeEvent::Done(Ok(())));
    assert_eq!(told(&s.messages), vec!["info Downloading NeoForge installer..."]);
    assert_eq!(neoforge_installer_name("21.1.5"), "neoforge-21.1.5-installer.jar");
    assert_eq!(
        neoforge_installer_url("21.1.5"),
        "https://maven.neoforged.net/releases/net/neoforged/neoforge/21.1.5/neoforge-21.1.5-installer.jar"
    );
    let s = install_neoforge("1.21.1", None, s.next, NeoForgeEvent::Done(Ok(())));
    assert!(matches!(s.next, NeoForgePhase::EnsureProfiles { .. }));
    let s = install_neoforge("1.21.1", None, s.next, NeoForgeEvent::Done(Ok(())));
    assert_eq!(told(&s.messages), vec!["info Running NeoForge installer (this can take a minute)..."]);
    let out = RunOutput { success: true, code: Some(0), stdout: String::new(), stderr: String::new() };
    let s = install_neoforge("1.21.1", None, s.next, NeoForgeEvent::Ran(Ok(out)));
    let s = install_neoforge("1.21.1", None, s.next, NeoForgeEvent::Folders { usual: true, folders: vec![] });
    assert!(matches!(s.next, NeoForgePhase::Installed { version, version_id } if version == "21.1.5" && version_id == "neoforge-21.1.5"));
}

#[test]
fn neoforge_fails_with_a_reason() {
    let failed = |p: NeoForgePhase| match p {
        NeoForgePhase::Failed(e) => e,
        _ => panic!("did not fail"),
    };
    let s = install_neoforge("1.21.1", None, NeoForgePhase::FindJava, NeoForgeEvent::Java(None));
    assert!(failed(s.next).starts_with("Couldn't find Java."));
    let s = install_neoforge("x", None, NeoForgePhase::FindJava, NeoForgeEvent::Java(Some("j".to_string())));
    assert_eq!(failed(s.next), "Can't map MC x to a NeoForge version");
    let version = || "21.1.5".to_string();
    let s = install_neoforge("1.21.1", None, NeoForgePhase::Download { version: version() }, NeoForgeEvent::Done(Err("no".to_string())));
    assert_eq!(failed(s.next), "no");
    let s = install_neoforge("1.21.1", None, NeoForgePhase::Run { version: version() }, NeoForgeEvent::Ran(Err("run java: no".to_string())));
    assert_eq!(failed(s.next), "run java: no");
    let s = install_neoforge("1.21.1", None, NeoForgePhase::FindInstalled { version: version() }, NeoForgeEvent::Folders { usual: false, folders: vec![] });
    assert_eq!(failed(s.next), "NeoForge installer ran but no versions/* entry was created for 21.1.5");
}

#[test]
fn a_pinned_neoforge_is_not_looked_up() {
    let s = install_neoforge("1.21.1", Some("21.1.7"), NeoForgePhase::FindJava, NeoForgeEvent::Java(Some("j".to_string())));
    assert_eq!(told(&s.messages), vec!["info Java: j", "ok NeoForge 21.1.7 (from modpack manifest)"]);
    assert!(matches!(s.next, NeoForgePhase::MakeFolder { version } if version == "21.1.7"));
}

#[test]
fn an_installed_loader_is_used() {
    let names = vec!["fabric-loader-0.16-1.21".to_string()];
    let s = set_up_loader("fabric", "1.21", None, LoaderPhase::Look, LoaderEvent::Names(names));
    assert_eq!(told(&s.messages), vec!["ok Using existing Fabric install: fabric-loader-0.16-1.21 (skipping meta fetch)"]);
    assert!(matches!(s.next, LoaderPhase::Ready { loader_version, version_id } if loader_version == "(existing)" && version_id == "fabric-loader-0.16-1.21"));
    let names = vec!["neoforge-21.1.5".to_string()];
    let s = set_up_loader("neoforge", "1.21.1", None, LoaderPhase::Look, LoaderEvent::Names(names));
    assert_eq!(told(&s.messages), vec!["ok Using existing NeoForge install: neoforge-21.1.5 (skipping installer)"]);
}

#[test]
fn a_missing_fabric_loader_is_installed() {
    let s = set_up_loader("fabric", "1.21", None, LoaderPhase::Look, LoaderEvent::Names(vec![]));
    assert_eq!(told(&s.messages), vec!["info Picking Fabric loader for MC 1.21..."]);
    let s = set_up_loader("fabric", "1.21", None, s.next, LoaderEvent::Received(body("[{\"loader\":{\"version\":\"0.16\",\"stable\":true}}]")));
    assert_eq!(told(&s.messages), vec!["ok Fabric loader 0.16", "info Fetching loader profile..."]);
    let s = set_up_loader("fabric", "1.21", None, s.next, LoaderEvent::Received(body("{\"id\":\"fl\"}")));
    assert_eq!(told(&s.messages), vec!["info Writing version files: fl"]);
    let s = set_up_loader("fabric", "1.21", None, s.next, LoaderEvent::Written(Ok(())));
    assert!(matches!(s.next, LoaderPhase::Ready { loader_version, version_id } if loader_version == "0.16" && version_id == "fl"));
    let s = set_up_loader("fabric", "1.21", None, LoaderPhase::AskVersions, LoaderEvent::Received(body("[]")));
    assert!(matches!(s.next, LoaderPhase::Failed(e) if e == "no Fabric loader for MC 1.21"));
}

#[test]
fn a_modpack_gets_exactly_its_loader() {
    assert_eq!(pinned_version_id("fabric", "0.18", "1.21"), "fabric-loader-0.18-1.21");
    assert_eq!(pinned_version_id("neoforge", "21.1.7", "1.21.1"), "neoforge-21.1.7");
    let s = set_up_loader("fabric", "1.21", Some("0.18"), LoaderPhase::Look, LoaderEvent::Found(true));
    assert_eq!(told(&s.messages), vec!["ok Using existing Fabric loader 0.18 (matches manifest)"]);
    let s = set_up_loader("fabric", "1.21", Some("0.18"), LoaderPhase::Look, LoaderEvent::Found(false));
    assert_eq!(told(&s.messages), vec!["info Installing Fabric loader 0.18 for MC 1.21 (from manifest)..."]);
    let s = set_up_loader("fabric", "1.21", Some("0.18"), s.next, LoaderEvent::Received(body("{\"id\":\"fl\"}")));
    assert!(s.messages.is_empty());
    let s = set_up_loader("neoforge", "1.21.1", Some("21.1.7"), LoaderPhase::Look, LoaderEvent::Found(false));
    assert!(matches!(s.next, LoaderPhase::RunNeoForge));
    let s = set_up_loader("neoforge", "1.21.1", Some("21.1.7"), LoaderPhase::RunNeoForge, LoaderEvent::NeoForge(Err("e".to_string())));
    assert!(matches!(s.next, LoaderPhase::Failed(e) if e == "e"));
    assert!(matches!(begin_pinned("quilt"), LoaderPhase::Failed(e) if e == "modpack uses unsupported loader: quilt (only fabric and neoforge work)"));
    assert!(matches!(begin_pinned("neoforge"), LoaderPhase::Look));
}

#[test]
fn downloads_name_their_address_in_errors() {
    assert_eq!(downloaded("u", body("x")).unwrap(), b"x".to_vec());
    assert_eq!(downloaded("u", Body::Unreachable("off".to_string())).unwrap_err(), "download u: off");
    assert_eq!(downloaded("u", Body::Unreadable("cut".to_string())).unwrap_err(), "download u body: cut");
}
