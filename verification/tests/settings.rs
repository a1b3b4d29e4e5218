use mods_easy::iris::{replace_in_iris_properties, set_iris_default_shader};
use mods_easy::launcher_profiles::{launcher_profiles_stub, upsert_launcher_profile};
use mods_easy::options::{
    enable_resource_pack, replace_in_options_resourcepacks, upsert_options_txt_setting,
};

#[test]
fn a_setting_is_overwritten_in_place() {
    let before = "version:3\nfullscreen:true\r\nfov:0.5\nfullscreen:maybe\n";
    let after = upsert_options_txt_setting(before, "fullscreen", "false");
    assert_eq!(after, "version:3\nfullscreen:false\nfov:0.5\nfullscreen:maybe\n");
    assert_eq!(upsert_options_txt_setting(&after, "fullscreen", "false"), after);
}

#[test]
fn a_missing_setting_is_added() {
    assert_eq!(upsert_options_txt_setting("", "fullscreen", "false"), "fullscreen:false\n");
    assert_eq!(upsert_options_txt_setting("a:1", "b", "2"), "a:1\nb:2\n");
}

#[test]
fn the_last_setting_counts() {
    let once = upsert_options_txt_setting("a:1\nb:2\n", "a", "7");
    let twice = upsert_options_txt_setting(&once, "a", "9");
    assert_eq!(twice, upsert_options_txt_setting("a:1\nb:2\n", "a", "9"));
}

#[test]
fn a_pack_is_switched_on_once() {
    let before = "a:1\nresourcePacks:[\"vanilla\",\"fabric\"]\n";
    let after = enable_resource_pack(before, "Faithful 32x.zip").unwrap();
    assert_eq!(after, "a:1\nresourcePacks:[\"vanilla\",\"fabric\",\"file/Faithful 32x.zip\"]\n");
    assert_eq!(enable_resource_pack(&after, "Faithful 32x.zip").unwrap(), after);
}

#[test]
fn a_missing_or_broken_list_starts_over() {
    assert_eq!(
        enable_resource_pack("", "x.zip").unwrap(),
        "resourcePacks:[\"vanilla\",\"file/x.zip\"]\n"
    );
    assert_eq!(
        enable_resource_pack("resourcePacks:oops\n", "x\n\".zip").unwrap(),
        "resourcePacks:[\"vanilla\",\"file/x\\n\\\".zip\"]\n"
    );
}

#[test]
fn a_pack_is_replaced_by_its_update() {
    let before = "a:1\nresourcePacks:[\"file/old.zip\",\"vanilla\"]\n";
    let after = replace_in_options_resourcepacks(before, "old.zip", "new.zip").unwrap();
    assert_eq!(after, Some("a:1\nresourcePacks:[\"file/new.zip\",\"vanilla\"]\n".to_string()));
    assert_eq!(replace_in_options_resourcepacks(before, "other.zip", "new.zip").unwrap(), None);
    assert_eq!(replace_in_options_resourcepacks("resourcePacks:oops\n", "a", "b").unwrap(), None);
}

#[test]
fn lists_after_a_change_are_written_anew() {
    let before = "resourcePacks:[\"file/old.zip\"]\nresourcePacks:[ \"vanilla\" ]";
    let after = replace_in_options_resourcepacks(before, "old.zip", "new.zip").unwrap();
    assert_eq!(
        after,
        Some("resourcePacks:[\"file/new.zip\"]\nresourcePacks:[\"vanilla\"]\n".to_string())
    );
}

#[test]
fn a_shader_is_chosen() {
    assert_eq!(
        set_iris_default_shader(None, "Complementary.zip"),
        "enableShaders=true\nshaderPack=Complementary.zip\n"
    );
    let before = "# comment\n\n maxShadowDistance = 32 \n=none\nnoise\nshaderPack=old.zip\na=1=2\na=3\n";
    let after = set_iris_default_shader(Some(before), "new.zip");
    assert_eq!(after, "a=3\nenableShaders=true\nmaxShadowDistance=32\nshaderPack=new.zip\n");
    assert_eq!(set_iris_default_shader(Some(&after), "new.zip"), after);
}

#[test]
fn the_last_shader_counts() {
    let once = set_iris_default_shader(Some("x=1\n"), "first.zip");
    assert_eq!(
        set_iris_default_shader(Some(&once), "second.zip"),
        set_iris_default_shader(Some("x=1\n"), "second.zip")
    );
}

#[test]
fn a_shader_is_replaced_by_its_update() {
    assert_eq!(
        replace_in_iris_properties("shaderPack=old.zip\n#old.zip\n", "old.zip", "new.zip"),
        Some("shaderPack=new.zip\n#new.zip\n".to_string())
    );
    assert_eq!(replace_in_iris_properties("shaderPack=x.zip\n", "old.zip", "new.zip"), None);
}

fn upsert(existing: Option<&str>, id: &str, args: Option<&str>, icon: Option<&str>) -> Result<String, String> {
    upsert_launcher_profile(existing, "/mc/launcher_profiles.json", 1_000_000_000, id, "Name", "fabric-loader-0.16-1.21", args, icon)
        .map(|b| String::from_utf8(b).unwrap())
}

#[test]
fn a_launcher_profile_is_added() {
    let written = upsert(None, "mmle5-x", Some("-Xmx8G"), Some("  Furnace ")).unwrap();
    let v: serde_json::Value = serde_json::from_str(&written).unwrap();
    let entry = &v["profiles"]["mmle5-x"];
    assert_eq!(entry["name"], "Name");
    assert_eq!(entry["type"], "custom");
    assert_eq!(entry["created"], "2001-09-09T01:46:40Z");
    assert_eq!(entry["lastUsed"], "2001-09-09T01:46:40Z");
    assert_eq!(entry["lastVersionId"], "fabric-loader-0.16-1.21");
    assert_eq!(entry["icon"], "Furnace");
    assert_eq!(entry["javaArgs"], "-Xmx8G");
    assert_eq!(entry["resolution"]["width"], 1280);
    assert_eq!(entry["resolution"]["height"], 720);
    assert_eq!(v["version"], 3);
    assert_eq!(entry.as_object().unwrap().len(), 8);
}

#[test]
fn the_rest_of_the_launcher_file_is_kept() {
    let before = "{\"settings\":{\"a\":[1,2.5,null,true,-7,-9223372036854775808,18446744073709551615]},\"profiles\":{\"old\":{\"name\":\"Old\"},\"mmle5-x\":{\"junk\":1}},\"z\":\"\u{e9}\"}";
    let written = upsert(Some(before), "mmle5-x", None, Some(" ")).unwrap();
    let v: serde_json::Value = serde_json::from_str(&written).unwrap();
    let b: serde_json::Value = serde_json::from_str(before).unwrap();
    assert_eq!(v["settings"], b["settings"]);
    assert_eq!(v["z"], b["z"]);
    assert_eq!(v["profiles"]["old"], b["profiles"]["old"]);
    assert_eq!(v["profiles"]["mmle5-x"]["icon"], "Crafting_Table");
    assert!(v["profiles"]["mmle5-x"].get("junk").is_none());
    assert!(v["profiles"]["mmle5-x"].get("javaArgs").is_none());
    assert_eq!(upsert(Some(&written), "mmle5-x", None, None).unwrap(), written);
}

#[test]
fn a_broken_launcher_file_is_refused() {
    let e = upsert(Some("{"), "x", None, None).unwrap_err();
    assert!(e.starts_with("parse /mc/launcher_profiles.json: EOF"), "{e}");
    for content in ["{}", "[]", "{\"profiles\":[]}"] {
        assert_eq!(
            upsert(Some(content), "x", None, None).unwrap_err(),
            "launcher_profiles.json missing 'profiles' object"
        );
    }
}

#[test]
fn the_stub_has_no_profiles() {
    let stub = String::from_utf8(launcher_profiles_stub().unwrap()).unwrap();
    assert_eq!(stub, "{\n  \"profiles\": {},\n  \"settings\": {},\n  \"version\": 3\n}");
}
