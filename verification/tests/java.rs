use mods_easy::java::{
    calculate_java_xmx_gb, find_java, find_launcher_java, find_path_java, java_arch_subdir,
    java_args_for_minecraft, java_below_variant, java_exe_name, java_lookup_command,
    preferred_java_variants, RuntimeRoot, Variant,
};
use mods_easy::places::Platform;

const GB: u64 = 1024 * 1024 * 1024;

#[test]
fn the_heap_follows_the_memory() {
    for (total, heap) in [(1, 2), (3, 2), (4, 2), (6, 3), (7, 3), (8, 6), (15, 6), (16, 8), (31, 8), (32, 12), (128, 12)] {
        assert_eq!(calculate_java_xmx_gb(total * GB, None), heap, "{total}");
    }
}

#[test]
fn a_profile_may_ask_for_more_within_limits() {
    assert_eq!(calculate_java_xmx_gb(16 * GB, Some(10)), 10);
    assert_eq!(calculate_java_xmx_gb(16 * GB, Some(20)), 14);
    assert_eq!(calculate_java_xmx_gb(16 * GB, Some(1)), 2);
    assert_eq!(calculate_java_xmx_gb(3 * GB, Some(8)), 2);
}

#[test]
fn the_arguments_name_the_heap_twice() {
    assert_eq!(
        java_args_for_minecraft(16 * GB, None),
        "-Xmx8G -Xms8G -XX:+UnlockExperimentalVMOptions -XX:+UseG1GC -XX:G1NewSizePercent=20 -XX:G1ReservePercent=20 -XX:MaxGCPauseMillis=50 -XX:G1HeapRegionSize=32M"
    );
}

#[test]
fn java_lies_where_the_platform_puts_it() {
    assert_eq!(java_arch_subdir(Platform::Windows), "windows-x64");
    assert_eq!(java_arch_subdir(Platform::MacOs), "mac-os");
    assert_eq!(java_exe_name(Platform::Windows), "java.exe");
    assert_eq!(java_exe_name(Platform::Linux), "java");
    assert_eq!(java_lookup_command(Platform::Windows), "where");
    assert_eq!(java_lookup_command(Platform::MacOs), "which");
    assert_eq!(
        java_below_variant(Platform::Linux, "java-runtime-delta"),
        vec!["linux", "java-runtime-delta", "bin", "java"]
    );
    assert_eq!(preferred_java_variants()[0], "java-runtime-delta");
    assert_eq!(preferred_java_variants().len(), 5);
}

#[test]
fn preferred_runtimes_win_over_listed_ones() {
    let roots = vec![
        RuntimeRoot { exists: false, preferred: vec![true], listed: None },
        RuntimeRoot { exists: true, preferred: vec![false, false], listed: Some(vec![false]) },
        RuntimeRoot { exists: true, preferred: vec![false, true], listed: Some(vec![true]) },
    ];
    assert_eq!(find_launcher_java(&roots), Some((2, Variant::Preferred(1))));
    let roots = vec![RuntimeRoot { exists: true, preferred: vec![false], listed: Some(vec![false, true]) }];
    assert_eq!(find_launcher_java(&roots), Some((0, Variant::Listed(1))));
    assert_eq!(find_launcher_java(&vec![]), None);
}

#[test]
fn the_search_path_is_a_fallback() {
    assert_eq!(find_path_java(true, "  /usr/bin/java \n/other\n"), Some("/usr/bin/java".to_string()));
    assert_eq!(find_path_java(true, "\n/other\n"), None);
    assert_eq!(find_path_java(false, "/usr/bin/java\n"), None);
    assert_eq!(find_java(Some(1), Some(2)), Some(1));
    assert_eq!(find_java(None, Some(2)), Some(2));
}
