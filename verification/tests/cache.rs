use mods_easy::cache::{
    cache_file_name, cache_key_for, cache_source_folders, can_be_cut, download_to_if_missing,
    hash_sha1_of, is_cacheable, cache_primed, FetchEvent, FetchPhase, FetchStep,
};

use mods_easy::priming::{count_imported, prime_step, PrimeStep};

const ABC: &str = "a9993e364706816aba3e25717850c26c9cd0d89d";

#[test]
fn contents_are_hashed() {
    assert_eq!(hash_sha1_of(b"abc"), ABC);
    assert_eq!(hash_sha1_of(b""), "da39a3ee5e6b4b0d3255bfef95601890afd80709");
}

#[test]
fn keys_are_hashes() {
    assert_eq!(cache_key_for(Some(&ABC.to_uppercase()), "https://example.com/a.jar"), ABC);
    assert_eq!(cache_key_for(None, "https://example.com/a.jar"), "e61e9e6d73c28b369ebd20095ced156d5c58ea38");
    assert_eq!(cache_file_name(ABC), format!("{ABC}.bin"));
    let by_address = cache_key_for(None, "https://example.com/b.jar");
    assert_eq!(by_address.len(), 40);
    assert!(by_address.chars().all(|c| matches!(c, '0'..='9' | 'a'..='f')));
}

/// Goes through files once, and gives the number of those that were taken into the cache.
fn prime(files: &[(bool, Option<&str>, Option<&str>)], cache: &mut Vec<String>) -> u32 {
    let mut copied = vec![];
    for (is_file, extension, hash) in files {
        let cached = hash.map_or(false, |h| cache.contains(&cache_file_name(h)));
        match prime_step(*is_file, *extension, *hash, cached) {
            PrimeStep::Skip => {}
            PrimeStep::Copy { file } => {
                cache.push(file);
                copied.push(true);
            }
        }
    }
    count_imported(&copied)
}

#[test]
fn a_second_priming_adds_nothing() {
    let files = [
        (true, Some("jar"), Some("aa")),
        (true, Some("ZIP"), Some("bb")),
        (true, Some("jar"), Some("aa")),
        (true, Some("txt"), Some("cc")),
        (false, Some("jar"), Some("dd")),
        (true, Some("jar"), None),
        (true, Some("jar"), Some("ee")),
    ];
    let mut cache = vec!["ee.bin".to_string()];
    assert_eq!(prime(&files, &mut cache), 2);
    assert_eq!(cache, vec!["ee.bin", "aa.bin", "bb.bin"]);
    assert_eq!(prime(&files, &mut cache), 0);
    assert_eq!(cache.len(), 3);
    assert_eq!(count_imported(&vec![true, false, true]), 2);
}

fn step(expected: Option<&str>, phase: FetchPhase, event: FetchEvent) -> FetchStep {
    download_to_if_missing("a.jar", expected, phase, event)
}

fn message(s: &FetchStep) -> &str {
    match &s.message {
        Some(p) => &p.message,
        None => "",
    }
}

#[test]
fn a_present_file_without_a_hash_is_kept() {
    let s = step(None, FetchPhase::LookAtPlace, FetchEvent::Found(true));
    assert!(matches!(s.next, FetchPhase::Present { fresh: false, keep: false }));
    assert_eq!(message(&s), "Already present, skipping: a.jar");
}

#[test]
fn a_present_file_with_a_hash_is_checked() {
    let s = step(Some(ABC), FetchPhase::LookAtPlace, FetchEvent::Found(true));
    assert!(matches!(s.next, FetchPhase::HashPresent));
    let s = step(Some(&ABC.to_uppercase()), FetchPhase::HashPresent, FetchEvent::Hashed(Ok(ABC.to_string())));
    assert!(matches!(s.next, FetchPhase::Present { fresh: false, .. }));
    assert_eq!(message(&s), "Already present (sha1 matches): a.jar");
    let s = step(Some("0123456789"), FetchPhase::HashPresent, FetchEvent::Hashed(Ok(ABC.to_string())));
    assert!(matches!(s.next, FetchPhase::LookInCache) && s.drop_place && !s.drop_cached);
    assert_eq!(
        message(&s),
        "a.jar on disk has different content (got a9993e36, expected 01234567); re-downloading"
    );
    let s = step(Some(ABC), FetchPhase::HashPresent, FetchEvent::Hashed(Err("busy".to_string())));
    assert!(s.drop_place);
    assert_eq!(message(&s), "Couldn't hash existing a.jar: busy; re-downloading");
}

#[test]
fn the_cache_is_asked_before_the_service() {
    let s = step(None, FetchPhase::LookAtPlace, FetchEvent::Found(false));
    assert!(matches!(s.next, FetchPhase::LookInCache));
    let s = step(None, FetchPhase::LookInCache, FetchEvent::Found(true));
    assert!(matches!(s.next, FetchPhase::CopyFromCache));
    let s = step(None, FetchPhase::CopyFromCache, FetchEvent::Brought(Ok(())));
    assert!(matches!(s.next, FetchPhase::Present { fresh: true, keep: false }));
    assert_eq!(message(&s), "From cache: a.jar");
    let s = step(None, FetchPhase::CopyFromCache, FetchEvent::Brought(Err("copy x: full".to_string())));
    assert!(matches!(s.next, FetchPhase::Failed(e) if e == "copy x: full"));
    let s = step(None, FetchPhase::LookInCache, FetchEvent::Found(false));
    assert!(matches!(s.next, FetchPhase::Download));
    assert_eq!(message(&s), "Downloading a.jar");
}

#[test]
fn a_damaged_cache_entry_is_dropped() {
    let s = step(Some(ABC), FetchPhase::HashCopied, FetchEvent::Hashed(Ok("ffff".to_string())));
    assert!(matches!(s.next, FetchPhase::Download) && s.drop_place && s.drop_cached);
    let s = step(Some(ABC), FetchPhase::HashCopied, FetchEvent::Hashed(Ok(ABC.to_string())));
    assert!(matches!(s.next, FetchPhase::Present { fresh: true, keep: false }));
}

#[test]
fn a_download_is_verified() {
    let s = step(None, FetchPhase::Download, FetchEvent::Brought(Ok(())));
    assert!(matches!(s.next, FetchPhase::Present { fresh: true, keep: true }));
    let s = step(Some(ABC), FetchPhase::Download, FetchEvent::Brought(Ok(())));
    assert!(matches!(s.next, FetchPhase::HashDownloaded));
    let s = step(Some(ABC), FetchPhase::HashDownloaded, FetchEvent::Hashed(Ok(ABC.to_string())));
    assert!(matches!(s.next, FetchPhase::Present { fresh: true, keep: true }));
    let s = step(Some(ABC), FetchPhase::HashDownloaded, FetchEvent::Hashed(Ok("ffff".to_string())));
    assert!(s.drop_place);
    assert!(matches!(s.next, FetchPhase::Failed(e) if e == "sha1 mismatch on a.jar (got ffff, expected a9993e36)"));
    let s = step(Some(ABC), FetchPhase::Download, FetchEvent::Brought(Err("no net".to_string())));
    assert!(matches!(s.next, FetchPhase::Failed(e) if e == "no net"));
    let s = step(Some(ABC), FetchPhase::HashDownloaded, FetchEvent::Hashed(Err("gone".to_string())));
    assert!(matches!(s.next, FetchPhase::Failed(e) if e == "gone"));
}

#[test]
fn hashes_are_cut_between_characters() {
    assert!(can_be_cut(ABC));
    assert!(can_be_cut("é"));
    assert!(can_be_cut("aaaaaaéx"));
    assert!(!can_be_cut("aaaaaaaéx"));
}

#[test]
fn jars_and_zips_are_cached() {
    assert!(is_cacheable(Some("JAR")));
    assert!(is_cacheable(Some("zip")));
    assert!(!is_cacheable(Some("txt")));
    assert!(!is_cacheable(None));
}

#[test]
fn backups_feed_the_cache_too() {
    let names = vec!["saves".to_string(), "mods.backup-2024".to_string(), "mods.backup.old".to_string()];
    assert_eq!(
        cache_source_folders(&names),
        vec!["mods", "shaderpacks", "resourcepacks", "mods.backup-2024", "mods.backup.old"]
    );
    assert!(cache_primed(0).is_none());
    assert_eq!(cache_primed(3).unwrap().message, "Primed cache with 3 existing file(s) from .minecraft");
}
