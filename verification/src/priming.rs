//! Taking files that lie about in the game directory into the cache, so that they need not
//! be downloaded again.
use vstd::prelude::*;

use crate::cache;
use crate::text;

verus! {

/// Something that lies in one of the folders in which files for the cache are looked for.
/// `hash` is the SHA-1 of its contents in hexadecimal, where they could be read.
pub struct DiskEntry {
    pub is_file: bool,
    pub extension: Option<Seq<char>>,
    pub hash: Option<Seq<char>>,
}

/// The name that an entry has in the cache; none where it does not belong there.
pub open spec fn name_in_cache(e: DiskEntry) -> Option<Seq<char>> {
    if e.is_file && cache::cacheable(e.extension) {
        match e.hash {
            Some(h) => Some(h + ".bin"@),
            None => None,
        }
    } else {
        None
    }
}

/// The file of the cache that an entry is copied to; none where it does not belong there,
/// or is there already.
pub open spec fn prime_target(e: DiskEntry, cached: bool) -> Option<Seq<char>> {
    if cached {
        None
    } else {
        name_in_cache(e)
    }
}

/// What to do about an entry.
#[derive(Debug)]
pub enum PrimeStep {
    Skip,
    /// Copy it to the file of the cache.
    Copy { file: String },
}

impl PrimeStep {
    /// The file of the cache that is copied to.
    pub open spec fn target(self) -> Option<Seq<char>> {
        match self {
            PrimeStep::Skip => None,
            PrimeStep::Copy { file } => Some(file@),
        }
    }
}

/// What to do about an entry: a file with the right extension whose contents could be read
/// is copied to the cache, under its hash, where the cache has none of that name.
pub fn prime_step(is_file: bool, extension: Option<&str>, hash: Option<&str>, cached: bool) -> (r:
    PrimeStep)
    ensures
        r.target() == prime_target(
            (DiskEntry {
                is_file,
                extension: text::opt_str_view(extension),
                hash: text::opt_str_view(hash),
            }),
            cached,
        ),
{
    if cached || !is_file || !cache::is_cacheable(extension) {
        PrimeStep::Skip
    } else {
        match hash {
            Some(h) => PrimeStep::Copy { file: cache::cache_file_name(h) },
            None => PrimeStep::Skip,
        }
    }
}

/// How many of the copies succeeded.
pub open spec fn succeeded(copied: Seq<bool>) -> nat
    decreases copied.len(),
{
    if copied.len() == 0 {
        0
    } else {
        succeeded(copied.drop_last()) + (if copied.last() {
            1nat
        } else {
            0nat
        })
    }
}

/// How many files were taken into the cache, from whether each copy succeeded.
pub fn count_imported(copied: &Vec<bool>) -> (r: u32)
    requires
        copied.len() <= u32::MAX,
    ensures
        r == succeeded(copied@),
{
    let mut n: u32 = 0;
    let mut i: usize = 0;
    while i < copied.len()
        invariant
            i <= copied.len() <= u32::MAX,
            n <= i,
            n == succeeded(copied@.take(i as int)),
        decreases copied.len() - i,
    {
        assert(copied@.take(i + 1).drop_last() =~= copied@.take(i as int));
        assert(copied@.take(i + 1).last() == copied@[i as int]);
        if copied[i] {
            n = n + 1;
        }
        i = i + 1;
    }
    assert(copied@.take(i as int) =~= copied@);
    n
}

/// Whether an entry is in a cache that has files of the given names.
pub open spec fn is_cached(e: DiskEntry, names: Set<Seq<char>>) -> bool {
    name_in_cache(e) is Some && names.contains(name_in_cache(e)->Some_0)
}

/// The names in a cache after the entries were gone through, where every copy succeeds.
pub open spec fn primed(entries: Seq<DiskEntry>, names: Set<Seq<char>>) -> Set<Seq<char>>
    decreases entries.len(),
{
    if entries.len() == 0 {
        names
    } else {
        let before = primed(entries.drop_last(), names);
        let e = entries.last();
        match prime_target(e, is_cached(e, before)) {
            Some(name) => before.insert(name),
            None => before,
        }
    }
}

/// Whether each entry is copied, in order, where every copy succeeds.
pub open spec fn copies(entries: Seq<DiskEntry>, names: Set<Seq<char>>) -> Seq<bool>
    decreases entries.len(),
{
    if entries.len() == 0 {
        Seq::empty()
    } else {
        let before = primed(entries.drop_last(), names);
        let e = entries.last();
        copies(entries.drop_last(), names).push(prime_target(e, is_cached(e, before)) is Some)
    }
}

/// Afterwards the cache holds every entry that belongs there and all that it held before,
/// and nothing else; the number of files that were copied is the number of those that were
/// added.
pub proof fn priming_fills_the_cache(entries: Seq<DiskEntry>, names: Set<Seq<char>>)
    requires
        names.finite(),
    ensures
        names.subset_of(primed(entries, names)),
        forall|i: int|
            0 <= i < entries.len() && name_in_cache(#[trigger] entries[i]) is Some ==> primed(
                entries,
                names,
            ).contains(name_in_cache(entries[i])->Some_0),
        forall|name: Seq<char>| #[trigger]
            primed(entries, names).contains(name) ==> names.contains(name) || exists|i: int|
                0 <= i < entries.len() && name_in_cache(#[trigger] entries[i]) == Some(name),
        primed(entries, names).finite(),
        primed(entries, names).len() == names.len() + succeeded(copies(entries, names)),
    decreases entries.len(),
{
    if entries.len() > 0 {
        let front = entries.drop_last();
        let e = entries.last();
        let before = primed(front, names);
        let after = primed(entries, names);
        priming_fills_the_cache(front, names);
        assert(copies(entries, names).drop_last() =~= copies(front, names));
        assert forall|i: int|
            0 <= i < entries.len() && name_in_cache(
                #[trigger] entries[i],
            ) is Some implies after.contains(name_in_cache(entries[i])->Some_0) by {
            if i < front.len() {
                assert(front[i] == entries[i]);
            }
        }
        assert forall|name: Seq<char>| #[trigger] after.contains(name) implies names.contains(name)
            || exists|i: int|
            0 <= i < entries.len() && name_in_cache(#[trigger] entries[i]) == Some(name) by {
            if before.contains(name) {
                if !names.contains(name) {
                    let i = choose|i: int|
                        0 <= i < front.len() && name_in_cache(#[trigger] front[i]) == Some(name);
                    assert(name_in_cache(entries[i]) == Some(name));
                }
            } else {
                assert(name_in_cache(entries[entries.len() - 1]) == Some(name));
            }
        }
    }
}

/// Where the cache holds every entry that belongs there, none is copied.
proof fn lemma_full_cache(entries: Seq<DiskEntry>, names: Set<Seq<char>>)
    requires
        forall|i: int|
            0 <= i < entries.len() && name_in_cache(#[trigger] entries[i]) is Some
                ==> names.contains(name_in_cache(entries[i])->Some_0),
    ensures
        primed(entries, names) == names,
        succeeded(copies(entries, names)) == 0,
    decreases entries.len(),
{
    if entries.len() > 0 {
        let front = entries.drop_last();
        assert forall|i: int|
            0 <= i < front.len() && name_in_cache(
                #[trigger] front[i],
            ) is Some implies names.contains(name_in_cache(front[i])->Some_0) by {
            assert(front[i] == entries[i]);
        }
        lemma_full_cache(front, names);
        assert(entries[entries.len() - 1] == entries.last());
        assert(copies(entries, names).drop_last() =~= copies(front, names));
    }
}

/// Going through the same entries again adds nothing: what belongs in the cache is there.
pub proof fn second_priming_adds_nothing(entries: Seq<DiskEntry>, names: Set<Seq<char>>)
    requires
        names.finite(),
    ensures
        primed(entries, primed(entries, names)) == primed(entries, names),
        succeeded(copies(entries, primed(entries, names))) == 0,
{
    priming_fills_the_cache(entries, names);
    lemma_full_cache(entries, primed(entries, names));
}

/// A file with the extension `jar` or `zip`, in whatever case, whose contents could be read is
/// kept under the hash of its contents, where it is found by who asks for that hash; nothing
/// else is kept. It is copied only where it is not there.
pub proof fn files_are_kept_by_their_contents(
    e: DiskEntry,
    data: Seq<u8>,
    url: Seq<char>,
    cached: bool,
)
    requires
        e.hash == Some(cache::hex_of(cache::sha1_of(data))),
    ensures
        ({
            let belongs = e.is_file && e.extension is Some && (text::ascii_lower(
                e.extension->Some_0,
            ) == "jar"@ || text::ascii_lower(e.extension->Some_0) == "zip"@);
            &&& name_in_cache(e) is Some <==> belongs
            &&& prime_target(e, cached) is Some <==> belongs && !cached
            &&& prime_target(e, cached) is Some ==> prime_target(e, cached)->Some_0
                == cache::cache_file(
                cache::cache_key(Some(cache::hex_of(cache::sha1_of(data))), url),
            )
        }),
        name_in_cache((DiskEntry { is_file: e.is_file, extension: e.extension, hash: None }))
            is None,
{
    if e.extension is Some {
        cache::jars_and_zips_belong_in_the_cache(e.extension->Some_0);
    }
    reveal_strlit("jar");
    reveal_strlit("zip");
    assert(text::ascii_lower("jar"@) =~= "jar"@);
    assert(text::ascii_lower("zip"@) =~= "zip"@);
    cache::hash_is_its_key(data, url);
}

/// The number of files that were taken in is that of the copies which succeeded.
pub proof fn copies_are_counted(copied: Seq<bool>)
    ensures
        succeeded(copied) == copied.filter(|c: bool| c).len(),
    decreases copied.len(),
{
    reveal(Seq::filter);
    if copied.len() > 0 {
        copies_are_counted(copied.drop_last());
    }
}

} // verus!
