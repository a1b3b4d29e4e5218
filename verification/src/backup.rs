//! Backups of the mods of earlier installations.
use vstd::prelude::*;

use crate::clock;
use crate::decimal;
use crate::order;
use crate::profile::{one, said, Level, Progress};
use crate::text;

verus! {

/// A file in the folder of mods.
#[derive(Debug)]
pub struct ModFile {
    pub name: String,
    pub extension: Option<String>,
}

/// Whether a file is a mod.
pub open spec fn is_jar(file: ModFile) -> bool {
    file.extension is Some && text::same_ignoring_case(file.extension->Some_0@, "jar"@)
}

/// The names of the mods among files, in order.
pub open spec fn jar_names(files: Seq<ModFile>) -> Seq<Seq<char>>
    decreases files.len(),
{
    if files.len() == 0 {
        Seq::empty()
    } else if is_jar(files.last()) {
        jar_names(files.drop_last()).push(files.last().name@)
    } else {
        jar_names(files.drop_last())
    }
}

/// The names of the mods to move away, in order; nothing else is touched.
pub fn mods_to_move(files: &Vec<ModFile>) -> (r: Vec<String>)
    ensures
        text::views(r@) == jar_names(files@),
{
    let mut r: Vec<String> = Vec::new();
    let mut i: usize = 0;
    assert(text::views(r@) =~= Seq::empty());
    while i < files.len()
        invariant
            i <= files.len(),
            text::views(r@) == jar_names(files@.take(i as int)),
        decreases files.len() - i,
    {
        let ghost before = text::views(r@);
        assert(files@.take(i + 1).drop_last() =~= files@.take(i as int));
        assert(files@.take(i + 1).last() == files@[i as int]);
        match &files[i].extension {
            Some(e) => {
                if text::eq_ignoring_case(e.as_str(), "jar") {
                    r.push(files[i].name.clone());
                    assert(text::views(r@) =~= before.push(files@[i as int].name@));
                }
            },
            None => {},
        }
        i = i + 1;
    }
    assert(files@.take(i as int) =~= files@);
    r
}

/// The name of the folder for a backup made at a second.
pub open spec fn backup_folder(secs: int) -> Seq<char> {
    "mods.backup-"@ + clock::stamp(clock::time_of(secs), '-')
}

/// The name of the folder for a backup made at the second `secs`.
pub fn backup_folder_name(secs: u64) -> (r: String)
    requires
        clock::year_fits(secs as int),
    ensures
        r@ == backup_folder(secs as int),
{
    let now = clock::rfc3339_now(secs);
    let stamp = text::replaced(now.as_str(), ":", "-");
    proof {
        reveal_strlit(":");
        reveal_strlit("-");
        assert(":"@ =~= seq![':']);
        assert("-"@ =~= seq!['-']);
        clock::every_second_has_a_time(secs as int);
        clock::stamp_with_hyphens(clock::time_of(secs as int));
    }
    text::cat2("mods.backup-", stamp.as_str())
}

/// What to say when mods were moved away.
pub fn mods_moved(n: usize, folder: &str) -> (r: Vec<Progress>)
    ensures
        said(r@) == seq![
            (
                "Moved "@ + decimal::decimal(n as nat) + " existing mod"@ + (if n == 1 {
                    ""@
                } else {
                    "s"@
                }) + " to "@ + folder@,
                Level::Warn,
            ),
        ],
{
    let digits = decimal::decimal_of(n as u64);
    let plural = if n == 1 {
        ""
    } else {
        "s"
    };
    one(
        text::cat6("Moved ", digits.as_str(), " existing mod", plural, " to ", folder),
        Level::Warn,
    )
}

/// The backups among folders, in the order of their names.
pub open spec fn backups(names: Seq<Seq<char>>) -> Seq<Seq<char>> {
    order::arranged(names.filter(|n: Seq<char>| text::starts_with(n, "mods.backup-"@)))
}

/// The backups to remove: all but the last five.
pub open spec fn surplus(names: Seq<Seq<char>>) -> Seq<Seq<char>> {
    let all = backups(names);
    if all.len() <= 5 {
        Seq::empty()
    } else {
        all.take(all.len() - 5)
    }
}

/// The backups among folders, in their order.
fn backups_among(names: &Vec<String>) -> (r: Vec<String>)
    ensures
        text::views(r@) == text::views(names@).filter(
            |n: Seq<char>| text::starts_with(n, "mods.backup-"@),
        ),
{
    let ghost all = text::views(names@);
    let ghost wanted = |n: Seq<char>| text::starts_with(n, "mods.backup-"@);
    let mut r: Vec<String> = Vec::new();
    let mut i: usize = 0;
    proof {
        reveal(Seq::filter);
        assert(text::views(r@) =~= all.take(0).filter(wanted));
    }
    while i < names.len()
        invariant
            i <= names.len(),
            all == text::views(names@),
            wanted == (|n: Seq<char>| text::starts_with(n, "mods.backup-"@)),
            text::views(r@) == all.take(i as int).filter(wanted),
        decreases names.len() - i,
    {
        let ghost before = text::views(r@);
        proof {
            reveal(Seq::filter);
            assert(all.take(i + 1).drop_last() =~= all.take(i as int));
            assert(all.take(i + 1).last() == names@[i as int]@);
        }
        if text::has_prefix(names[i].as_str(), "mods.backup-") {
            r.push(names[i].clone());
            assert(text::views(r@) =~= before.push(names@[i as int]@));
        }
        i = i + 1;
    }
    assert(all.take(i as int) =~= all);
    r
}

/// The names of the backups to remove, oldest first. `names` are those of the folders
/// beside the folder of mods.
pub fn backups_to_prune(names: &Vec<String>) -> (r: Vec<String>)
    ensures
        text::views(r@) == surplus(text::views(names@)),
{
    let all = order::sort(backups_among(names));
    let ghost sorted = text::views(all@);
    let mut r: Vec<String> = Vec::new();
    assert(text::views(r@) =~= Seq::empty());
    if all.len() <= 5 {
        return r;
    }
    let mut i: usize = 0;
    assert(text::views(r@) =~= sorted.take(0));
    while i < all.len() - 5
        invariant
            5 < all.len(),
            i <= all.len() - 5,
            sorted == text::views(all@),
            text::views(r@) == sorted.take(i as int),
        decreases all.len() - i,
    {
        let ghost before = text::views(r@);
        r.push(all[i].clone());
        assert(text::views(r@) =~= before.push(sorted[i as int]));
        assert(sorted.take(i + 1) =~= sorted.take(i as int).push(sorted[i as int]));
        i = i + 1;
    }
    r
}

/// What to say of a backup that was to be removed: `path` is where it lies, `name` its
/// name.
pub fn backup_pruned(name: &str, path: &str, removed: Result<(), String>) -> (r: Vec<Progress>)
    ensures
        match removed {
            Ok(_) => said(r@) == seq![("Pruned old backup: "@ + name@, Level::Info)],
            Err(e) => said(r@) == seq![
                ("Could not remove old backup "@ + path@ + ": "@ + e@, Level::Warn),
            ],
        },
{
    match removed {
        Ok(_) => one(text::cat2("Pruned old backup: ", name), Level::Info),
        Err(e) => one(
            text::cat4("Could not remove old backup ", path, ": ", e.as_str()),
            Level::Warn,
        ),
    }
}

/// At most five backups stay, none that stays comes before one that goes, and nothing but
/// backups goes.
pub proof fn newest_backups_stay(names: Seq<Seq<char>>, i: int, j: int)
    requires
        0 <= i < surplus(names).len(),
        surplus(names).len() <= j < backups(names).len(),
    ensures
        backups(names).len() - surplus(names).len() == 5,
        surplus(names)[i] == backups(names)[i],
        !order::less(backups(names)[j], surplus(names)[i]),
        text::starts_with(surplus(names)[i], "mods.backup-"@),
        names.contains(surplus(names)[i]),
{
    let wanted = |n: Seq<char>| text::starts_with(n, "mods.backup-"@);
    let found = names.filter(wanted);
    order::arranged_is_sorted(found);
    let name = backups(names)[i];
    assert(found.contains(name)) by {
        broadcast use vstd::seq_lib::group_to_multiset_ensures;

        assert(backups(names).contains(name));
        assert(found.to_multiset().count(name) > 0);
    }
    names.lemma_filter_contains_rev(wanted, name);
    let k = choose|k: int| 0 <= k < found.len() && found[k] == name;
    names.lemma_filter_pred(wanted, k);
}

/// Up to the year 9999 the backup of an earlier second sorts before that of a later one, so
/// that the oldest backups go first.
pub proof fn backups_sort_by_age(a: u64, b: u64)
    requires
        a < b,
        clock::year_fits(b as int),
        clock::time_of(b as int).0 <= 9999,
    ensures
        order::less(backup_folder(a as int), backup_folder(b as int)),
{
    clock::stamps_sort_by_time(a as int, b as int, '-');
    order::lemma_less_prefix(
        "mods.backup-"@,
        clock::stamp(clock::time_of(a as int), '-'),
        clock::stamp(clock::time_of(b as int), '-'),
    );
}

/// Only files with the extension `jar`, in whatever case, are moved away: all of them, in
/// order, and nothing else.
pub proof fn only_jars_are_moved(files: Seq<ModFile>)
    ensures
        jar_names(files) == files.filter(
            |f: ModFile|
                f.extension is Some && text::ascii_lower(f.extension->Some_0@) == "jar"@,
        ).map_values(|f: ModFile| f.name@),
    decreases files.len(),
{
    let jar = |f: ModFile|
        f.extension is Some && text::ascii_lower(f.extension->Some_0@) == "jar"@;
    let name = |f: ModFile| f.name@;
    reveal(Seq::filter);
    reveal_strlit("jar");
    assert(text::ascii_lower("jar"@) =~= "jar"@);
    if files.len() > 0 {
        let front = files.drop_last();
        only_jars_are_moved(front);
        if is_jar(files.last()) {
            assert(files.filter(jar) =~= front.filter(jar).push(files.last()));
            assert(files.filter(jar).map_values(name) =~= front.filter(jar).map_values(name).push(
                files.last().name@,
            ));
        } else {
            assert(files.filter(jar) =~= front.filter(jar));
        }
    } else {
        assert(files.filter(jar).map_values(name) =~= Seq::empty());
    }
}

/// Five backups or fewer all stay, and of more than five so many go that five stay.
pub proof fn five_backups_stay(names: Seq<Seq<char>>)
    ensures
        backups(names).len() == names.filter(
            |n: Seq<char>| text::starts_with(n, "mods.backup-"@),
        ).len(),
        backups(names).len() <= 5 ==> surplus(names).len() == 0,
        backups(names).len() > 5 ==> surplus(names).len() + 5 == backups(names).len(),
{
    let found = names.filter(|n: Seq<char>| text::starts_with(n, "mods.backup-"@));
    order::arranged_is_sorted(found);
    assert(backups(names).len() == found.len()) by {
        broadcast use vstd::seq_lib::group_to_multiset_ensures;

        assert(backups(names).to_multiset().len() == found.to_multiset().len());
    }
}

/// The folder of a backup is named so that it is found among the backups, and looked through
/// for files that belong in the cache.
pub proof fn backups_are_found_again(secs: int, names: Seq<Seq<char>>)
    requires
        names.contains(backup_folder(secs)),
    ensures
        text::starts_with(backup_folder(secs), "mods.backup-"@),
        names.filter(|n: Seq<char>| text::starts_with(n, "mods.backup-"@)).contains(
            backup_folder(secs),
        ),
        crate::cache::cache_sources(names).contains(backup_folder(secs)),
{
    let name = backup_folder(secs);
    let wanted = |n: Seq<char>| text::starts_with(n, "mods.backup-"@);
    assert(name.subrange(0, "mods.backup-"@.len() as int) =~= "mods.backup-"@);
    let k = choose|k: int| 0 <= k < names.len() && names[k] == name;
    names.lemma_filter_contains(wanted, k);
    crate::cache::backups_are_looked_through(names, name);
}

} // verus!
