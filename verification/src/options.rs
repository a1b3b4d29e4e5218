//! The game's `options.txt`: one setting per line, as `key:value`.
use vstd::prelude::*;

use crate::json;
use crate::lines;
use crate::text;

verus! {

/// Where the first line stands that begins with `prefix`; the number of lines where none
/// does.
pub open spec fn line_index(ls: Seq<Seq<char>>, prefix: Seq<char>) -> int
    decreases ls.len(),
{
    if ls.len() == 0 || text::starts_with(ls[0], prefix) {
        0
    } else {
        1 + line_index(ls.skip(1), prefix)
    }
}

/// The lines with `line` in the place of the first that begins with `prefix`, or at the
/// end where none does.
pub open spec fn set_line(
    ls: Seq<Seq<char>>,
    prefix: Seq<char>,
    line: Seq<char>,
) -> Seq<Seq<char>> {
    let i = line_index(ls, prefix);
    if 0 <= i < ls.len() {
        ls.update(i, line)
    } else {
        ls.push(line)
    }
}

/// What stands in front of the value in the line of a setting.
pub open spec fn key_prefix(key: Seq<char>) -> Seq<char> {
    key + ":"@
}

/// The line of a setting.
pub open spec fn setting_line(key: Seq<char>, value: Seq<char>) -> Seq<char> {
    key + ":"@ + value
}

/// The file with the setting `key` at `value`.
pub open spec fn with_setting(content: Seq<char>, key: Seq<char>, value: Seq<char>) -> Seq<char> {
    lines::terminated(set_line(lines::lines(content), key_prefix(key), setting_line(key, value)))
}

/// What stands in front of the list of resource packs.
pub open spec fn packs_prefix() -> Seq<char> {
    "resourcePacks:"@
}

/// The resource packs in a line of them; `None` where they cannot be read.
pub open spec fn packs_in_line(line: Seq<char>) -> Option<Seq<Seq<char>>> {
    json::string_list(line.skip(packs_prefix().len() as int))
}

/// The resource packs that the file lists: those of its first line of them.
pub open spec fn listed_packs(content: Seq<char>) -> Option<Seq<Seq<char>>> {
    let ls = lines::lines(content);
    let i = line_index(ls, packs_prefix());
    if 0 <= i < ls.len() {
        packs_in_line(ls[i])
    } else {
        None
    }
}

/// The entry of a resource pack that is a file.
pub open spec fn pack_entry(filename: Seq<char>) -> Seq<char> {
    "file/"@ + filename
}

/// The packs with `entry` at the end, unless it is among them.
pub open spec fn with_pack(packs: Seq<Seq<char>>, entry: Seq<char>) -> Seq<Seq<char>> {
    if packs.contains(entry) {
        packs
    } else {
        packs.push(entry)
    }
}

/// The packs after `filename` was switched on: those that the file lists, or the game's
/// own where it lists none that can be read, and the new one.
pub open spec fn packs_with(content: Seq<char>, filename: Seq<char>) -> Seq<Seq<char>> {
    match listed_packs(content) {
        Some(packs) => with_pack(packs, pack_entry(filename)),
        None => with_pack(seq!["vanilla"@], pack_entry(filename)),
    }
}

/// The line that lists `packs`.
pub open spec fn packs_line(packs: Seq<Seq<char>>) -> Seq<char> {
    packs_prefix() + json::string_list_text(packs)
}

/// The file with the resource pack `filename` switched on.
pub open spec fn with_pack_enabled(content: Seq<char>, filename: Seq<char>) -> Seq<char> {
    lines::terminated(
        set_line(
            lines::lines(content),
            packs_prefix(),
            packs_line(packs_with(content, filename)),
        ),
    )
}

/// Whether the text of a list of packs is read back as that list, on one line.
pub open spec fn reads_back(packs: Seq<Seq<char>>) -> bool {
    let t = json::string_list_text(packs);
    json::string_list(t) == Some(packs) && !t.contains('\n') && !t.contains('\r')
}

/// The packs with `new` in the place of every `old`.
pub open spec fn swap_packs(
    packs: Seq<Seq<char>>,
    old: Seq<char>,
    new: Seq<char>,
) -> Seq<Seq<char>> {
    Seq::new(
        packs.len(),
        |i: int|
            if packs[i] == old {
                new
            } else {
                packs[i]
            },
    )
}

/// The lines with `new` in the place of `old` in the lists of packs, and whether `old` was
/// found or `changed` held before. From the first list with `old` on, each list that can be
/// read is written anew.
pub open spec fn swap_lines(
    ls: Seq<Seq<char>>,
    old: Seq<char>,
    new: Seq<char>,
    changed: bool,
) -> (Seq<Seq<char>>, bool)
    decreases ls.len(),
{
    if ls.len() == 0 {
        (ls, changed)
    } else if text::starts_with(ls[0], packs_prefix()) && packs_in_line(ls[0]) is Some {
        let packs = packs_in_line(ls[0])->Some_0;
        let now = changed || packs.contains(old);
        let line = if now {
            packs_line(swap_packs(packs, old, new))
        } else {
            ls[0]
        };
        let (rest, after) = swap_lines(ls.skip(1), old, new, now);
        (seq![line] + rest, after)
    } else {
        let (rest, after) = swap_lines(ls.skip(1), old, new, changed);
        (seq![ls[0]] + rest, after)
    }
}

/// The index is one of a line that begins with the prefix, the first, or the number of
/// lines.
pub proof fn lemma_line_index(ls: Seq<Seq<char>>, prefix: Seq<char>)
    ensures
        0 <= line_index(ls, prefix) <= ls.len(),
        line_index(ls, prefix) < ls.len() ==> text::starts_with(
            ls[line_index(ls, prefix)],
            prefix,
        ),
        forall|j: int|
            0 <= j < line_index(ls, prefix) ==> !text::starts_with(#[trigger] ls[j], prefix),
    decreases ls.len(),
{
    if ls.len() > 0 && !text::starts_with(ls[0], prefix) {
        lemma_line_index(ls.skip(1), prefix);
        assert forall|j: int| 0 <= j < line_index(ls, prefix) implies !text::starts_with(
            #[trigger] ls[j],
            prefix,
        ) by {
            if j > 0 {
                assert(ls[j] == ls.skip(1)[j - 1]);
            }
        }
    }
}

/// A line that begins with the prefix, with none before it, stands at the index.
pub proof fn lemma_line_index_is(ls: Seq<Seq<char>>, prefix: Seq<char>, i: int)
    requires
        0 <= i < ls.len(),
        text::starts_with(ls[i], prefix),
        forall|j: int| 0 <= j < i ==> !text::starts_with(#[trigger] ls[j], prefix),
    ensures
        line_index(ls, prefix) == i,
{
    lemma_line_index(ls, prefix);
    let k = line_index(ls, prefix);
    if i < k {
        assert(!text::starts_with(ls[i], prefix));
    }
    if k < i {
        assert(!text::starts_with(ls[k], prefix));
    }
}

/// What begins with a prefix and a rest begins with the prefix.
proof fn lemma_begins(prefix: Seq<char>, rest: Seq<char>)
    ensures
        text::starts_with(prefix + rest, prefix),
        (prefix + rest).skip(prefix.len() as int) == rest,
{
    assert((prefix + rest).subrange(0, prefix.len() as int) =~= prefix);
    assert((prefix + rest).skip(prefix.len() as int) =~= rest);
}

/// A line without its carriage return begins with nothing that it did not begin with.
proof fn lemma_strip_begins(line: Seq<char>, prefix: Seq<char>)
    ensures
        text::starts_with(lines::strip_cr(line), prefix) ==> text::starts_with(line, prefix),
{
    let s = lines::strip_cr(line);
    if text::starts_with(s, prefix) {
        assert(line.subrange(0, prefix.len() as int) =~= s.subrange(0, prefix.len() as int));
    }
}

/// When a line of a text is set and the text is read again, the line is there, at the same
/// place, and the lines around it are those that were there, without their carriage
/// returns at the end.
proof fn lemma_set_and_read(content: Seq<char>, prefix: Seq<char>, rest: Seq<char>)
    requires
        lines::one_line(prefix),
        prefix.len() > 0 && prefix.last() != '\r',
        lines::one_line(rest),
    ensures
        ({
            let before = lines::lines(content);
            let after = set_line(before, prefix, prefix + rest);
            let read = lines::lines(lines::terminated(after));
            let i = line_index(before, prefix);
            &&& 0 <= i <= before.len()
            &&& i < after.len()
            &&& after[i] == prefix + rest
            &&& read == lines::stripped(after)
            &&& line_index(read, prefix) == i
        }),
{
    let before = lines::lines(content);
    let line = prefix + rest;
    let after = set_line(before, prefix, line);
    let read = lines::lines(lines::terminated(after));
    let i = line_index(before, prefix);
    lemma_line_index(before, prefix);
    lines::lemma_lines_one_line(content);
    assert(lines::one_line(line)) by {
        if line.contains('\n') {
            let j = choose|j: int| 0 <= j < line.len() && line[j] == '\n';
            if j < prefix.len() {
                assert(prefix[j] == '\n');
            } else {
                assert(rest[j - prefix.len()] == '\n');
            }
        }
    }
    assert forall|j: int| 0 <= j < after.len() implies lines::one_line(#[trigger] after[j]) by {
        if j != i {
            assert(after[j] == before[j]);
        }
    }
    lines::lemma_lines_terminated(after);
    assert(text::starts_with(read[i], prefix)) by {
        let s = lines::strip_cr(line);
        if rest.len() == 0 {
            assert(line =~= prefix);
        }
        assert(s.subrange(0, prefix.len() as int) =~= prefix);
    }
    assert forall|j: int| 0 <= j < i implies !text::starts_with(#[trigger] read[j], prefix) by {
        assert(after[j] == before[j]);
        lemma_strip_begins(before[j], prefix);
    }
    lemma_line_index_is(read, prefix, i);
}

/// The prefix of a setting is one line where its key is.
proof fn lemma_key_prefix(key: Seq<char>, value: Seq<char>)
    requires
        lines::one_line(key),
    ensures
        lines::one_line(key_prefix(key)),
        key_prefix(key).len() > 0,
        key_prefix(key).last() != '\r',
        setting_line(key, value) == key_prefix(key) + value,
{
    reveal_strlit(":");
    let p = key_prefix(key);
    if p.contains('\n') {
        let j = choose|j: int| 0 <= j < p.len() && p[j] == '\n';
        assert(key[j] == '\n');
    }
}

/// Whether each line of a text but the one that carries the prefix is kept as it is when
/// the text is written and read again: it does not end in a carriage return.
pub open spec fn other_lines_clean(content: Seq<char>, prefix: Seq<char>) -> bool {
    let ls = lines::lines(content);
    forall|i: int|
        0 <= i < ls.len() && i != line_index(ls, prefix) ==> lines::clean_line(#[trigger] ls[i])
}

/// A setting that was written is read back: the first line for the key holds the value,
/// without a carriage return at its end.
pub proof fn setting_reads_back(content: Seq<char>, key: Seq<char>, value: Seq<char>)
    requires
        lines::one_line(key),
        lines::one_line(value),
    ensures
        ({
            let read = lines::lines(with_setting(content, key, value));
            let i = line_index(read, key_prefix(key));
            0 <= i < read.len() && read[i] == lines::strip_cr(setting_line(key, value))
        }),
{
    lemma_key_prefix(key, value);
    lemma_set_and_read(content, key_prefix(key), value);
}

/// Setting one key leaves every other line where it is.
pub proof fn setting_keeps_other_lines(content: Seq<char>, key: Seq<char>, value: Seq<char>)
    requires
        lines::one_line(key),
        lines::one_line(value),
        other_lines_clean(content, key_prefix(key)),
    ensures
        ({
            let before = lines::lines(content);
            let read = lines::lines(with_setting(content, key, value));
            let i = line_index(before, key_prefix(key));
            &&& read.len() == (if i < before.len() {
                before.len()
            } else {
                before.len() + 1
            })
            &&& forall|j: int| 0 <= j < before.len() && j != i ==> #[trigger] read[j] == before[j]
        }),
{
    lemma_key_prefix(key, value);
    lemma_set_and_read(content, key_prefix(key), value);
    let before = lines::lines(content);
    let after = set_line(before, key_prefix(key), setting_line(key, value));
    let read = lines::lines(with_setting(content, key, value));
    let i = line_index(before, key_prefix(key));
    assert forall|j: int| 0 <= j < before.len() && j != i implies #[trigger] read[j]
        == before[j] by {
        assert(after[j] == before[j]);
        assert(lines::clean_line(before[j]));
    }
}

/// The last value that is set for a key is the one that counts: what was set before leaves
/// no trace. In particular, setting a value twice is setting it once.
pub proof fn last_setting_counts(
    content: Seq<char>,
    key: Seq<char>,
    first: Seq<char>,
    second: Seq<char>,
)
    requires
        lines::one_line(key),
        lines::one_line(first),
        other_lines_clean(content, key_prefix(key)),
    ensures
        with_setting(with_setting(content, key, first), key, second) == with_setting(
            content,
            key,
            second,
        ),
{
    lemma_key_prefix(key, first);
    lemma_set_and_read(content, key_prefix(key), first);
    let p = key_prefix(key);
    let before = lines::lines(content);
    let after = set_line(before, p, setting_line(key, first));
    let read = lines::lines(with_setting(content, key, first));
    let i = line_index(before, p);
    let line = setting_line(key, second);
    assert forall|j: int| 0 <= j < before.len() && j != i implies #[trigger] read[j]
        == before[j] by {
        assert(after[j] == before[j]);
        assert(lines::clean_line(before[j]));
    }
    assert(set_line(read, p, line) =~= set_line(before, p, line));
}

/// The prefix of the list of packs is one line.
proof fn lemma_packs_prefix()
    ensures
        lines::one_line(packs_prefix()),
        packs_prefix().len() == 14,
        packs_prefix().last() != '\r',
{
    reveal_strlit("resourcePacks:");
}

/// A list of packs that reads back does so from the file as well.
proof fn lemma_packs_read_back(content: Seq<char>, packs: Seq<Seq<char>>)
    requires
        reads_back(packs),
    ensures
        listed_packs(
            lines::terminated(set_line(lines::lines(content), packs_prefix(), packs_line(packs))),
        ) == Some(packs),
{
    lemma_packs_prefix();
    let t = json::string_list_text(packs);
    lemma_set_and_read(content, packs_prefix(), t);
    lemma_begins(packs_prefix(), t);
    let line = packs_line(packs);
    assert(lines::strip_cr(line) == line) by {
        if line.len() > 0 && line.last() == '\r' {
            if t.len() > 0 {
                assert(t.last() == '\r');
                assert(t.contains('\r'));
            } else {
                assert(line =~= packs_prefix());
            }
        }
    }
}

/// Switching a resource pack on twice is switching it on once, wherever the list that was
/// written can be read back.
pub proof fn enabling_twice_is_enabling_once(content: Seq<char>, filename: Seq<char>)
    requires
        reads_back(packs_with(content, filename)),
        other_lines_clean(content, packs_prefix()),
    ensures
        with_pack_enabled(with_pack_enabled(content, filename), filename) == with_pack_enabled(
            content,
            filename,
        ),
{
    let packs = packs_with(content, filename);
    let once = with_pack_enabled(content, filename);
    lemma_packs_read_back(content, packs);
    assert(packs.contains(pack_entry(filename))) by {
        let entry = pack_entry(filename);
        let had = match listed_packs(content) {
            Some(p) => p,
            None => seq!["vanilla"@],
        };
        if !had.contains(entry) {
            assert(had.push(entry)[had.len() as int] == entry);
        }
    }
    assert(packs_with(once, filename) == packs);
    lemma_packs_prefix();
    let t = json::string_list_text(packs);
    lemma_set_and_read(content, packs_prefix(), t);
    let before = lines::lines(content);
    let after = set_line(before, packs_prefix(), packs_line(packs));
    let read = lines::lines(once);
    let i = line_index(before, packs_prefix());
    assert forall|j: int| 0 <= j < before.len() && j != i implies #[trigger] read[j]
        == before[j] by {
        assert(after[j] == before[j]);
        assert(lines::clean_line(before[j]));
    }
    assert(set_line(read, packs_prefix(), packs_line(packs)) =~= after);
}

/// Switching a resource pack on keeps the packs that were on, in their order, and adds the
/// new one behind them unless it was on.
pub proof fn enabling_keeps_packs(content: Seq<char>, filename: Seq<char>)
    ensures
        packs_with(content, filename).contains(pack_entry(filename)),
        match listed_packs(content) {
            Some(packs) => packs_with(content, filename) == packs || packs_with(content, filename)
                == packs.push(pack_entry(filename)),
            None => true,
        },
{
    let entry = pack_entry(filename);
    let had = match listed_packs(content) {
        Some(p) => p,
        None => seq!["vanilla"@],
    };
    if !had.contains(entry) {
        assert(had.push(entry)[had.len() as int] == entry);
    }
}

/// The file with several resource packs switched on, one after the other.
pub open spec fn with_packs_enabled(content: Seq<char>, filenames: Seq<Seq<char>>) -> Seq<char>
    decreases filenames.len(),
{
    if filenames.len() == 0 {
        content
    } else {
        with_pack_enabled(with_packs_enabled(content, filenames.drop_last()), filenames.last())
    }
}

/// Updating a pack leaves no entry of the old file in the list, unless the new file has
/// the same name, and keeps the number of packs.
pub proof fn swapping_drops_the_old_pack(packs: Seq<Seq<char>>, old: Seq<char>, new: Seq<char>)
    requires
        old != new,
    ensures
        !swap_packs(packs, old, new).contains(old),
        swap_packs(packs, old, new).len() == packs.len(),
        packs.contains(old) ==> swap_packs(packs, old, new).contains(new),
{
    let r = swap_packs(packs, old, new);
    if r.contains(old) {
        let i = choose|i: int| 0 <= i < r.len() && r[i] == old;
        assert(packs[i] != old);
    }
    if packs.contains(old) {
        let i = choose|i: int| 0 <= i < packs.len() && packs[i] == old;
        assert(r[i] == new);
    }
}

/// Whether a line lists the pack `entry`.
pub open spec fn lists(line: Seq<char>, entry: Seq<char>) -> bool {
    &&& text::starts_with(line, packs_prefix())
    &&& packs_in_line(line) is Some
    &&& packs_in_line(line)->Some_0.contains(entry)
}

/// A file without the old pack in any list is left as it is.
pub proof fn swapping_nothing_changes_nothing(
    ls: Seq<Seq<char>>,
    old: Seq<char>,
    new: Seq<char>,
)
    requires
        forall|i: int| 0 <= i < ls.len() ==> !lists(#[trigger] ls[i], old),
    ensures
        swap_lines(ls, old, new, false) == (ls, false),
    decreases ls.len(),
{
    if ls.len() > 0 {
        let rest = ls.skip(1);
        assert forall|i: int| 0 <= i < rest.len() implies !lists(#[trigger] rest[i], old) by {
            assert(rest[i] == ls[i + 1]);
        }
        swapping_nothing_changes_nothing(rest, old, new);
        assert(seq![ls[0]] + rest =~= ls);
        assert(!lists(ls[0], old));
    }
}

/// Where the first line stands that begins with `prefix`.
fn find_line(ls: &Vec<String>, prefix: &str) -> (r: usize)
    ensures
        r == line_index(text::views(ls@), prefix@),
        r <= ls.len(),
{
    let ghost all = text::views(ls@);
    let mut i: usize = 0;
    assert(all.skip(0) =~= all);
    while i < ls.len() && !text::has_prefix(ls[i].as_str(), prefix)
        invariant
            i <= ls.len(),
            all == text::views(ls@),
            line_index(all, prefix@) == i + line_index(all.skip(i as int), prefix@),
        decreases ls.len() - i,
    {
        assert(all.skip(i as int)[0] == all[i as int]);
        assert(all.skip(i as int).skip(1) =~= all.skip(i + 1));
        i = i + 1;
    }
    i
}

/// Puts `line` in the place of the first line that begins with `prefix`, or at the end.
fn put_line(ls: &mut Vec<String>, prefix: &str, line: String)
    ensures
        text::views(final(ls)@) == set_line(text::views(old(ls)@), prefix@, line@),
{
    let i = find_line(ls, prefix);
    let ghost before = text::views(ls@);
    if i < ls.len() {
        ls.set(i, line);
        assert(text::views(ls@) =~= before.update(i as int, line@));
    } else {
        ls.push(line);
        assert(text::views(ls@) =~= before.push(line@));
    }
}

/// The content of `options.txt` with one setting at a value: the first line for the key is
/// overwritten, and a line is added where there is none.
pub fn upsert_options_txt_setting(content: &str, key: &str, value: &str) -> (r: String)
    ensures
        r@ == with_setting(content@, key@, value@),
{
    let mut ls = lines::lines_of(content);
    let prefix = text::cat2(key, ":");
    put_line(&mut ls, prefix.as_str(), text::cat3(key, ":", value));
    lines::terminate(&ls)
}

/// Whether `item` is among the strings of a list.
fn listed(items: &Vec<String>, item: &str) -> (r: bool)
    ensures
        r == text::views(items@).contains(item@),
{
    let mut i: usize = 0;
    while i < items.len()
        invariant
            i <= items.len(),
            forall|j: int| 0 <= j < i ==> text::views(items@)[j] != item@,
        decreases items.len() - i,
    {
        if text::same(items[i].as_str(), item) {
            assert(text::views(items@)[i as int] == item@);
            return true;
        }
        i = i + 1;
    }
    false
}

/// The content of `options.txt` with a resource pack switched on: its entry stands in the
/// list of packs, and the rest is kept.
pub fn enable_resource_pack(content: &str, filename: &str) -> (r: Result<String, String>)
    ensures
        r is Ok,
        r->Ok_0@ == with_pack_enabled(content@, filename@),
        reads_back(packs_with(content@, filename@)),
        listed_packs(r->Ok_0@) == Some(packs_with(content@, filename@)),
{
    let mut ls = lines::lines_of(content);
    let entry = text::cat2("file/", filename);
    let i = find_line(&ls, "resourcePacks:");
    let read: Option<Vec<String>> = if i < ls.len() {
        proof {
            lemma_line_index(text::views(ls@), packs_prefix());
        }
        match text::strip_prefix(ls[i].as_str(), "resourcePacks:") {
            Some(list) => json::read_string_list(list.as_str()),
            None => None,
        }
    } else {
        None
    };
    let mut packs: Vec<String> = match read {
        Some(packs) => packs,
        None => {
            let mut v: Vec<String> = Vec::new();
            v.push("vanilla".to_owned());
            assert(text::views(v@) =~= seq!["vanilla"@]);
            v
        },
    };
    if !listed(&packs, entry.as_str()) {
        let ghost before = text::views(packs@);
        packs.push(entry);
        assert(text::views(packs@) =~= before.push(pack_entry(filename@)));
    }
    assert(text::views(packs@) == packs_with(content@, filename@));
    match json::write_string_list(&packs) {
        Ok(list) => {
            put_line(&mut ls, "resourcePacks:", text::cat2("resourcePacks:", list.as_str()));
            proof {
                lemma_packs_read_back(content@, packs_with(content@, filename@));
            }
            Ok(lines::terminate(&ls))
        },
        Err(e) => Err(e),
    }
}

/// A pack that was listed stays listed when another is switched on.
proof fn lemma_pack_stays(packs: Seq<Seq<char>>, entry: Seq<char>, other: Seq<char>)
    ensures
        packs.contains(other) || other == entry ==> with_pack(packs, entry).contains(other),
{
    let after = with_pack(packs, entry);
    if packs.contains(other) {
        let k = choose|k: int| 0 <= k < packs.len() && packs[k] == other;
        assert(after[k] == other);
    } else if other == entry {
        assert(after[packs.len() as int] == other);
    }
}

/// The content of `options.txt` with several resource packs switched on, in order: each of
/// them is listed afterwards, and so is every pack that was. Without any, the file stays as
/// it is.
pub fn enable_resource_packs(content: &str, filenames: &Vec<String>) -> (r: Result<String, String>)
    ensures
        r is Ok,
        r->Ok_0@ == with_packs_enabled(content@, text::views(filenames@)),
        filenames.len() > 0 ==> listed_packs(r->Ok_0@) is Some,
        forall|i: int|
            0 <= i < filenames.len() ==> listed_packs(r->Ok_0@)->Some_0.contains(
                pack_entry((#[trigger] filenames@[i])@),
            ),
        forall|p: Seq<char>|
            listed_packs(content@) is Some && listed_packs(content@)->Some_0.contains(p)
                ==> #[trigger] listed_packs(r->Ok_0@)->Some_0.contains(p),
{
    let ghost names = text::views(filenames@);
    let mut now: String = content.to_owned();
    let mut i: usize = 0;
    assert(names.take(0) =~= Seq::empty());
    while i < filenames.len()
        invariant
            i <= filenames.len(),
            names == text::views(filenames@),
            now@ == with_packs_enabled(content@, names.take(i as int)),
            i == 0 ==> now@ == content@,
            i > 0 ==> listed_packs(now@) is Some,
            forall|j: int|
                0 <= j < i ==> listed_packs(now@)->Some_0.contains(
                    pack_entry((#[trigger] filenames@[j])@),
                ),
            forall|p: Seq<char>|
                listed_packs(content@) is Some && listed_packs(content@)->Some_0.contains(p)
                    ==> #[trigger] listed_packs(now@)->Some_0.contains(p),
        decreases filenames.len() - i,
    {
        let ghost before = now@;
        match enable_resource_pack(now.as_str(), filenames[i].as_str()) {
            Ok(next) => {
                now = next;
            },
            Err(e) => {
                return Err(e);
            },
        }
        proof {
            let entry = pack_entry(filenames@[i as int]@);
            assert(names.take(i + 1).drop_last() =~= names.take(i as int));
            assert(names.take(i + 1).last() == filenames@[i as int]@);
            enabling_keeps_packs(before, filenames@[i as int]@);
            assert forall|j: int| 0 <= j < i + 1 implies listed_packs(now@)->Some_0.contains(
                pack_entry((#[trigger] filenames@[j])@),
            ) by {
                if j < i {
                    lemma_pack_stays(
                        listed_packs(before)->Some_0,
                        entry,
                        pack_entry(filenames@[j]@),
                    );
                }
            }
            assert forall|p: Seq<char>|
                listed_packs(content@) is Some && listed_packs(content@)->Some_0.contains(
                    p,
                ) implies #[trigger] listed_packs(now@)->Some_0.contains(p) by {
                assert(listed_packs(before)->Some_0.contains(p));
                lemma_pack_stays(listed_packs(before)->Some_0, entry, p);
            }
        }
        i = i + 1;
    }
    assert(names.take(i as int) =~= names);
    Ok(now)
}

/// The packs with `new` in the place of every `old`, and whether there was one.
fn swap_in_list(packs: &mut Vec<String>, old_entry: &str, new_entry: &str) -> (r: bool)
    ensures
        text::views(final(packs)@) == swap_packs(
            text::views(old(packs)@),
            old_entry@,
            new_entry@,
        ),
        r == text::views(old(packs)@).contains(old_entry@),
{
    let ghost before = text::views(packs@);
    let mut found = false;
    let mut i: usize = 0;
    while i < packs.len()
        invariant
            i <= packs.len(),
            packs.len() == before.len(),
            found == before.take(i as int).contains(old_entry@),
            text::views(packs@) =~= swap_packs(before, old_entry@, new_entry@).take(i as int)
                + before.skip(i as int),
        decreases packs.len() - i,
    {
        let ghost now = text::views(packs@);
        assert(packs@[i as int]@ == now[i as int]);
        assert(now[i as int] == before[i as int]);
        let ghost had = before.take(i as int);
        assert(before.take(i + 1) =~= had.push(before[i as int]));
        proof {
            if had.contains(old_entry@) {
                let j = choose|j: int| 0 <= j < had.len() && had[j] == old_entry@;
                assert(before.take(i + 1)[j] == old_entry@);
            }
            let now_had = before.take(i + 1);
            if now_had.contains(old_entry@) && before[i as int] != old_entry@ {
                let j = choose|j: int| 0 <= j < now_had.len() && now_had[j] == old_entry@;
                assert(had[j] == old_entry@);
            }
        }
        if text::same(packs[i].as_str(), old_entry) {
            packs.set(i, new_entry.to_owned());
            found = true;
            assert(before.take(i + 1)[i as int] == old_entry@);
            assert(text::views(packs@) =~= now.update(i as int, new_entry@));
        }
        i = i + 1;
    }
    assert(before.take(i as int) =~= before);
    found
}

/// The content of `options.txt` with the resource pack `new_filename` in the place of
/// `old_filename`; `None` where no list has the old one, and the file stays as it is. No
/// line lists the old one afterwards.
pub fn replace_in_options_resourcepacks(
    content: &str,
    old_filename: &str,
    new_filename: &str,
) -> (r: Result<Option<String>, String>)
    ensures
        r is Ok,
        ({
            let (ls, changed) = swap_lines(
                lines::lines(content@),
                pack_entry(old_filename@),
                pack_entry(new_filename@),
                false,
            );
            &&& text::opt_view(r->Ok_0) == (if changed {
                Some(lines::terminated(ls))
            } else {
                None
            })
            &&& old_filename@ != new_filename@ ==> forall|i: int|
                0 <= i < ls.len() ==> !lists(#[trigger] ls[i], pack_entry(old_filename@))
        }),
{
    let mut ls = lines::lines_of(content);
    let old_entry = text::cat2("file/", old_filename);
    let new_entry = text::cat2("file/", new_filename);
    let ghost all = text::views(ls@);
    let ghost o = old_entry@;
    let ghost n = new_entry@;
    let mut changed = false;
    let mut i: usize = 0;
    assert(all.skip(0) =~= all);
    assert(all.take(0) + swap_lines(all, o, n, false).0 =~= swap_lines(all, o, n, false).0);
    while i < ls.len()
        invariant
            i <= ls.len(),
            ls.len() == all.len(),
            o == old_entry@,
            n == new_entry@,
            all == lines::lines(content@),
            text::views(ls@).skip(i as int) == all.skip(i as int),
            text::views(ls@).take(i as int) + swap_lines(all.skip(i as int), o, n, changed).0
                == swap_lines(all, o, n, false).0,
            swap_lines(all.skip(i as int), o, n, changed).1 == swap_lines(all, o, n, false).1,
            o != n ==> forall|j: int| 0 <= j < i ==> !lists(#[trigger] text::views(ls@)[j], o),
        decreases ls.len() - i,
    {
        let ghost now = text::views(ls@);
        let ghost rest = all.skip(i as int);
        assert(now.skip(i as int)[0] == ls@[i as int]@);
        assert(rest[0] == ls@[i as int]@);
        assert(rest.skip(1) =~= all.skip(i + 1));
        assert(now.skip(i + 1) =~= now.skip(i as int).skip(1));
        assert(now.take(i + 1) =~= now.take(i as int).push(rest[0]));
        match text::strip_prefix(ls[i].as_str(), "resourcePacks:") {
            Some(list) => match json::read_string_list(list.as_str()) {
                Some(read) => {
                    let mut packs = read;
                    let ghost had = text::views(packs@);
                    if swap_in_list(&mut packs, old_entry.as_str(), new_entry.as_str()) {
                        changed = true;
                    }
                    if changed {
                        match json::write_string_list(&packs) {
                            Ok(list) => {
                                let line = text::cat2("resourcePacks:", list.as_str());
                                let ghost l = line@;
                                proof {
                                    lemma_begins(packs_prefix(), list@);
                                    if o != n {
                                        swapping_drops_the_old_pack(had, o, n);
                                        assert(!lists(l, o));
                                    }
                                }
                                ls.set(i, line);
                                proof {
                                    let after = text::views(ls@);
                                    assert(after =~= now.update(i as int, l));
                                    assert(after.skip(i + 1) =~= now.skip(i + 1));
                                    assert(after.take(i + 1) =~= now.take(i as int).push(l));
                                    let tail = swap_lines(rest.skip(1), o, n, true).0;
                                    assert(now.take(i as int) + (seq![l] + tail) =~= after.take(
                                        i + 1,
                                    ) + tail);
                                    assert forall|j: int| o != n && 0 <= j < i + 1 implies !lists(
                                        #[trigger] after[j],
                                        o,
                                    ) by {
                                        if j < i {
                                            assert(after[j] == now[j]);
                                        }
                                    }
                                }
                            },
                            Err(e) => {
                                return Err(e);
                            },
                        }
                    } else {
                        proof {
                            let tail = swap_lines(rest.skip(1), o, n, false).0;
                            assert(now.take(i as int) + (seq![rest[0]] + tail) =~= now.take(i + 1)
                                + tail);
                            assert(now[i as int] == rest[0] && !lists(rest[0], o));
                        }
                    }
                },
                None => {
                    proof {
                        let tail = swap_lines(rest.skip(1), o, n, changed).0;
                        assert(now.take(i as int) + (seq![rest[0]] + tail) =~= now.take(i + 1)
                            + tail);
                        assert(now[i as int] == rest[0] && !lists(rest[0], o));
                    }
                },
            },
            None => {
                proof {
                    let tail = swap_lines(rest.skip(1), o, n, changed).0;
                    assert(now.take(i as int) + (seq![rest[0]] + tail) =~= now.take(i + 1) + tail);
                    assert(now[i as int] == rest[0] && !lists(rest[0], o));
                }
            },
        }
        i = i + 1;
    }
    proof {
        assert(text::views(ls@).take(i as int) + swap_lines(all.skip(i as int), o, n, changed).0
            =~= text::views(ls@));
        lemma_begins("file/"@, old_filename@);
        lemma_begins("file/"@, new_filename@);
    }
    if changed {
        Ok(Some(lines::terminate(&ls)))
    } else {
        Ok(None)
    }
}

/// A setting stands in the file as its key, a colon and its value, in the first line that
/// begins with the key and a colon.
pub proof fn settings_are_key_and_value(content: Seq<char>, key: Seq<char>, value: Seq<char>)
    requires
        lines::one_line(key),
        lines::clean_line(value),
    ensures
        exists|i: int|
            0 <= i < lines::lines(with_setting(content, key, value)).len() && (
            #[trigger] lines::lines(with_setting(content, key, value))[i]) == key + ":"@ + value
                && forall|j: int|
                0 <= j < i ==> !text::starts_with(
                    #[trigger] lines::lines(with_setting(content, key, value))[j],
                    key + ":"@,
                ),
{
    setting_reads_back(content, key, value);
    let read = lines::lines(with_setting(content, key, value));
    let i = line_index(read, key_prefix(key));
    lemma_line_index(read, key_prefix(key));
    let line = key + ":"@ + value;
    reveal_strlit(":");
    assert(lines::strip_cr(line) == line) by {
        if value.len() > 0 {
            assert(line.last() == value.last());
        } else {
            assert(line.last() == ':');
        }
    }
    assert(read[i] == line);
}

/// A resource pack that was switched on is listed as `file/` and its name in the first line
/// that begins with `resourcePacks:`, and a file without such a line lists the game's own pack
/// before it.
pub proof fn enabled_packs_are_listed(content: Seq<char>, filename: Seq<char>)
    requires
        reads_back(packs_with(content, filename)),
    ensures
        exists|i: int, packs: Seq<Seq<char>>|
            #![trigger lines::lines(with_pack_enabled(content, filename))[i], packs.len()]
            0 <= i < lines::lines(with_pack_enabled(content, filename)).len() && lines::lines(
                with_pack_enabled(content, filename),
            )[i] == "resourcePacks:"@ + json::string_list_text(packs) && packs.contains(
                "file/"@ + filename,
            ) && json::string_list(json::string_list_text(packs)) == Some(packs),
        (forall|j: int|
            0 <= j < lines::lines(content).len() ==> !text::starts_with(
                #[trigger] lines::lines(content)[j],
                "resourcePacks:"@,
            )) ==> packs_with(content, filename) == seq!["vanilla"@, "file/"@ + filename],
{
    let packs = packs_with(content, filename);
    let t = json::string_list_text(packs);
    lemma_packs_prefix();
    lemma_set_and_read(content, packs_prefix(), t);
    enabling_keeps_packs(content, filename);
    let before = lines::lines(content);
    let i = line_index(before, packs_prefix());
    let line = packs_line(packs);
    let read = lines::lines(with_pack_enabled(content, filename));
    assert(lines::strip_cr(line) == line) by {
        if line.len() > 0 && line.last() == '\r' {
            if t.len() > 0 {
                assert(t.last() == '\r');
                assert(t.contains('\r'));
            } else {
                assert(line =~= packs_prefix());
            }
        }
    }
    assert(read[i] == line);
    assert(packs.len() == packs.len());
    if forall|j: int|
        0 <= j < before.len() ==> !text::starts_with(#[trigger] before[j], "resourcePacks:"@) {
        lemma_line_index(before, packs_prefix());
        if i < before.len() {
            assert(!text::starts_with(before[i], "resourcePacks:"@));
        }
        reveal_strlit("vanilla");
        reveal_strlit("file/");
        let own = seq!["vanilla"@];
        let entry = "file/"@ + filename;
        assert(entry[0] == 'f' && "vanilla"@[0] == 'v');
        assert(!own.contains(entry)) by {
            if own.contains(entry) {
                let k = choose|k: int| 0 <= k < own.len() && own[k] == entry;
                assert(own[k] == "vanilla"@);
            }
        }
        assert(packs =~= seq!["vanilla"@, entry]);
    }
}

/// Replacing a pack changes nothing but lists of packs: the other lines stay, where they are.
/// Each list with the old pack lists the new one in its place, and whether any did is told.
pub proof fn replacing_touches_only_lists(
    ls: Seq<Seq<char>>,
    old: Seq<char>,
    new: Seq<char>,
    changed: bool,
)
    ensures
        ({
            let after = swap_lines(ls, old, new, changed);
            &&& after.0.len() == ls.len()
            &&& forall|i: int|
                0 <= i < ls.len() && !text::starts_with(ls[i], "resourcePacks:"@) ==> (
                #[trigger] after.0[i]) == ls[i]
            &&& forall|i: int|
                0 <= i < ls.len() && lists(ls[i], old) ==> (#[trigger] after.0[i])
                    == "resourcePacks:"@ + json::string_list_text(
                    swap_packs(json::string_list(ls[i].skip(14))->Some_0, old, new),
                )
            &&& after.1 <==> changed || exists|i: int|
                0 <= i < ls.len() && lists(#[trigger] ls[i], old)
        }),
    decreases ls.len(),
{
    lemma_packs_prefix();
    if ls.len() > 0 {
        let rest = ls.skip(1);
        let listed = text::starts_with(ls[0], packs_prefix()) && packs_in_line(ls[0]) is Some;
        let now = changed || lists(ls[0], old);
        replacing_touches_only_lists(rest, old, new, now);
        let tail = swap_lines(rest, old, new, now);
        let after = swap_lines(ls, old, new, changed);
        assert(after.1 == tail.1);
        assert forall|i: int| 1 <= i < ls.len() implies (#[trigger] after.0[i]) == tail.0[i - 1]
            && ls[i] == rest[i - 1] by {}
        if exists|i: int| 0 <= i < rest.len() && lists(#[trigger] rest[i], old) {
            let i = choose|i: int| 0 <= i < rest.len() && lists(#[trigger] rest[i], old);
            assert(lists(ls[i + 1], old));
        }
        if exists|i: int| 0 <= i < ls.len() && lists(#[trigger] ls[i], old) {
            let i = choose|i: int| 0 <= i < ls.len() && lists(#[trigger] ls[i], old);
            if i > 0 {
                assert(lists(rest[i - 1], old));
            }
        }
    }
}

/// Switching several resource packs on is switching them on one after the other, from the
/// first on: those behind others in the list come behind them in the file, unless they were on.
pub proof fn packs_are_switched_on_in_order(
    content: Seq<char>,
    first: Seq<Seq<char>>,
    then_on: Seq<Seq<char>>,
    filename: Seq<char>,
)
    ensures
        with_packs_enabled(content, first + then_on) == with_packs_enabled(
            with_packs_enabled(content, first),
            then_on,
        ),
        with_packs_enabled(content, seq![filename]) == with_pack_enabled(content, filename),
        with_packs_enabled(content, Seq::empty()) == content,
    decreases then_on.len(),
{
    reveal_with_fuel(with_packs_enabled, 2);
    assert(seq![filename].drop_last() =~= Seq::empty());
    if then_on.len() > 0 {
        packs_are_switched_on_in_order(content, first, then_on.drop_last(), filename);
        assert((first + then_on).drop_last() =~= first + then_on.drop_last());
    } else {
        assert(first + then_on =~= first);
    }
}

} // verus!
