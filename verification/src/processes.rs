//! The processes of the game and its launcher among those of the machine.
use vstd::prelude::*;

use crate::text;

verus! {

/// A process of the machine: its number, its name and its command line.
#[derive(Debug)]
pub struct ProcessInfo {
    pub pid: u32,
    pub name: String,
    pub cmd: Vec<String>,
}

/// A process of the game.
#[derive(Debug)]
pub struct RunningProc {
    pub name: String,
    pub pid: u32,
}

/// Whether a command line names the game directory.
pub open spec fn names_game_dir(cmd: Seq<Seq<char>>) -> bool {
    exists|i: int|
        0 <= i < cmd.len() && text::contains(
            text::unicode_lowercase(#[trigger] cmd[i]),
            ".minecraft"@,
        )
}

/// Whether a process belongs to the game: it is named after the game, or it is Java run on
/// the game directory. This program is named after the game too, and does not count.
pub open spec fn is_game(self_pid: u32, p: ProcessInfo) -> bool {
    let lower = text::unicode_lowercase(p.name@);
    let java = lower == "javaw.exe"@ || lower == "java.exe"@ || lower == "javaw"@ || lower
        == "java"@;
    &&& p.pid != self_pid
    &&& !text::contains(lower, "mod-like-im-five"@)
    &&& text::contains(lower, "minecraft"@) || java && names_game_dir(text::views(p.cmd@))
}

/// Whether a command line names the game directory.
fn cmd_names_game_dir(cmd: &Vec<String>) -> (r: bool)
    ensures
        r == names_game_dir(text::views(cmd@)),
{
    let ghost all = text::views(cmd@);
    let mut i: usize = 0;
    while i < cmd.len()
        invariant
            i <= cmd.len(),
            all == text::views(cmd@),
            forall|j: int|
                0 <= j < i ==> !text::contains(
                    text::unicode_lowercase(#[trigger] all[j]),
                    ".minecraft"@,
                ),
        decreases cmd.len() - i,
    {
        let lower = text::to_lowercase(cmd[i].as_str());
        if text::has(lower.as_str(), ".minecraft") {
            assert(all[i as int] == cmd@[i as int]@);
            return true;
        }
        i = i + 1;
    }
    false
}

/// Whether a process belongs to the game.
fn belongs_to_game(self_pid: u32, p: &ProcessInfo) -> (r: bool)
    ensures
        r == is_game(self_pid, *p),
{
    if p.pid == self_pid {
        return false;
    }
    let lower = text::to_lowercase(p.name.as_str());
    if text::has(lower.as_str(), "mod-like-im-five") {
        return false;
    }
    let java = text::same(lower.as_str(), "javaw.exe") || text::same(lower.as_str(), "java.exe")
        || text::same(lower.as_str(), "javaw") || text::same(lower.as_str(), "java");
    text::has(lower.as_str(), "minecraft") || (java && cmd_names_game_dir(&p.cmd))
}

/// The names and numbers of processes, in order.
pub open spec fn listed(found: Seq<RunningProc>) -> Seq<(Seq<char>, u32)> {
    Seq::new(found.len(), |i: int| (found[i].name@, found[i].pid))
}

/// The names and numbers of the processes of the game, in order.
pub open spec fn game_processes(self_pid: u32, all: Seq<ProcessInfo>) -> Seq<(Seq<char>, u32)>
    decreases all.len(),
{
    if all.len() == 0 {
        Seq::empty()
    } else if is_game(self_pid, all.last()) {
        game_processes(self_pid, all.drop_last()).push((all.last().name@, all.last().pid))
    } else {
        game_processes(self_pid, all.drop_last())
    }
}

/// The processes of the game among those of the machine. `self_pid` is the number of this
/// program's own process.
pub fn collect_minecraft_processes(self_pid: u32, all: &Vec<ProcessInfo>) -> (r: Vec<RunningProc>)
    ensures
        listed(r@) == game_processes(self_pid, all@),
{
    let mut found: Vec<RunningProc> = Vec::new();
    let mut i: usize = 0;
    assert(listed(found@) =~= Seq::empty());
    while i < all.len()
        invariant
            i <= all.len(),
            listed(found@) == game_processes(self_pid, all@.take(i as int)),
        decreases all.len() - i,
    {
        let ghost before = listed(found@);
        assert(all@.take(i + 1).drop_last() =~= all@.take(i as int));
        assert(all@.take(i + 1).last() == all@[i as int]);
        if belongs_to_game(self_pid, &all[i]) {
            found.push(RunningProc { name: all[i].name.clone(), pid: all[i].pid });
            assert(listed(found@) =~= before.push((all@[i as int].name@, all@[i as int].pid)));
        }
        i = i + 1;
    }
    assert(all@.take(i as int) =~= all@);
    found
}

/// This program is never among the processes of the game, so that it is never asked to be
/// closed.
pub proof fn own_process_is_left_out(self_pid: u32, all: Seq<ProcessInfo>, i: int)
    requires
        0 <= i < game_processes(self_pid, all).len(),
    ensures
        game_processes(self_pid, all)[i].1 != self_pid,
    decreases all.len(),
{
    let front = game_processes(self_pid, all.drop_last());
    if i < front.len() {
        own_process_is_left_out(self_pid, all.drop_last(), i);
    }
}

/// How many of the processes were stopped.
pub open spec fn stopped(killed: Seq<bool>) -> nat
    decreases killed.len(),
{
    if killed.len() == 0 {
        0
    } else {
        stopped(killed.drop_last()) + (if killed.last() {
            1nat
        } else {
            0nat
        })
    }
}

/// How many of the processes of the game were stopped, from whether each was.
pub fn count_stopped(killed: &Vec<bool>) -> (r: u32)
    requires
        killed.len() <= u32::MAX,
    ensures
        r == stopped(killed@),
{
    let mut n: u32 = 0;
    let mut i: usize = 0;
    while i < killed.len()
        invariant
            i <= killed.len() <= u32::MAX,
            n <= i,
            n == stopped(killed@.take(i as int)),
        decreases killed.len() - i,
    {
        assert(killed@.take(i + 1).drop_last() =~= killed@.take(i as int));
        assert(killed@.take(i + 1).last() == killed@[i as int]);
        if killed[i] {
            n = n + 1;
        }
        i = i + 1;
    }
    assert(killed@.take(i as int) =~= killed@);
    n
}

/// A process with the name of the game in its own, in whatever case, belongs to the game, and
/// so does Java where it was given a path in the game directory; Java that was not, and a
/// process of another name, do not. This program never does, by its number or by its name.
pub proof fn game_is_known_by_name_and_directory(self_pid: u32, p: ProcessInfo, i: int)
    ensures
        p.pid == self_pid ==> !is_game(self_pid, p),
        text::contains(text::unicode_lowercase(p.name@), "mod-like-im-five"@) ==> !is_game(
            self_pid,
            p,
        ),
        p.pid != self_pid && !text::contains(
            text::unicode_lowercase(p.name@),
            "mod-like-im-five"@,
        ) ==> {
            let name = text::unicode_lowercase(p.name@);
            let java = name == "java"@ || name == "javaw"@ || name == "java.exe"@ || name
                == "javaw.exe"@;
            &&& text::contains(name, "minecraft"@) ==> is_game(self_pid, p)
            &&& java && 0 <= i < p.cmd.len() && text::contains(
                text::unicode_lowercase(p.cmd@[i]@),
                ".minecraft"@,
            ) ==> is_game(self_pid, p)
            &&& !text::contains(name, "minecraft"@) && !java ==> !is_game(self_pid, p)
            &&& !text::contains(name, "minecraft"@) && (forall|j: int|
                0 <= j < p.cmd.len() ==> !text::contains(
                    text::unicode_lowercase((#[trigger] p.cmd@[j])@),
                    ".minecraft"@,
                )) ==> !is_game(self_pid, p)
        },
{
    let cmd = text::views(p.cmd@);
    if 0 <= i < p.cmd.len() {
        assert(cmd[i] == p.cmd@[i]@);
    }
    if names_game_dir(cmd) {
        let j = choose|j: int|
            0 <= j < cmd.len() && text::contains(
                text::unicode_lowercase(#[trigger] cmd[j]),
                ".minecraft"@,
            );
        assert(cmd[j] == p.cmd@[j]@);
    }
}

/// The processes that are found are those of the game among all, in order, each with its name
/// and its number.
pub proof fn found_processes_are_those_of_the_game(self_pid: u32, all: Seq<ProcessInfo>)
    ensures
        game_processes(self_pid, all) == all.filter(
            |p: ProcessInfo| is_game(self_pid, p),
        ).map_values(|p: ProcessInfo| (p.name@, p.pid)),
    decreases all.len(),
{
    let of_game = |p: ProcessInfo| is_game(self_pid, p);
    let shown = |p: ProcessInfo| (p.name@, p.pid);
    reveal(Seq::filter);
    if all.len() > 0 {
        let front = all.drop_last();
        found_processes_are_those_of_the_game(self_pid, front);
        if is_game(self_pid, all.last()) {
            assert(all.filter(of_game) =~= front.filter(of_game).push(all.last()));
            assert(all.filter(of_game).map_values(shown) =~= front.filter(of_game).map_values(
                shown,
            ).push((all.last().name@, all.last().pid)));
        } else {
            assert(all.filter(of_game) =~= front.filter(of_game));
        }
    } else {
        assert(all.filter(of_game).map_values(shown) =~= Seq::empty());
    }
}

/// The number of processes that were stopped is that of the attempts which succeeded.
pub proof fn stopped_are_counted(killed: Seq<bool>)
    ensures
        stopped(killed) == killed.filter(|k: bool| k).len(),
    decreases killed.len(),
{
    reveal(Seq::filter);
    if killed.len() > 0 {
        stopped_are_counted(killed.drop_last());
    }
}

} // verus!
