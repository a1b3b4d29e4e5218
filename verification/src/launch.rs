//! Starting the game's launcher: the ways that are tried, and in which order.
use vstd::prelude::*;

use crate::lines;
use crate::places::{place1, place2, Anchor, Place};
use crate::text;

verus! {

/// One way to start the launcher.
#[derive(Debug)]
pub enum LaunchStep {
    /// Open a shortcut, where it is there.
    Shortcut(Place),
    /// Run a program, where it is there.
    Program(Place),
    /// Open the app of Microsoft's store.
    StoreApp,
    /// Open an address that the launcher answers to.
    Scheme(String),
}

impl LaunchStep {
    /// Whether this opens the shortcut at the given path.
    pub open spec fn opens(self, anchor: Anchor, path: Seq<char>) -> bool {
        self is Shortcut && self->Shortcut_0.is(anchor, seq![path])
    }

    /// Whether this runs the program at the given path.
    pub open spec fn runs(self, anchor: Anchor, parts: Seq<Seq<char>>) -> bool {
        self is Program && self->Program_0.is(anchor, parts)
    }

    /// Whether this opens the given address.
    pub open spec fn follows(self, scheme: Seq<char>) -> bool {
        self is Scheme && self->Scheme_0@ == scheme
    }
}

/// Whether these are the ways to start the launcher, in the order in which they are tried.
pub open spec fn launch_order(steps: Seq<LaunchStep>) -> bool {
    let in_menu = "Microsoft\\Windows\\Start Menu\\Programs\\Minecraft Launcher.lnk"@;
    let short_name = "Microsoft\\Windows\\Start Menu\\Programs\\Minecraft.lnk"@;
    let program = seq!["Minecraft Launcher"@, "MinecraftLauncher.exe"@];
    &&& steps.len() == 10
    &&& steps[0].opens(Anchor::AppData, in_menu)
    &&& steps[1].opens(Anchor::ProgramData, in_menu)
    &&& steps[2].opens(Anchor::AppData, short_name)
    &&& steps[3].opens(Anchor::ProgramData, short_name)
    &&& steps[4].runs(Anchor::ProgramFilesX86, program)
    &&& steps[5].runs(Anchor::ProgramFiles, program)
    &&& steps[6].runs(
        Anchor::LocalAppData,
        seq!["Programs\\Minecraft Launcher\\MinecraftLauncher.exe"@],
    )
    &&& steps[7] is StoreApp
    &&& steps[8].follows("minecraft://"@)
    &&& steps[9].follows("minecraft-launcher://"@)
}

/// The ways to start the launcher, in the order in which they are tried.
pub fn launch_steps() -> (r: Vec<LaunchStep>)
    ensures
        launch_order(r@),
{
    let mut r: Vec<LaunchStep> = Vec::new();
    r.push(
        LaunchStep::Shortcut(
            place1(
                Anchor::AppData,
                "Microsoft\\Windows\\Start Menu\\Programs\\Minecraft Launcher.lnk",
            ),
        ),
    );
    r.push(
        LaunchStep::Shortcut(
            place1(
                Anchor::ProgramData,
                "Microsoft\\Windows\\Start Menu\\Programs\\Minecraft Launcher.lnk",
            ),
        ),
    );
    r.push(
        LaunchStep::Shortcut(
            place1(Anchor::AppData, "Microsoft\\Windows\\Start Menu\\Programs\\Minecraft.lnk"),
        ),
    );
    r.push(
        LaunchStep::Shortcut(
            place1(
                Anchor::ProgramData,
                "Microsoft\\Windows\\Start Menu\\Programs\\Minecraft.lnk",
            ),
        ),
    );
    r.push(
        LaunchStep::Program(
            place2(Anchor::ProgramFilesX86, "Minecraft Launcher", "MinecraftLauncher.exe"),
        ),
    );
    r.push(
        LaunchStep::Program(
            place2(Anchor::ProgramFiles, "Minecraft Launcher", "MinecraftLauncher.exe"),
        ),
    );
    r.push(
        LaunchStep::Program(
            place1(
                Anchor::LocalAppData,
                "Programs\\Minecraft Launcher\\MinecraftLauncher.exe",
            ),
        ),
    );
    r.push(LaunchStep::StoreApp);
    r.push(LaunchStep::Scheme("minecraft://".to_owned()));
    r.push(LaunchStep::Scheme("minecraft-launcher://".to_owned()));
    r
}

/// A program to start, and what it is given.
#[derive(Debug)]
pub struct LaunchCommand {
    pub program: String,
    pub args: Vec<String>,
}

impl LaunchCommand {
    /// Whether this starts `program` with `args`.
    pub open spec fn starts(self, program: Seq<char>, args: Seq<Seq<char>>) -> bool {
        self.program@ == program && text::views(self.args@) == args
    }
}

/// Whether `r` is the command for a way to start the launcher.
pub open spec fn commands(step: LaunchStep, path: Seq<char>, r: LaunchCommand) -> bool {
    match step {
        LaunchStep::Shortcut(_) => r.starts("cmd"@, seq!["/c"@, "start"@, ""@, path]),
        LaunchStep::Program(_) => r.starts(path, Seq::empty()),
        LaunchStep::StoreApp => r.starts(
            "explorer.exe"@,
            seq!["shell:AppsFolder\\Microsoft.4297127D64EC6_8wekyb3d8bbwe!Minecraft"@],
        ),
        LaunchStep::Scheme(s) => r.starts("cmd"@, seq!["/c"@, "start"@, ""@, s@]),
    }
}

/// The command for a way to start the launcher. `path` is that of the shortcut or the
/// program.
pub fn launch_command(step: &LaunchStep, path: &str) -> (r: LaunchCommand)
    ensures
        commands(*step, path@, r),
{
    let mut args: Vec<String> = Vec::new();
    match step {
        LaunchStep::Shortcut(_) => {
            args.push("/c".to_owned());
            args.push("start".to_owned());
            args.push("".to_owned());
            args.push(path.to_owned());
            assert(text::views(args@) =~= seq!["/c"@, "start"@, ""@, path@]);
            LaunchCommand { program: "cmd".to_owned(), args }
        },
        LaunchStep::Program(_) => {
            assert(text::views(args@) =~= Seq::empty());
            LaunchCommand { program: path.to_owned(), args }
        },
        LaunchStep::StoreApp => {
            args.push(
                "shell:AppsFolder\\Microsoft.4297127D64EC6_8wekyb3d8bbwe!Minecraft".to_owned(),
            );
            assert(text::views(args@) =~= seq![
                "shell:AppsFolder\\Microsoft.4297127D64EC6_8wekyb3d8bbwe!Minecraft"@,
            ]);
            LaunchCommand { program: "explorer.exe".to_owned(), args }
        },
        LaunchStep::Scheme(s) => {
            args.push("/c".to_owned());
            args.push("start".to_owned());
            args.push("".to_owned());
            args.push(s.clone());
            assert(text::views(args@) =~= seq!["/c"@, "start"@, ""@, s@]);
            LaunchCommand { program: "cmd".to_owned(), args }
        },
    }
}

/// What came of one way to start the launcher.
#[derive(Debug)]
pub enum LaunchOutcome {
    /// What it needs is not there.
    Absent,
    Started,
    /// It did not start. `path` is that of the shortcut or the program.
    Failed { path: String, error: String },
}

/// What is said of a way that failed.
pub open spec fn failure_note(step: LaunchStep, path: Seq<char>, error: Seq<char>) -> Seq<char> {
    match step {
        LaunchStep::Shortcut(_) | LaunchStep::Program(_) => path + ": "@ + error,
        LaunchStep::StoreApp => "shell:AppsFolder"@,
        LaunchStep::Scheme(s) => s@,
    }
}

/// What is said of the ways that failed, in order.
pub open spec fn failure_notes(
    steps: Seq<LaunchStep>,
    outcomes: Seq<LaunchOutcome>,
) -> Seq<Seq<char>>
    decreases outcomes.len(),
{
    if outcomes.len() == 0 {
        Seq::empty()
    } else {
        let earlier = failure_notes(steps, outcomes.drop_last());
        match outcomes.last() {
            LaunchOutcome::Failed { path, error } => earlier.push(
                failure_note(steps[outcomes.len() - 1], path@, error@),
            ),
            _ => earlier,
        }
    }
}

/// Whether some way started the launcher.
pub open spec fn has_started(outcomes: Seq<LaunchOutcome>) -> bool {
    exists|i: int| 0 <= i < outcomes.len() && #[trigger] outcomes[i] is Started
}

/// Which of so many ways to try next, from what came of those that were tried.
pub open spec fn next_way(ways: nat, outcomes: Seq<LaunchOutcome>) -> Option<nat> {
    if has_started(outcomes) || outcomes.len() >= ways {
        None
    } else {
        Some(outcomes.len())
    }
}

/// Which way to try next, from what came of those that were tried, in order; none once one
/// started the launcher, or where all were tried.
pub fn next_launch(steps: &Vec<LaunchStep>, outcomes: &Vec<LaunchOutcome>) -> (r: Option<usize>)
    ensures
        match r {
            Some(i) => next_way(steps.len() as nat, outcomes@) == Some(i as nat),
            None => next_way(steps.len() as nat, outcomes@) is None,
        },
{
    let mut i: usize = 0;
    while i < outcomes.len()
        invariant
            i <= outcomes.len(),
            forall|j: int| 0 <= j < i ==> !(#[trigger] outcomes@[j] is Started),
        decreases outcomes.len() - i,
    {
        match &outcomes[i] {
            LaunchOutcome::Started => {
                assert(outcomes@[i as int] is Started);
                return None;
            },
            _ => {},
        }
        i = i + 1;
    }
    if outcomes.len() < steps.len() {
        Some(outcomes.len())
    } else {
        None
    }
}

/// What is said of a way that failed.
fn note_failure(step: &LaunchStep, path: &str, error: &str) -> (r: String)
    ensures
        r@ == failure_note(*step, path@, error@),
{
    match step {
        LaunchStep::Shortcut(_) | LaunchStep::Program(_) => text::cat3(path, ": ", error),
        LaunchStep::StoreApp => "shell:AppsFolder".to_owned(),
        LaunchStep::Scheme(s) => s.clone(),
    }
}

/// Whether the launcher was started, from what came of the ways that were tried, in order;
/// where it was not, what to say.
pub fn launch_minecraft_launcher(steps: &Vec<LaunchStep>, outcomes: &Vec<LaunchOutcome>) -> (r:
    Result<(), String>)
    requires
        outcomes.len() <= steps.len(),
    ensures
        if has_started(outcomes@) {
            r is Ok
        } else {
            r is Err && r->Err_0@
                == "Couldn't find the Minecraft launcher. Open it from the Start Menu yourself. Tried: "@
                + lines::join(failure_notes(steps@, outcomes@), "; "@)
        },
{
    let mut tried: Vec<String> = Vec::new();
    let mut i: usize = 0;
    assert(text::views(tried@) =~= Seq::empty());
    while i < outcomes.len()
        invariant
            i <= outcomes.len() <= steps.len(),
            forall|j: int| 0 <= j < i ==> !(#[trigger] outcomes@[j] is Started),
            text::views(tried@) == failure_notes(steps@, outcomes@.take(i as int)),
        decreases outcomes.len() - i,
    {
        let ghost before = text::views(tried@);
        assert(outcomes@.take(i + 1).drop_last() =~= outcomes@.take(i as int));
        assert(outcomes@.take(i + 1).last() == outcomes@[i as int]);
        match &outcomes[i] {
            LaunchOutcome::Started => {
                assert(outcomes@[i as int] is Started);
                return Ok(());
            },
            LaunchOutcome::Failed { path, error } => {
                let note = note_failure(&steps[i], path.as_str(), error.as_str());
                let ghost n = note@;
                tried.push(note);
                assert(text::views(tried@) =~= before.push(n));
            },
            LaunchOutcome::Absent => {},
        }
        i = i + 1;
    }
    assert(outcomes@.take(i as int) =~= outcomes@);
    let list = lines::joined(&tried, "; ");
    Err(
        text::cat2(
            "Couldn't find the Minecraft launcher. Open it from the Start Menu yourself. Tried: ",
            list.as_str(),
        ),
    )
}

/// A way is tried only where those before it were and none of them started the launcher, each
/// once and in order, until one starts it or none is left.
pub proof fn ways_are_tried_in_order(
    ways: nat,
    outcomes: Seq<LaunchOutcome>,
    outcome: LaunchOutcome,
)
    requires
        outcomes.len() <= ways,
    ensures
        outcomes.len() == 0 && ways > 0 ==> next_way(ways, outcomes) == Some(0nat),
        next_way(ways, outcomes) is Some && !(outcome is Started) && next_way(
            ways,
            outcomes,
        )->Some_0 + 1 < ways ==> next_way(ways, outcomes.push(outcome)) == Some(
            (next_way(ways, outcomes)->Some_0 + 1) as nat,
        ),
        outcome is Started ==> next_way(ways, outcomes.push(outcome)) is None,
        next_way(ways, outcomes) is None ==> outcomes.len() == ways || exists|i: int|
            0 <= i < outcomes.len() && #[trigger] outcomes[i] is Started,
        (exists|i: int| 0 <= i < outcomes.len() && #[trigger] outcomes[i] is Started) ==> next_way(
            ways,
            outcomes,
        ) is None,
{
    let after = outcomes.push(outcome);
    if outcome is Started {
        assert(after[outcomes.len() as int] is Started);
    } else if has_started(after) {
        let i = choose|i: int| 0 <= i < after.len() && #[trigger] after[i] is Started;
        assert(outcomes[i] is Started);
    }
}

/// A shortcut and an address are opened by the system, a program is run as it is, without
/// arguments, and each way is given the path or the address that is its own.
pub proof fn each_way_is_given_its_own(step: LaunchStep, path: Seq<char>, r: LaunchCommand)
    requires
        commands(step, path, r),
    ensures
        step is Program ==> r.program@ == path && r.args.len() == 0,
        step is Shortcut ==> r.program@ == "cmd"@ && r.args.len() == 4 && r.args@[3]@ == path,
        step is Scheme ==> r.program@ == "cmd"@ && r.args.len() == 4 && r.args@[3]@
            == step->Scheme_0@,
        step is Shortcut || step is Scheme ==> r.args@[0]@ == "/c"@ && r.args@[1]@ == "start"@
            && r.args@[2]@ == ""@,
        step is StoreApp ==> r.program@ == "explorer.exe"@ && r.args.len() == 1,
{
    let args = text::views(r.args@);
    assert(args.len() == r.args.len());
    assert(forall|i: int| 0 <= i < args.len() ==> (#[trigger] args[i]) == r.args@[i]@);
    if step is Shortcut || step is Scheme {
        assert(args[0] == r.args@[0]@);
        assert(args[1] == r.args@[1]@);
        assert(args[2] == r.args@[2]@);
        assert(args[3] == r.args@[3]@);
    }
}

/// Every way that failed is told, and nothing else is.
pub proof fn failed_ways_are_told(steps: Seq<LaunchStep>, outcomes: Seq<LaunchOutcome>)
    requires
        outcomes.len() <= steps.len(),
    ensures
        failure_notes(steps, outcomes).len() == outcomes.filter(
            |o: LaunchOutcome| o is Failed,
        ).len(),
        forall|i: int|
            0 <= i < outcomes.len() && (#[trigger] outcomes[i]) is Failed ==> failure_notes(
                steps,
                outcomes,
            ).contains(failure_note(steps[i], outcomes[i]->path@, outcomes[i]->error@)),
    decreases outcomes.len(),
{
    reveal(Seq::filter);
    if outcomes.len() > 0 {
        let front = outcomes.drop_last();
        failed_ways_are_told(steps, front);
        let earlier = failure_notes(steps, front);
        let all = failure_notes(steps, outcomes);
        assert forall|i: int|
            0 <= i < outcomes.len() && (#[trigger] outcomes[i]) is Failed implies all.contains(
            failure_note(steps[i], outcomes[i]->path@, outcomes[i]->error@),
        ) by {
            if i < front.len() {
                assert(front[i] == outcomes[i]);
                let note = failure_note(steps[i], outcomes[i]->path@, outcomes[i]->error@);
                let k = choose|k: int| 0 <= k < earlier.len() && earlier[k] == note;
                assert(all[k] == note);
            } else {
                assert(all[all.len() - 1] == failure_note(
                    steps[i],
                    outcomes[i]->path@,
                    outcomes[i]->error@,
                ));
            }
        }
    }
}

} // verus!
