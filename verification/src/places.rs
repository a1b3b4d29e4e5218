//! Where things lie on a machine: directories that the system names, and paths
//! below them.
use vstd::prelude::*;

use crate::text;

verus! {

/// The kind of machine.
#[derive(Clone, Copy, Debug, PartialEq, Eq, Structural)]
pub enum Platform {
    Windows,
    MacOs,
    Linux,
}

/// A directory that the system names for the user.
#[derive(Clone, Copy, Debug, PartialEq, Eq, Structural)]
pub enum Anchor {
    Home,
    AppData,
    LocalAppData,
    ProgramData,
    ProgramFiles,
    ProgramFilesX86,
}

/// A path below an anchor: its parts are joined to the anchor one after another.
#[derive(Debug)]
pub struct Place {
    pub anchor: Anchor,
    pub parts: Vec<String>,
}

impl Place {
    /// Whether the place is the path `parts` below `anchor`.
    pub open spec fn is(self, anchor: Anchor, parts: Seq<Seq<char>>) -> bool {
        self.anchor == anchor && text::views(self.parts@) == parts
    }
}

/// The environment variable that holds the anchor; the home directory has none.
pub fn anchor_variable(anchor: Anchor) -> (r: Option<&'static str>)
    ensures
        text::opt_str_view(r) == (match anchor {
            Anchor::Home => None,
            Anchor::AppData => Some("APPDATA"@),
            Anchor::LocalAppData => Some("LOCALAPPDATA"@),
            Anchor::ProgramData => Some("ProgramData"@),
            Anchor::ProgramFiles => Some("ProgramFiles"@),
            Anchor::ProgramFilesX86 => Some("ProgramFiles(x86)"@),
        }),
{
    match anchor {
        Anchor::Home => None,
        Anchor::AppData => Some("APPDATA"),
        Anchor::LocalAppData => Some("LOCALAPPDATA"),
        Anchor::ProgramData => Some("ProgramData"),
        Anchor::ProgramFiles => Some("ProgramFiles"),
        Anchor::ProgramFilesX86 => Some("ProgramFiles(x86)"),
    }
}

/// The path of one part below an anchor.
pub fn place1(anchor: Anchor, a: &str) -> (p: Place)
    ensures
        p.is(anchor, seq![a@]),
{
    let mut parts: Vec<String> = Vec::new();
    parts.push(a.to_owned());
    assert(text::views(parts@) =~= seq![a@]);
    Place { anchor, parts }
}

/// The path of two parts below an anchor.
pub fn place2(anchor: Anchor, a: &str, b: &str) -> (p: Place)
    ensures
        p.is(anchor, seq![a@, b@]),
{
    let mut parts: Vec<String> = Vec::new();
    parts.push(a.to_owned());
    parts.push(b.to_owned());
    assert(text::views(parts@) =~= seq![a@, b@]);
    Place { anchor, parts }
}

/// Where the game keeps its files on a machine of the given kind.
pub fn default_minecraft_dir(platform: Platform) -> (p: Place)
    ensures
        match platform {
            Platform::Windows => p.is(Anchor::AppData, seq![".minecraft"@]),
            Platform::MacOs => p.is(
                Anchor::Home,
                seq!["Library/Application Support/minecraft"@],
            ),
            Platform::Linux => p.is(Anchor::Home, seq![".minecraft"@]),
        },
{
    match platform {
        Platform::Windows => place1(Anchor::AppData, ".minecraft"),
        Platform::MacOs => place1(Anchor::Home, "Library/Application Support/minecraft"),
        Platform::Linux => place1(Anchor::Home, ".minecraft"),
    }
}

/// Where the game's launcher keeps the Java runtimes that it brings, in the order in
/// which they are looked at.
pub fn launcher_runtime_roots(platform: Platform) -> (r: Vec<Place>)
    ensures
        match platform {
            Platform::Windows => {
                &&& r.len() == 3
                &&& r[0].is(Anchor::ProgramFiles, seq!["Minecraft Launcher"@, "runtime"@])
                &&& r[1].is(Anchor::ProgramFilesX86, seq!["Minecraft Launcher"@, "runtime"@])
                &&& r[2].is(
                    Anchor::LocalAppData,
                    seq![
                        "Packages\\Microsoft.4297127D64EC6_8wekyb3d8bbwe\\LocalCache\\Local\\runtime"@,
                    ],
                )
            },
            Platform::MacOs => {
                &&& r.len() == 1
                &&& r[0].is(
                    Anchor::Home,
                    seq!["Library/Application Support/minecraft"@, "runtime"@],
                )
            },
            Platform::Linux => {
                &&& r.len() == 1
                &&& r[0].is(Anchor::Home, seq![".minecraft"@, "runtime"@])
            },
        },
{
    let mut r: Vec<Place> = Vec::new();
    match platform {
        Platform::Windows => {
            r.push(place2(Anchor::ProgramFiles, "Minecraft Launcher", "runtime"));
            r.push(place2(Anchor::ProgramFilesX86, "Minecraft Launcher", "runtime"));
            r.push(
                place1(
                    Anchor::LocalAppData,
                    "Packages\\Microsoft.4297127D64EC6_8wekyb3d8bbwe\\LocalCache\\Local\\runtime",
                ),
            );
        },
        Platform::MacOs => {
            r.push(place2(Anchor::Home, "Library/Application Support/minecraft", "runtime"));
        },
        Platform::Linux => {
            r.push(place2(Anchor::Home, ".minecraft", "runtime"));
        },
    }
    r
}

/// The directory that was asked for, where one was: an empty name asks for none.
pub open spec fn requested(asked: Option<Seq<char>>) -> Option<Seq<char>> {
    match asked {
        Some(s) if s.len() > 0 => Some(s),
        _ => None,
    }
}

/// The directory that was asked for, where one was: an empty name asks for none.
pub fn requested_dir(asked: Option<String>) -> (r: Option<String>)
    ensures
        text::opt_view(r) == requested(text::opt_view(asked)),
{
    match asked {
        Some(s) => {
            if s.as_str().is_empty() {
                None
            } else {
                Some(s)
            }
        },
        None => None,
    }
}

/// Whether `r` is the game directory to work in, or why there is none.
pub open spec fn works_in(
    asked: Option<Seq<char>>,
    usual: Option<Seq<char>>,
    r: Result<String, String>,
) -> bool {
    match requested(asked) {
        Some(s) => r is Ok && r->Ok_0@ == s,
        None => match usual {
            Some(dir) => r is Ok && r->Ok_0@ == dir,
            None => r is Err && r->Err_0@ == "can't find .minecraft"@,
        },
    }
}

/// The game directory to work in: the one that was asked for, and otherwise the usual one,
/// where it is known.
pub fn game_dir(asked: Option<String>, usual: Option<String>) -> (r: Result<String, String>)
    ensures
        works_in(text::opt_view(asked), text::opt_view(usual), r),
{
    match requested_dir(asked) {
        Some(dir) => Ok(dir),
        None => match usual {
            Some(dir) => Ok(dir),
            None => Err("can't find .minecraft".to_owned()),
        },
    }
}

/// Whether work can start in a directory: it must exist.
pub fn require_dir(dir: &str, present: bool) -> (r: Result<(), String>)
    ensures
        if present {
            r is Ok
        } else {
            r is Err && r->Err_0@ == "Folder doesn't exist: "@ + dir@
        },
{
    if present {
        Ok(())
    } else {
        Err(text::cat2("Folder doesn't exist: ", dir))
    }
}

/// What the user is told of the game directory: its path where it was found and
/// exists, and otherwise what is wrong. `found` is the path as text, `exists` whether
/// a directory is there.
pub fn get_minecraft_dir(found: Option<String>, exists: bool) -> (r: Result<String, String>)
    ensures
        match found {
            None => r is Err && r->Err_0@ == "Cannot determine .minecraft path"@,
            Some(dir) => if exists {
                r is Ok && r->Ok_0@ == dir@
            } else {
                r is Err && r->Err_0@ == "Minecraft folder not found at "@ + dir@
                    + ". Open the Minecraft launcher once to create it."@
            },
        },
{
    match found {
        None => Err("Cannot determine .minecraft path".to_owned()),
        Some(dir) => {
            if exists {
                Ok(dir)
            } else {
                Err(
                    text::cat3(
                        "Minecraft folder not found at ",
                        dir.as_str(),
                        ". Open the Minecraft launcher once to create it.",
                    ),
                )
            }
        },
    }
}

/// The directory that was asked for counts wherever one was, and the usual one only where none
/// was; an empty name is none.
pub proof fn asked_directory_comes_first(
    asked: Option<Seq<char>>,
    usual: Option<Seq<char>>,
    r: Result<String, String>,
)
    requires
        works_in(asked, usual, r),
    ensures
        asked is Some && asked->Some_0.len() > 0 ==> r is Ok && r->Ok_0@ == asked->Some_0,
        asked is None || asked->Some_0.len() == 0 ==> (r is Ok <==> usual is Some) && (r is Ok
            ==> r->Ok_0@ == usual->Some_0),
{
}

} // verus!
