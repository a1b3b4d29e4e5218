//! Finding a Java runtime, and the arguments that the game's Java runs with.
use vstd::prelude::*;

use crate::decimal;
use crate::lines;
use crate::places::Platform;
use crate::text;

verus! {

/// The directory that the launcher's runtimes use for the kind of machine.
pub fn java_arch_subdir(platform: Platform) -> (r: &'static str)
    ensures
        r@ == (match platform {
            Platform::Windows => "windows-x64"@,
            Platform::Linux => "linux"@,
            Platform::MacOs => "mac-os"@,
        }),
{
    match platform {
        Platform::Windows => "windows-x64",
        Platform::Linux => "linux",
        Platform::MacOs => "mac-os",
    }
}

/// What the Java program file is called.
pub fn java_exe_name(platform: Platform) -> (r: &'static str)
    ensures
        r@ == (if platform == Platform::Windows {
            "java.exe"@
        } else {
            "java"@
        }),
{
    match platform {
        Platform::Windows => "java.exe",
        _ => "java",
    }
}

/// The command that looks a program up on the search path.
pub fn java_lookup_command(platform: Platform) -> (r: &'static str)
    ensures
        r@ == (if platform == Platform::Windows {
            "where"@
        } else {
            "which"@
        }),
{
    match platform {
        Platform::Windows => "where",
        _ => "which",
    }
}

/// The launcher's runtimes that are tried first, best first: the one with Java 21,
/// then that with Java 17, then the older ones.
pub open spec fn preferred_variants() -> Seq<Seq<char>> {
    seq![
        "java-runtime-delta"@,
        "java-runtime-gamma"@,
        "java-runtime-beta"@,
        "java-runtime-alpha"@,
        "jre-legacy"@,
    ]
}

/// The launcher's runtimes that are tried first, best first.
pub fn preferred_java_variants() -> (r: Vec<String>)
    ensures
        text::views(r@) == preferred_variants(),
{
    let mut r: Vec<String> = Vec::new();
    r.push("java-runtime-delta".to_owned());
    r.push("java-runtime-gamma".to_owned());
    r.push("java-runtime-beta".to_owned());
    r.push("java-runtime-alpha".to_owned());
    r.push("jre-legacy".to_owned());
    assert(text::views(r@) =~= preferred_variants());
    r
}

/// The path of the Java program below the directory of the runtime `variant`.
pub fn java_below_variant(platform: Platform, variant: &str) -> (r: Vec<String>)
    ensures
        text::views(r@) == seq![
            (match platform {
                Platform::Windows => "windows-x64"@,
                Platform::Linux => "linux"@,
                Platform::MacOs => "mac-os"@,
            }),
            variant@,
            "bin"@,
            (if platform == Platform::Windows {
                "java.exe"@
            } else {
                "java"@
            }),
        ],
{
    let mut r: Vec<String> = Vec::new();
    r.push(java_arch_subdir(platform).to_owned());
    r.push(variant.to_owned());
    r.push("bin".to_owned());
    r.push(java_exe_name(platform).to_owned());
    assert(text::views(r@) =~= seq![r@[0]@, variant@, "bin"@, r@[3]@]);
    r
}

/// What was found below one directory of launcher runtimes: whether it exists, which
/// of the preferred runtimes hold a Java program, and which of those that a listing
/// gave do. There is no listing where it failed.
pub struct RuntimeRoot {
    pub exists: bool,
    pub preferred: Vec<bool>,
    pub listed: Option<Vec<bool>>,
}

/// One runtime below a root: by its place among the preferred ones or in the listing.
#[derive(Clone, Copy, Debug, PartialEq, Eq, Structural)]
pub enum Variant {
    Preferred(usize),
    Listed(usize),
}

/// Whether `i` is the first place of `s` that holds `true`.
pub open spec fn first_true(s: Seq<bool>, i: int) -> bool {
    0 <= i < s.len() && s[i] && forall|j: int| 0 <= j < i ==> !s[j]
}

/// Whether no place of `s` holds `true`.
pub open spec fn none_true(s: Seq<bool>) -> bool {
    forall|j: int| 0 <= j < s.len() ==> !s[j]
}

impl RuntimeRoot {
    /// Whether the root has no Java program to offer.
    pub open spec fn empty(self) -> bool {
        !self.exists || (none_true(self.preferred@) && match self.listed {
            Some(l) => none_true(l@),
            None => true,
        })
    }

    /// Whether `v` is the runtime that the root offers: the first preferred one that
    /// holds a Java program, and the first listed one where no preferred one does.
    pub open spec fn offers(self, v: Variant) -> bool {
        self.exists && match v {
            Variant::Preferred(i) => first_true(self.preferred@, i as int),
            Variant::Listed(i) => none_true(self.preferred@) && self.listed is Some && first_true(
                self.listed->Some_0@,
                i as int,
            ),
        }
    }
}

/// Whether `r` is the Java program of the launcher: that of the first root that has one to
/// offer.
pub open spec fn java_found(roots: Seq<RuntimeRoot>, r: Option<(usize, Variant)>) -> bool {
    match r {
        Some((k, v)) => {
            &&& k < roots.len()
            &&& roots[k as int].offers(v)
            &&& forall|j: int| 0 <= j < k ==> (#[trigger] roots[j]).empty()
        },
        None => forall|j: int| 0 <= j < roots.len() ==> (#[trigger] roots[j]).empty(),
    }
}

/// Where the first `true` stands.
fn first_set(v: &Vec<bool>) -> (r: Option<usize>)
    ensures
        match r {
            Some(i) => first_true(v@, i as int),
            None => none_true(v@),
        },
{
    let mut i: usize = 0;
    while i < v.len()
        invariant
            i <= v.len(),
            forall|j: int| 0 <= j < i ==> !v@[j],
        decreases v.len() - i,
    {
        if v[i] {
            return Some(i);
        }
        i = i + 1;
    }
    None
}

/// The Java program of the launcher: the root it lies below and the runtime it
/// belongs to. The first root that has one to offer is taken.
pub fn find_launcher_java(roots: &Vec<RuntimeRoot>) -> (r: Option<(usize, Variant)>)
    ensures
        java_found(roots@, r),
{
    let mut k: usize = 0;
    while k < roots.len()
        invariant
            k <= roots.len(),
            forall|j: int| 0 <= j < k ==> (#[trigger] roots@[j]).empty(),
        decreases roots.len() - k,
    {
        let root = &roots[k];
        if root.exists {
            match first_set(&root.preferred) {
                Some(i) => {
                    return Some((k, Variant::Preferred(i)));
                },
                None => {},
            }
            match &root.listed {
                Some(l) => match first_set(l) {
                    Some(i) => {
                        return Some((k, Variant::Listed(i)));
                    },
                    None => {},
                },
                None => {},
            }
        }
        k = k + 1;
    }
    None
}

/// The program that a look-up on the search path printed.
pub open spec fn java_on_path(success: bool, stdout: Seq<char>) -> Option<Seq<char>> {
    if success && lines::lines(stdout).len() > 0 && text::trim(lines::lines(stdout)[0]).len() > 0 {
        Some(text::trim(lines::lines(stdout)[0]))
    } else {
        None
    }
}

/// The program that a look-up on the search path printed: the first line of its
/// output without white space around it, where the look-up succeeded and the line
/// holds anything.
pub fn find_path_java(success: bool, stdout: &str) -> (r: Option<String>)
    ensures
        text::opt_view(r) == java_on_path(success, stdout@),
{
    if !success {
        return None;
    }
    let ls = lines::lines_of(stdout);
    assert(ls.len() == lines::lines(stdout@).len());
    if ls.len() == 0 {
        return None;
    }
    assert(ls@[0]@ == lines::lines(stdout@)[0]);
    let line = text::trimmed(ls[0].as_str());
    if line.as_str().is_empty() {
        None
    } else {
        Some(line)
    }
}

/// The Java program to use: that of the launcher, and the one on the search path
/// where the launcher has none.
pub fn find_java<T>(launcher: Option<T>, on_path: Option<T>) -> (r: Option<T>)
    ensures
        r == (if launcher is Some {
            launcher
        } else {
            on_path
        }),
{
    match launcher {
        Some(p) => Some(p),
        None => on_path,
    }
}

/// The gigabytes of a number of bytes, cut to 32 bits.
pub open spec fn gigabytes(bytes: u64) -> u32 {
    (bytes / 0x4000_0000) as u32
}

/// The heap for the game, in gigabytes, on a machine with `total` gigabytes of memory.
pub open spec fn default_heap(total: int) -> int {
    if total >= 32 {
        12
    } else if total >= 16 {
        8
    } else if total >= 8 {
        6
    } else if total >= 4 {
        total / 2
    } else {
        2
    }
}

/// The largest heap that leaves the system two gigabytes, but never below two.
pub open spec fn largest_heap(total: int) -> int {
    if total >= 4 {
        total - 2
    } else {
        2
    }
}

/// The heap that the game gets: what the profile asks for, or else what fits the
/// machine, between two gigabytes and the largest heap.
pub open spec fn heap(total: int, asked: Option<u32>) -> int {
    let target = match asked {
        Some(gb) => gb as int,
        None => default_heap(total),
    };
    if target < 2 {
        2
    } else if target > largest_heap(total) {
        largest_heap(total)
    } else {
        target
    }
}

/// The heap for the game in gigabytes, on a machine with `total_memory` bytes.
pub fn calculate_java_xmx_gb(total_memory: u64, profile_override: Option<u32>) -> (r: u32)
    ensures
        r == heap(gigabytes(total_memory) as int, profile_override),
{
    let total_gb: u32 = (total_memory / 0x4000_0000) as u32;
    let safe_max: u32 = if total_gb >= 4 {
        total_gb - 2
    } else {
        2
    };
    let target: u32 = match profile_override {
        Some(gb) => gb,
        None => if total_gb >= 32 {
            12
        } else if total_gb >= 16 {
            8
        } else if total_gb >= 8 {
            6
        } else if total_gb >= 4 {
            total_gb / 2
        } else {
            2
        },
    };
    if target < 2 {
        2
    } else if target > safe_max {
        safe_max
    } else {
        target
    }
}

/// The game's Java gets at least two gigabytes, and leaves the system two where the
/// machine has four or more.
pub proof fn heap_leaves_room(total: int, asked: Option<u32>)
    requires
        0 <= total,
    ensures
        heap(total, asked) >= 2,
        total >= 4 ==> heap(total, asked) + 2 <= total,
        total < 4 ==> heap(total, asked) == 2,
{
}

/// A profile gets the heap that it asks for wherever that lies between two gigabytes
/// and what leaves the system two.
pub proof fn heap_honours_profile(total: int, asked: u32)
    requires
        2 <= asked <= total - 2,
    ensures
        heap(total, Some(asked)) == asked,
{
}

/// Without a wish of the profile the heap is the default of the machine, and a machine
/// with more memory never gets less.
pub proof fn default_heap_grows(a: int, b: int)
    requires
        0 <= a <= b,
    ensures
        heap(a, None) == default_heap(a),
        heap(a, None) <= heap(b, None) <= 12,
{
}

/// The Java arguments for a heap of `gb` gigabytes.
pub open spec fn java_args(gb: nat) -> Seq<char> {
    "-Xmx"@ + decimal::decimal(gb) + "G -Xms"@ + decimal::decimal(gb)
        + "G -XX:+UnlockExperimentalVMOptions -XX:+UseG1GC -XX:G1NewSizePercent=20 -XX:G1ReservePercent=20 -XX:MaxGCPauseMillis=50 -XX:G1HeapRegionSize=32M"@
}

/// The Java arguments for the game on a machine with `total_memory` bytes.
pub fn java_args_for_minecraft(total_memory: u64, profile_override: Option<u32>) -> (r: String)
    ensures
        r@ == java_args(heap(gigabytes(total_memory) as int, profile_override) as nat),
{
    let xmx = decimal::decimal_of(calculate_java_xmx_gb(total_memory, profile_override) as u64);
    text::cat5(
        "-Xmx",
        xmx.as_str(),
        "G -Xms",
        xmx.as_str(),
        "G -XX:+UnlockExperimentalVMOptions -XX:+UseG1GC -XX:G1NewSizePercent=20 -XX:G1ReservePercent=20 -XX:MaxGCPauseMillis=50 -XX:G1HeapRegionSize=32M",
    )
}

/// The gigabytes of a machine are those of 1024 megabytes that its memory holds in full.
pub proof fn gigabytes_are_full(bytes: u64)
    requires
        bytes < 0x4000_0000_0000_0000,
    ensures
        gigabytes(bytes) * 1024 * 1024 * 1024 <= bytes,
        bytes < (gigabytes(bytes) + 1) * 1024 * 1024 * 1024,
{
    assert(bytes / 0x4000_0000 <= 0xffff_ffff);
    assert(bytes == (bytes / 0x4000_0000) * 0x4000_0000 + bytes % 0x4000_0000);
}

/// What the game gets of a machine without a wish of the profile: two gigabytes of less than
/// four, half of less than eight, six of less than sixteen, eight of less than thirty-two, and
/// twelve of more.
pub proof fn heap_fits_the_machine(total: int)
    requires
        0 <= total,
    ensures
        total < 4 ==> heap(total, None) == 2,
        4 <= total < 8 ==> 2 * heap(total, None) <= total < 2 * (heap(total, None) + 1),
        8 <= total < 16 ==> heap(total, None) == 6,
        16 <= total < 32 ==> heap(total, None) == 8,
        32 <= total ==> heap(total, None) == 12,
{
}

/// A wish that the machine cannot grant is granted as far as it goes: a larger wish never gets
/// less, and nobody gets more than leaves the system two gigabytes.
pub proof fn wishes_are_granted_as_far_as_they_go(total: int, a: u32, b: u32)
    requires
        4 <= total,
        a <= b,
    ensures
        heap(total, Some(a)) <= heap(total, Some(b)) <= total - 2,
        a < 2 ==> heap(total, Some(a)) == 2,
        b > total - 2 ==> heap(total, Some(b)) == total - 2,
{
}

/// The arguments for Java give the heap as its largest and as its first size, in gigabytes.
pub proof fn arguments_give_the_heap(gb: nat)
    ensures
        ({
            let digits = decimal::decimal(gb);
            let front = "-Xmx"@ + digits + "G -Xms"@ + digits + "G "@;
            &&& decimal::number_in(digits) == gb
            &&& text::starts_with(java_args(gb), front)
        }),
{
    decimal::digits_give_back_the_number(gb);
    reveal_strlit("G ");
    reveal_strlit(
        "G -XX:+UnlockExperimentalVMOptions -XX:+UseG1GC -XX:G1NewSizePercent=20 -XX:G1ReservePercent=20 -XX:MaxGCPauseMillis=50 -XX:G1HeapRegionSize=32M",
    );
    let digits = decimal::decimal(gb);
    let start = "-Xmx"@ + digits + "G -Xms"@ + digits;
    let front = start + "G "@;
    assert(java_args(gb).subrange(0, front.len() as int) =~= front);
}

/// The launcher's Java is one that is there: below a root that exists, in a runtime that holds
/// a Java program. No root before it offers any, no better preferred runtime of its root holds
/// one, and a runtime of the listing is taken only where no preferred one does. None is found
/// only where no root that exists has any.
pub proof fn best_runtime_is_found(
    roots: Seq<RuntimeRoot>,
    r: Option<(usize, Variant)>,
    a: int,
    i: int,
)
    requires
        java_found(roots, r),
    ensures
        r is Some ==> {
            let root = roots[r->Some_0.0 as int];
            &&& r->Some_0.0 < roots.len() && root.exists
            &&& r->Some_0.1 matches Variant::Preferred(n) ==> n < root.preferred.len()
                && root.preferred@[n as int]
            &&& r->Some_0.1 matches Variant::Listed(n) ==> root.listed is Some && n
                < root.listed->Some_0.len() && root.listed->Some_0@[n as int]
        },
        0 <= a < roots.len() && roots[a].exists && 0 <= i < roots[a].preferred.len()
            && roots[a].preferred@[i] ==> r is Some && r->Some_0.0 <= a && (r->Some_0.0 == a ==> (
        r->Some_0.1 matches Variant::Preferred(n) && n <= i)),
        0 <= a < roots.len() && roots[a].exists && roots[a].listed is Some && 0 <= i
            < roots[a].listed->Some_0.len() && roots[a].listed->Some_0@[i] ==> r is Some
            && r->Some_0.0 <= a && (r->Some_0.0 == a ==> (r->Some_0.1 is Preferred || (
        r->Some_0.1 matches Variant::Listed(n) && n <= i))),
{
    if 0 <= a < roots.len() {
        assert(r is None ==> roots[a].empty());
        if r is Some && a < r->Some_0.0 {
            assert(roots[a].empty());
        }
    }
}

/// The Java on the search path is the first line that a look-up printed, without the white
/// space around it; a look-up that failed, or that printed nothing on that line, finds none.
pub proof fn first_line_names_java(
    stdout: Seq<char>,
    before: Seq<char>,
    path: Seq<char>,
    after: Seq<char>,
)
    requires
        lines::lines(stdout).len() > 0,
        lines::lines(stdout)[0] == before + path + after,
        forall|i: int| 0 <= i < before.len() ==> text::is_space(#[trigger] before[i]),
        forall|i: int| 0 <= i < after.len() ==> text::is_space(#[trigger] after[i]),
        path.len() > 0,
        !text::is_space(path[0]),
        !text::is_space(path.last()),
    ensures
        java_on_path(true, stdout) == Some(path),
        java_on_path(false, stdout) is None,
        java_on_path(true, Seq::empty()) is None,
{
    text::trimming_takes_what_is_around(before, path, after);
}

} // verus!
