//! Downloads that are made once: files that are there already, the cache of files by
//! their contents, and what is done to bring a file to its place.
use vstd::prelude::*;

use crate::profile::{say, says, Level, Progress};
use crate::text;

verus! {

/// The SHA-1 of some bytes, as `sha1::Sha1` computes it.
pub uninterp spec fn sha1_of(data: Seq<u8>) -> Seq<u8>;

/// `sha1::Sha1::digest`: twenty bytes that depend on the data alone. The algorithm is not
/// spelled out.
#[verifier::external_body]
fn sha1_digest(data: &[u8]) -> (r: Vec<u8>)
    ensures
        r@ == sha1_of(data@),
        r@.len() == 20,
{
    <sha1::Sha1 as sha1::Digest>::digest(data).to_vec()
}

/// One hexadecimal digit, with small letters.
pub open spec fn hex_digit(n: int) -> char {
    if n < 10 {
        (n + 48) as char
    } else {
        (n + 87) as char
    }
}

/// Bytes in hexadecimal: two digits for each byte, the upper half first.
pub open spec fn hex_of(data: Seq<u8>) -> Seq<char> {
    Seq::new(
        2 * data.len(),
        |i: int|
            if i % 2 == 0 {
                hex_digit(data[i / 2] as int / 16)
            } else {
                hex_digit(data[i / 2] as int % 16)
            },
    )
}

/// `hex::encode`: two digits for each byte, the upper half first, with small letters.
#[verifier::external_body]
fn hex_encode(data: &Vec<u8>) -> (r: String)
    ensures
        r@ == hex_of(data@),
{
    hex::encode(data)
}

/// Whether a text is made of hexadecimal digits with small letters.
pub open spec fn is_hex(s: Seq<char>) -> bool {
    forall|i: int|
        0 <= i < s.len() ==> ('0' <= #[trigger] s[i] && s[i] <= '9') || ('a' <= s[i] && s[i]
            <= 'f')
}

/// Bytes in hexadecimal are hexadecimal digits.
proof fn lemma_hex(data: Seq<u8>)
    ensures
        is_hex(hex_of(data)),
        hex_of(data).len() == 2 * data.len(),
{
    let h = hex_of(data);
    assert forall|i: int| 0 <= i < h.len() implies ('0' <= #[trigger] h[i] && h[i] <= '9') || ('a'
        <= h[i] && h[i] <= 'f') by {
        let b = data[i / 2] as int;
        assert(0 <= b / 16 < 16 && 0 <= b % 16 < 16);
    }
}

/// The SHA-1 of the contents of a file, in hexadecimal: forty digits.
pub fn hash_sha1_of(bytes: &[u8]) -> (r: String)
    ensures
        r@ == hex_of(sha1_of(bytes@)),
        r@.len() == 40,
        is_hex(r@),
{
    let digest = sha1_digest(bytes);
    proof {
        lemma_hex(digest@);
    }
    hex_encode(&digest)
}

/// The name under which a file is kept in the cache: its SHA-1 where that is known, and
/// otherwise one made of its address.
pub open spec fn cache_key(expected_sha1: Option<Seq<char>>, url: Seq<char>) -> Seq<char> {
    match expected_sha1 {
        Some(s) => text::ascii_lower(s),
        None => hex_of(
            sha1_of(vstd::utf8::encode_utf8("url:"@) + vstd::utf8::encode_utf8(url)),
        ),
    }
}

/// The name under which a file is kept in the cache: the known SHA-1 in small letters,
/// whatever the address, or else forty hexadecimal digits that depend on the address alone.
pub fn cache_key_for(expected_sha1: Option<&str>, url: &str) -> (r: String)
    ensures
        r@ == cache_key(text::opt_str_view(expected_sha1), url@),
        expected_sha1 is None ==> r@.len() == 40 && is_hex(r@),
{
    match expected_sha1 {
        Some(s) => text::to_ascii_lower(s),
        None => {
            let mut data: Vec<u8> = vstd::slice::slice_to_vec("url:".as_bytes());
            let mut rest: Vec<u8> = vstd::slice::slice_to_vec(url.as_bytes());
            data.append(&mut rest);
            hash_sha1_of(data.as_slice())
        },
    }
}

/// The name of the cache's file for a key.
pub open spec fn cache_file(key: Seq<char>) -> Seq<char> {
    key + ".bin"@
}

/// The name of the cache's file for a key.
pub fn cache_file_name(key: &str) -> (r: String)
    ensures
        r@ == cache_file(key@),
{
    text::cat2(key, ".bin")
}

/// A file is found in the cache under the SHA-1 that its contents have, however the
/// capitals of that SHA-1 are written where it is asked for.
pub proof fn key_ignores_case(a: Seq<char>, b: Seq<char>, url_a: Seq<char>, url_b: Seq<char>)
    requires
        text::same_ignoring_case(a, b),
    ensures
        cache_key(Some(a), url_a) == cache_key(Some(b), url_b),
{
}

/// The SHA-1 of contents, in hexadecimal, is its own key: a file that was kept under the
/// hash of its contents is found by whoever asks for that hash.
pub proof fn hash_is_its_key(data: Seq<u8>, url: Seq<char>)
    ensures
        cache_key(Some(hex_of(sha1_of(data))), url) == hex_of(sha1_of(data)),
{
    let h = hex_of(sha1_of(data));
    let d = sha1_of(data);
    assert forall|i: int| 0 <= i < h.len() implies text::ascii_lower_char(#[trigger] h[i])
        == h[i] by {
        let b = d[i / 2] as int;
        assert(0 <= b / 16 < 16 && 0 <= b % 16 < 16);
    }
    assert(text::ascii_lower(h) =~= h);
}

/// The number of bytes that a character takes in UTF-8.
pub open spec fn utf8_width(c: char) -> int {
    if c <= '\u{7f}' {
        1
    } else if c <= '\u{7ff}' {
        2
    } else if c <= '\u{ffff}' {
        3
    } else {
        4
    }
}

/// The number of bytes that a text takes in UTF-8.
pub open spec fn utf8_length(s: Seq<char>) -> int
    decreases s.len(),
{
    if s.len() == 0 {
        0
    } else {
        utf8_width(s[0]) + utf8_length(s.skip(1))
    }
}

/// The characters in front that fit in `room` bytes.
pub open spec fn front(s: Seq<char>, room: int) -> Seq<char>
    decreases s.len(),
{
    if s.len() == 0 || utf8_width(s[0]) > room {
        Seq::empty()
    } else {
        seq![s[0]] + front(s.skip(1), room - utf8_width(s[0]))
    }
}

/// The first eight bytes of a hash, for messages.
pub open spec fn head(s: Seq<char>) -> Seq<char> {
    front(s, 8)
}

/// Whether the first eight bytes of a text are whole characters.
pub open spec fn has_head(s: Seq<char>) -> bool {
    head(s) == s || utf8_length(head(s)) == 8
}

/// The number of bytes that a character takes in UTF-8.
fn width(c: char) -> (r: usize)
    ensures
        r == utf8_width(c),
{
    if c <= '\u{7f}' {
        1
    } else if c <= '\u{7ff}' {
        2
    } else if c <= '\u{ffff}' {
        3
    } else {
        4
    }
}

/// The length of a text that is put together.
proof fn lemma_utf8_length_push(s: Seq<char>, c: char)
    ensures
        utf8_length(s.push(c)) == utf8_length(s) + utf8_width(c),
    decreases s.len(),
{
    if s.len() == 0 {
        assert(s.push(c).skip(1) =~= Seq::empty());
        reveal_with_fuel(utf8_length, 2);
    } else {
        assert(s.push(c).skip(1) =~= s.skip(1).push(c));
        lemma_utf8_length_push(s.skip(1), c);
    }
}

/// The first eight bytes of a hash, and whether they are whole characters.
fn cut_head(s: &str) -> (r: (String, bool))
    ensures
        r.0@ == head(s@),
        r.1 == has_head(s@),
{
    let cs = text::chars_of(s);
    let mut r = String::new();
    let mut room: usize = 8;
    let mut i: usize = 0;
    assert(cs@.skip(0) =~= s@);
    assert(r@ + front(s@, 8) =~= front(s@, 8));
    while i < cs.len() && width(cs[i]) <= room
        invariant
            cs@ == s@,
            i <= cs.len(),
            room <= 8,
            r@ == s@.take(i as int),
            utf8_length(r@) == 8 - room,
            r@ + front(cs@.skip(i as int), room as int) == front(s@, 8),
        decreases cs.len() - i,
    {
        let ghost rest = cs@.skip(i as int);
        let ghost before = r@;
        r.push(cs[i]);
        proof {
            assert(rest[0] == cs@[i as int]);
            assert(rest.skip(1) =~= cs@.skip(i + 1));
            lemma_utf8_length_push(before, cs@[i as int]);
            assert(r@ =~= s@.take(i + 1));
            assert(before + (seq![rest[0]] + front(rest.skip(1), room - utf8_width(rest[0])))
                =~= r@ + front(rest.skip(1), room - utf8_width(rest[0])));
        }
        room = room - width(cs[i]);
        i = i + 1;
    }
    proof {
        let rest = cs@.skip(i as int);
        if i < cs.len() {
            assert(rest[0] == cs@[i as int]);
        }
        assert(front(rest, room as int) =~= Seq::empty());
        assert(r@ + front(rest, room as int) =~= r@);
        assert(head(s@) == r@);
        if i == cs.len() {
            assert(s@.take(i as int) =~= s@);
        } else {
            assert(r@.len() < s@.len());
        }
    }
    (r, i == cs.len() || room == 0)
}

/// Whether the first eight bytes of a hash are whole characters.
pub fn can_be_cut(s: &str) -> (r: bool)
    ensures
        r == has_head(s@),
{
    cut_head(s).1
}

/// What is being done to bring a file to its place, and what is done at the end.
#[derive(Debug)]
pub enum FetchPhase {
    /// Look whether a file is in the place already.
    LookAtPlace,
    /// Compute the SHA-1 of the file in the place.
    HashPresent,
    /// Look whether the cache has the file; a cache that cannot be had has none.
    LookInCache,
    /// Copy the file from the cache to the place.
    CopyFromCache,
    /// Compute the SHA-1 of the file that came from the cache.
    HashCopied,
    /// Download the file to the place.
    Download,
    /// Compute the SHA-1 of the file that was downloaded.
    HashDownloaded,
    /// The file is in the place. `fresh` says whether it was brought there now, `keep`
    /// whether it is to be copied to the cache.
    Present { fresh: bool, keep: bool },
    /// The file could not be had.
    Failed(String),
}

/// What came of what was being done.
#[derive(Debug)]
pub enum FetchEvent {
    /// Whether something is there.
    Found(bool),
    /// The SHA-1 of a file in hexadecimal, or why it could not be computed.
    Hashed(Result<String, String>),
    /// Whether a file was brought to the place, or why it was not.
    Brought(Result<(), String>),
}

/// What to do next: remove files, tell the user, and go on with `next`.
#[derive(Debug)]
pub struct FetchStep {
    pub next: FetchPhase,
    pub drop_place: bool,
    pub drop_cached: bool,
    pub message: Option<Progress>,
}

impl FetchPhase {
    /// Whether the event is one that this phase leads to.
    pub open spec fn expects(self, event: FetchEvent) -> bool {
        match self {
            FetchPhase::LookAtPlace | FetchPhase::LookInCache => event is Found,
            FetchPhase::HashPresent | FetchPhase::HashCopied | FetchPhase::HashDownloaded => event
                is Hashed,
            FetchPhase::CopyFromCache | FetchPhase::Download => event is Brought,
            FetchPhase::Present { .. } | FetchPhase::Failed(_) => false,
        }
    }

    /// How far the work is.
    pub open spec fn progress(self) -> int {
        match self {
            FetchPhase::LookAtPlace => 0,
            FetchPhase::HashPresent => 1,
            FetchPhase::LookInCache => 2,
            FetchPhase::CopyFromCache => 3,
            FetchPhase::HashCopied => 4,
            FetchPhase::Download => 5,
            FetchPhase::HashDownloaded => 6,
            FetchPhase::Present { .. } | FetchPhase::Failed(_) => 7,
        }
    }

    /// Whether the phase leads to a SHA-1; one is asked for only where one is expected.
    pub open spec fn hashes(self) -> bool {
        self is HashPresent || self is HashCopied || self is HashDownloaded
    }
}

/// Whether a hash that was computed is the expected one.
pub open spec fn matches_hash(event: FetchEvent, expected: Seq<char>) -> bool {
    event is Hashed && event->Hashed_0 is Ok && text::same_ignoring_case(
        event->Hashed_0->Ok_0@,
        expected,
    )
}

impl FetchStep {
    /// Whether the step goes on with `next` and removes nothing.
    pub open spec fn goes_on(self, next: FetchPhase) -> bool {
        self.next == next && !self.drop_place && !self.drop_cached
    }
}

/// The step from `phase` on `event`, for the file `filename` with the SHA-1 `expected`.
pub open spec fn fetch_leads_to(
    filename: Seq<char>,
    expected: Option<Seq<char>>,
    phase: FetchPhase,
    event: FetchEvent,
    step: FetchStep,
) -> bool {
    match phase {
        FetchPhase::LookAtPlace => if !event->Found_0 {
            step.goes_on(FetchPhase::LookInCache) && step.message is None
        } else if expected is Some {
            step.goes_on(FetchPhase::HashPresent) && step.message is None
        } else {
            step.goes_on((FetchPhase::Present { fresh: false, keep: false })) && says(
                step.message,
                "Already present, skipping: "@ + filename,
                Level::Info,
            )
        },
        FetchPhase::HashPresent => if matches_hash(event, expected->Some_0) {
            step.goes_on((FetchPhase::Present { fresh: false, keep: false })) && says(
                step.message,
                "Already present (sha1 matches): "@ + filename,
                Level::Info,
            )
        } else {
            &&& step.next == FetchPhase::LookInCache
            &&& step.drop_place
            &&& !step.drop_cached
            &&& match event->Hashed_0 {
                Ok(actual) => says(
                    step.message,
                    filename + " on disk has different content (got "@ + head(actual@)
                        + ", expected "@ + head(expected->Some_0) + "); re-downloading"@,
                    Level::Warn,
                ),
                Err(e) => says(
                    step.message,
                    "Couldn't hash existing "@ + filename + ": "@ + e@ + "; re-downloading"@,
                    Level::Warn,
                ),
            }
        },
        FetchPhase::LookInCache => if event->Found_0 {
            step.goes_on(FetchPhase::CopyFromCache) && step.message is None
        } else {
            step.goes_on(FetchPhase::Download) && says(
                step.message,
                "Downloading "@ + filename,
                Level::Info,
            )
        },
        FetchPhase::CopyFromCache => match event->Brought_0 {
            Err(e) => step.goes_on(FetchPhase::Failed(e)) && step.message is None,
            Ok(_) => if expected is Some {
                step.goes_on(FetchPhase::HashCopied) && step.message is None
            } else {
                step.goes_on((FetchPhase::Present { fresh: true, keep: false })) && says(
                    step.message,
                    "From cache: "@ + filename,
                    Level::Info,
                )
            },
        },
        FetchPhase::HashCopied => if matches_hash(event, expected->Some_0) {
            step.goes_on((FetchPhase::Present { fresh: true, keep: false })) && says(
                step.message,
                "From cache: "@ + filename,
                Level::Info,
            )
        } else {
            &&& step.next == FetchPhase::Download
            &&& step.drop_place
            &&& step.drop_cached
            &&& says(step.message, "Downloading "@ + filename, Level::Info)
        },
        FetchPhase::Download => match event->Brought_0 {
            Err(e) => step.goes_on(FetchPhase::Failed(e)) && step.message is None,
            Ok(_) => step.message is None && if expected is Some {
                step.goes_on(FetchPhase::HashDownloaded)
            } else {
                step.goes_on((FetchPhase::Present { fresh: true, keep: true }))
            },
        },
        FetchPhase::HashDownloaded => step.message is None && match event->Hashed_0 {
            Err(e) => step.goes_on(FetchPhase::Failed(e)),
            Ok(actual) => if text::same_ignoring_case(actual@, expected->Some_0) {
                step.goes_on((FetchPhase::Present { fresh: true, keep: true }))
            } else {
                &&& step.next is Failed
                &&& step.next->Failed_0@ == "sha1 mismatch on "@ + filename + " (got "@ + head(
                    actual@,
                ) + ", expected "@ + head(expected->Some_0) + ")"@
                &&& step.drop_place
                &&& !step.drop_cached
            },
        },
        FetchPhase::Present { .. } | FetchPhase::Failed(_) => false,
    }
}

/// Going on without removing anything.
fn go_on(next: FetchPhase, message: Option<Progress>) -> (step: FetchStep)
    ensures
        step.goes_on(next),
        step.message == message,
{
    FetchStep { next, drop_place: false, drop_cached: false, message }
}

/// Whether a hash that was computed is the expected one.
fn hash_matches(event: &FetchEvent, expected: &str) -> (r: bool)
    ensures
        r == matches_hash(*event, expected@),
{
    match event {
        FetchEvent::Hashed(Ok(actual)) => text::eq_ignoring_case(actual.as_str(), expected),
        _ => false,
    }
}

/// What to do next to bring a file to its place. A file that is there is kept where its
/// SHA-1 is the expected one or none is expected; otherwise the file comes from the
/// cache, and from the service where the cache does not have it.
pub fn download_to_if_missing(
    filename: &str,
    expected_sha1: Option<&str>,
    phase: FetchPhase,
    event: FetchEvent,
) -> (step: FetchStep)
    requires
        phase.expects(event),
        phase.hashes() ==> expected_sha1 is Some,
        (phase is HashPresent || phase is HashDownloaded) && event->Hashed_0 is Ok
            && !matches_hash(event, expected_sha1->Some_0@) ==> has_head(event->Hashed_0->Ok_0@)
            && has_head(expected_sha1->Some_0@),
    ensures
        fetch_leads_to(filename@, text::opt_str_view(expected_sha1), phase, event, step),
{
    match phase {
        FetchPhase::LookAtPlace => match (event, expected_sha1) {
            (FetchEvent::Found(true), Some(_)) => go_on(FetchPhase::HashPresent, None),
            (FetchEvent::Found(true), None) => go_on(
                FetchPhase::Present { fresh: false, keep: false },
                say(text::cat2("Already present, skipping: ", filename), Level::Info),
            ),
            _ => go_on(FetchPhase::LookInCache, None),
        },
        FetchPhase::HashPresent => {
            let expected = match expected_sha1 {
                Some(s) => s,
                None => "",
            };
            if hash_matches(&event, expected) {
                return go_on(
                    FetchPhase::Present { fresh: false, keep: false },
                    say(text::cat2("Already present (sha1 matches): ", filename), Level::Info),
                );
            }
            let message = match event {
                FetchEvent::Hashed(Ok(actual)) => text::cat6(
                    filename,
                    " on disk has different content (got ",
                    cut_head(actual.as_str()).0.as_str(),
                    ", expected ",
                    cut_head(expected).0.as_str(),
                    "); re-downloading",
                ),
                FetchEvent::Hashed(Err(e)) => text::cat5(
                    "Couldn't hash existing ",
                    filename,
                    ": ",
                    e.as_str(),
                    "; re-downloading",
                ),
                _ => String::new(),
            };
            FetchStep {
                next: FetchPhase::LookInCache,
                drop_place: true,
                drop_cached: false,
                message: say(message, Level::Warn),
            }
        },
        FetchPhase::LookInCache => match event {
            FetchEvent::Found(true) => go_on(FetchPhase::CopyFromCache, None),
            _ => go_on(
                FetchPhase::Download,
                say(text::cat2("Downloading ", filename), Level::Info),
            ),
        },
        FetchPhase::CopyFromCache => match (event, expected_sha1) {
            (FetchEvent::Brought(Err(e)), _) => go_on(FetchPhase::Failed(e), None),
            (_, Some(_)) => go_on(FetchPhase::HashCopied, None),
            (_, None) => go_on(
                FetchPhase::Present { fresh: true, keep: false },
                say(text::cat2("From cache: ", filename), Level::Info),
            ),
        },
        FetchPhase::HashCopied => {
            let expected = match expected_sha1 {
                Some(s) => s,
                None => "",
            };
            if hash_matches(&event, expected) {
                go_on(
                    FetchPhase::Present { fresh: true, keep: false },
                    say(text::cat2("From cache: ", filename), Level::Info),
                )
            } else {
                FetchStep {
                    next: FetchPhase::Download,
                    drop_place: true,
                    drop_cached: true,
                    message: say(text::cat2("Downloading ", filename), Level::Info),
                }
            }
        },
        FetchPhase::Download => match (event, expected_sha1) {
            (FetchEvent::Brought(Err(e)), _) => go_on(FetchPhase::Failed(e), None),
            (_, Some(_)) => go_on(FetchPhase::HashDownloaded, None),
            (_, None) => go_on(FetchPhase::Present { fresh: true, keep: true }, None),
        },
        FetchPhase::HashDownloaded => {
            let expected = match expected_sha1 {
                Some(s) => s,
                None => "",
            };
            if hash_matches(&event, expected) {
                return go_on(FetchPhase::Present { fresh: true, keep: true }, None);
            }
            match event {
                FetchEvent::Hashed(Err(e)) => go_on(FetchPhase::Failed(e), None),
                FetchEvent::Hashed(Ok(actual)) => FetchStep {
                    next: FetchPhase::Failed(
                        text::cat7(
                            "sha1 mismatch on ",
                            filename,
                            " (got ",
                            cut_head(actual.as_str()).0.as_str(),
                            ", expected ",
                            cut_head(expected).0.as_str(),
                            ")",
                        ),
                    ),
                    drop_place: true,
                    drop_cached: false,
                    message: None,
                },
                _ => go_on(FetchPhase::Download, None),
            }
        },
        other => go_on(other, None),
    }
}

/// A file with an expected SHA-1 is reported as present only by a step that has just seen
/// that SHA-1 of what lies in the place, and such a step removes nothing.
pub proof fn present_means_verified(
    filename: Seq<char>,
    expected: Seq<char>,
    phase: FetchPhase,
    event: FetchEvent,
    step: FetchStep,
)
    requires
        phase.expects(event),
        fetch_leads_to(filename, Some(expected), phase, event, step),
        step.next is Present,
    ensures
        matches_hash(event, expected),
        !step.drop_place,
{
}

/// A file that turns out to have another SHA-1 than the expected one does not stay in the
/// place.
pub proof fn wrong_file_is_removed(
    filename: Seq<char>,
    expected: Seq<char>,
    phase: FetchPhase,
    event: FetchEvent,
    step: FetchStep,
)
    requires
        phase.expects(event),
        fetch_leads_to(filename, Some(expected), phase, event, step),
        event is Hashed && event->Hashed_0 is Ok,
        !matches_hash(event, expected),
    ensures
        step.drop_place,
        !(step.next is Present),
{
}

/// Every step goes forward, so that a file is downloaded at most once and the work ends
/// after seven steps at most.
pub proof fn fetching_goes_forward(
    filename: Seq<char>,
    expected: Option<Seq<char>>,
    phase: FetchPhase,
    event: FetchEvent,
    step: FetchStep,
)
    requires
        phase.expects(event),
        phase.hashes() ==> expected is Some,
        fetch_leads_to(filename, expected, phase, event, step),
    ensures
        phase.progress() < step.next.progress() <= 7,
        step.next.hashes() ==> expected is Some,
{
}

/// Only a file that was downloaded is put into the cache, and only after its SHA-1 was
/// found to be the expected one, where one is expected.
pub proof fn cache_is_fed_by_downloads(
    filename: Seq<char>,
    expected: Option<Seq<char>>,
    phase: FetchPhase,
    event: FetchEvent,
    step: FetchStep,
)
    requires
        phase.expects(event),
        phase.hashes() ==> expected is Some,
        fetch_leads_to(filename, expected, phase, event, step),
        step.next is Present && step.next->keep,
    ensures
        step.next->fresh,
        expected is Some ==> phase is HashDownloaded && matches_hash(event, expected->Some_0),
        expected is None ==> phase is Download,
{
}

/// Whether a file with this extension belongs in the cache.
pub open spec fn cacheable(extension: Option<Seq<char>>) -> bool {
    match extension {
        Some(e) => text::ascii_lower(e) == "jar"@ || text::ascii_lower(e) == "zip"@,
        None => false,
    }
}

/// Whether a file with this extension belongs in the cache.
pub fn is_cacheable(extension: Option<&str>) -> (r: bool)
    ensures
        r == cacheable(text::opt_str_view(extension)),
{
    match extension {
        Some(e) => {
            let l = text::to_ascii_lower(e);
            text::same(l.as_str(), "jar") || text::same(l.as_str(), "zip")
        },
        None => false,
    }
}

/// Whether a directory of this name beside the mods holds a backup of mods.
pub open spec fn backup_name(name: Seq<char>) -> bool {
    text::starts_with(name, "mods.backup-"@) || text::starts_with(name, "mods.backup."@)
}

/// The folders of the game directory in which files for the cache are looked for: those
/// of mods, shaders and resource packs, then the backups among `names`.
pub open spec fn cache_sources(names: Seq<Seq<char>>) -> Seq<Seq<char>> {
    seq!["mods"@, "shaderpacks"@, "resourcepacks"@] + names.filter(|n: Seq<char>| backup_name(n))
}

/// The folders in which files for the cache are looked for. `names` are those of what
/// lies in the game directory.
pub fn cache_source_folders(names: &Vec<String>) -> (r: Vec<String>)
    ensures
        text::views(r@) == cache_sources(text::views(names@)),
{
    let ghost all = text::views(names@);
    let ghost first = seq!["mods"@, "shaderpacks"@, "resourcepacks"@];
    let mut r: Vec<String> = Vec::new();
    r.push("mods".to_owned());
    r.push("shaderpacks".to_owned());
    r.push("resourcepacks".to_owned());
    let mut i: usize = 0;
    proof {
        assert(all.take(0).filter(|n: Seq<char>| backup_name(n)) =~= Seq::empty()) by {
            reveal(Seq::filter);
        }
        assert(text::views(r@) =~= first);
    }
    while i < names.len()
        invariant
            i <= names.len(),
            all == text::views(names@),
            first == seq!["mods"@, "shaderpacks"@, "resourcepacks"@],
            text::views(r@) == first + all.take(i as int).filter(|n: Seq<char>| backup_name(n)),
        decreases names.len() - i,
    {
        let ghost before = text::views(r@);
        proof {
            reveal(Seq::filter);
            assert(all.take(i + 1).drop_last() =~= all.take(i as int));
            assert(all.take(i + 1).last() == names@[i as int]@);
        }
        if text::has_prefix(names[i].as_str(), "mods.backup-") || text::has_prefix(
            names[i].as_str(),
            "mods.backup.",
        ) {
            r.push(names[i].clone());
            assert(text::views(r@) =~= before.push(names@[i as int]@));
            assert(text::views(r@) =~= first + all.take(i + 1).filter(
                |n: Seq<char>| backup_name(n),
            ));
        }
        i = i + 1;
    }
    assert(all.take(i as int) =~= all);
    r
}

/// What to say after files were taken into the cache; nothing where none was.
pub fn cache_primed(imported: u32) -> (r: Option<Progress>)
    ensures
        if imported > 0 {
            says(
                r,
                "Primed cache with "@ + crate::decimal::decimal(imported as nat)
                    + " existing file(s) from .minecraft"@,
                Level::Info,
            )
        } else {
            r is None
        },
{
    if imported > 0 {
        let n = crate::decimal::decimal_of(imported as u64);
        say(
            text::cat3("Primed cache with ", n.as_str(), " existing file(s) from .minecraft"),
            Level::Info,
        )
    } else {
        None
    }
}

/// A file is downloaded only where nothing fits that is there: the cache was found to have
/// none, or the one that came from it turned out to be another. Nothing is removed but a file
/// whose hash is not the expected one, and nothing from the cache but such a file.
pub proof fn downloads_are_a_last_resort(
    filename: Seq<char>,
    expected: Option<Seq<char>>,
    phase: FetchPhase,
    event: FetchEvent,
    step: FetchStep,
)
    requires
        phase.expects(event),
        phase.hashes() ==> expected is Some,
        fetch_leads_to(filename, expected, phase, event, step),
    ensures
        step.next is Download ==> phase is LookInCache && !event->Found_0 || phase is HashCopied
            && !matches_hash(event, expected->Some_0),
        step.drop_place ==> phase.hashes() && !matches_hash(event, expected->Some_0),
        step.drop_cached ==> phase is HashCopied && step.drop_place,
        phase is LookAtPlace && event->Found_0 && expected is None ==> step.next is Present,
        phase is LookInCache && event->Found_0 ==> step.next is CopyFromCache,
        phase.hashes() && matches_hash(event, expected->Some_0) ==> step.next is Present,
        step.next is Failed ==> phase is HashDownloaded || event is Brought && event->Brought_0
            is Err,
{
}

/// A file is reported as brought now exactly where it came from the cache or was downloaded,
/// and one that was downloaded is the one that goes into the cache.
pub proof fn only_what_was_brought_is_fresh(
    filename: Seq<char>,
    expected: Option<Seq<char>>,
    phase: FetchPhase,
    event: FetchEvent,
    step: FetchStep,
)
    requires
        phase.expects(event),
        phase.hashes() ==> expected is Some,
        fetch_leads_to(filename, expected, phase, event, step),
        step.next is Present,
    ensures
        step.next->fresh <==> !(phase is LookAtPlace) && !(phase is HashPresent),
        step.next->keep <==> phase is Download || phase is HashDownloaded,
{
}

/// Files with the extension `jar` or `zip`, in whatever case, belong in the cache, and no
/// others do.
pub proof fn jars_and_zips_belong_in_the_cache(extension: Seq<char>)
    ensures
        cacheable(Some(extension)) <==> text::same_ignoring_case(extension, "jar"@)
            || text::same_ignoring_case(extension, "zip"@),
        !cacheable(None),
{
    reveal_strlit("jar");
    reveal_strlit("zip");
    assert(text::ascii_lower("jar"@) =~= "jar"@);
    assert(text::ascii_lower("zip"@) =~= "zip"@);
}

/// Files for the cache are looked for among the mods, the shaders and the resource packs, and
/// in every backup of mods: in nothing else, and in each of them.
pub proof fn backups_are_looked_through(names: Seq<Seq<char>>, name: Seq<char>)
    ensures
        cache_sources(names).contains("mods"@),
        cache_sources(names).contains("shaderpacks"@),
        cache_sources(names).contains("resourcepacks"@),
        names.contains(name) && (text::starts_with(name, "mods.backup-"@) || text::starts_with(
            name,
            "mods.backup."@,
        )) ==> cache_sources(names).contains(name),
        cache_sources(names).contains(name) ==> name == "mods"@ || name == "shaderpacks"@ || name
            == "resourcepacks"@ || names.contains(name) && (text::starts_with(
            name,
            "mods.backup-"@,
        ) || text::starts_with(name, "mods.backup."@)),
{
    let first = seq!["mods"@, "shaderpacks"@, "resourcepacks"@];
    let wanted = |n: Seq<char>| backup_name(n);
    let found = names.filter(wanted);
    let all = cache_sources(names);
    assert(all[0] == "mods"@ && all[1] == "shaderpacks"@ && all[2] == "resourcepacks"@);
    if names.contains(name) && backup_name(name) {
        let at = choose|at: int| 0 <= at < names.len() && names[at] == name;
        names.lemma_filter_contains(wanted, at);
        let k = choose|k: int| 0 <= k < found.len() && found[k] == name;
        assert(all[3 + k] == name);
    }
    if all.contains(name) {
        let k = choose|k: int| 0 <= k < all.len() && all[k] == name;
        if k >= 3 {
            assert(found[k - 3] == name);
            names.lemma_filter_pred(wanted, k - 3);
            assert(found.contains(name));
            names.lemma_filter_contains_rev(wanted, name);
        }
    }
}

/// Each key has a file of its own in the cache.
pub proof fn keys_have_their_own_files(a: Seq<char>, b: Seq<char>)
    ensures
        cache_file(a) == cache_file(b) <==> a == b,
        text::ends_with(cache_file(a), ".bin"@),
        text::starts_with(cache_file(a), a),
{
    let end = ".bin"@;
    assert((a + end).subrange(a.len() as int, (a + end).len() as int) =~= end);
    assert((a + end).subrange(0, a.len() as int) =~= a);
    if a + end == b + end {
        assert((a + end).len() == a.len() + end.len());
        assert((b + end).len() == b.len() + end.len());
        assert(b =~= (b + end).subrange(0, b.len() as int));
    }
}

/// Whether a file is the expected one is told by its SHA-1 alone, in whatever case that is
/// written. Where a SHA-1 is expected, a file that is there, came from the cache or was
/// downloaded is hashed before it counts as present.
pub proof fn contents_are_told_by_their_hash(
    filename: Seq<char>,
    expected: Seq<char>,
    hash: String,
    reason: String,
    phase: FetchPhase,
    event: FetchEvent,
    step: FetchStep,
)
    requires
        phase.expects(event),
        fetch_leads_to(filename, Some(expected), phase, event, step),
    ensures
        matches_hash(FetchEvent::Hashed(Ok(hash)), expected) <==> text::ascii_lower(hash@)
            == text::ascii_lower(expected),
        !matches_hash(FetchEvent::Hashed(Err(reason)), expected),
        phase is LookAtPlace && event->Found_0 ==> step.next is HashPresent,
        phase is CopyFromCache && event->Brought_0 is Ok ==> step.next is HashCopied,
        phase is Download && event->Brought_0 is Ok ==> step.next is HashDownloaded,
        step.next is Present ==> phase.hashes(),
{
}

/// Of a hash of eight characters or more that take one byte each, the first eight are shown.
pub proof fn eight_characters_are_shown(s: Seq<char>)
    requires
        s.len() >= 8,
        forall|i: int| 0 <= i < s.len() ==> #[trigger] s[i] <= '\u{7f}',
    ensures
        head(s) == s.take(8),
        has_head(s),
{
    lemma_front_of_narrow(s, 8);
    lemma_narrow_length(s.take(8));
}

/// As many narrow characters fit as there is room for.
proof fn lemma_front_of_narrow(s: Seq<char>, n: nat)
    requires
        s.len() >= n,
        forall|i: int| 0 <= i < s.len() ==> #[trigger] s[i] <= '\u{7f}',
    ensures
        front(s, n as int) == s.take(n as int),
    decreases n,
{
    if n > 0 {
        let rest = s.skip(1);
        assert(utf8_width(s[0]) == 1);
        assert forall|i: int| 0 <= i < rest.len() implies #[trigger] rest[i] <= '\u{7f}' by {
            assert(rest[i] == s[i + 1]);
        }
        lemma_front_of_narrow(rest, (n - 1) as nat);
        assert(seq![s[0]] + rest.take(n - 1) =~= s.take(n as int));
    } else {
        assert(front(s, 0) =~= s.take(0));
    }
}

/// A text of narrow characters takes one byte for each.
proof fn lemma_narrow_length(s: Seq<char>)
    requires
        forall|i: int| 0 <= i < s.len() ==> #[trigger] s[i] <= '\u{7f}',
    ensures
        utf8_length(s) == s.len(),
    decreases s.len(),
{
    if s.len() > 0 {
        let rest = s.skip(1);
        assert(utf8_width(s[0]) == 1);
        assert forall|i: int| 0 <= i < rest.len() implies #[trigger] rest[i] <= '\u{7f}' by {
            assert(rest[i] == s[i + 1]);
        }
        lemma_narrow_length(rest);
    }
}

} // verus!
