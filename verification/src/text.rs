//! Strings as sequences of characters: searching, comparing, trimming and
//! putting together.
use vstd::prelude::*;

verus! {

/// What `str::to_lowercase` makes of a string: the Unicode lower case of it.
pub uninterp spec fn unicode_lowercase(s: Seq<char>) -> Seq<char>;

/// `String::push`: the character ends up behind what the string held.
pub assume_specification[ String::push ](s: &mut String, c: char)
    ensures
        final(s)@ == old(s)@.push(c),
;

/// `str::to_lowercase`: the result depends on the characters alone. The Unicode
/// tables that it follows are not spelled out.
#[verifier::external_body]
pub(crate) fn to_lowercase(s: &str) -> (r: String)
    ensures
        r@ == unicode_lowercase(s@),
{
    s.to_lowercase()
}

/// What the strings of a list hold, in order.
pub open spec fn views(v: Seq<String>) -> Seq<Seq<char>> {
    Seq::new(v.len(), |i: int| v[i]@)
}

/// What an optional string holds.
pub open spec fn opt_view(o: Option<String>) -> Option<Seq<char>> {
    match o {
        Some(s) => Some(s@),
        None => None,
    }
}

/// What an optional borrowed string holds.
pub open spec fn opt_str_view(o: Option<&str>) -> Option<Seq<char>> {
    match o {
        Some(s) => Some(s@),
        None => None,
    }
}

/// Whether `p` stands in `s` at position `i`.
pub open spec fn occurs_at(s: Seq<char>, p: Seq<char>, i: int) -> bool {
    0 <= i && i + p.len() <= s.len() && s.subrange(i, i + p.len()) == p
}

/// Whether `s` begins with `p`.
pub open spec fn starts_with(s: Seq<char>, p: Seq<char>) -> bool {
    occurs_at(s, p, 0)
}

/// Whether `s` ends with `p`.
pub open spec fn ends_with(s: Seq<char>, p: Seq<char>) -> bool {
    occurs_at(s, p, s.len() - p.len())
}

/// Whether `p` stands anywhere in `s`.
pub open spec fn contains(s: Seq<char>, p: Seq<char>) -> bool {
    exists|i: int| occurs_at(s, p, i)
}

/// The ASCII lower case of one character; any other character is itself.
pub open spec fn ascii_lower_char(c: char) -> char {
    if 'A' <= c && c <= 'Z' {
        ((c as u32) + 32) as char
    } else {
        c
    }
}

/// `s` with its ASCII capitals made small.
pub open spec fn ascii_lower(s: Seq<char>) -> Seq<char> {
    Seq::new(s.len(), |i: int| ascii_lower_char(s[i]))
}

/// Whether two strings differ in ASCII case at most.
pub open spec fn same_ignoring_case(a: Seq<char>, b: Seq<char>) -> bool {
    ascii_lower(a) == ascii_lower(b)
}

/// Whether a character is white space: the Unicode property `White_Space`.
pub open spec fn is_space(c: char) -> bool {
    ||| '\u{9}' <= c && c <= '\u{d}'
    ||| c == '\u{20}'
    ||| c == '\u{85}'
    ||| c == '\u{a0}'
    ||| c == '\u{1680}'
    ||| '\u{2000}' <= c && c <= '\u{200a}'
    ||| c == '\u{2028}'
    ||| c == '\u{2029}'
    ||| c == '\u{202f}'
    ||| c == '\u{205f}'
    ||| c == '\u{3000}'
}

/// `s` without the white space in front.
pub open spec fn trim_start(s: Seq<char>) -> Seq<char>
    decreases s.len(),
{
    if s.len() > 0 && is_space(s[0]) {
        trim_start(s.skip(1))
    } else {
        s
    }
}

/// `s` without the white space at its end.
pub open spec fn trim_end(s: Seq<char>) -> Seq<char>
    decreases s.len(),
{
    if s.len() > 0 && is_space(s.last()) {
        trim_end(s.drop_last())
    } else {
        s
    }
}

/// `s` without the white space at either end.
pub open spec fn trim(s: Seq<char>) -> Seq<char> {
    trim_end(trim_start(s))
}

/// Whether `s` has no white space at either end.
pub open spec fn is_trimmed(s: Seq<char>) -> bool {
    s.len() > 0 ==> !is_space(s[0]) && !is_space(s.last())
}

/// Where what `trim` leaves of `s` begins and ends.
pub open spec fn trim_range(s: Seq<char>) -> (int, int) {
    let a = s.len() - trim_start(s).len();
    (a, a + trim(s).len())
}

/// `trim_start` leaves the end of the string, with no white space in front, and takes
/// white space alone.
proof fn lemma_trim_start(s: Seq<char>)
    ensures
        trim_start(s).len() <= s.len(),
        trim_start(s) == s.skip(s.len() - trim_start(s).len()),
        trim_start(s).len() > 0 ==> !is_space(trim_start(s)[0]),
        trim_start(s).len() < s.len() ==> is_space(s[0]),
    decreases s.len(),
{
    if s.len() > 0 && is_space(s[0]) {
        lemma_trim_start(s.skip(1));
        let n = trim_start(s).len();
        assert(s.skip(1).skip(s.skip(1).len() - n) =~= s.skip(s.len() - n));
    } else {
        assert(s.skip(0) =~= s);
    }
}

/// `trim_end` leaves the front of the string, with no white space at its end.
proof fn lemma_trim_end(s: Seq<char>)
    ensures
        trim_end(s).len() <= s.len(),
        trim_end(s) == s.take(trim_end(s).len() as int),
        trim_end(s).len() > 0 ==> !is_space(trim_end(s).last()),
    decreases s.len(),
{
    if s.len() > 0 && is_space(s.last()) {
        lemma_trim_end(s.drop_last());
        assert(s.drop_last().take(trim_end(s).len() as int) =~= s.take(trim_end(s).len() as int));
    } else {
        assert(s.take(s.len() as int) =~= s);
    }
}

/// `trim` leaves a piece of the string without white space at either end, and takes
/// something off the front only where white space stands there.
pub proof fn lemma_trim(s: Seq<char>)
    ensures
        is_trimmed(trim(s)),
        0 <= trim_range(s).0 <= trim_range(s).1 <= s.len(),
        trim(s) == s.subrange(trim_range(s).0, trim_range(s).1),
        trim_range(s).0 > 0 ==> is_space(s[0]),
{
    lemma_trim_start(s);
    lemma_trim_end(trim_start(s));
    assert(trim(s) =~= s.subrange(trim_range(s).0, trim_range(s).1));
}

/// A string without white space at either end stays as it is.
pub proof fn lemma_trimmed_stays(s: Seq<char>)
    requires
        is_trimmed(s),
    ensures
        trim(s) == s,
{
}

/// Where `c` stands first in `s`; the length of `s` where it does not.
pub open spec fn find(s: Seq<char>, c: char) -> int
    decreases s.len(),
{
    if s.len() == 0 || s[0] == c {
        0
    } else {
        1 + find(s.skip(1), c)
    }
}

/// `s` with `new` in the place of every `old`, found from the left and not
/// overlapping. An empty `old` is found before each character and at the end.
pub open spec fn replace(s: Seq<char>, old: Seq<char>, new: Seq<char>) -> Seq<char>
    decreases s.len(),
{
    if old.len() == 0 {
        if s.len() == 0 {
            new
        } else {
            new + s.take(1) + replace(s.skip(1), old, new)
        }
    } else if s.len() == 0 {
        s
    } else if starts_with(s, old) {
        new + replace(s.skip(old.len() as int), old, new)
    } else {
        s.take(1) + replace(s.skip(1), old, new)
    }
}

/// Replacing one character by one character works place by place.
pub proof fn lemma_replace_char(s: Seq<char>, c: char, d: char)
    ensures
        replace(s, seq![c], seq![d]) == Seq::new(
            s.len(),
            |i: int|
                if s[i] == c {
                    d
                } else {
                    s[i]
                },
        ),
    decreases s.len(),
{
    let r = replace(s, seq![c], seq![d]);
    if s.len() > 0 {
        lemma_replace_char(s.skip(1), c, d);
        assert(starts_with(s, seq![c]) == (s[0] == c)) by {
            if s[0] == c {
                assert(s.subrange(0, 1) =~= seq![c]);
            } else {
                assert(s.subrange(0, 1)[0] == s[0]);
            }
        }
        assert forall|i: int| 0 <= i < s.len() implies r[i] == (if s[i] == c {
            d
        } else {
            s[i]
        }) by {
            if i > 0 {
                assert(s[i] == s.skip(1)[i - 1]);
            }
        }
        assert(r =~= Seq::new(
            s.len(),
            |i: int|
                if s[i] == c {
                    d
                } else {
                    s[i]
                },
        ));
    }
}

/// The characters of `s`, in order.
pub fn chars_of(s: &str) -> (v: Vec<char>)
    ensures
        v@ == s@,
{
    let mut v: Vec<char> = Vec::new();
    for c in it: s.chars()
        invariant
            v@ == it.seq().take(it.index() as int),
            it.seq() == s@,
    {
        v.push(c);
    }
    v
}

/// The string that holds the characters of `cs` from `from` up to `to`.
pub fn string_of(cs: &Vec<char>, from: usize, to: usize) -> (s: String)
    requires
        from <= to <= cs.len(),
    ensures
        s@ == cs@.subrange(from as int, to as int),
{
    let mut s = String::new();
    let mut i: usize = from;
    while i < to
        invariant
            from <= i <= to <= cs.len(),
            s@ == cs@.subrange(from as int, i as int),
        decreases to - i,
    {
        s.push(cs[i]);
        i = i + 1;
    }
    s
}

/// A copy of an optional string.
pub fn copy_of(o: &Option<String>) -> (r: Option<String>)
    ensures
        opt_view(r) == opt_view(*o),
{
    match o {
        Some(s) => Some(s.clone()),
        None => None,
    }
}

/// Whether two strings hold the same characters.
pub fn same(a: &str, b: &str) -> (r: bool)
    ensures
        r == (a@ == b@),
{
    a.to_owned() == b.to_owned()
}

/// Whether `p` stands in `cs` at position `at`.
pub fn chars_occur_at(cs: &Vec<char>, p: &Vec<char>, at: usize) -> (r: bool)
    ensures
        r == occurs_at(cs@, p@, at as int),
{
    if p.len() > cs.len() || at > cs.len() - p.len() {
        return false;
    }
    let mut i: usize = 0;
    while i < p.len()
        invariant
            at + p.len() <= cs.len(),
            i <= p.len(),
            forall|j: int| 0 <= j < i ==> cs@[at + j] == p@[j],
        decreases p.len() - i,
    {
        if cs[at + i] != p[i] {
            assert(cs@.subrange(at as int, at + p.len())[i as int] != p@[i as int]);
            return false;
        }
        i = i + 1;
    }
    assert(cs@.subrange(at as int, at + p.len()) =~= p@);
    true
}

/// Whether `s` begins with `p`.
pub fn has_prefix(s: &str, p: &str) -> (r: bool)
    ensures
        r == starts_with(s@, p@),
{
    chars_occur_at(&chars_of(s), &chars_of(p), 0)
}

/// Whether `s` ends with `p`.
pub fn has_suffix(s: &str, p: &str) -> (r: bool)
    ensures
        r == ends_with(s@, p@),
{
    let cs = chars_of(s);
    let ps = chars_of(p);
    ps.len() <= cs.len() && chars_occur_at(&cs, &ps, cs.len() - ps.len())
}

/// Whether `p` stands anywhere in `s`.
pub fn has(s: &str, p: &str) -> (r: bool)
    ensures
        r == contains(s@, p@),
{
    let cs = chars_of(s);
    let ps = chars_of(p);
    let mut i: usize = 0;
    while i < cs.len()
        invariant
            cs@ == s@,
            ps@ == p@,
            i <= cs.len(),
            forall|j: int| 0 <= j < i ==> !occurs_at(s@, p@, j),
        decreases cs.len() - i,
    {
        if chars_occur_at(&cs, &ps, i) {
            return true;
        }
        i = i + 1;
    }
    chars_occur_at(&cs, &ps, i)
}

/// `s` without `p` in front, where it begins with `p`.
pub fn strip_prefix(s: &str, p: &str) -> (r: Option<String>)
    ensures
        match r {
            Some(rest) => starts_with(s@, p@) && rest@ == s@.skip(p@.len() as int),
            None => !starts_with(s@, p@),
        },
{
    let cs = chars_of(s);
    let ps = chars_of(p);
    if chars_occur_at(&cs, &ps, 0) {
        let rest = string_of(&cs, ps.len(), cs.len());
        assert(rest@ =~= s@.skip(p@.len() as int));
        Some(rest)
    } else {
        None
    }
}

/// The ASCII lower case of one character.
fn lower_char(c: char) -> (r: char)
    ensures
        r == ascii_lower_char(c),
{
    match c {
        'A' => 'a',
        'B' => 'b',
        'C' => 'c',
        'D' => 'd',
        'E' => 'e',
        'F' => 'f',
        'G' => 'g',
        'H' => 'h',
        'I' => 'i',
        'J' => 'j',
        'K' => 'k',
        'L' => 'l',
        'M' => 'm',
        'N' => 'n',
        'O' => 'o',
        'P' => 'p',
        'Q' => 'q',
        'R' => 'r',
        'S' => 's',
        'T' => 't',
        'U' => 'u',
        'V' => 'v',
        'W' => 'w',
        'X' => 'x',
        'Y' => 'y',
        'Z' => 'z',
        _ => c,
    }
}

/// `s` with its ASCII capitals made small.
pub fn to_ascii_lower(s: &str) -> (r: String)
    ensures
        r@ == ascii_lower(s@),
{
    let cs = chars_of(s);
    let mut r = String::new();
    for i in 0..cs.len()
        invariant
            cs@ == s@,
            r@ == ascii_lower(s@).take(i as int),
    {
        r.push(lower_char(cs[i]));
    }
    r
}

/// Whether two strings differ in ASCII case at most.
pub fn eq_ignoring_case(a: &str, b: &str) -> (r: bool)
    ensures
        r == same_ignoring_case(a@, b@),
{
    to_ascii_lower(a) == to_ascii_lower(b)
}

/// Whether a character is white space.
pub fn space(c: char) -> (r: bool)
    ensures
        r == is_space(c),
{
    ('\u{9}' <= c && c <= '\u{d}') || c == '\u{20}' || c == '\u{85}' || c == '\u{a0}' || c
        == '\u{1680}' || ('\u{2000}' <= c && c <= '\u{200a}') || c == '\u{2028}' || c == '\u{2029}'
        || c == '\u{202f}' || c == '\u{205f}' || c == '\u{3000}'
}

/// `s` without the white space at either end.
pub fn trimmed(s: &str) -> (r: String)
    ensures
        r@ == trim(s@),
{
    let cs = chars_of(s);
    let mut from: usize = 0;
    assert(cs@.skip(0) =~= s@);
    while from < cs.len() && space(cs[from])
        invariant
            cs@ == s@,
            from <= cs.len(),
            trim_start(s@) == trim_start(cs@.skip(from as int)),
        decreases cs.len() - from,
    {
        assert(cs@.skip(from as int).skip(1) =~= cs@.skip(from + 1));
        from = from + 1;
    }
    let mut to: usize = cs.len();
    assert(cs@.subrange(from as int, to as int) =~= cs@.skip(from as int));
    while to > from && space(cs[to - 1])
        invariant
            cs@ == s@,
            from <= to <= cs.len(),
            trim(s@) == trim_end(cs@.subrange(from as int, to as int)),
        decreases to - from,
    {
        assert(cs@.subrange(from as int, to as int).drop_last() =~= cs@.subrange(
            from as int,
            to - 1,
        ));
        to = to - 1;
    }
    string_of(&cs, from, to)
}

/// Where `c` stands first in `cs` from position `from` on, counted from `from`.
pub fn find_from(cs: &Vec<char>, from: usize, c: char) -> (r: usize)
    requires
        from <= cs.len(),
    ensures
        r == find(cs@.skip(from as int), c),
        r <= cs.len() - from,
{
    let mut i: usize = from;
    while i < cs.len() && cs[i] != c
        invariant
            from <= i <= cs.len(),
            find(cs@.skip(from as int), c) == i - from + find(cs@.skip(i as int), c),
        decreases cs.len() - i,
    {
        assert(cs@.skip(i as int).skip(1) =~= cs@.skip(i + 1));
        i = i + 1;
    }
    i - from
}

/// `s` with `new` in the place of every `old`.
pub fn replaced(s: &str, old: &str, new: &str) -> (r: String)
    ensures
        r@ == replace(s@, old@, new@),
{
    let cs = chars_of(s);
    let os = chars_of(old);
    let mut r = String::new();
    let mut i: usize = 0;
    assert(cs@.skip(0) =~= s@);
    while i < cs.len()
        invariant
            cs@ == s@,
            os@ == old@,
            i <= cs.len(),
            replace(s@, old@, new@) == r@ + replace(cs@.skip(i as int), old@, new@),
        decreases cs.len() - i,
    {
        let ghost before = r@;
        let ghost rest = cs@.skip(i as int);
        if os.len() == 0 {
            r.append(new);
            r.push(cs[i]);
            assert(rest.skip(1) =~= cs@.skip(i + 1));
            assert(r@ =~= before + new@ + rest.take(1));
            assert(before + (new@ + rest.take(1) + replace(rest.skip(1), old@, new@)) =~= r@
                + replace(rest.skip(1), old@, new@));
            i = i + 1;
        } else if chars_occur_at(&cs, &os, i) {
            assert(rest.subrange(0, old@.len() as int) =~= cs@.subrange(i as int, i + old@.len()));
            r.append(new);
            assert(rest.skip(old@.len() as int) =~= cs@.skip(i + old@.len()));
            assert(before + (new@ + replace(rest.skip(old@.len() as int), old@, new@)) =~= r@
                + replace(rest.skip(old@.len() as int), old@, new@));
            i = i + os.len();
        } else {
            proof {
                if starts_with(rest, old@) {
                    assert(rest.subrange(0, old@.len() as int) =~= cs@.subrange(
                        i as int,
                        i + old@.len(),
                    ));
                }
            }
            r.push(cs[i]);
            assert(rest.skip(1) =~= cs@.skip(i + 1));
            assert(before + (rest.take(1) + replace(rest.skip(1), old@, new@)) =~= r@ + replace(
                rest.skip(1),
                old@,
                new@,
            ));
            i = i + 1;
        }
    }
    if os.len() == 0 {
        r.append(new);
    }
    r
}

/// Two strings end to end.
pub fn cat2(a: &str, b: &str) -> (s: String)
    ensures
        s@ == a@ + b@,
{
    let mut s = a.to_owned();
    s.append(b);
    s
}

/// Three strings end to end.
pub fn cat3(a: &str, b: &str, c: &str) -> (s: String)
    ensures
        s@ == a@ + b@ + c@,
{
    let mut s = cat2(a, b);
    s.append(c);
    s
}

/// Four strings end to end.
pub fn cat4(a: &str, b: &str, c: &str, d: &str) -> (s: String)
    ensures
        s@ == a@ + b@ + c@ + d@,
{
    let mut s = cat3(a, b, c);
    s.append(d);
    s
}

/// Five strings end to end.
pub fn cat5(a: &str, b: &str, c: &str, d: &str, e: &str) -> (s: String)
    ensures
        s@ == a@ + b@ + c@ + d@ + e@,
{
    let mut s = cat4(a, b, c, d);
    s.append(e);
    s
}

/// Six strings end to end.
pub fn cat6(a: &str, b: &str, c: &str, d: &str, e: &str, f: &str) -> (s: String)
    ensures
        s@ == a@ + b@ + c@ + d@ + e@ + f@,
{
    let mut s = cat5(a, b, c, d, e);
    s.append(f);
    s
}

/// Seven strings end to end.
pub fn cat7(a: &str, b: &str, c: &str, d: &str, e: &str, f: &str, g: &str) -> (s: String)
    ensures
        s@ == a@ + b@ + c@ + d@ + e@ + f@ + g@,
{
    let mut s = cat6(a, b, c, d, e, f);
    s.append(g);
    s
}

/// A text begins with another exactly where it is that text and a rest.
pub proof fn beginning_is_a_front(s: Seq<char>, p: Seq<char>)
    ensures
        starts_with(s, p) <==> exists|rest: Seq<char>| s == #[trigger] (p + rest),
{
    if starts_with(s, p) {
        assert(s =~= p + s.skip(p.len() as int));
    }
    if exists|rest: Seq<char>| s == #[trigger] (p + rest) {
        let rest = choose|rest: Seq<char>| s == #[trigger] (p + rest);
        assert(s.subrange(0, p.len() as int) =~= p);
    }
}

/// A text ends with another exactly where it is a front and that text.
pub proof fn ending_is_a_tail(s: Seq<char>, p: Seq<char>)
    ensures
        ends_with(s, p) <==> exists|front: Seq<char>| s == #[trigger] (front + p),
{
    if ends_with(s, p) {
        assert(s =~= s.take(s.len() - p.len()) + p);
    }
    if exists|front: Seq<char>| s == #[trigger] (front + p) {
        let front = choose|front: Seq<char>| s == #[trigger] (front + p);
        assert(s.subrange(s.len() - p.len(), s.len() as int) =~= p);
    }
}

/// A text stands in another exactly where that is a front, the text and a rest.
pub proof fn standing_in_is_being_a_piece(s: Seq<char>, p: Seq<char>)
    ensures
        contains(s, p) <==> exists|front: Seq<char>, rest: Seq<char>|
            s == #[trigger] (front + p + rest),
{
    if contains(s, p) {
        let i = choose|i: int| occurs_at(s, p, i);
        assert(s =~= s.take(i) + p + s.skip(i + p.len()));
    }
    if exists|front: Seq<char>, rest: Seq<char>| s == #[trigger] (front + p + rest) {
        let (front, rest) = choose|front: Seq<char>, rest: Seq<char>|
            s == #[trigger] (front + p + rest);
        let i = front.len() as int;
        assert(s.subrange(i, i + p.len()) =~= p);
        assert(occurs_at(s, p, i));
    }
}

/// Making capitals small changes the letters from `A` to `Z` and no other character, and
/// does nothing the second time.
pub proof fn small_letters_stand_for_capitals(s: Seq<char>, i: int)
    requires
        0 <= i < s.len(),
    ensures
        ascii_lower(s).len() == s.len(),
        'A' <= s[i] <= 'Z' ==> ascii_lower(s)[i] as int == s[i] as int + ('a' as int - 'A' as int),
        !('A' <= s[i] <= 'Z') ==> ascii_lower(s)[i] == s[i],
        same_ignoring_case(s, ascii_lower(s)),
{
    assert(ascii_lower(ascii_lower(s)) =~= ascii_lower(s));
}

/// Where a text first has the old piece, the new one stands in its place, and the rest is gone
/// through in the same way; a text without the old piece stays as it is.
pub proof fn first_piece_is_replaced(
    front: Seq<char>,
    old: Seq<char>,
    rest: Seq<char>,
    new: Seq<char>,
    whole: Seq<char>,
)
    requires
        old.len() > 0,
        forall|j: int| 0 <= j < front.len() ==> !occurs_at(front + old + rest, old, j),
    ensures
        replace(front + old + rest, old, new) == front + new + replace(rest, old, new),
        !contains(whole, old) ==> replace(whole, old, new) == whole,
    decreases front.len(),
{
    lemma_replace_nothing(whole, old, new);
    let s = front + old + rest;
    if front.len() == 0 {
        assert(s.subrange(0, old.len() as int) =~= old);
        assert(s.skip(old.len() as int) =~= rest);
        assert(front + new + replace(rest, old, new) =~= new + replace(rest, old, new));
    } else {
        let shorter = front.skip(1);
        let t = shorter + old + rest;
        assert(s.skip(1) =~= t);
        assert forall|j: int| 0 <= j < shorter.len() implies !occurs_at(t, old, j) by {
            assert(!occurs_at(s, old, j + 1));
            if occurs_at(t, old, j) {
                assert(s.subrange(j + 1, j + 1 + old.len()) =~= t.subrange(j, j + old.len()));
            }
        }
        first_piece_is_replaced(shorter, old, rest, new, whole);
        assert(!occurs_at(s, old, 0));
        assert(s.take(1) + (shorter + new + replace(rest, old, new)) =~= front + new + replace(
            rest,
            old,
            new,
        ));
    }
}

/// A text without the old piece stays as it is.
proof fn lemma_replace_nothing(s: Seq<char>, old: Seq<char>, new: Seq<char>)
    requires
        old.len() > 0,
    ensures
        !contains(s, old) ==> replace(s, old, new) == s,
    decreases s.len(),
{
    if !contains(s, old) && s.len() > 0 {
        assert(!occurs_at(s, old, 0));
        let t = s.skip(1);
        if contains(t, old) {
            let j = choose|j: int| occurs_at(t, old, j);
            assert(s.subrange(j + 1, j + 1 + old.len()) =~= t.subrange(j, j + old.len()));
            assert(occurs_at(s, old, j + 1));
        }
        lemma_replace_nothing(t, old, new);
        assert(s.take(1) + t =~= s);
    }
}

/// Trimming takes the white space around a text and leaves the rest.
pub proof fn trimming_takes_what_is_around(before: Seq<char>, core: Seq<char>, after: Seq<char>)
    requires
        forall|i: int| 0 <= i < before.len() ==> is_space(#[trigger] before[i]),
        forall|i: int| 0 <= i < after.len() ==> is_space(#[trigger] after[i]),
        core.len() > 0,
        !is_space(core[0]),
        !is_space(core.last()),
    ensures
        trim(before + core + after) == core,
    decreases before.len() + after.len(),
{
    let s = before + core + after;
    if before.len() > 0 {
        let b = before.skip(1);
        assert forall|i: int| 0 <= i < b.len() implies is_space(#[trigger] b[i]) by {
            assert(b[i] == before[i + 1]);
        }
        trimming_takes_what_is_around(b, core, after);
        assert(s.skip(1) =~= b + core + after);
        assert(s[0] == before[0]);
    } else {
        assert(s =~= core + after);
        assert(s[0] == core[0]);
        assert(trim_start(s) == s);
        lemma_trim_end_takes(core, after);
    }
}

/// The white space behind a text is taken.
proof fn lemma_trim_end_takes(core: Seq<char>, after: Seq<char>)
    requires
        forall|i: int| 0 <= i < after.len() ==> is_space(#[trigger] after[i]),
        core.len() > 0,
        !is_space(core.last()),
    ensures
        trim_end(core + after) == core,
    decreases after.len(),
{
    let s = core + after;
    if after.len() > 0 {
        assert(s.last() == after.last());
        assert(s.drop_last() =~= core + after.drop_last());
        lemma_trim_end_takes(core, after.drop_last());
    } else {
        assert(s =~= core);
    }
}

} // verus!
