//! Text as lines and as pieces between separators.
use vstd::prelude::*;

use crate::text::{chars_of, find, find_from, string_of, views};

verus! {

/// The pieces of `s` between the `sep` characters, from left to right.
pub open spec fn split(s: Seq<char>, sep: char) -> Seq<Seq<char>>
    decreases s.len(),
{
    let i = find(s, sep);
    if 0 <= i < s.len() {
        seq![s.take(i)] + split(s.skip(i + 1), sep)
    } else {
        seq![s]
    }
}

/// `line` without one carriage return at its end.
pub open spec fn strip_cr(line: Seq<char>) -> Seq<char> {
    if line.len() > 0 && line.last() == '\r' {
        line.drop_last()
    } else {
        line
    }
}

/// The lines of `s`. A line ends at a line feed, or at a carriage return and a
/// line feed; what follows the last line feed is a line where it is not empty.
pub open spec fn lines(s: Seq<char>) -> Seq<Seq<char>>
    decreases s.len(),
{
    let i = find(s, '\n');
    if s.len() == 0 {
        Seq::empty()
    } else if 0 <= i < s.len() {
        seq![strip_cr(s.take(i))] + lines(s.skip(i + 1))
    } else {
        seq![s]
    }
}

/// The lines `ls`, each with a line feed behind it.
pub open spec fn terminated(ls: Seq<Seq<char>>) -> Seq<char>
    decreases ls.len(),
{
    if ls.len() == 0 {
        Seq::empty()
    } else {
        ls[0].push('\n') + terminated(ls.skip(1))
    }
}

/// The pieces `ps` with `sep` between each two of them.
pub open spec fn join(ps: Seq<Seq<char>>, sep: Seq<char>) -> Seq<char>
    decreases ps.len(),
{
    if ps.len() == 0 {
        Seq::empty()
    } else if ps.len() == 1 {
        ps[0]
    } else {
        ps[0] + sep + join(ps.skip(1), sep)
    }
}

/// Whether `s` holds no line feed.
pub open spec fn one_line(s: Seq<char>) -> bool {
    !s.contains('\n')
}

/// Whether a line is read back as it was written: it holds no line feed and does
/// not end in a carriage return.
pub open spec fn clean_line(s: Seq<char>) -> bool {
    one_line(s) && !(s.len() > 0 && s.last() == '\r')
}

/// `find` gives the first position of the character, or the length.
pub proof fn lemma_find(s: Seq<char>, c: char)
    ensures
        0 <= find(s, c) <= s.len(),
        find(s, c) < s.len() ==> s[find(s, c)] == c,
        forall|j: int| 0 <= j < find(s, c) ==> s[j] != c,
    decreases s.len(),
{
    if s.len() > 0 && s[0] != c {
        lemma_find(s.skip(1), c);
        assert forall|j: int| 0 <= j < find(s, c) implies s[j] != c by {
            if j > 0 {
                assert(s[j] == s.skip(1)[j - 1]);
            }
        }
    }
}

/// A position that holds the character, with none before it, is the one that
/// `find` gives.
pub proof fn lemma_find_is(s: Seq<char>, c: char, i: int)
    requires
        0 <= i <= s.len(),
        i < s.len() ==> s[i] == c,
        forall|j: int| 0 <= j < i ==> s[j] != c,
    ensures
        find(s, c) == i,
{
    lemma_find(s, c);
    if find(s, c) < i {
        assert(s[find(s, c)] != c);
    }
}

/// No line of a text holds a line feed.
pub proof fn lemma_lines_one_line(s: Seq<char>)
    ensures
        forall|i: int| 0 <= i < lines(s).len() ==> one_line(#[trigger] lines(s)[i]),
    decreases s.len(),
{
    lemma_find(s, '\n');
    let i = find(s, '\n');
    if s.len() > 0 && i < s.len() {
        lemma_lines_one_line(s.skip(i + 1));
        let first = strip_cr(s.take(i));
        assert(one_line(first)) by {
            if first.contains('\n') {
                let j = choose|j: int| 0 <= j < first.len() && first[j] == '\n';
                assert(s[j] == '\n');
            }
        }
        assert forall|k: int| 0 <= k < lines(s).len() implies one_line(#[trigger] lines(s)[k]) by {
            if k > 0 {
                assert(lines(s)[k] == lines(s.skip(i + 1))[k - 1]);
            }
        }
    } else if s.len() > 0 {
        assert(one_line(s)) by {
            if s.contains('\n') {
                let j = choose|j: int| 0 <= j < s.len() && s[j] == '\n';
                assert(s[j] != '\n');
            }
        }
    }
}

/// Lines without their carriage returns at the end.
pub open spec fn stripped(ls: Seq<Seq<char>>) -> Seq<Seq<char>> {
    Seq::new(ls.len(), |i: int| strip_cr(ls[i]))
}

/// Lines that are written are read back, but for a carriage return at the end of one.
pub proof fn lemma_lines_terminated(ls: Seq<Seq<char>>)
    requires
        forall|i: int| 0 <= i < ls.len() ==> one_line(#[trigger] ls[i]),
    ensures
        lines(terminated(ls)) == stripped(ls),
    decreases ls.len(),
{
    if ls.len() > 0 {
        let text = terminated(ls);
        let rest = terminated(ls.skip(1));
        let i = ls[0].len() as int;
        assert(one_line(ls[0]));
        assert forall|j: int| 0 <= j < i implies text[j] != '\n' by {
            assert(text[j] == ls[0][j]);
            assert(ls[0].contains(ls[0][j]));
        }
        lemma_find_is(text, '\n', i);
        assert(text.take(i) =~= ls[0]);
        assert(text.skip(i + 1) =~= rest);
        assert forall|k: int| 0 <= k < ls.skip(1).len() implies one_line(
            #[trigger] ls.skip(1)[k],
        ) by {
            assert(one_line(ls[k + 1]));
        }
        lemma_lines_terminated(ls.skip(1));
        assert(lines(text) =~= stripped(ls));
    } else {
        assert(lines(terminated(ls)) =~= stripped(ls));
    }
}

/// The pieces of `s` between the `sep` characters.
pub fn split_on(s: &str, sep: char) -> (r: Vec<String>)
    ensures
        views(r@) == split(s@, sep),
{
    let cs = chars_of(s);
    let mut r: Vec<String> = Vec::new();
    let mut from: usize = 0;
    assert(cs@.skip(0) =~= s@);
    assert(views(r@) + split(s@, sep) =~= split(s@, sep));
    loop
        invariant
            cs@ == s@,
            from <= cs.len(),
            views(r@) + split(cs@.skip(from as int), sep) == split(s@, sep),
        decreases cs.len() - from,
    {
        let n = find_from(&cs, from, sep);
        let ghost rest = cs@.skip(from as int);
        let ghost before = views(r@);
        if n == cs.len() - from {
            r.push(string_of(&cs, from, cs.len()));
            assert(cs@.subrange(from as int, cs.len() as int) =~= rest);
            assert(views(r@) =~= before + seq![rest]);
            return r;
        }
        r.push(string_of(&cs, from, from + n));
        proof {
            assert(cs@.subrange(from as int, from + n) =~= rest.take(n as int));
            assert(rest.skip(n + 1) =~= cs@.skip(from + n + 1));
            assert(views(r@) =~= before + seq![rest.take(n as int)]);
            assert(before + (seq![rest.take(n as int)] + split(rest.skip(n + 1), sep)) =~= views(r@)
                + split(rest.skip(n + 1), sep));
        }
        from = from + n + 1;
    }
}

/// The lines of `s`.
pub fn lines_of(s: &str) -> (r: Vec<String>)
    ensures
        views(r@) == lines(s@),
{
    let cs = chars_of(s);
    let mut r: Vec<String> = Vec::new();
    let mut from: usize = 0;
    assert(cs@.skip(0) =~= s@);
    assert(views(r@) + lines(s@) =~= lines(s@));
    while from < cs.len()
        invariant
            cs@ == s@,
            from <= cs.len(),
            views(r@) + lines(cs@.skip(from as int)) == lines(s@),
        decreases cs.len() - from,
    {
        let n = find_from(&cs, from, '\n');
        let ghost rest = cs@.skip(from as int);
        let ghost before = views(r@);
        if n == cs.len() - from {
            r.push(string_of(&cs, from, cs.len()));
            assert(cs@.subrange(from as int, cs.len() as int) =~= rest);
            assert(views(r@) =~= before + seq![rest]);
            return r;
        }
        let to: usize = if n > 0 && cs[from + n - 1] == '\r' {
            from + n - 1
        } else {
            from + n
        };
        r.push(string_of(&cs, from, to));
        proof {
            assert(cs@.subrange(from as int, to as int) =~= strip_cr(rest.take(n as int)));
            assert(rest.skip(n + 1) =~= cs@.skip(from + n + 1));
            assert(views(r@) =~= before + seq![strip_cr(rest.take(n as int))]);
            assert(before + (seq![strip_cr(rest.take(n as int))] + lines(rest.skip(n + 1)))
                =~= views(r@) + lines(rest.skip(n + 1)));
        }
        from = from + n + 1;
    }
    assert(views(r@) + lines(cs@.skip(from as int)) =~= views(r@));
    r
}

/// The lines `ls`, each with a line feed behind it.
pub fn terminate(ls: &Vec<String>) -> (r: String)
    ensures
        r@ == terminated(views(ls@)),
{
    let mut r = String::new();
    let mut i: usize = 0;
    assert(views(ls@).skip(0) =~= views(ls@));
    assert(r@ + terminated(views(ls@)) =~= terminated(views(ls@)));
    while i < ls.len()
        invariant
            i <= ls.len(),
            r@ + terminated(views(ls@).skip(i as int)) == terminated(views(ls@)),
        decreases ls.len() - i,
    {
        let ghost before = r@;
        let ghost rest = views(ls@).skip(i as int);
        r.append(ls[i].as_str());
        r.push('\n');
        proof {
            assert(rest[0] == ls@[i as int]@);
            assert(rest.skip(1) =~= views(ls@).skip(i + 1));
            assert(before + (rest[0].push('\n') + terminated(rest.skip(1))) =~= r@ + terminated(
                rest.skip(1),
            ));
        }
        i = i + 1;
    }
    assert(r@ + terminated(views(ls@).skip(i as int)) =~= r@);
    r
}

/// The pieces `ps` with `sep` between each two of them.
pub fn joined(ps: &Vec<String>, sep: &str) -> (r: String)
    ensures
        r@ == join(views(ps@), sep@),
{
    let mut r = String::new();
    if ps.len() == 0 {
        return r;
    }
    let mut i: usize = 0;
    assert(views(ps@).skip(0) =~= views(ps@));
    assert(r@ + join(views(ps@), sep@) =~= join(views(ps@), sep@));
    while i < ps.len() - 1
        invariant
            0 < ps.len(),
            i <= ps.len() - 1,
            r@ + join(views(ps@).skip(i as int), sep@) == join(views(ps@), sep@),
        decreases ps.len() - i,
    {
        let ghost before = r@;
        let ghost rest = views(ps@).skip(i as int);
        r.append(ps[i].as_str());
        r.append(sep);
        proof {
            assert(rest[0] == ps@[i as int]@);
            assert(rest.skip(1) =~= views(ps@).skip(i + 1));
            assert(before + (rest[0] + sep@ + join(rest.skip(1), sep@)) =~= r@ + join(
                rest.skip(1),
                sep@,
            ));
        }
        i = i + 1;
    }
    r.append(ps[i].as_str());
    r
}

/// A piece that is added stands behind the others and a separator.
pub proof fn lemma_join_push(ps: Seq<Seq<char>>, sep: Seq<char>, p: Seq<char>)
    requires
        ps.len() > 0,
    ensures
        join(ps.push(p), sep) == join(ps, sep) + sep + p,
    decreases ps.len(),
{
    reveal_with_fuel(join, 2);
    let all = ps.push(p);
    if ps.len() == 1 {
        assert(all.skip(1) =~= seq![p]);
    } else {
        assert(all.skip(1) =~= ps.skip(1).push(p));
        lemma_join_push(ps.skip(1), sep, p);
        assert(join(all, sep) =~= join(ps, sep) + sep + p);
    }
}

/// The pieces of a text hold no separator, and the text is had back by joining them.
pub proof fn pieces_make_up_the_text(s: Seq<char>, sep: char)
    ensures
        join(split(s, sep), seq![sep]) == s,
        forall|i: int| 0 <= i < split(s, sep).len() ==> !(#[trigger] split(s, sep)[i]).contains(sep),
        split(s, sep).len() > 0,
    decreases s.len(),
{
    lemma_find(s, sep);
    let i = find(s, sep);
    let ps = split(s, sep);
    if i < s.len() {
        let rest = split(s.skip(i + 1), sep);
        pieces_make_up_the_text(s.skip(i + 1), sep);
        assert(ps.skip(1) =~= rest);
        assert(join(ps, seq![sep]) =~= s.take(i) + seq![sep] + s.skip(i + 1));
        assert(s =~= s.take(i) + seq![sep] + s.skip(i + 1));
        assert forall|k: int| 0 <= k < ps.len() implies !(#[trigger] ps[k]).contains(sep) by {
            if k > 0 {
                assert(ps[k] == rest[k - 1]);
            } else if ps[0].contains(sep) {
                let j = choose|j: int| 0 <= j < ps[0].len() && ps[0][j] == sep;
                assert(s[j] != sep);
            }
        }
    } else {
        if s.contains(sep) {
            let j = choose|j: int| 0 <= j < s.len() && s[j] == sep;
            assert(s[j] != sep);
        }
    }
}

/// A piece in front of a separator is the first of the pieces.
pub proof fn lemma_split_front(p: Seq<char>, sep: char, rest: Seq<char>)
    requires
        !p.contains(sep),
    ensures
        split(p + seq![sep] + rest, sep) == seq![p] + split(rest, sep),
        split(p, sep) == seq![p],
{
    let s = p + seq![sep] + rest;
    assert forall|j: int| 0 <= j < p.len() implies s[j] != sep by {
        if p[j] == sep {
            assert(p.contains(sep));
        }
    }
    lemma_find_is(s, sep, p.len() as int);
    assert(s.take(p.len() as int) =~= p);
    assert(s.skip(p.len() as int + 1) =~= rest);
    assert forall|j: int| 0 <= j < p.len() implies p[j] != sep by {
        if p[j] == sep {
            assert(p.contains(sep));
        }
    }
    lemma_find_is(p, sep, p.len() as int);
}

} // verus!
