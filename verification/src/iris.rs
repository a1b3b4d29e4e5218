//! The shader loader's `iris.properties`: one property per line, as `key=value`.
use vstd::prelude::*;

use crate::lines;
use crate::order;
use crate::text;

verus! {

/// One property.
#[derive(Debug)]
pub struct Property {
    pub key: String,
    pub value: String,
}

/// What the properties of a list hold, in order.
pub open spec fn pairs(v: Seq<Property>) -> Seq<(Seq<char>, Seq<char>)> {
    Seq::new(v.len(), |i: int| (v[i].key@, v[i].value@))
}

/// The property that a line holds: what stands before and after the first equals sign.
/// An empty line, a comment and a line without a key hold none.
pub open spec fn property_in(line: Seq<char>) -> Option<(Seq<char>, Seq<char>)> {
    let t = text::trim(line);
    let eq = text::find(t, '=');
    if t.len() == 0 || t[0] == '#' || eq >= t.len() || text::trim(t.take(eq)).len() == 0 {
        None
    } else {
        Some((text::trim(t.take(eq)), text::trim(t.skip(eq + 1))))
    }
}

/// Properties in the order of their keys, with the value `v` for the key `k`.
pub open spec fn put(
    ps: Seq<(Seq<char>, Seq<char>)>,
    k: Seq<char>,
    v: Seq<char>,
) -> Seq<(Seq<char>, Seq<char>)>
    decreases ps.len(),
{
    if ps.len() == 0 {
        seq![(k, v)]
    } else if ps[0].0 == k {
        seq![(k, v)] + ps.skip(1)
    } else if order::less(k, ps[0].0) {
        seq![(k, v)] + ps
    } else {
        seq![ps[0]] + put(ps.skip(1), k, v)
    }
}

/// The properties `ps` with those that the lines hold, from the first line on.
pub open spec fn with_lines(
    ps: Seq<(Seq<char>, Seq<char>)>,
    ls: Seq<Seq<char>>,
) -> Seq<(Seq<char>, Seq<char>)>
    decreases ls.len(),
{
    if ls.len() == 0 {
        ps
    } else {
        match property_in(ls[0]) {
            Some(p) => with_lines(put(ps, p.0, p.1), ls.skip(1)),
            None => with_lines(ps, ls.skip(1)),
        }
    }
}

/// The properties that a file holds: of two with the same key, the later one.
pub open spec fn properties(content: Seq<char>) -> Seq<(Seq<char>, Seq<char>)> {
    with_lines(Seq::empty(), lines::lines(content))
}

/// The lines of properties.
pub open spec fn property_lines(ps: Seq<(Seq<char>, Seq<char>)>) -> Seq<Seq<char>> {
    Seq::new(ps.len(), |i: int| ps[i].0 + "="@ + ps[i].1)
}

/// The properties with the shader pack `filename` chosen and shaders switched on.
pub open spec fn with_shader(
    ps: Seq<(Seq<char>, Seq<char>)>,
    filename: Seq<char>,
) -> Seq<(Seq<char>, Seq<char>)> {
    put(put(ps, "shaderPack"@, filename), "enableShaders"@, "true"@)
}

/// The file with the shader pack `filename` chosen; `None` stands for no file.
pub open spec fn with_default_shader(
    existing: Option<Seq<char>>,
    filename: Seq<char>,
) -> Seq<char> {
    let ps = match existing {
        Some(content) => properties(content),
        None => Seq::empty(),
    };
    lines::terminated(property_lines(with_shader(ps, filename)))
}

/// The value of the key `k`.
pub open spec fn value_of(ps: Seq<(Seq<char>, Seq<char>)>, k: Seq<char>) -> Option<Seq<char>>
    decreases ps.len(),
{
    if ps.len() == 0 {
        None
    } else if ps[0].0 == k {
        Some(ps[0].1)
    } else {
        value_of(ps.skip(1), k)
    }
}

/// Whether the keys stand in order, none of them twice.
pub open spec fn in_order(ps: Seq<(Seq<char>, Seq<char>)>) -> bool {
    forall|i: int, j: int|
        0 <= i < j < ps.len() ==> order::less((#[trigger] ps[i]).0, (#[trigger] ps[j]).0)
}

/// A property that is put in has its value, and the others keep theirs.
pub proof fn put_changes_one_value(
    ps: Seq<(Seq<char>, Seq<char>)>,
    k: Seq<char>,
    v: Seq<char>,
    other: Seq<char>,
)
    ensures
        value_of(put(ps, k, v), other) == (if other == k {
            Some(v)
        } else {
            value_of(ps, other)
        }),
    decreases ps.len(),
{
    reveal_with_fuel(value_of, 2);
    let r = put(ps, k, v);
    if ps.len() == 0 {
        assert(r.skip(1) =~= Seq::empty());
    } else if ps[0].0 == k {
        assert(r.skip(1) =~= ps.skip(1));
    } else if order::less(k, ps[0].0) {
        assert(r.skip(1) =~= ps);
    } else {
        put_changes_one_value(ps.skip(1), k, v, other);
        assert(r.skip(1) =~= put(ps.skip(1), k, v));
    }
}

/// Every key after putting one in is that one or was there.
proof fn lemma_put_keys(ps: Seq<(Seq<char>, Seq<char>)>, k: Seq<char>, v: Seq<char>)
    ensures
        forall|i: int|
            0 <= i < put(ps, k, v).len() ==> (#[trigger] put(ps, k, v)[i]) == (k, v) || exists|
                j: int,
            |
                0 <= j < ps.len() && #[trigger] ps[j] == put(ps, k, v)[i],
    decreases ps.len(),
{
    let r = put(ps, k, v);
    assert forall|i: int| 0 <= i < r.len() implies (#[trigger] r[i]) == (k, v) || exists|j: int|
        0 <= j < ps.len() && #[trigger] ps[j] == r[i] by {
        if ps.len() == 0 {
        } else if ps[0].0 == k {
            if i > 0 {
                assert(ps[i] == r[i]);
            }
        } else if order::less(k, ps[0].0) {
            if i > 0 {
                assert(ps[i - 1] == r[i]);
            }
        } else {
            lemma_put_keys(ps.skip(1), k, v);
            let s = put(ps.skip(1), k, v);
            if i == 0 {
                assert(ps[0] == r[0]);
            } else {
                assert(r[i] == s[i - 1]);
                if s[i - 1] != (k, v) {
                    let j = choose|j: int|
                        0 <= j < ps.skip(1).len() && #[trigger] ps.skip(1)[j] == s[i - 1];
                    assert(ps[j + 1] == r[i]);
                }
            }
        }
    }
}

/// Putting a property in keeps the keys in order.
pub proof fn put_keeps_order(ps: Seq<(Seq<char>, Seq<char>)>, k: Seq<char>, v: Seq<char>)
    requires
        in_order(ps),
    ensures
        in_order(put(ps, k, v)),
    decreases ps.len(),
{
    let r = put(ps, k, v);
    if ps.len() == 0 {
    } else if ps[0].0 == k {
        assert forall|i: int, j: int| 0 <= i < j < r.len() implies order::less(
            (#[trigger] r[i]).0,
            (#[trigger] r[j]).0,
        ) by {
            assert(r[i].0 == ps[i].0 && r[j].0 == ps[j].0);
        }
    } else if order::less(k, ps[0].0) {
        assert forall|i: int, j: int| 0 <= i < j < r.len() implies order::less(
            (#[trigger] r[i]).0,
            (#[trigger] r[j]).0,
        ) by {
            assert(r[j] == ps[j - 1]);
            if i > 0 {
                assert(r[i] == ps[i - 1]);
            } else if j > 1 {
                order::lemma_less_transitive(k, ps[0].0, ps[j - 1].0);
            }
        }
    } else {
        let rest = ps.skip(1);
        let s = put(rest, k, v);
        assert(in_order(rest)) by {
            assert forall|i: int, j: int| 0 <= i < j < rest.len() implies order::less(
                (#[trigger] rest[i]).0,
                (#[trigger] rest[j]).0,
            ) by {
                assert(rest[i] == ps[i + 1] && rest[j] == ps[j + 1]);
            }
        }
        put_keeps_order(rest, k, v);
        lemma_put_keys(rest, k, v);
        order::lemma_less_total(ps[0].0, k);
        assert forall|i: int, j: int| 0 <= i < j < r.len() implies order::less(
            (#[trigger] r[i]).0,
            (#[trigger] r[j]).0,
        ) by {
            assert(r[j] == s[j - 1]);
            if i > 0 {
                assert(r[i] == s[i - 1]);
            } else if s[j - 1] != (k, v) {
                let m = choose|m: int| 0 <= m < rest.len() && #[trigger] rest[m] == s[j - 1];
                assert(rest[m] == ps[m + 1]);
            }
        }
    }
}

/// The properties of a file stand in the order of their keys.
proof fn lemma_with_lines_in_order(ps: Seq<(Seq<char>, Seq<char>)>, ls: Seq<Seq<char>>)
    requires
        in_order(ps),
    ensures
        in_order(with_lines(ps, ls)),
    decreases ls.len(),
{
    if ls.len() > 0 {
        match property_in(ls[0]) {
            Some(p) => {
                put_keeps_order(ps, p.0, p.1);
                lemma_with_lines_in_order(put(ps, p.0, p.1), ls.skip(1));
            },
            None => lemma_with_lines_in_order(ps, ls.skip(1)),
        }
    }
}

/// Choosing a shader sets the two properties that the shader loader reads, keeps every
/// other property of the file, and leaves the keys in order.
pub proof fn shader_is_chosen(content: Seq<char>, filename: Seq<char>, other: Seq<char>)
    ensures
        value_of(with_shader(properties(content), filename), "shaderPack"@) == Some(filename),
        value_of(with_shader(properties(content), filename), "enableShaders"@) == Some("true"@),
        other != "shaderPack"@ && other != "enableShaders"@ ==> value_of(
            with_shader(properties(content), filename),
            other,
        ) == value_of(properties(content), other),
        in_order(with_shader(properties(content), filename)),
{
    let ps = properties(content);
    let once = put(ps, "shaderPack"@, filename);
    assert("shaderPack"@ != "enableShaders"@) by {
        reveal_strlit("shaderPack");
        reveal_strlit("enableShaders");
        assert("shaderPack"@.len() != "enableShaders"@.len());
    }
    put_changes_one_value(ps, "shaderPack"@, filename, "shaderPack"@);
    put_changes_one_value(once, "enableShaders"@, "true"@, "shaderPack"@);
    put_changes_one_value(once, "enableShaders"@, "true"@, "enableShaders"@);
    put_changes_one_value(ps, "shaderPack"@, filename, other);
    put_changes_one_value(once, "enableShaders"@, "true"@, other);
    lemma_with_lines_in_order(Seq::empty(), lines::lines(content));
    put_keeps_order(ps, "shaderPack"@, filename);
    put_keeps_order(once, "enableShaders"@, "true"@);
}

/// Whether a property is read back as it was written.
pub open spec fn plain(p: (Seq<char>, Seq<char>)) -> bool {
    &&& p.0.len() > 0
    &&& text::is_trimmed(p.0)
    &&& p.0[0] != '#'
    &&& !p.0.contains('=')
    &&& lines::one_line(p.0)
    &&& text::is_trimmed(p.1)
    &&& lines::one_line(p.1)
}

/// Whether every property of a list is read back as it was written.
pub open spec fn all_plain(ps: Seq<(Seq<char>, Seq<char>)>) -> bool {
    forall|i: int| 0 <= i < ps.len() ==> plain(#[trigger] ps[i])
}

/// What a line holds is a plain property.
proof fn lemma_property_in_plain(line: Seq<char>)
    requires
        lines::one_line(line),
    ensures
        property_in(line) is Some ==> plain(property_in(line)->Some_0),
{
    let t = text::trim(line);
    text::lemma_trim(line);
    lines::lemma_find(t, '=');
    let eq = text::find(t, '=');
    if property_in(line) is Some {
        let (a, b) = text::trim_range(line);
        assert forall|i: int| 0 <= i < t.len() implies t[i] != '\n' by {
            assert(t[i] == line[a + i]);
            assert(line.contains(line[a + i]));
        }
        let front = t.take(eq);
        let back = t.skip(eq + 1);
        text::lemma_trim(front);
        text::lemma_trim(back);
        let (fa, fb) = text::trim_range(front);
        let (ba, bb) = text::trim_range(back);
        let k = text::trim(front);
        let v = text::trim(back);
        assert(front[0] == t[0]);
        assert(k[0] == t[0]) by {
            if fa > 0 {
                assert(text::is_space(front[0]));
            }
        }
        if k.contains('=') {
            let i = choose|i: int| 0 <= i < k.len() && k[i] == '=';
            assert(t[fa + i] == '=');
        }
        if k.contains('\n') {
            let i = choose|i: int| 0 <= i < k.len() && k[i] == '\n';
            assert(t[fa + i] == '\n');
        }
        if v.contains('\n') {
            let i = choose|i: int| 0 <= i < v.len() && v[i] == '\n';
            assert(t[eq + 1 + ba + i] == '\n');
        }
    }
}

/// A plain property is read back from its line.
proof fn lemma_plain_line(p: (Seq<char>, Seq<char>))
    requires
        plain(p),
    ensures
        property_in(p.0 + "="@ + p.1) == Some(p),
        lines::one_line(p.0 + "="@ + p.1),
        lines::strip_cr(p.0 + "="@ + p.1) == p.0 + "="@ + p.1,
{
    reveal_strlit("=");
    let line = p.0 + "="@ + p.1;
    let n = p.0.len() as int;
    assert(line[n] == '=');
    assert(line[0] == p.0[0]);
    assert(line.last() == (if p.1.len() > 0 {
        p.1.last()
    } else {
        '='
    }));
    text::lemma_trimmed_stays(line);
    assert forall|j: int| 0 <= j < n implies line[j] != '=' by {
        assert(line[j] == p.0[j]);
        assert(p.0.contains(p.0[j]));
    }
    lines::lemma_find_is(line, '=', n);
    assert(line.take(n) =~= p.0);
    assert(line.skip(n + 1) =~= p.1);
    text::lemma_trimmed_stays(p.0);
    text::lemma_trimmed_stays(p.1);
    if line.contains('\n') {
        let j = choose|j: int| 0 <= j < line.len() && line[j] == '\n';
        if j < n {
            assert(p.0[j] == '\n');
        } else if j > n {
            assert(p.1[j - n - 1] == '\n');
        }
    }
}

/// The properties of lines are plain.
proof fn lemma_with_lines_plain(ps: Seq<(Seq<char>, Seq<char>)>, ls: Seq<Seq<char>>)
    requires
        all_plain(ps),
        forall|i: int| 0 <= i < ls.len() ==> lines::one_line(#[trigger] ls[i]),
    ensures
        all_plain(with_lines(ps, ls)),
    decreases ls.len(),
{
    if ls.len() > 0 {
        assert(lines::one_line(ls[0]));
        lemma_property_in_plain(ls[0]);
        let rest = ls.skip(1);
        assert forall|i: int| 0 <= i < rest.len() implies lines::one_line(#[trigger] rest[i]) by {
            assert(rest[i] == ls[i + 1]);
        }
        match property_in(ls[0]) {
            Some(p) => {
                lemma_put_plain(ps, p.0, p.1);
                lemma_with_lines_plain(put(ps, p.0, p.1), rest);
            },
            None => lemma_with_lines_plain(ps, rest),
        }
    }
}

/// Putting a plain property among plain ones leaves plain ones.
proof fn lemma_put_plain(ps: Seq<(Seq<char>, Seq<char>)>, k: Seq<char>, v: Seq<char>)
    requires
        all_plain(ps),
        plain((k, v)),
    ensures
        all_plain(put(ps, k, v)),
{
    lemma_put_keys(ps, k, v);
    let r = put(ps, k, v);
    assert forall|i: int| 0 <= i < r.len() implies plain(#[trigger] r[i]) by {
        if r[i] != (k, v) {
            let j = choose|j: int| 0 <= j < ps.len() && #[trigger] ps[j] == r[i];
            assert(plain(ps[j]));
        }
    }
}

/// A key behind all others is put at the end.
proof fn lemma_put_at_end(ps: Seq<(Seq<char>, Seq<char>)>, k: Seq<char>, v: Seq<char>)
    requires
        forall|i: int| 0 <= i < ps.len() ==> order::less((#[trigger] ps[i]).0, k),
    ensures
        put(ps, k, v) == ps.push((k, v)),
    decreases ps.len(),
{
    if ps.len() > 0 {
        let rest = ps.skip(1);
        order::lemma_less_total(ps[0].0, k);
        assert forall|i: int| 0 <= i < rest.len() implies order::less(
            (#[trigger] rest[i]).0,
            k,
        ) by {
            assert(rest[i] == ps[i + 1]);
        }
        lemma_put_at_end(rest, k, v);
        assert(seq![ps[0]] + rest.push((k, v)) =~= ps.push((k, v)));
    } else {
        assert(put(ps, k, v) =~= ps.push((k, v)));
    }
}

/// Plain properties in order are read back from their lines.
proof fn lemma_lines_read_back(ps: Seq<(Seq<char>, Seq<char>)>, i: int)
    requires
        in_order(ps),
        all_plain(ps),
        0 <= i <= ps.len(),
    ensures
        with_lines(ps.take(i), property_lines(ps).skip(i)) == ps,
    decreases ps.len() - i,
{
    let ls = property_lines(ps);
    if i == ps.len() {
        assert(ps.take(i) =~= ps);
    } else {
        assert(ls.skip(i)[0] == ls[i]);
        assert(ls.skip(i).skip(1) =~= ls.skip(i + 1));
        assert(plain(ps[i]));
        lemma_plain_line(ps[i]);
        let had = ps.take(i);
        assert forall|j: int| 0 <= j < had.len() implies order::less(
            (#[trigger] had[j]).0,
            ps[i].0,
        ) by {
            assert(had[j] == ps[j]);
        }
        lemma_put_at_end(had, ps[i].0, ps[i].1);
        assert(had.push((ps[i].0, ps[i].1)) =~= ps.take(i + 1));
        lemma_lines_read_back(ps, i + 1);
    }
}

/// Plain properties in order that are written to a file are read back from it.
pub proof fn properties_read_back(ps: Seq<(Seq<char>, Seq<char>)>)
    requires
        in_order(ps),
        all_plain(ps),
    ensures
        properties(lines::terminated(property_lines(ps))) == ps,
{
    let ls = property_lines(ps);
    assert forall|i: int| 0 <= i < ls.len() implies lines::one_line(#[trigger] ls[i])
        && lines::strip_cr(ls[i]) == ls[i] by {
        assert(plain(ps[i]));
        lemma_plain_line(ps[i]);
    }
    lines::lemma_lines_terminated(ls);
    assert(lines::stripped(ls) =~= ls);
    lemma_lines_read_back(ps, 0);
    assert(ps.take(0) =~= Seq::empty());
    assert(ls.skip(0) =~= ls);
}

/// The properties of a file are plain and in order.
proof fn lemma_properties(content: Seq<char>)
    ensures
        in_order(properties(content)),
        all_plain(properties(content)),
{
    lines::lemma_lines_one_line(content);
    lemma_with_lines_in_order(Seq::empty(), lines::lines(content));
    lemma_with_lines_plain(Seq::empty(), lines::lines(content));
}

/// Choosing a shader keeps the properties plain and in order.
proof fn lemma_with_shader(ps: Seq<(Seq<char>, Seq<char>)>, filename: Seq<char>)
    requires
        in_order(ps),
        all_plain(ps),
        text::is_trimmed(filename),
        lines::one_line(filename),
    ensures
        in_order(with_shader(ps, filename)),
        all_plain(with_shader(ps, filename)),
{
    reveal_strlit("shaderPack");
    reveal_strlit("enableShaders");
    reveal_strlit("true");
    put_keeps_order(ps, "shaderPack"@, filename);
    lemma_put_plain(ps, "shaderPack"@, filename);
    let once = put(ps, "shaderPack"@, filename);
    put_keeps_order(once, "enableShaders"@, "true"@);
    lemma_put_plain(once, "enableShaders"@, "true"@);
}

/// The file that choosing a shader leaves is read back as the properties with that
/// choice.
pub proof fn chosen_shader_reads_back(content: Seq<char>, filename: Seq<char>)
    requires
        text::is_trimmed(filename),
        lines::one_line(filename),
    ensures
        properties(with_default_shader(Some(content), filename)) == with_shader(
            properties(content),
            filename,
        ),
{
    lemma_properties(content);
    lemma_with_shader(properties(content), filename);
    properties_read_back(with_shader(properties(content), filename));
}

/// A key that comes before all others has no value.
proof fn lemma_no_value(ps: Seq<(Seq<char>, Seq<char>)>, k: Seq<char>)
    requires
        forall|i: int| 0 <= i < ps.len() ==> order::less(k, (#[trigger] ps[i]).0),
    ensures
        value_of(ps, k) is None,
    decreases ps.len(),
{
    if ps.len() > 0 {
        order::lemma_less_total(k, ps[0].0);
        let rest = ps.skip(1);
        assert forall|i: int| 0 <= i < rest.len() implies order::less(
            k,
            (#[trigger] rest[i]).0,
        ) by {
            assert(rest[i] == ps[i + 1]);
        }
        lemma_no_value(rest, k);
    }
}

/// Properties in order are determined by the values of the keys.
pub proof fn values_determine_properties(
    a: Seq<(Seq<char>, Seq<char>)>,
    b: Seq<(Seq<char>, Seq<char>)>,
)
    requires
        in_order(a),
        in_order(b),
        forall|k: Seq<char>| #[trigger] value_of(a, k) == value_of(b, k),
    ensures
        a == b,
    decreases a.len(),
{
    if a.len() == 0 {
        if b.len() > 0 {
            assert(value_of(a, b[0].0) == value_of(b, b[0].0));
        }
        assert(a =~= b);
    } else if b.len() == 0 {
        assert(value_of(a, a[0].0) == value_of(b, a[0].0));
    } else {
        let ra = a.skip(1);
        let rb = b.skip(1);
        let ka = a[0].0;
        let kb = b[0].0;
        assert(value_of(a, ka) == value_of(b, ka));
        assert(value_of(a, kb) == value_of(b, kb));
        order::lemma_less_total(ka, kb);
        if order::less(ka, kb) {
            assert forall|i: int| 0 <= i < b.len() implies order::less(
                ka,
                (#[trigger] b[i]).0,
            ) by {
                if i > 0 {
                    order::lemma_less_transitive(ka, b[0].0, b[i].0);
                }
            }
            lemma_no_value(b, ka);
        }
        if order::less(kb, ka) {
            assert forall|i: int| 0 <= i < a.len() implies order::less(
                kb,
                (#[trigger] a[i]).0,
            ) by {
                if i > 0 {
                    order::lemma_less_transitive(kb, a[0].0, a[i].0);
                }
            }
            lemma_no_value(a, kb);
        }
        assert(in_order(ra)) by {
            assert forall|i: int, j: int| 0 <= i < j < ra.len() implies order::less(
                (#[trigger] ra[i]).0,
                (#[trigger] ra[j]).0,
            ) by {
                assert(ra[i] == a[i + 1] && ra[j] == a[j + 1]);
            }
        }
        assert(in_order(rb)) by {
            assert forall|i: int, j: int| 0 <= i < j < rb.len() implies order::less(
                (#[trigger] rb[i]).0,
                (#[trigger] rb[j]).0,
            ) by {
                assert(rb[i] == b[i + 1] && rb[j] == b[j + 1]);
            }
        }
        assert forall|k: Seq<char>| #[trigger] value_of(ra, k) == value_of(rb, k) by {
            assert(value_of(a, k) == value_of(b, k));
            if k == ka {
                assert forall|i: int| 0 <= i < ra.len() implies order::less(
                    ka,
                    (#[trigger] ra[i]).0,
                ) by {
                    assert(ra[i] == a[i + 1]);
                }
                assert forall|i: int| 0 <= i < rb.len() implies order::less(
                    ka,
                    (#[trigger] rb[i]).0,
                ) by {
                    assert(rb[i] == b[i + 1]);
                }
                lemma_no_value(ra, ka);
                lemma_no_value(rb, ka);
            }
        }
        values_determine_properties(ra, rb);
        assert(a =~= seq![a[0]] + ra);
        assert(b =~= seq![b[0]] + rb);
    }
}

/// The shader that is chosen last counts: an earlier choice leaves no trace in the file.
/// In particular, choosing a shader twice is choosing it once.
pub proof fn last_shader_counts(content: Seq<char>, first: Seq<char>, second: Seq<char>)
    requires
        text::is_trimmed(first),
        lines::one_line(first),
    ensures
        with_default_shader(Some(with_default_shader(Some(content), first)), second)
            == with_default_shader(Some(content), second),
{
    chosen_shader_reads_back(content, first);
    lemma_properties(content);
    let ps = properties(content);
    lemma_with_shader(ps, first);
    let once = with_shader(ps, first);
    let twice = with_shader(once, second);
    let direct = with_shader(ps, second);
    put_keeps_order(once, "shaderPack"@, second);
    put_keeps_order(put(once, "shaderPack"@, second), "enableShaders"@, "true"@);
    put_keeps_order(ps, "shaderPack"@, second);
    put_keeps_order(put(ps, "shaderPack"@, second), "enableShaders"@, "true"@);
    assert forall|k: Seq<char>| #[trigger] value_of(twice, k) == value_of(direct, k) by {
        put_changes_one_value(ps, "shaderPack"@, first, k);
        put_changes_one_value(put(ps, "shaderPack"@, first), "enableShaders"@, "true"@, k);
        put_changes_one_value(once, "shaderPack"@, second, k);
        put_changes_one_value(put(once, "shaderPack"@, second), "enableShaders"@, "true"@, k);
        put_changes_one_value(ps, "shaderPack"@, second, k);
        put_changes_one_value(put(ps, "shaderPack"@, second), "enableShaders"@, "true"@, k);
    }
    values_determine_properties(twice, direct);
}

/// Puts a property in.
fn put_property(ps: &mut Vec<Property>, key: String, value: String)
    ensures
        pairs(final(ps)@) == put(pairs(old(ps)@), key@, value@),
{
    let ghost all = pairs(ps@);
    let ghost k = key@;
    let ghost v = value@;
    let mut i: usize = 0;
    assert(all.skip(0) =~= all);
    assert(all.take(0) + put(all, k, v) =~= put(all, k, v));
    while i < ps.len() && !text::same(ps[i].key.as_str(), key.as_str()) && !order::comes_before(
        key.as_str(),
        ps[i].key.as_str(),
    )
        invariant
            i <= ps.len(),
            all == pairs(ps@),
            k == key@,
            all.take(i as int) + put(all.skip(i as int), k, v) == put(all, k, v),
        decreases ps.len() - i,
    {
        proof {
            let rest = all.skip(i as int);
            assert(rest[0] == all[i as int]);
            assert(rest.skip(1) =~= all.skip(i + 1));
            assert(all.take(i as int) + (seq![rest[0]] + put(rest.skip(1), k, v)) =~= all.take(
                i + 1,
            ) + put(rest.skip(1), k, v));
        }
        i = i + 1;
    }
    let ghost rest = all.skip(i as int);
    if i < ps.len() && text::same(ps[i].key.as_str(), key.as_str()) {
        assert(rest[0] == all[i as int]);
        ps.set(i, Property { key, value });
        assert(pairs(ps@) =~= all.take(i as int) + (seq![(k, v)] + rest.skip(1)));
    } else {
        if i < ps.len() {
            assert(rest[0] == all[i as int]);
        }
        ps.insert(i, Property { key, value });
        assert(pairs(ps@) =~= all.take(i as int) + (seq![(k, v)] + rest));
        assert(rest.len() == 0 ==> seq![(k, v)] + rest =~= seq![(k, v)]);
    }
}

/// The property that a line holds.
fn property_of_line(line: &str) -> (r: Option<Property>)
    ensures
        match r {
            Some(p) => property_in(line@) == Some((p.key@, p.value@)),
            None => property_in(line@) is None,
        },
{
    let t = text::trimmed(line);
    let cs = text::chars_of(t.as_str());
    if cs.len() == 0 || cs[0] == '#' {
        return None;
    }
    assert(cs@.skip(0) =~= cs@);
    let eq = text::find_from(&cs, 0, '=');
    if eq >= cs.len() {
        return None;
    }
    let key = text::trimmed(text::string_of(&cs, 0, eq).as_str());
    let value = text::trimmed(text::string_of(&cs, eq + 1, cs.len()).as_str());
    assert(cs@.subrange(0, eq as int) =~= cs@.take(eq as int));
    assert(cs@.subrange(eq + 1, cs.len() as int) =~= cs@.skip(eq + 1));
    if key.as_str().is_empty() {
        return None;
    }
    Some(Property { key, value })
}

/// The properties that a file holds.
fn read_properties(content: &str) -> (r: Vec<Property>)
    ensures
        pairs(r@) == properties(content@),
{
    let ls = lines::lines_of(content);
    let ghost all = text::views(ls@);
    let mut r: Vec<Property> = Vec::new();
    let mut i: usize = 0;
    assert(all.skip(0) =~= all);
    assert(pairs(r@) =~= Seq::empty());
    while i < ls.len()
        invariant
            i <= ls.len(),
            all == text::views(ls@),
            with_lines(pairs(r@), all.skip(i as int)) == with_lines(Seq::empty(), all),
        decreases ls.len() - i,
    {
        assert(all.skip(i as int)[0] == ls@[i as int]@);
        assert(all.skip(i as int).skip(1) =~= all.skip(i + 1));
        match property_of_line(ls[i].as_str()) {
            Some(p) => put_property(&mut r, p.key, p.value),
            None => {},
        }
        i = i + 1;
    }
    r
}

/// The text of properties, one on each line.
fn write_properties(ps: &Vec<Property>) -> (r: String)
    ensures
        r@ == lines::terminated(property_lines(pairs(ps@))),
{
    let mut ls: Vec<String> = Vec::new();
    let mut i: usize = 0;
    while i < ps.len()
        invariant
            i <= ps.len(),
            text::views(ls@) == property_lines(pairs(ps@)).take(i as int),
        decreases ps.len() - i,
    {
        let ghost before = text::views(ls@);
        ls.push(text::cat3(ps[i].key.as_str(), "=", ps[i].value.as_str()));
        assert(text::views(ls@) =~= before.push(property_lines(pairs(ps@))[i as int]));
        i = i + 1;
    }
    assert(text::views(ls@) =~= property_lines(pairs(ps@)));
    lines::terminate(&ls)
}

/// The content of `iris.properties` with a shader pack chosen and shaders switched on.
/// Comments go, and the properties come out in the order of their keys. `existing` is
/// the content of the file where it could be read.
pub fn set_iris_default_shader(existing: Option<&str>, filename: &str) -> (r: String)
    ensures
        r@ == with_default_shader(text::opt_str_view(existing), filename@),
{
    let mut ps: Vec<Property> = match existing {
        Some(content) => read_properties(content),
        None => {
            let v: Vec<Property> = Vec::new();
            assert(pairs(v@) =~= Seq::empty());
            v
        },
    };
    put_property(&mut ps, "shaderPack".to_owned(), filename.to_owned());
    put_property(&mut ps, "enableShaders".to_owned(), "true".to_owned());
    write_properties(&ps)
}

/// The content of `iris.properties` with the name of a shader pack replaced by that of its
/// update.
pub open spec fn renamed_in(
    content: Seq<char>,
    old_filename: Seq<char>,
    new_filename: Seq<char>,
) -> Option<Seq<char>> {
    if text::contains(content, old_filename) {
        Some(text::replace(content, old_filename, new_filename))
    } else {
        None
    }
}

/// The content of `iris.properties` with the name of a shader pack replaced by that of
/// its update; `None` where the old name is not in it, and the file stays as it is.
pub fn replace_in_iris_properties(content: &str, old_filename: &str, new_filename: &str) -> (r:
    Option<String>)
    ensures
        text::opt_view(r) == renamed_in(content@, old_filename@, new_filename@),
{
    if text::has(content, old_filename) {
        Some(text::replaced(content, old_filename, new_filename))
    } else {
        None
    }
}

/// A property is read from a line that holds its key, an equals sign and its value. A line
/// that begins with a number sign holds none, and neither does one without an equals sign.
pub proof fn properties_are_key_and_value(k: Seq<char>, v: Seq<char>, line: Seq<char>)
    ensures
        plain((k, v)) ==> property_in(k + "="@ + v) == Some((k, v)),
        text::is_trimmed(line) && line.len() > 0 && line[0] == '#' ==> property_in(line) is None,
        !line.contains('=') ==> property_in(line) is None,
{
    if plain((k, v)) {
        lemma_plain_line((k, v));
    }
    if text::is_trimmed(line) {
        text::lemma_trimmed_stays(line);
    }
    if !line.contains('=') {
        let t = text::trim(line);
        text::lemma_trim(line);
        lines::lemma_find(t, '=');
        let eq = text::find(t, '=');
        if eq < t.len() {
            let (a, b) = text::trim_range(line);
            assert(line[a + eq] == '=');
        }
    }
}

/// A value that is looked up is that of a property in the list.
proof fn lemma_value_stands(ps: Seq<(Seq<char>, Seq<char>)>, k: Seq<char>) -> (i: int)
    requires
        value_of(ps, k) is Some,
    ensures
        0 <= i < ps.len(),
        ps[i] == (k, value_of(ps, k)->Some_0),
    decreases ps.len(),
{
    if ps[0].0 == k {
        0
    } else {
        let i = lemma_value_stands(ps.skip(1), k);
        assert(ps.skip(1)[i] == ps[i + 1]);
        i + 1
    }
}

/// The file in which a shader was chosen has a line that names the shader's file and a line
/// that switches shaders on.
pub proof fn file_names_the_shader(existing: Option<Seq<char>>, filename: Seq<char>)
    requires
        text::is_trimmed(filename),
        lines::one_line(filename),
    ensures
        lines::lines(with_default_shader(existing, filename)).contains(
            "shaderPack="@ + filename,
        ),
        lines::lines(with_default_shader(existing, filename)).contains("enableShaders=true"@),
{
    let content = match existing {
        Some(c) => c,
        None => Seq::empty(),
    };
    let had = properties(content);
    assert(existing is None ==> had =~= Seq::empty());
    lemma_properties(content);
    lemma_with_shader(had, filename);
    shader_is_chosen(content, filename, "shaderPack"@);
    let ps = with_shader(had, filename);
    let ls = property_lines(ps);
    assert forall|i: int| 0 <= i < ls.len() implies lines::one_line(#[trigger] ls[i])
        && lines::strip_cr(ls[i]) == ls[i] by {
        assert(plain(ps[i]));
        lemma_plain_line(ps[i]);
    }
    lines::lemma_lines_terminated(ls);
    assert(lines::stripped(ls) =~= ls);
    let i = lemma_value_stands(ps, "shaderPack"@);
    let j = lemma_value_stands(ps, "enableShaders"@);
    reveal_strlit("shaderPack");
    reveal_strlit("=");
    reveal_strlit("shaderPack=");
    reveal_strlit("enableShaders");
    reveal_strlit("true");
    reveal_strlit("enableShaders=true");
    assert(ls[i] =~= "shaderPack="@ + filename);
    assert(ls[j] =~= "enableShaders=true"@);
}

/// Where the name of the old shader pack first stands in the file, that of its update stands
/// instead, and the rest of the file is gone through in the same way; a file without the old
/// name is left as it is.
pub proof fn update_takes_the_place_of_the_old_name(
    front: Seq<char>,
    old_filename: Seq<char>,
    rest: Seq<char>,
    new_filename: Seq<char>,
    other: Seq<char>,
)
    requires
        old_filename.len() > 0,
        forall|j: int|
            0 <= j < front.len() ==> !text::occurs_at(front + old_filename + rest, old_filename, j),
    ensures
        renamed_in(front + old_filename + rest, old_filename, new_filename) == Some(
            front + new_filename + text::replace(rest, old_filename, new_filename),
        ),
        !text::contains(rest, old_filename) ==> renamed_in(
            front + old_filename + rest,
            old_filename,
            new_filename,
        ) == Some(front + new_filename + rest),
        !text::contains(other, old_filename) ==> renamed_in(other, old_filename, new_filename)
            is None,
{
    let s = front + old_filename + rest;
    text::first_piece_is_replaced(front, old_filename, rest, new_filename, rest);
    let n = front.len() as int;
    assert(s.subrange(n, n + old_filename.len()) =~= old_filename);
    assert(text::occurs_at(s, old_filename, n));
}

/// A key that no line holds keeps the value that it had.
proof fn lemma_lines_without_key(
    ps: Seq<(Seq<char>, Seq<char>)>,
    ls: Seq<Seq<char>>,
    k: Seq<char>,
)
    requires
        forall|j: int|
            0 <= j < ls.len() ==> !(property_in(#[trigger] ls[j]) is Some && property_in(
                ls[j],
            )->Some_0.0 == k),
    ensures
        value_of(with_lines(ps, ls), k) == value_of(ps, k),
    decreases ls.len(),
{
    if ls.len() > 0 {
        let rest = ls.skip(1);
        assert forall|j: int| 0 <= j < rest.len() implies !(property_in(#[trigger] rest[j]) is Some
            && property_in(rest[j])->Some_0.0 == k) by {
            assert(rest[j] == ls[j + 1]);
        }
        assert(!(property_in(ls[0]) is Some && property_in(ls[0])->Some_0.0 == k));
        match property_in(ls[0]) {
            Some(p) => {
                put_changes_one_value(ps, p.0, p.1, k);
                lemma_lines_without_key(put(ps, p.0, p.1), rest, k);
            },
            None => lemma_lines_without_key(ps, rest, k),
        }
    }
}

/// The last line that holds a key gives its value.
proof fn lemma_last_line_counts(
    ps: Seq<(Seq<char>, Seq<char>)>,
    ls: Seq<Seq<char>>,
    i: int,
    k: Seq<char>,
    v: Seq<char>,
)
    requires
        0 <= i < ls.len(),
        property_in(ls[i]) == Some((k, v)),
        forall|j: int|
            i < j < ls.len() ==> !(property_in(#[trigger] ls[j]) is Some && property_in(
                ls[j],
            )->Some_0.0 == k),
    ensures
        value_of(with_lines(ps, ls), k) == Some(v),
    decreases ls.len(),
{
    let rest = ls.skip(1);
    assert forall|j: int| i - 1 < j < rest.len() && 0 <= j implies !(property_in(
        #[trigger] rest[j],
    ) is Some && property_in(rest[j])->Some_0.0 == k) by {
        assert(rest[j] == ls[j + 1]);
    }
    if i == 0 {
        put_changes_one_value(ps, k, v, k);
        lemma_lines_without_key(put(ps, k, v), rest, k);
    } else {
        assert(rest[i - 1] == ls[i]);
        match property_in(ls[0]) {
            Some(p) => lemma_last_line_counts(put(ps, p.0, p.1), rest, i - 1, k, v),
            None => lemma_last_line_counts(ps, rest, i - 1, k, v),
        }
    }
}

/// Of the lines of a file that hold a key, the last gives its value, and a key that no line
/// holds has none.
pub proof fn last_line_of_a_key_counts(
    content: Seq<char>,
    i: int,
    k: Seq<char>,
    v: Seq<char>,
)
    ensures
        0 <= i < lines::lines(content).len() && property_in(lines::lines(content)[i]) == Some(
            (k, v),
        ) && (forall|j: int|
            i < j < lines::lines(content).len() ==> !(property_in(
                #[trigger] lines::lines(content)[j],
            ) is Some && property_in(lines::lines(content)[j])->Some_0.0 == k)) ==> value_of(
            properties(content),
            k,
        ) == Some(v),
        (forall|j: int|
            0 <= j < lines::lines(content).len() ==> !(property_in(
                #[trigger] lines::lines(content)[j],
            ) is Some && property_in(lines::lines(content)[j])->Some_0.0 == k)) ==> value_of(
            properties(content),
            k,
        ) is None,
{
    let ls = lines::lines(content);
    if forall|j: int|
        0 <= j < ls.len() ==> !(property_in(#[trigger] ls[j]) is Some && property_in(
            ls[j],
        )->Some_0.0 == k) {
        lemma_lines_without_key(Seq::empty(), ls, k);
    } else if 0 <= i < ls.len() && property_in(ls[i]) == Some((k, v)) && (forall|j: int|
        i < j < ls.len() ==> !(property_in(#[trigger] ls[j]) is Some && property_in(
            ls[j],
        )->Some_0.0 == k)) {
        lemma_last_line_counts(Seq::empty(), ls, i, k, v);
    }
}

} // verus!
