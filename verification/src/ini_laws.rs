//! What follows of a file from the pieces of its text.
use crate::ini::{ini_of, line_of, IniV, LineV, SectionV};
use crate::m3u::lemma_lines_first;
use crate::text::{
    first_index, is_space, lemma_first_index, lemma_first_index_unique, lemma_trim_around, lines, trimmed,
    without_cr,
};
use vstd::prelude::*;

verus! {

/// What is known of a file after one more line.
pub open spec fn ini_step(before: IniV, line: Seq<char>) -> IniV {
    match line_of(line) {
        LineV::Nothing => before,
        LineV::Section(name) => IniV {
            sections: before.sections.push(SectionV { name, pairs: Seq::empty() }),
            ..before
        },
        LineV::Pair(k, v) => IniV {
            all: before.all.push((k, v)),
            sections: if before.sections.len() == 0 {
                before.sections
            } else {
                let s = before.sections.last();
                before.sections.drop_last().push(
                    SectionV { name: s.name, pairs: s.pairs.push((k, v)) },
                )
            },
        },
    }
}

/// What is known of a file after more lines.
pub open spec fn ini_then(base: IniV, ls: Seq<Seq<char>>) -> IniV
    decreases ls.len(),
{
    if ls.len() == 0 {
        base
    } else {
        ini_step(ini_then(base, ls.drop_last()), ls.last())
    }
}

pub open spec fn no_ini() -> IniV {
    IniV { all: Seq::empty(), sections: Seq::empty() }
}

pub proof fn lemma_ini_of_then(ls: Seq<Seq<char>>)
    ensures
        ini_of(ls) == ini_then(no_ini(), ls),
    decreases ls.len(),
{
    if ls.len() > 0 {
        lemma_ini_of_then(ls.drop_last());
    }
}

pub proof fn lemma_ini_then_add(base: IniV, a: Seq<Seq<char>>, b: Seq<Seq<char>>)
    ensures
        ini_then(base, a + b) == ini_then(ini_then(base, a), b),
    decreases b.len(),
{
    if b.len() == 0 {
        assert(a + b =~= a);
    } else {
        assert((a + b).drop_last() =~= a + b.drop_last());
        assert((a + b).last() == b.last());
        lemma_ini_then_add(base, a, b.drop_last());
    }
}

pub proof fn lemma_ini_then_one(base: IniV, line: Seq<char>)
    ensures
        ini_then(base, seq![line]) == ini_step(base, line),
{
    let one = seq![line];
    assert(one.drop_last() =~= Seq::empty());
    assert(ini_then(base, one.drop_last()) == base);
}

/// A carriage return at the end of a line says nothing.
pub proof fn lemma_line_without_cr(line: Seq<char>)
    ensures
        line_of(without_cr(line)) == line_of(line),
{
    if line.len() > 0 && line.last() == '\r' {
        let t = line.drop_last();
        assert(line =~= Seq::<char>::empty() + t + seq!['\r']);
        lemma_trim_around(Seq::empty(), t, seq!['\r']);
    }
}

/// A line feed and more text after a text add what the lines of that text say.
pub proof fn lemma_text_added(base: IniV, a: Seq<char>, b: Seq<char>)
    ensures
        ini_then(base, lines(a + "\n"@ + b)) == ini_then(ini_then(base, lines(a)), lines(b)),
    decreases a.len(),
{
    reveal_strlit("\n");
    let i = first_index(a, '\n');
    lemma_first_index(a, '\n');
    if i < a.len() {
        let x = a.take(i);
        let rest = a.skip(i + 1);
        assert(!x.contains('\n'));
        assert(a =~= x + "\n"@ + rest);
        lemma_lines_first(x, rest);
        assert(a + "\n"@ + b =~= x + "\n"@ + (rest + "\n"@ + b));
        lemma_lines_first(x, rest + "\n"@ + b);
        let one = seq![without_cr(x)];
        lemma_ini_then_add(base, one, lines(rest + "\n"@ + b));
        lemma_ini_then_add(base, one, lines(rest));
        lemma_text_added(ini_then(base, one), rest, b);
    } else {
        assert(!a.contains('\n'));
        lemma_lines_first(a, b);
        lemma_ini_then_add(base, seq![without_cr(a)], lines(b));
        lemma_ini_then_one(base, without_cr(a));
        lemma_line_without_cr(a);
        if a.len() == 0 {
            assert(trimmed(a) =~= Seq::empty());
        } else {
            assert(lines(a) =~= seq![a]);
            lemma_ini_then_one(base, a);
        }
    }
}

/// A text that a line can hold as a value and give back as it is.
pub open spec fn is_value(v: Seq<char>) -> bool {
    !v.contains('\n') && (v.len() == 0 || (!is_space(v[0]) && !is_space(v.last())))
}

/// A key, some spaces, an equals sign, a space and a value are read as that pair.
pub proof fn lemma_pair_line(key: Seq<char>, gap: Seq<char>, v: Seq<char>)
    requires
        key.len() > 0,
        !is_space(key[0]),
        !is_space(key.last()),
        !key.contains('='),
        key[0] != '#' && key[0] != '[',
        forall|j: int| 0 <= j < gap.len() ==> #[trigger] gap[j] == ' ',
        is_value(v),
    ensures
        line_of(key + gap + "= "@ + v) == LineV::Pair(key, v),
{
    reveal_strlit("= ");
    let line = key + gap + "= "@ + v;
    let n = key.len() + gap.len();
    let none = Seq::<char>::empty();
    assert forall|j: int| 0 <= j < gap.len() implies is_space(#[trigger] gap[j]) by {}
    // The line, trimmed.
    let t = if v.len() == 0 {
        key + gap + seq!['=']
    } else {
        line
    };
    if v.len() == 0 {
        assert(line =~= none + t + seq![' ']);
        lemma_trim_around(none, t, seq![' ']);
        assert(t.last() == '=');
    } else {
        assert(line =~= none + t + none);
        lemma_trim_around(none, t, none);
        assert(t.last() == v.last());
    }
    assert(t[0] == key[0]);
    crate::text::lemma_trimmed_fixed(t);
    assert(trimmed(line) == t);
    // The pair.
    assert forall|j: int| 0 <= j < n implies t[j] != '=' by {
        if j < key.len() {
            assert(t[j] == key[j]);
        } else {
            assert(t[j] == gap[j - key.len()]);
        }
    }
    assert(t[n as int] == '=');
    lemma_first_index_unique(t, '=', n as int);
    assert(t.take(n as int) =~= none + key + gap);
    lemma_trim_around(none, key, gap);
    crate::text::lemma_trimmed_fixed(key);
    let right = t.skip(n as int + 1);
    if v.len() == 0 {
        assert(right =~= none);
        assert(trimmed(none) =~= v);
    } else {
        assert(right =~= seq![' '] + v + none);
        lemma_trim_around(seq![' '], v, none);
        crate::text::lemma_trimmed_fixed(v);
    }
}

/// The same line with its line feed, in front of more lines.
pub proof fn lemma_pair_first(base: IniV, key: Seq<char>, gap: Seq<char>, v: Seq<char>, rest: Seq<char>)
    requires
        key.len() > 0,
        !is_space(key[0]),
        !is_space(key.last()),
        !key.contains('='),
        !key.contains('\n'),
        key[0] != '#' && key[0] != '[',
        forall|j: int| 0 <= j < gap.len() ==> #[trigger] gap[j] == ' ',
        is_value(v),
        base.sections.len() > 0,
    ensures
        ini_then(base, lines(key + gap + "= "@ + v + "\n"@ + rest)) == ini_then(
            IniV {
                all: base.all.push((key, v)),
                sections: base.sections.drop_last().push(
                    SectionV {
                        name: base.sections.last().name,
                        pairs: base.sections.last().pairs.push((key, v)),
                    },
                ),
            },
            lines(rest),
        ),
{
    reveal_strlit("= ");
    let line = key + gap + "= "@ + v;
    assert forall|j: int| 0 <= j < line.len() implies line[j] != '\n' by {
        let n = key.len() + gap.len();
        if j < key.len() {
            assert(line[j] == key[j]);
        } else if j < n {
            assert(line[j] == gap[j - key.len()]);
        } else if j >= n + 2 {
            assert(line[j] == v[j - n - 2]);
        }
    }
    lemma_lines_first(line, rest);
    lemma_ini_then_add(base, seq![without_cr(line)], lines(rest));
    lemma_ini_then_one(base, without_cr(line));
    lemma_line_without_cr(line);
    lemma_pair_line(key, gap, v);
}

/// A line that gives a key a value, in front of more lines.
pub open spec fn pair_text(key: Seq<char>, gap: Seq<char>, v: Seq<char>, rest: Seq<char>) -> Seq<char> {
    key + gap + "= "@ + v + "\n"@ + rest
}

/// A header begins a section.
pub proof fn lemma_header_read(base: IniV, name: Seq<char>, rest: Seq<char>)
    requires
        !name.contains('\n'),
    ensures
        ini_then(base, lines((seq!['['] + name + seq![']']) + "\n"@ + rest)) == ini_then(
            IniV {
                sections: base.sections.push(SectionV { name, pairs: Seq::empty() }),
                ..base
            },
            lines(rest),
        ),
{
    let head = seq!['['] + name + seq![']'];
    assert forall|j: int| 0 <= j < head.len() implies head[j] != '\n' by {
        if 0 < j < head.len() - 1 {
            assert(head[j] == name[j - 1]);
        }
    }
    lemma_lines_first(head, rest);
    assert(without_cr(head) == head);
    lemma_ini_then_add(base, seq![head], lines(rest));
    lemma_ini_then_one(base, head);
    crate::text::lemma_trimmed_fixed(head);
    assert(head.subrange(1, head.len() - 1) =~= name);
}

/// One more pair of the section that was begun last.
pub proof fn lemma_pair_read(
    sections: Seq<SectionV>,
    s: SectionV,
    all: Seq<(Seq<char>, Seq<char>)>,
    key: Seq<char>,
    gap: Seq<char>,
    v: Seq<char>,
    rest: Seq<char>,
)
    requires
        key.len() > 0,
        !is_space(key[0]),
        !is_space(key.last()),
        !key.contains('='),
        !key.contains('\n'),
        key[0] != '#' && key[0] != '[',
        forall|j: int| 0 <= j < gap.len() ==> #[trigger] gap[j] == ' ',
        is_value(v),
    ensures
        ini_then(IniV { all, sections: sections.push(s) }, lines(pair_text(key, gap, v, rest)))
            == ini_then(
            IniV {
                all: all.push((key, v)),
                sections: sections.push(SectionV { name: s.name, pairs: s.pairs.push((key, v)) }),
            },
            lines(rest),
        ),
{
    let base = IniV { all, sections: sections.push(s) };
    assert(base.sections.drop_last() =~= sections);
    lemma_pair_first(base, key, gap, v, rest);
}

} // verus!
