//! The plain configuration format: `[section]` headers, `key = value` pairs,
//! blank lines and `#` comments.
use crate::text::{
    find_char, first_char, last_char, lines, first_index, same, split_lines, strs, trim, trimmed,
};
use vstd::prelude::*;

verus! {

/// What one line says.
pub enum LineV {
    Nothing,
    Section(Seq<char>),
    Pair(Seq<char>, Seq<char>),
}

/// A section: its name and its pairs, in order.
pub struct SectionV {
    pub name: Seq<char>,
    pub pairs: Seq<(Seq<char>, Seq<char>)>,
}

/// A whole file: every pair in order, and the sections.
pub struct IniV {
    pub all: Seq<(Seq<char>, Seq<char>)>,
    pub sections: Seq<SectionV>,
}

/// The pair that a text with an `=` makes, both sides trimmed.
pub open spec fn pair_of(t: Seq<char>) -> Option<(Seq<char>, Seq<char>)> {
    let i = first_index(t, '=');
    if i < t.len() {
        Some((trimmed(t.take(i)), trimmed(t.skip(i + 1))))
    } else {
        None
    }
}

/// What a line says: white space around it does not count, nor do blank lines and
/// those that begin with `#`.
pub open spec fn line_of(line: Seq<char>) -> LineV {
    let t = trimmed(line);
    if t.len() == 0 || t[0] == '#' {
        LineV::Nothing
    } else if t[0] == '[' && t.last() == ']' {
        LineV::Section(t.subrange(1, t.len() - 1))
    } else {
        match pair_of(t) {
            Some((k, v)) => LineV::Pair(k, v),
            None => LineV::Nothing,
        }
    }
}

/// What the lines of a file say together.
pub open spec fn ini_of(lines: Seq<Seq<char>>) -> IniV
    decreases lines.len(),
{
    if lines.len() == 0 {
        IniV { all: Seq::empty(), sections: Seq::empty() }
    } else {
        let before = ini_of(lines.drop_last());
        match line_of(lines.last()) {
            LineV::Nothing => before,
            LineV::Section(name) => IniV {
                sections: before.sections.push(SectionV { name, pairs: Seq::empty() }),
                ..before
            },
            LineV::Pair(k, v) => IniV {
                all: before.all.push((k, v)),
                sections: if before.sections.len() == 0 {
                    before.sections
                } else {
                    let s = before.sections.last();
                    before.sections.drop_last().push(
                        SectionV { name: s.name, pairs: s.pairs.push((k, v)) },
                    )
                },
            },
        }
    }
}

/// The value that `key` was last given.
pub open spec fn last_value(pairs: Seq<(Seq<char>, Seq<char>)>, key: Seq<char>) -> Option<Seq<char>>
    decreases pairs.len(),
{
    if pairs.len() == 0 {
        None
    } else if pairs.last().0 == key {
        Some(pairs.last().1)
    } else {
        last_value(pairs.drop_last(), key)
    }
}

/// `v`, or `d` where there is none.
pub open spec fn or_else(v: Option<Seq<char>>, d: Seq<char>) -> Seq<char> {
    match v {
        Some(x) => x,
        None => d,
    }
}

/// A section as it was read.
#[derive(Debug)]
pub struct Section {
    pub name: String,
    pub pairs: Vec<(String, String)>,
}

/// A file as it was read.
#[derive(Debug)]
pub struct Ini {
    pub all: Vec<(String, String)>,
    pub sections: Vec<Section>,
}

/// What one line was read as.
pub enum Entry {
    Nothing,
    Section(String),
    Pair(String, String),
}

/// Pairs of texts.
pub open spec fn text_pairs(v: Seq<(String, String)>) -> Seq<(Seq<char>, Seq<char>)> {
    Seq::new(v.len(), |i: int| (v[i].0@, v[i].1@))
}

impl Section {
    pub open spec fn view(&self) -> SectionV {
        SectionV { name: self.name@, pairs: text_pairs(self.pairs@) }
    }
}

/// The sections read.
pub open spec fn section_views(v: Seq<Section>) -> Seq<SectionV> {
    Seq::new(v.len(), |i: int| v[i].view())
}

impl Ini {
    pub open spec fn view(&self) -> IniV {
        IniV { all: text_pairs(self.all@), sections: section_views(self.sections@) }
    }
}

impl Entry {
    pub open spec fn view(&self) -> LineV {
        match self {
            Entry::Nothing => LineV::Nothing,
            Entry::Section(s) => LineV::Section(s@),
            Entry::Pair(k, v) => LineV::Pair(k@, v@),
        }
    }
}

pub proof fn lemma_text_pairs_push(v: Seq<(String, String)>, x: (String, String))
    ensures
        text_pairs(v.push(x)) == text_pairs(v).push((x.0@, x.1@)),
{
    assert(text_pairs(v.push(x)) =~= text_pairs(v).push((x.0@, x.1@)));
}

proof fn lemma_sections_push(v: Seq<Section>, x: Section)
    ensures
        section_views(v.push(x)) == section_views(v).push(x.view()),
{
    assert(section_views(v.push(x)) =~= section_views(v).push(x.view()));
}

/// The pair that a text with an `=` makes.
pub fn split_pair(t: &str) -> (r: Option<(String, String)>)
    ensures
        match r {
            Some((k, v)) => pair_of(t@) == Some((k@, v@)),
            None => pair_of(t@) is None,
        },
{
    let n: usize = t.unicode_len();
    let i: usize = find_char(t, '=');
    if i < n {
        let k: &str = t.substring_char(0, i);
        let v: &str = t.substring_char(i + 1, n);
        assert(k@ =~= t@.take(i as int));
        assert(v@ =~= t@.skip(i + 1));
        Some((trim(k).to_owned(), trim(v).to_owned()))
    } else {
        None
    }
}

/// What a line says.
pub fn read_line(line: &str) -> (r: Entry)
    ensures
        r.view() == line_of(line@),
{
    let t: &str = trim(line);
    let first: char = match first_char(t) {
        Some(c) => c,
        None => return Entry::Nothing,
    };
    if first == '#' {
        return Entry::Nothing;
    }
    if let Some(last) = last_char(t) {
        if first == '[' && last == ']' {
            let n: usize = t.unicode_len();
            return Entry::Section(t.substring_char(1, n - 1).to_owned());
        }
    }
    match split_pair(t) {
        Some((k, v)) => Entry::Pair(k, v),
        None => Entry::Nothing,
    }
}

/// Reads a whole file.
pub fn read_ini(content: &str) -> (r: Ini)
    ensures
        r.view() == ini_of(lines(content@)),
{
    let ls: Vec<String> = split_lines(content);
    let ghost all = lines(content@);
    let mut ini: Ini = Ini { all: Vec::new(), sections: Vec::new() };
    assert(ini.view().all =~= ini_of(all.take(0)).all);
    assert(ini.view().sections =~= ini_of(all.take(0)).sections);
    for i in 0..ls.len()
        invariant
            strs(ls@) == all,
            ini.view() == ini_of(all.take(i as int)),
    {
        let ghost before = ini.view();
        proof {
            assert(all.take(i + 1).drop_last() =~= all.take(i as int));
            assert(all.take(i + 1).last() == ls@[i as int]@);
        }
        match read_line(ls[i].as_str()) {
            Entry::Nothing => {},
            Entry::Section(name) => {
                let s: Section = Section { name, pairs: Vec::new() };
                proof {
                    lemma_sections_push(ini.sections@, s);
                    assert(s.view().pairs =~= Seq::empty());
                }
                ini.sections.push(s);
            },
            Entry::Pair(k, v) => {
                let one: (String, String) = (k.clone(), v.clone());
                proof {
                    lemma_text_pairs_push(ini.all@, one);
                }
                ini.all.push(one);
                let ghost old_sections = ini.sections@;
                if let Some(mut s) = ini.sections.pop() {
                    let two: (String, String) = (k, v);
                    proof {
                        lemma_text_pairs_push(s.pairs@, two);
                    }
                    s.pairs.push(two);
                    proof {
                        lemma_sections_push(ini.sections@, s);
                        assert(section_views(ini.sections@)
                            =~= section_views(old_sections).drop_last());
                    }
                    ini.sections.push(s);
                }
            },
        }
        assert(ini.view() == ini_of(all.take(i + 1)));
    }
    assert(all.take(all.len() as int) =~= all);
    ini
}

/// The value that `key` was last given.
pub fn find_last(pairs: &Vec<(String, String)>, key: &str) -> (r: Option<String>)
    ensures
        match r {
            Some(v) => last_value(text_pairs(pairs@), key@) == Some(v@),
            None => last_value(text_pairs(pairs@), key@) is None,
        },
{
    let ghost all = text_pairs(pairs@);
    let mut i: usize = pairs.len();
    assert(all.take(i as int) =~= all);
    while i > 0
        invariant
            all == text_pairs(pairs@),
            i <= pairs.len(),
            last_value(all, key@) == last_value(all.take(i as int), key@),
        decreases i,
    {
        assert(all.take(i as int).last() == all[i - 1]);
        assert(all.take(i as int).drop_last() =~= all.take(i - 1));
        if same(pairs[i - 1].0.as_str(), key) {
            return Some(pairs[i - 1].1.clone());
        }
        i = i - 1;
    }
    None
}

/// `v`, or a copy of `d` where there is none.
pub fn value_or(v: Option<String>, d: &str) -> (r: String)
    ensures
        r@ == or_else(crate::text::opt(v), d@),
{
    match v {
        Some(x) => x,
        None => d.to_owned(),
    }
}

} // verus!
