//! Playlist files: one entry per line behind an `#EXTM3U` header.
use crate::json::{at, jsons, parsed, str_of, Json, JsonV};
use crate::protocol::is_playlist_answer;
use crate::text::{
    copy_strs, first_char, first_index, is_space, last_char, lemma_first_index,
    lemma_first_index_unique, lemma_strs_push, lemma_strs_remove, lemma_trimmed,
    lemma_trimmed_fixed, lines, same, split_lines, strs, trim, trimmed, without_cr,
};
use vstd::prelude::*;

verus! {

/// A line that names an entry: not blank, and no comment.
pub open spec fn names_entry(line: Seq<char>) -> bool {
    trimmed(line).len() > 0 && trimmed(line)[0] != '#'
}

/// The entries that lines name, trimmed and in order.
pub open spec fn entries_of(lines: Seq<Seq<char>>) -> Seq<Seq<char>>
    decreases lines.len(),
{
    if lines.len() == 0 {
        Seq::empty()
    } else {
        let before = entries_of(lines.drop_last());
        if names_entry(lines.last()) {
            before.push(trimmed(lines.last()))
        } else {
            before
        }
    }
}

/// The entries of a playlist file.
pub open spec fn m3u_entries(text: Seq<char>) -> Seq<Seq<char>> {
    entries_of(lines(text))
}

/// Each item on a line of its own.
pub open spec fn item_lines(items: Seq<Seq<char>>) -> Seq<char>
    decreases items.len(),
{
    if items.len() == 0 {
        Seq::empty()
    } else {
        item_lines(items.drop_last()) + items.last() + "\n"@
    }
}

/// The text of a playlist file that holds `items`.
pub open spec fn m3u_text(items: Seq<Seq<char>>) -> Seq<char> {
    "#EXTM3U\n"@ + item_lines(items)
}

/// A text that can stand as an entry: on one line, not blank, no comment, and with
/// no white space at its ends.
pub open spec fn is_entry(s: Seq<char>) -> bool {
    &&& s.len() > 0
    &&& s[0] != '#'
    &&& !is_space(s[0])
    &&& !is_space(s.last())
    &&& !s.contains('\n')
}

/// A directory stands in a playlist with a slash at its end.
pub open spec fn is_directory_entry(s: Seq<char>) -> bool {
    s.len() > 0 && s.last() == '/'
}

/// The directories among the entries, in order.
pub open spec fn directories_of(entries: Seq<Seq<char>>) -> Seq<Seq<char>>
    decreases entries.len(),
{
    if entries.len() == 0 {
        Seq::empty()
    } else {
        let before = directories_of(entries.drop_last());
        if is_directory_entry(entries.last()) {
            before.push(entries.last())
        } else {
            before
        }
    }
}

/// The entries with each directory replaced by the files found under it; `found[k]`
/// belongs to the `k`-th directory, and one for which nothing was found vanishes.
pub open spec fn expanded(entries: Seq<Seq<char>>, found: Seq<Seq<Seq<char>>>) -> Seq<Seq<char>>
    decreases entries.len(),
{
    if entries.len() == 0 {
        Seq::empty()
    } else {
        let before = expanded(entries.drop_last(), found);
        let k = directories_of(entries.drop_last()).len() as int;
        if !is_directory_entry(entries.last()) {
            before.push(entries.last())
        } else if k < found.len() {
            before + found[k]
        } else {
            before
        }
    }
}

pub open spec fn lists(v: Seq<Vec<String>>) -> Seq<Seq<Seq<char>>> {
    Seq::new(v.len(), |i: int| strs(v[i]@))
}

// ---------------------------------------------------------------------------
// Reading and writing
// ---------------------------------------------------------------------------

/// The entries of a playlist file, directories not yet expanded.
pub fn playlist_entries(content: &str) -> (r: Vec<String>)
    ensures
        strs(r@) == m3u_entries(content@),
{
    let ls: Vec<String> = split_lines(content);
    let ghost all = lines(content@);
    let mut out: Vec<String> = Vec::new();
    assert(strs(out@) =~= entries_of(all.take(0)));
    for i in 0..ls.len()
        invariant
            strs(ls@) == all,
            strs(out@) == entries_of(all.take(i as int)),
    {
        proof {
            assert(all.take(i + 1).drop_last() =~= all.take(i as int));
            assert(all.take(i + 1).last() == ls@[i as int]@);
        }
        let t: &str = trim(ls[i].as_str());
        if let Some(c) = first_char(t) {
            if c != '#' {
                let e: String = t.to_owned();
                proof {
                    lemma_strs_push(out@, e);
                }
                out.push(e);
            }
        }
    }
    assert(all.take(all.len() as int) =~= all);
    out
}

/// The directories that a playlist file names, in order.
pub fn playlist_directories(content: &str) -> (r: Vec<String>)
    ensures
        strs(r@) == directories_of(m3u_entries(content@)),
{
    let raw: Vec<String> = playlist_entries(content);
    let ghost all = strs(raw@);
    let mut out: Vec<String> = Vec::new();
    assert(strs(out@) =~= directories_of(all.take(0)));
    for i in 0..raw.len()
        invariant
            strs(raw@) == all,
            strs(out@) == directories_of(all.take(i as int)),
    {
        proof {
            assert(all.take(i + 1).drop_last() =~= all.take(i as int));
            assert(all.take(i + 1).last() == raw@[i as int]@);
        }
        if last_char(raw[i].as_str()) == Some('/') {
            let e: String = raw[i].clone();
            proof {
                lemma_strs_push(out@, e);
            }
            out.push(e);
        }
    }
    assert(all.take(all.len() as int) =~= all);
    out
}

/// The items of a playlist file, with the directories that it names expanded to
/// the files found under each, and whether the file has to be written anew because
/// it named any. A file that could not be read holds nothing.
pub fn read_m3u(content: Option<&str>, found: &Vec<Vec<String>>) -> (r: (Vec<String>, bool))
    ensures
        strs(r.0@) == (match content {
            Some(c) => expanded(m3u_entries(c@), lists(found@)),
            None => Seq::empty(),
        }),
        r.1 == (match content {
            Some(c) => directories_of(m3u_entries(c@)).len() > 0,
            None => false,
        }),
{
    let mut out: Vec<String> = Vec::new();
    let text: &str = match content {
        Some(c) => c,
        None => {
            assert(strs(out@) =~= Seq::empty());
            return (out, false);
        },
    };
    let raw: Vec<String> = playlist_entries(text);
    let ghost all = strs(raw@);
    let ghost f = lists(found@);
    let mut k: usize = 0;
    assert(strs(out@) =~= expanded(all.take(0), f));
    assert(directories_of(all.take(0)).len() == 0);
    for i in 0..raw.len()
        invariant
            strs(raw@) == all,
            f == lists(found@),
            strs(out@) == expanded(all.take(i as int), f),
            k == directories_of(all.take(i as int)).len(),
            k <= i,
    {
        proof {
            assert(all.take(i + 1).drop_last() =~= all.take(i as int));
            assert(all.take(i + 1).last() == raw@[i as int]@);
        }
        if last_char(raw[i].as_str()) == Some('/') {
            if k < found.len() {
                let ghost before = strs(out@);
                let more: Vec<String> = copy_strs(&found[k]);
                assert(f[k as int] == strs(found@[k as int]@));
                for j in 0..more.len()
                    invariant
                        strs(out@) == before + strs(more@).take(j as int),
                {
                    let e: String = more[j].clone();
                    proof {
                        lemma_strs_push(out@, e);
                        assert(strs(more@).take(j + 1) =~= strs(more@).take(j as int).push(
                            strs(more@)[j as int],
                        ));
                        assert(before + strs(more@).take(j as int).push(strs(more@)[j as int]) =~= (
                        before + strs(more@).take(j as int)).push(strs(more@)[j as int]));
                    }
                    out.push(e);
                }
                proof {
                    assert(strs(more@).take(more@.len() as int) =~= strs(more@));
                }
            }
            k = k + 1;
        } else {
            let e: String = raw[i].clone();
            proof {
                lemma_strs_push(out@, e);
            }
            out.push(e);
        }
    }
    assert(all.take(all.len() as int) =~= all);
    (out, k > 0)
}

/// The text of a playlist file that holds `items`.
pub fn write_m3u(items: &Vec<String>) -> (r: String)
    ensures
        r@ == m3u_text(strs(items@)),
{
    let ghost all = strs(items@);
    let mut out: String = "#EXTM3U\n".to_owned();
    assert(out@ =~= "#EXTM3U\n"@ + item_lines(all.take(0)));
    for i in 0..items.len()
        invariant
            all == strs(items@),
            out@ == "#EXTM3U\n"@ + item_lines(all.take(i as int)),
    {
        proof {
            assert(all.take(i + 1).drop_last() =~= all.take(i as int));
            assert(all.take(i + 1).last() == items@[i as int]@);
        }
        out.append(items[i].as_str());
        out.append("\n");
        assert(out@ =~= "#EXTM3U\n"@ + item_lines(all.take(i + 1)));
    }
    assert(all.take(all.len() as int) =~= all);
    out
}

// ---------------------------------------------------------------------------
// Editing
// ---------------------------------------------------------------------------

/// Adds one entry, trimmed, at the end.
pub fn m3u_append(items: Vec<String>, entry: &str) -> (r: Vec<String>)
    ensures
        strs(r@) == strs(items@).push(trimmed(entry@)),
{
    let mut out: Vec<String> = items;
    let e: String = trim(entry).to_owned();
    proof {
        lemma_strs_push(out@, e);
    }
    out.push(e);
    out
}

/// The entry at `idx` is the one being played.
pub open spec fn is_playing(idx: int, current_pos: i64) -> bool {
    current_pos >= 0 && current_pos == idx
}

/// The items without the one at `idx`, and whether the file has to be written; an
/// index past the end changes nothing. Refused, with nothing, where that item is
/// being played.
pub fn m3u_remove(items: Vec<String>, idx: usize, current_pos: i64) -> (r: Option<
    (Vec<String>, bool),
>)
    ensures
        match r {
            Some((out, write)) => !is_playing(idx as int, current_pos) && write == (idx
                < items@.len()) && strs(out@) == (if idx < items@.len() {
                strs(items@).remove(idx as int)
            } else {
                strs(items@)
            }),
            None => is_playing(idx as int, current_pos),
        },
{
    if current_pos >= 0 && current_pos as u64 == idx as u64 {
        return None;
    }
    let mut out: Vec<String> = items;
    if idx < out.len() {
        proof {
            lemma_strs_remove(out@, idx as int);
        }
        out.remove(idx);
        Some((out, true))
    } else {
        Some((out, false))
    }
}

/// Only the item being played; nothing where none is.
pub fn m3u_crop(items: &Vec<String>, current_pos: i64) -> (r: Option<Vec<String>>)
    ensures
        match r {
            Some(out) => 0 <= current_pos < items@.len() && strs(out@) == seq![
                strs(items@)[current_pos as int],
            ],
            None => !(0 <= current_pos < items@.len()),
        },
{
    if current_pos < 0 {
        return None;
    }
    if current_pos as u64 >= items.len() as u64 {
        return None;
    }
    let idx: usize = current_pos as usize;
    let mut out: Vec<String> = Vec::new();
    out.push(items[idx].clone());
    assert(strs(out@) =~= seq![strs(items@)[current_pos as int]]);
    Some(out)
}

/// Where the items of a playlist come from; an item without a source is left out.
pub open spec fn sources_of(items: Seq<JsonV>) -> Seq<Seq<char>>
    decreases items.len(),
{
    if items.len() == 0 {
        Seq::empty()
    } else {
        let before = sources_of(items.drop_last());
        match str_of(at(items.last(), "filename"@)) {
            Some(f) => before.push(f),
            None => before,
        }
    }
}

/// The sources that a player's answer to a playlist query names; nothing where it is no
/// such answer.
pub open spec fn answered_sources(m: JsonV) -> Option<Seq<Seq<char>>> {
    if is_playlist_answer(m) {
        Some(sources_of(at(m, "data"@)->Arr_0))
    } else {
        None
    }
}

/// The sources that a player's answer names.
pub fn live_sources(m: &Json) -> (r: Option<Vec<String>>)
    ensures
        match r {
            Some(v) => answered_sources(m.view()) == Some(strs(v@)),
            None => answered_sources(m.view()) is None,
        },
{
    let success: bool = match m.str_at("error") {
        Some(e) => same(e.as_str(), "success"),
        None => false,
    };
    if !success {
        return None;
    }
    let items: &Vec<Json> = match m.get("data") {
        Some(d) => match d.as_array() {
            Some(a) => a,
            None => return None,
        },
        None => return None,
    };
    let ghost all = jsons(items@);
    let mut out: Vec<String> = Vec::new();
    assert(strs(out@) =~= sources_of(all.take(0)));
    for i in 0..items.len()
        invariant
            all == jsons(items@),
            strs(out@) == sources_of(all.take(i as int)),
    {
        proof {
            assert(all.take(i + 1).drop_last() =~= all.take(i as int));
            assert(all.take(i + 1).last() == items@[i as int].view());
        }
        if let Some(f) = items[i].str_at("filename") {
            proof {
                lemma_strs_push(out@, f);
            }
            out.push(f);
        }
    }
    assert(all.take(all.len() as int) =~= all);
    Some(out)
}

/// The file for a playlist and how many items it holds; nothing where it is none or holds
/// no item.
pub open spec fn filed(sources: Option<Seq<Seq<char>>>) -> Option<(Seq<char>, int)> {
    match sources {
        Some(v) if v.len() > 0 => Some((m3u_text(v), v.len() as int)),
        _ => None,
    }
}

/// The file to write for a player's answer, and how many items it holds.
pub fn playlist_file(m: &Json) -> (r: Option<(String, usize)>)
    ensures
        match r {
            Some((text, n)) => filed(answered_sources(m.view())) == Some((text@, n as int)),
            None => filed(answered_sources(m.view())) is None,
        },
{
    match live_sources(m) {
        Some(v) => {
            assert(strs(v@).len() == v@.len());
            if v.len() == 0 {
                None
            } else {
                let n: usize = v.len();
                Some((write_m3u(&v), n))
            }
        },
        None => None,
    }
}

/// The file to write for a line that a player answered to a playlist query, and how many
/// items it holds; nothing where the line is no such answer or names no item.
pub fn save_playlist(response: &str) -> (r: Option<(String, usize)>)
    ensures
        ({
            let want = match parsed(response@) {
                Some(m) => filed(answered_sources(m)),
                None => None,
            };
            match r {
                Some((text, n)) => want == Some((text@, n as int)),
                None => want is None,
            }
        }),
{
    match Json::parse(response) {
        Some(m) => playlist_file(&m),
        None => None,
    }
}

// ---------------------------------------------------------------------------
// Laws
// ---------------------------------------------------------------------------

/// The first line of a text that begins with a line that holds no line feed.
pub proof fn lemma_lines_first(a: Seq<char>, rest: Seq<char>)
    requires
        !a.contains('\n'),
    ensures
        lines(a + "\n"@ + rest) == seq![without_cr(a)] + lines(rest),
{
    reveal_strlit("\n");
    let s = a + "\n"@ + rest;
    assert forall|j: int| 0 <= j < a.len() implies s[j] != '\n' by {
        assert(s[j] == a[j]);
        if a[j] == '\n' {
            assert(a.contains('\n'));
        }
    }
    assert(s[a.len() as int] == '\n');
    lemma_first_index_unique(s, '\n', a.len() as int);
    assert(s.take(a.len() as int) =~= a);
    assert(s.skip(a.len() as int + 1) =~= rest);
}

/// One more entry at the front.
proof fn lemma_entries_front(line: Seq<char>, more: Seq<Seq<char>>)
    ensures
        entries_of(seq![line] + more) == (if names_entry(line) {
            seq![trimmed(line)] + entries_of(more)
        } else {
            entries_of(more)
        }),
    decreases more.len(),
{
    let all = seq![line] + more;
    if more.len() == 0 {
        assert(all =~= seq![line]);
        assert(all.drop_last() =~= Seq::<Seq<char>>::empty());
        assert(entries_of(all.drop_last()) =~= Seq::empty());
        assert(Seq::<Seq<char>>::empty().push(trimmed(line)) =~= seq![trimmed(line)]);
        assert(seq![trimmed(line)] + entries_of(more) =~= seq![trimmed(line)]);
    } else {
        lemma_entries_front(line, more.drop_last());
        assert(all.drop_last() =~= seq![line] + more.drop_last());
        assert(all.last() == more.last());
        let before = entries_of(more.drop_last());
        if names_entry(more.last()) {
            assert((seq![trimmed(line)] + before).push(trimmed(more.last())) =~= seq![trimmed(line)]
                + before.push(trimmed(more.last())));
        }
    }
}

/// Item lines, taken apart from the front.
pub proof fn lemma_item_lines_front(items: Seq<Seq<char>>)
    requires
        items.len() > 0,
    ensures
        item_lines(items) == items[0] + "\n"@ + item_lines(items.skip(1)),
    decreases items.len(),
{
    if items.len() == 1 {
        assert(items.skip(1) =~= Seq::<Seq<char>>::empty());
        assert(items.drop_last() =~= Seq::<Seq<char>>::empty());
        assert(item_lines(items) =~= items[0] + "\n"@ + item_lines(items.skip(1)));
    } else {
        lemma_item_lines_front(items.drop_last());
        assert(items.drop_last().skip(1) =~= items.skip(1).drop_last());
        assert(items.skip(1).last() == items.last());
        assert(items.drop_last()[0] == items[0]);
        assert(item_lines(items) =~= items[0] + "\n"@ + item_lines(items.skip(1)));
    }
}

proof fn lemma_item_lines_read(items: Seq<Seq<char>>)
    requires
        forall|i: int| 0 <= i < items.len() ==> is_entry(#[trigger] items[i]),
    ensures
        entries_of(lines(item_lines(items))) == items,
    decreases items.len(),
{
    if items.len() == 0 {
        assert(items =~= Seq::empty());
        assert(lines(item_lines(items)) =~= Seq::empty());
    } else {
        let rest = items.skip(1);
        assert forall|i: int| 0 <= i < rest.len() implies is_entry(#[trigger] rest[i]) by {
            assert(rest[i] == items[i + 1]);
        }
        lemma_item_lines_read(rest);
        lemma_item_lines_front(items);
        assert(is_entry(items[0]));
        lemma_lines_first(items[0], item_lines(rest));
        assert(is_space('\r'));
        assert(without_cr(items[0]) == items[0]);
        lemma_trimmed_fixed(items[0]);
        lemma_entries_front(items[0], lines(item_lines(rest)));
        assert(seq![items[0]] + rest =~= items);
    }
}

/// What was written to a playlist file is what is read back from it.
pub proof fn read_gives_back_what_was_written(items: Seq<Seq<char>>)
    requires
        forall|i: int| 0 <= i < items.len() ==> is_entry(#[trigger] items[i]),
    ensures
        m3u_entries(m3u_text(items)) == items,
{
    reveal_strlit("#EXTM3U\n");
    reveal_strlit("#EXTM3U");
    reveal_strlit("\n");
    let head = "#EXTM3U"@;
    assert("#EXTM3U\n"@ =~= head + "\n"@);
    assert(!head.contains('\n'));
    lemma_lines_first(head, item_lines(items));
    assert(m3u_text(items) =~= head + "\n"@ + item_lines(items));
    assert(without_cr(head) == head);
    lemma_trimmed_fixed(head);
    lemma_entries_front(head, lines(item_lines(items)));
    lemma_item_lines_read(items);
}

/// Every entry read from a playlist file can stand in one: writing what was read
/// and reading it again changes nothing.
pub proof fn entries_read_can_be_written(text: Seq<char>)
    ensures
        forall|i: int| 0 <= i < m3u_entries(text).len() ==> is_entry(#[trigger] m3u_entries(text)[i]),
        m3u_entries(m3u_text(m3u_entries(text))) == m3u_entries(text),
{
    lemma_lines_have_no_feed(text);
    lemma_entries_clean(lines(text));
    read_gives_back_what_was_written(m3u_entries(text));
}

proof fn lemma_lines_have_no_feed(s: Seq<char>)
    ensures
        forall|i: int| 0 <= i < lines(s).len() ==> !(#[trigger] lines(s)[i]).contains('\n'),
    decreases s.len(),
{
    let i = first_index(s, '\n');
    lemma_first_index(s, '\n');
    if s.len() > 0 {
        if i < s.len() {
            lemma_lines_have_no_feed(s.skip(i + 1));
            let first = without_cr(s.take(i));
            assert(!first.contains('\n')) by {
                if first.contains('\n') {
                    let k = choose|k: int| 0 <= k < first.len() && first[k] == '\n';
                    assert(s[k] == '\n');
                }
            }
            assert forall|k: int| 0 <= k < lines(s).len() implies !(#[trigger] lines(
                s,
            )[k]).contains('\n') by {
                if k > 0 {
                    assert(lines(s)[k] == lines(s.skip(i + 1))[k - 1]);
                }
            }
        } else {
            assert(!s.contains('\n')) by {
                if s.contains('\n') {
                    let k = choose|k: int| 0 <= k < s.len() && s[k] == '\n';
                }
            }
        }
    }
}

proof fn lemma_entries_clean(ls: Seq<Seq<char>>)
    requires
        forall|i: int| 0 <= i < ls.len() ==> !(#[trigger] ls[i]).contains('\n'),
    ensures
        forall|i: int| 0 <= i < entries_of(ls).len() ==> is_entry(#[trigger] entries_of(ls)[i]),
    decreases ls.len(),
{
    if ls.len() > 0 {
        assert forall|i: int| 0 <= i < ls.drop_last().len() implies !(
        #[trigger] ls.drop_last()[i]).contains('\n') by {
            assert(ls.drop_last()[i] == ls[i]);
        }
        lemma_entries_clean(ls.drop_last());
        let last = ls[ls.len() - 1];
        lemma_trimmed(last);
        if trimmed(last).contains('\n') {
            assert(last.contains('\n'));
        }
        let before = entries_of(ls.drop_last());
        assert forall|i: int| 0 <= i < entries_of(ls).len() implies is_entry(
            #[trigger] entries_of(ls)[i],
        ) by {
            if i < before.len() {
                assert(entries_of(ls)[i] == before[i]);
            }
        }
    }
}

/// The item being played is never removed, and removing any other leaves every
/// item but that one, in order.
pub proof fn removal_spares_the_rest(items: Seq<Seq<char>>, idx: int, j: int)
    requires
        0 <= idx < items.len(),
        0 <= j < items.len(),
        j != idx,
    ensures
        items.remove(idx)[if j < idx {
            j
        } else {
            j - 1
        }] == items[j],
{
}

/// An item just appended is the one that comes off the end.
pub proof fn removal_undoes_append(items: Seq<Seq<char>>, entry: Seq<char>)
    ensures
        items.push(trimmed(entry)).remove(items.len() as int) == items,
{
    assert(items.push(trimmed(entry)).remove(items.len() as int) =~= items);
}

/// A live playlist that was saved is read back from the file: the sources of its items,
/// in order and complete.
pub proof fn saved_playlists_are_read_back(m: JsonV)
    requires
        answered_sources(m) matches Some(v) && v.len() > 0 && forall|i: int|
            0 <= i < v.len() ==> is_entry(#[trigger] v[i]),
    ensures
        filed(answered_sources(m)) matches Some((text, n)) && m3u_entries(text) == answered_sources(
            m,
        )->0 && n == answered_sources(m)->0.len(),
{
    read_gives_back_what_was_written(answered_sources(m)->0);
}

} // verus!
