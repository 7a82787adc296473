//! What holds of playlist files as a whole.
use crate::json::{at, parsed, JsonV};
use crate::m3u::{
    answered_sources, directories_of, entries_of, expanded, item_lines, lemma_lines_first, lists,
    m3u_append, m3u_crop, m3u_entries, m3u_remove, m3u_text, playlist_directories, read_m3u,
    save_playlist, sources_of, write_m3u,
};
use crate::text::{lines, strs, trimmed};
use vstd::prelude::*;

verus! {

/// An entry that names a directory: it ends in a slash.
pub open spec fn ends_in_slash(e: Seq<char>) -> bool {
    e.len() > 0 && e[e.len() - 1] == '/'
}

/// The directories of a list of entries are those that end in a slash, in order.
pub proof fn directories_end_in_a_slash(entries: Seq<Seq<char>>)
    ensures
        directories_of(entries) == entries.filter(|e: Seq<char>| ends_in_slash(e)),
    decreases entries.len(),
{
    reveal(Seq::filter);
    if entries.len() > 0 {
        directories_end_in_a_slash(entries.drop_last());
    } else {
        assert(directories_of(entries) =~= entries);
    }
}

/// What stands for the entry at `i`: the entry itself, or, for a directory, the files
/// that were found under it and under no other. The directories are numbered in the
/// order in which they stand.
pub open spec fn stands_for(entries: Seq<Seq<char>>, found: Seq<Seq<Seq<char>>>, i: int) -> Seq<
    Seq<char>,
> {
    let k = entries.take(i).filter(|e: Seq<char>| ends_in_slash(e)).len() as int;
    if !ends_in_slash(entries[i]) {
        seq![entries[i]]
    } else if k < found.len() {
        found[k]
    } else {
        Seq::empty()
    }
}

/// Each directory of a playlist gives way to the files found under it, where it stood;
/// every other entry stays where it is.
pub proof fn directories_give_way_to_their_files(
    entries: Seq<Seq<char>>,
    found: Seq<Seq<Seq<char>>>,
)
    ensures
        expanded(entries, found) == Seq::new(
            entries.len(),
            |i: int| stands_for(entries, found, i),
        ).flatten(),
    decreases entries.len(),
{
    let parts = Seq::new(entries.len(), |i: int| stands_for(entries, found, i));
    if entries.len() > 0 {
        let front = entries.drop_last();
        let before = Seq::new(front.len(), |i: int| stands_for(front, found, i));
        directories_give_way_to_their_files(front, found);
        directories_end_in_a_slash(front);
        let n = front.len() as int;
        assert forall|i: int| 0 <= i < n implies before[i] == parts[i] by {
            assert(front.take(i) =~= entries.take(i));
        }
        assert(entries.take(n) =~= front);
        assert(parts =~= before.push(parts[n]));
        before.lemma_flatten_push(parts[n]);
        assert(expanded(entries, found) =~= expanded(front, found) + parts[n]);
    } else {
        assert(parts =~= Seq::empty());
        assert(expanded(entries, found) =~= Seq::empty());
    }
}

/// A playlist of nothing but directories is read as the files found under them, one
/// directory after the other.
pub proof fn directories_alone_are_their_files(
    entries: Seq<Seq<char>>,
    found: Seq<Seq<Seq<char>>>,
)
    requires
        found.len() == entries.len(),
        forall|i: int| 0 <= i < entries.len() ==> ends_in_slash(#[trigger] entries[i]),
    ensures
        expanded(entries, found) == found.flatten(),
{
    directories_give_way_to_their_files(entries, found);
    let parts = Seq::new(entries.len(), |i: int| stands_for(entries, found, i));
    assert forall|i: int| 0 <= i < entries.len() implies parts[i] == found[i] by {
        let t = entries.take(i);
        assert forall|j: int| 0 <= j < t.len() implies ends_in_slash(#[trigger] t[j]) by {
            assert(t[j] == entries[j]);
        }
        lemma_all_pass(t);
    }
    assert(parts =~= found);
}

proof fn lemma_all_pass(s: Seq<Seq<char>>)
    requires
        forall|i: int| 0 <= i < s.len() ==> ends_in_slash(#[trigger] s[i]),
    ensures
        s.filter(|e: Seq<char>| ends_in_slash(e)) == s,
    decreases s.len(),
{
    reveal(Seq::filter);
    if s.len() > 0 {
        let front = s.drop_last();
        assert forall|i: int| 0 <= i < front.len() implies ends_in_slash(#[trigger] front[i]) by {
            assert(front[i] == s[i]);
        }
        lemma_all_pass(front);
        assert(ends_in_slash(s[s.len() - 1]));
        assert(front.push(s.last()) =~= s);
    }
}

/// A playlist without directories is read as it stands.
pub proof fn plain_entries_are_kept(entries: Seq<Seq<char>>, found: Seq<Seq<Seq<char>>>)
    requires
        forall|i: int| 0 <= i < entries.len() ==> !ends_in_slash(#[trigger] entries[i]),
    ensures
        expanded(entries, found) == entries,
        directories_of(entries).len() == 0,
    decreases entries.len(),
{
    if entries.len() > 0 {
        let front = entries.drop_last();
        assert forall|i: int| 0 <= i < front.len() implies !ends_in_slash(#[trigger] front[i]) by {
            assert(front[i] == entries[i]);
        }
        plain_entries_are_kept(front, found);
        assert(!ends_in_slash(entries[entries.len() - 1]));
        assert(front.push(entries.last()) =~= entries);
    } else {
        assert(expanded(entries, found) =~= entries);
    }
}

/// The entries of a file are its lines without the white space around them; blank lines
/// and comments are left out, and nothing else is.
pub proof fn entries_are_the_lines(text: Seq<char>)
    ensures
        m3u_entries(text) == lines(text).map_values(|l: Seq<char>| trimmed(l)).filter(
            |e: Seq<char>| e.len() > 0 && e[0] != '#',
        ),
{
    lemma_entries_filter(lines(text));
}

proof fn lemma_entries_filter(ls: Seq<Seq<char>>)
    ensures
        entries_of(ls) == ls.map_values(|l: Seq<char>| trimmed(l)).filter(
            |e: Seq<char>| e.len() > 0 && e[0] != '#',
        ),
    decreases ls.len(),
{
    reveal(Seq::filter);
    let t = ls.map_values(|l: Seq<char>| trimmed(l));
    if ls.len() > 0 {
        lemma_entries_filter(ls.drop_last());
        assert(t.drop_last() =~= ls.drop_last().map_values(|l: Seq<char>| trimmed(l)));
    } else {
        assert(t =~= Seq::empty());
        assert(entries_of(ls) =~= t);
    }
}

/// A playlist file is the header line and then the items, each on a line of its own.
pub proof fn files_hold_one_item_a_line(items: Seq<Seq<char>>)
    requires
        forall|i: int| 0 <= i < items.len() ==> !(#[trigger] items[i]).contains('\n'),
        forall|i: int|
            0 <= i < items.len() ==> ((#[trigger] items[i]).len() == 0 || items[i].last() != '\r'),
    ensures
        lines(m3u_text(items)) == seq!["#EXTM3U"@] + items,
        m3u_text(items).last() == '\n',
{
    reveal_strlit("#EXTM3U\n");
    reveal_strlit("#EXTM3U");
    reveal_strlit("\n");
    let head = "#EXTM3U"@;
    assert("#EXTM3U\n"@ =~= head + "\n"@);
    assert(!head.contains('\n'));
    lemma_lines_first(head, item_lines(items));
    assert(m3u_text(items) =~= head + "\n"@ + item_lines(items));
    lemma_item_lines(items);
    assert(lines(m3u_text(items)) =~= seq![head] + items);
}

pub proof fn lemma_item_lines(items: Seq<Seq<char>>)
    requires
        forall|i: int| 0 <= i < items.len() ==> !(#[trigger] items[i]).contains('\n'),
        forall|i: int|
            0 <= i < items.len() ==> ((#[trigger] items[i]).len() == 0 || items[i].last() != '\r'),
    ensures
        lines(item_lines(items)) == items,
        items.len() > 0 ==> item_lines(items).last() == '\n',
    decreases items.len(),
{
    reveal_strlit("\n");
    if items.len() == 0 {
        assert(lines(item_lines(items)) =~= items);
    } else {
        let rest = items.skip(1);
        assert forall|i: int| 0 <= i < rest.len() implies !(#[trigger] rest[i]).contains('\n') && (
        rest[i].len() == 0 || rest[i].last() != '\r') by {
            assert(rest[i] == items[i + 1]);
        }
        lemma_item_lines(rest);
        crate::m3u::lemma_item_lines_front(items);
        assert(!items[0].contains('\n'));
        lemma_lines_first(items[0], item_lines(rest));
        assert(seq![items[0]] + rest =~= items);
    }
}

/// A saved playlist holds where its items come from, in the order of the player's
/// answer; an item that says nothing of that is left out.
pub proof fn sources_are_the_file_names(m: JsonV, items: Seq<JsonV>)
    requires
        at(m, "data"@) == JsonV::Arr(items),
        at(m, "error"@) == JsonV::Str("success"@),
    ensures
        answered_sources(m) == Some(
            items.map_values(|j: JsonV| at(j, "filename"@)).filter(
                |f: JsonV| f is Str,
            ).map_values(|f: JsonV| f->Str_0),
        ),
{
    lemma_sources(items);
}

proof fn lemma_sources(items: Seq<JsonV>)
    ensures
        sources_of(items) == items.map_values(|j: JsonV| at(j, "filename"@)).filter(
            |f: JsonV| f is Str,
        ).map_values(|f: JsonV| f->Str_0),
    decreases items.len(),
{
    reveal(Seq::filter);
    let names = items.map_values(|j: JsonV| at(j, "filename"@));
    let texts = names.filter(|f: JsonV| f is Str);
    if items.len() > 0 {
        lemma_sources(items.drop_last());
        let front = items.drop_last().map_values(|j: JsonV| at(j, "filename"@));
        assert(names.drop_last() =~= front);
        let before = front.filter(|f: JsonV| f is Str);
        if names.last() is Str {
            assert(texts.map_values(|f: JsonV| f->Str_0) =~= before.map_values(
                |f: JsonV| f->Str_0,
            ).push(names.last()->Str_0));
        }
    } else {
        assert(names =~= Seq::empty());
        assert(texts.map_values(|f: JsonV| f->Str_0) =~= sources_of(items));
    }
}

/// An answer that reports an error, or that brings no list, is saved nowhere.
pub proof fn only_playlists_are_saved(m: JsonV)
    requires
        at(m, "error"@) != JsonV::Str("success"@) || !(at(m, "data"@) is Arr),
    ensures
        answered_sources(m) is None,
{
}

/// A playlist file is read as its entries, each directory replaced by the files found
/// under it, and has to be written anew exactly where it names a directory. A file that
/// could not be read holds nothing and stays as it is.
pub proof fn playlists_are_read_entry_by_entry(
    content: Option<&str>,
    found: &Vec<Vec<String>>,
    r: (Vec<String>, bool),
)
    requires
        call_ensures(read_m3u, (content, found), r),
    ensures
        content is None ==> r.0@.len() == 0 && !r.1,
        content matches Some(c) ==> {
            let entries = lines(c@).map_values(|l: Seq<char>| trimmed(l)).filter(
                |e: Seq<char>| e.len() > 0 && e[0] != '#',
            );
            &&& strs(r.0@) == Seq::new(
                entries.len(),
                |i: int| stands_for(entries, lists(found@), i),
            ).flatten()
            &&& r.1 == (exists|i: int|
                0 <= i < entries.len() && ends_in_slash(#[trigger] entries[i]))
        },
{
    assert(strs(r.0@).len() == r.0@.len());
    if let Some(c) = content {
        let entries = m3u_entries(c@);
        entries_are_the_lines(c@);
        directories_give_way_to_their_files(entries, lists(found@));
        directories_end_in_a_slash(entries);
        lemma_some_pass(entries);
    }
}

proof fn lemma_some_pass(s: Seq<Seq<char>>)
    ensures
        s.filter(|e: Seq<char>| ends_in_slash(e)).len() > 0 <==> exists|i: int|
            0 <= i < s.len() && ends_in_slash(#[trigger] s[i]),
    decreases s.len(),
{
    reveal(Seq::filter);
    if s.len() > 0 {
        let front = s.drop_last();
        lemma_some_pass(front);
        if front.filter(|e: Seq<char>| ends_in_slash(e)).len() > 0 {
            let i = choose|i: int| 0 <= i < front.len() && ends_in_slash(#[trigger] front[i]);
            assert(ends_in_slash(s[i]));
        }
        if exists|i: int| 0 <= i < s.len() && ends_in_slash(#[trigger] s[i]) {
            let i = choose|i: int| 0 <= i < s.len() && ends_in_slash(#[trigger] s[i]);
            if i < front.len() {
                assert(ends_in_slash(front[i]));
            }
        }
    }
}

/// A playlist file of nothing but directories is read as the files found under them, one
/// directory after the other.
pub proof fn directories_are_read_one_after_the_other(
    content: &str,
    found: &Vec<Vec<String>>,
    r: (Vec<String>, bool),
)
    requires
        m3u_entries(content@).len() == found@.len(),
        forall|i: int|
            0 <= i < found@.len() ==> ends_in_slash(#[trigger] m3u_entries(content@)[i]),
        call_ensures(read_m3u, (Some(content), found), r),
    ensures
        strs(r.0@) == lists(found@).flatten(),
{
    directories_alone_are_their_files(m3u_entries(content@), lists(found@));
}

/// The directories to look into are the entries that end in a slash, in order.
pub proof fn directories_are_looked_into(content: &str, r: Vec<String>)
    requires
        call_ensures(playlist_directories, (content,), r),
    ensures
        strs(r@) == m3u_entries(content@).filter(|e: Seq<char>| ends_in_slash(e)),
{
    directories_end_in_a_slash(m3u_entries(content@));
}

/// A playlist file that is written holds the header line and then the items, each on a
/// line of its own.
pub proof fn written_files_hold_one_item_a_line(items: &Vec<String>, r: String)
    requires
        forall|i: int| 0 <= i < items@.len() ==> !(#[trigger] items@[i])@.contains('\n'),
        forall|i: int|
            0 <= i < items@.len() ==> ((#[trigger] items@[i])@.len() == 0 || items@[i]@.last()
                != '\r'),
        call_ensures(write_m3u, (items,), r),
    ensures
        lines(r@) == seq!["#EXTM3U"@] + strs(items@),
        r@.last() == '\n',
{
    let all = strs(items@);
    assert forall|i: int| 0 <= i < all.len() implies !(#[trigger] all[i]).contains('\n') && (
    all[i].len() == 0 || all[i].last() != '\r') by {
        assert(!items@[i]@.contains('\n'));
    }
    files_hold_one_item_a_line(all);
}

/// An entry is added behind the others, without the white space around it.
pub proof fn entries_are_added_at_the_end(items: Vec<String>, entry: &str, r: Vec<String>)
    requires
        call_ensures(m3u_append, (items, entry), r),
    ensures
        r@.len() == items@.len() + 1,
        forall|i: int| 0 <= i < items@.len() ==> (#[trigger] r@[i])@ == items@[i]@,
        r@[items@.len() as int]@ == trimmed(entry@),
{
    let all = strs(r@);
    assert(all.len() == r@.len());
    assert forall|i: int| 0 <= i < items@.len() implies (#[trigger] r@[i])@ == items@[i]@ by {
        assert(all[i] == r@[i]@);
        assert(strs(items@)[i] == items@[i]@);
    }
    assert(all[items@.len() as int] == r@[items@.len() as int]@);
}

/// An item is removed from its place and no other is; the item being played is not
/// removed, and a place past the end removes nothing.
pub proof fn one_item_is_removed(
    items: Vec<String>,
    idx: usize,
    pos: i64,
    r: Option<(Vec<String>, bool)>,
)
    requires
        call_ensures(m3u_remove, (items, idx, pos), r),
    ensures
        r is None <==> pos == idx,
        r matches Some((out, write)) ==> {
            &&& write == (idx < items@.len())
            &&& strs(out@) == (if idx < items@.len() {
                strs(items@).take(idx as int) + strs(items@).skip(idx + 1)
            } else {
                strs(items@)
            })
        },
{
    let all = strs(items@);
    if idx < items@.len() {
        assert(all.remove(idx as int) =~= all.take(idx as int) + all.skip(idx + 1));
    }
}

/// Cropping leaves the item being played, and is refused where none is.
pub proof fn cropping_leaves_the_playing_item(items: &Vec<String>, pos: i64, r: Option<Vec<String>>)
    requires
        call_ensures(m3u_crop, (items, pos), r),
    ensures
        r is Some <==> 0 <= pos && pos < items@.len(),
        r matches Some(out) ==> out@.len() == 1 && out@[0]@ == items@[pos as int]@,
{
    if let Some(out) = r {
        assert(strs(out@).len() == out@.len());
        assert(strs(out@)[0] == out@[0]@);
    }
}

/// A line that a player answers is saved as the file that holds the sources it names, one
/// a line; where it names none nothing is saved.
pub proof fn answers_are_saved_as_files(
    response: &str,
    r: Option<(String, usize)>,
    m: JsonV,
    items: Seq<JsonV>,
)
    requires
        parsed(response@) == Some(m),
        at(m, "data"@) == JsonV::Arr(items),
        at(m, "error"@) == JsonV::Str("success"@),
        call_ensures(save_playlist, (response,), r),
    ensures
        ({
            let sources = items.map_values(|j: JsonV| at(j, "filename"@)).filter(
                |f: JsonV| f is Str,
            ).map_values(|f: JsonV| f->Str_0);
            match r {
                Some((text, n)) => sources.len() > 0 && n == sources.len() && text@ == m3u_text(
                    sources,
                ),
                None => sources.len() == 0,
            }
        }),
{
    sources_are_the_file_names(m, items);
}

/// What is no JSON is saved nowhere.
pub proof fn other_lines_are_not_saved(response: &str, r: Option<(String, usize)>)
    requires
        parsed(response@) is None,
        call_ensures(save_playlist, (response,), r),
    ensures
        r is None,
{
}

} // verus!
