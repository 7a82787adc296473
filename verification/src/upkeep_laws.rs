//! What holds of a node's files and panes, of a fresh terminal, and of what watchers first
//! see.
use crate::boot::{missing_files, missing_of, names_path};
use crate::config::{Layout, Pane, PaneType};
use crate::console_screen::list_rows;
use crate::daemon::{
    command_message_steps, handle_node_command, is_allowed, quit_command, step_views, Node, Step,
};
use crate::desk::{bootstrap_environment, DeskPane};
use crate::json::{at, str_of, Json, JsonV};
use crate::keys::Key;
use crate::manage::{ends_player, saved_playlist, write_panes_conf};
use crate::node::{bootstrap, file_views, FileText, FileTextV};
use crate::node_laws::{lemma_obj_one, passed_on};
use crate::paths::{joined, pane_dir_of};
use crate::startup::{boot_lines, prompt_completed, PromptState, PromptV};
use crate::text::{lowercase, opt, strs, uppercase};
use crate::tui::{App, AppV, DetailsMode};
use crate::tui_keys::{handle_key, key_step, OutV, Outcome};
use crate::typed::{ensure_pane_files, typed_bootstrap};
use crate::watch::{apply_event, player_names, with_players, Watch};
use vstd::prelude::*;

verus! {

// ---------------------------------------------------------------------------
// Commands
// ---------------------------------------------------------------------------

/// A command of the daemon's own is carried out the same way however it is handed over.
pub proof fn own_commands_are_carried_out(
    cmd: &str,
    v: &Json,
    node: &Node,
    layout: &Option<Layout>,
    r: Vec<Step>,
    q: Vec<Step>,
)
    requires
        "panebot:"@.is_prefix_of(cmd@) || cmd@ == "playlist-get"@,
        at(v.view(), "command"@) == JsonV::Str(cmd@),
        call_ensures(handle_node_command, (cmd, v, node, layout), r),
        call_ensures(command_message_steps, (v, node, layout), q),
    ensures
        step_views(r@) == step_views(q@),
{
}

/// A message without a command, or for a player without a pane or arguments, does nothing.
pub proof fn incomplete_messages_do_nothing(
    v: &Json,
    node: &Node,
    layout: &Option<Layout>,
    q: Vec<Step>,
)
    requires
        str_of(at(v.view(), "command"@)) is None || (!"panebot:"@.is_prefix_of(
            at(v.view(), "command"@)->Str_0,
        ) && at(v.view(), "command"@) != JsonV::Str("playlist-get"@) && (str_of(
            at(v.view(), "pane"@),
        ) is None || !(at(v.view(), "args"@) is Arr))),
        call_ensures(command_message_steps, (v, node, layout), q),
    ensures
        q@.len() == 0,
{
    assert(step_views(q@).len() == q@.len());
}

/// The commands that clients may send to players are these.
pub proof fn players_take_these_commands(cmd: &str, r: bool)
    requires
        call_ensures(is_allowed, (cmd,), r),
    ensures
        r <==> passed_on().contains(cmd@),
{
    crate::node_laws::lemma_passed_on(cmd@);
}

/// A player is ended by its command to quit, and that is known again.
pub proof fn players_end_by_quitting(r: Json, m: &Json, ends: bool)
    requires
        call_ensures(quit_command, (), r),
        call_ensures(ends_player, (m,), ends),
    ensures
        r.view() == JsonV::Obj(map!["command"@ => JsonV::Arr(seq![JsonV::Str("quit"@)])]),
        m.view() == r.view() ==> ends,
        ends ==> (at(m.view(), "command"@) matches JsonV::Arr(args) && args.len() > 0 && args[0]
            == JsonV::Str("quit"@)),
{
    lemma_obj_one("command"@, JsonV::Arr(seq![JsonV::Str("quit"@)]));
}

// ---------------------------------------------------------------------------
// Files
// ---------------------------------------------------------------------------

/// The panes file names the layout first and then each pane in order, in a section of its
/// own.
pub proof fn the_panes_file_lists_the_panes(
    layout: &str,
    panes: &Vec<Pane>,
    r: String,
    p: Pane,
    more: &Vec<Pane>,
    q: String,
)
    requires
        more@ == panes@.push(p),
        call_ensures(write_panes_conf, (layout, panes), r),
        call_ensures(write_panes_conf, (layout, more), q),
    ensures
        panes@.len() == 0 ==> r@ == "layout = "@ + layout@ + "\n"@,
        p.pane_type@ == "video"@ && p.playlist is None ==> q@ == r@ + ("\n["@ + p.mpv_name@
            + "]\npane_name = "@ + p.pane_name@ + "\n"@),
        p.pane_type@ != "video"@ && p.playlist is None ==> q@ == r@ + ("\n["@ + p.mpv_name@
            + "]\npane_name = "@ + p.pane_name@ + "\n"@ + ("type = "@ + p.pane_type@ + "\n"@)),
        p.pane_type@ == "video"@ && p.playlist is Some ==> q@ == r@ + ("\n["@ + p.mpv_name@
            + "]\npane_name = "@ + p.pane_name@ + "\n"@ + ("playlist = "@ + p.playlist->0@
            + "\n"@)),
{
    let a = crate::config::pane_views(panes@);
    let b = crate::config::pane_views(more@);
    assert(b =~= a.push(p.view()));
    assert(b.drop_last() =~= a);
    let head = "\n["@ + p.mpv_name@ + "]\npane_name = "@ + p.pane_name@ + "\n"@;
    let none = Seq::<char>::empty();
    assert(head + none + none =~= head);
    assert(head + none =~= head);
    if p.pane_type@ != "video"@ && p.playlist is None {
        let t = "type = "@ + p.pane_type@ + "\n"@;
        assert(head + t + none =~= head + t);
    }
}

/// Of the files that a start needs, those are written that are not there, each once and as
/// it is meant to be; none that is there is written.
pub proof fn only_missing_files_are_written(
    files: &Vec<FileText>,
    existing: &Vec<String>,
    r: Vec<FileText>,
    i: int,
)
    requires
        call_ensures(missing_files, (files, existing), r),
    ensures
        0 <= i < r@.len() ==> !strs(existing@).contains(r@[i].path@),
        0 <= i < r@.len() ==> exists|k: int|
            0 <= k < files@.len() && (#[trigger] files@[k]).path@ == r@[i].path@ && files@[k].text@
                == r@[i].text@,
        0 <= i < files@.len() && !strs(existing@).contains(files@[i].path@) ==> exists|k: int|
            0 <= k < r@.len() && (#[trigger] r@[k]).path@ == files@[i].path@,
{
    let all = file_views(files@);
    let there = strs(existing@).to_set();
    let out = file_views(r@);
    assert(out.len() == r@.len());
    lemma_missing(all, there);
    if 0 <= i < r@.len() {
        assert(out[i] == r@[i].view());
        assert(there.contains(r@[i].path@) == strs(existing@).contains(r@[i].path@));
        assert(all.contains(out[i]));
        let k = choose|k: int| 0 <= k < all.len() && all[k] == out[i];
        assert(all[k] == files@[k].view());
        assert(files@[k].path@ == r@[i].path@);
    }
    if 0 <= i < files@.len() && !strs(existing@).contains(files@[i].path@) {
        assert(all[i] == files@[i].view());
        assert(!there.contains(all[i].path));
        assert(names_path(out, all[i].path));
        let k = choose|k: int| 0 <= k < out.len() && (#[trigger] out[k]).path == all[i].path;
        assert(out[k] == r@[k].view());
        assert(r@[k].path@ == files@[i].path@);
    }
}

proof fn lemma_missing(files: Seq<FileTextV>, there: Set<Seq<char>>)
    ensures
        forall|i: int|
            0 <= i < missing_of(files, there).len() ==> !there.contains(
                (#[trigger] missing_of(files, there)[i]).path,
            ) && files.contains(missing_of(files, there)[i]),
        forall|i: int|
            0 <= i < files.len() && !there.contains((#[trigger] files[i]).path) ==> names_path(
                missing_of(files, there),
                files[i].path,
            ),
    decreases files.len(),
{
    if files.len() > 0 {
        let front = files.drop_last();
        lemma_missing(front, there);
        let before = missing_of(front, there);
        let all = missing_of(files, there);
        assert forall|i: int| 0 <= i < all.len() implies !there.contains((#[trigger] all[i]).path)
            && files.contains(all[i]) by {
            if i < before.len() {
                assert(all[i] == before[i]);
                let k = choose|k: int| 0 <= k < front.len() && front[k] == before[i];
                assert(files[k] == all[i]);
            } else {
                assert(files[files.len() - 1] == all[i]);
            }
        }
        assert forall|i: int|
            0 <= i < files.len() && !there.contains(
                (#[trigger] files[i]).path,
            ) implies names_path(all, files[i].path) by {
            if i < front.len() {
                assert(front[i] == files[i]);
                assert(names_path(before, files[i].path));
                let k = choose|k: int|
                    0 <= k < before.len() && (#[trigger] before[k]).path == files[i].path;
                assert(all[k] == before[k]);
            } else if names_path(before, files[i].path) {
                let k = choose|k: int|
                    0 <= k < before.len() && (#[trigger] before[k]).path == files[i].path;
                assert(all[k] == before[k]);
            } else {
                assert(all[all.len() - 1].path == files[i].path);
            }
        }
    }
}

/// A new node is given its panes, its hosts and two layouts; one with typed panes its types
/// and four layouts.
pub proof fn new_nodes_are_given_files(config: &str, r: Vec<FileText>, t: Vec<FileText>)
    requires
        call_ensures(bootstrap, (config,), r),
        call_ensures(typed_bootstrap, (config,), t),
    ensures
        ({
            let layouts = joined(config@, "layouts"@);
            &&& r@.len() == 4
            &&& r@[0].path@ == joined(config@, "pb.panes.conf"@)
            &&& r@[1].path@ == joined(config@, "pb.daemon.conf"@)
            &&& r@[2].path@ == joined(layouts, "pb.left.stack.layout"@)
            &&& r@[3].path@ == joined(layouts, "pb.right.stack.layout"@)
            &&& t@.len() == 6
            &&& t@[0].path@ == joined(config@, "pb.panes.conf"@)
            &&& t@[1].path@ == joined(config@, "pb.types.conf"@)
            &&& t@[2].path@ == r@[2].path@ && t@[2].text@ == r@[2].text@
            &&& t@[3].path@ == r@[3].path@ && t@[3].text@ == r@[3].text@
            &&& t@[4].path@ == joined(layouts, "pb.sway.left.stack.layout"@)
            &&& t@[5].path@ == joined(layouts, "pb.sway.right.stack.layout"@)
        }),
{
    let a = file_views(r@);
    let b = file_views(t@);
    assert(a.len() == r@.len());
    assert(b.len() == t@.len());
    assert(a[0] == r@[0].view() && a[1] == r@[1].view() && a[2] == r@[2].view() && a[3]
        == r@[3].view());
    assert(b[0] == t@[0].view() && b[1] == t@[1].view() && b[2] == t@[2].view() && b[3]
        == t@[3].view() && b[4] == t@[4].view() && b[5] == t@[5].view());
}

/// A pane of a type starts with the options of that type, one a line, and with its
/// scripts; a pane of a type that nobody described starts with neither.
pub proof fn typed_panes_start_with_their_options(
    config: &str,
    pane: &Pane,
    types: &Vec<(String, PaneType)>,
    r: (String, Vec<String>),
    i: int,
)
    requires
        0 <= i < types@.len(),
        types@[i].0@ == pane.pane_type@,
        forall|j: int| i < j < types@.len() ==> (#[trigger] types@[j]).0@ != pane.pane_type@,
        call_ensures(ensure_pane_files, (config, pane, types), r),
    ensures
        strs(r.1@) == strs(types@[i].1.scripts@),
        types@[i].1.scripts@.len() == 0 ==> r.0@ == "# panebot mpv config — "@ + pane.mpv_name@
            + " ["@ + pane.pane_type@ + "]\n# Edit this file to tune mpv for this pane.\n\n"@
            + strs(types@[i].1.options@).map_values(|o: Seq<char>| o + "\n"@).flatten(),
        types@[i].1.scripts@.len() > 0 ==> r.0@ == "# panebot mpv config — "@ + pane.mpv_name@
            + " ["@ + pane.pane_type@ + "]\n# Edit this file to tune mpv for this pane.\n\n"@
            + strs(types@[i].1.options@).map_values(|o: Seq<char>| o + "\n"@).flatten()
            + "\nscripts-dir="@ + joined(pane_dir_of(config@, pane.mpv_name@), "scripts"@) + "\n"@,
{
    let all = crate::config::type_views(types@);
    assert forall|j: int| i < j < all.len() implies (#[trigger] all[j]).0 != pane.pane_type@ by {
        assert(types@[j].0@ != pane.pane_type@);
    }
    assert(all[i] == (types@[i].0@, types@[i].1.view()));
    lemma_type_named(all, pane.pane_type@, i);
    lemma_each_line(strs(types@[i].1.options@));
    assert(strs(types@[i].1.scripts@).len() == types@[i].1.scripts@.len());
}

proof fn lemma_type_named(
    all: Seq<(Seq<char>, crate::config::PaneTypeV)>,
    name: Seq<char>,
    i: int,
)
    requires
        0 <= i < all.len(),
        all[i].0 == name,
        forall|j: int| i < j < all.len() ==> (#[trigger] all[j]).0 != name,
    ensures
        crate::config::type_named(all, name) == Some(all[i].1),
    decreases all.len(),
{
    if i < all.len() - 1 {
        assert(all[all.len() - 1].0 != name);
        let front = all.drop_last();
        assert forall|j: int| i < j < front.len() implies (#[trigger] front[j]).0 != name by {
            assert(front[j] == all[j]);
        }
        lemma_type_named(front, name, i);
    }
}

proof fn lemma_each_line(v: Seq<Seq<char>>)
    ensures
        crate::m3u::item_lines(v) == v.map_values(|o: Seq<char>| o + "\n"@).flatten(),
    decreases v.len(),
{
    let f = |o: Seq<char>| o + "\n"@;
    if v.len() > 0 {
        lemma_each_line(v.drop_last());
        let before = v.drop_last().map_values(f);
        assert(v.map_values(f) =~= before.push(f(v.last())));
        before.lemma_flatten_push(f(v.last()));
        assert(crate::m3u::item_lines(v) =~= crate::m3u::item_lines(v.drop_last()) + f(v.last()));
    } else {
        assert(v.map_values(f) =~= Seq::empty());
    }
}

/// What a player answers is written as the playlist file of its sources.
pub proof fn answers_become_files(m: &Json, r: Option<String>, items: Seq<JsonV>)
    requires
        at(m.view(), "data"@) == JsonV::Arr(items),
        at(m.view(), "error"@) == JsonV::Str("success"@),
        call_ensures(saved_playlist, (m,), r),
    ensures
        opt(r) == Some(
            crate::m3u::m3u_text(
                items.map_values(|j: JsonV| at(j, "filename"@)).filter(
                    |f: JsonV| f is Str,
                ).map_values(|f: JsonV| f->Str_0),
            ),
        ),
{
    crate::playlist_laws::sources_are_the_file_names(m.view(), items);
}

/// The panes of a desk whose files are made ready are those that it has, in lower case, or
/// else the four that a new desk starts with.
pub proof fn desks_make_files_ready(panes: &Vec<DeskPane>, r: Vec<(String, String)>, i: int)
    requires
        0 <= i < panes@.len(),
        call_ensures(bootstrap_environment, (Some(panes),), r),
    ensures
        r@.len() == panes@.len(),
        r@[i].0@ == lowercase(panes@[i].name@),
        r@[i].1@ == panes@[i].pane_type@,
{
    let v = crate::ini::text_pairs(r@);
    assert(v.len() == r@.len());
    assert(v[i] == (r@[i].0@, r@[i].1@));
    assert(crate::desk::desk_views(panes@)[i] == panes@[i].view());
}

/// What is said before the panes of a desk come up: whether a layout had to be made, and
/// the name of the layout with a capital.
pub proof fn the_start_is_told(layout: &str, missing: bool, r: Vec<String>)
    requires
        layout@.len() > 0,
        call_ensures(boot_lines, (layout, missing), r),
    ensures
        ({
            let loading = "[PaneBot] :: Loading Our Layout :: \""@ + (uppercase(layout@.take(1))
                + layout@.skip(1)) + "\""@;
            &&& missing ==> strs(r@) == seq![
                "[PaneBot] :: Checking Environment :: Done!"@,
                "[PaneBot] :: No Panes Found! :: Creating Default Layout"@,
                loading,
                Seq::empty(),
                "[PaneBot] :: Bringin' The Panes ::"@,
            ]
            &&& !missing ==> strs(r@) == seq![
                "[PaneBot] :: Checking Environment :: Done!"@,
                loading,
                Seq::empty(),
                "[PaneBot] :: Bringin' The Panes ::"@,
            ]
        }),
{
    let loading = "[PaneBot] :: Loading Our Layout :: \""@ + (uppercase(layout@.take(1))
        + layout@.skip(1)) + "\""@;
    if missing {
        assert(strs(r@) =~= seq![
            "[PaneBot] :: Checking Environment :: Done!"@,
            "[PaneBot] :: No Panes Found! :: Creating Default Layout"@,
            loading,
            Seq::empty(),
            "[PaneBot] :: Bringin' The Panes ::"@,
        ]);
    } else {
        assert(strs(r@) =~= seq![
            "[PaneBot] :: Checking Environment :: Done!"@,
            loading,
            Seq::empty(),
            "[PaneBot] :: Bringin' The Panes ::"@,
        ]);
    }
}

/// The completions that were found are offered, and after Tab the first is taken.
pub proof fn prompts_take_the_first_completion(
    state: &mut PromptState,
    found: Vec<String>,
    take: bool,
    r: (),
)
    requires
        call_ensures(prompt_completed, (state, found, take), r),
    ensures
        final(state).view() == (PromptV {
            completions: strs(found@),
            comp_sel: 0,
            browse_buf: if take && found@.len() > 0 {
                found@[0]@
            } else {
                old(state).browse_buf@
            },
            ..old(state).view()
        }),
{
}

// ---------------------------------------------------------------------------
// Terminals
// ---------------------------------------------------------------------------

/// What a key of the operator's terminal does is what `key_step` says.
pub proof fn keys_step(app: &mut App, k: Key, r: Outcome)
    requires
        call_ensures(handle_key, (app, k), r),
    ensures
        (OutV { app: final(app).view(), action: r.action, send: crate::json::jsons(r.send@) })
            == key_step(old(app).view(), k),
{
}

/// A fresh terminal knows no panes and no node, shows the dashboard, and has nothing
/// selected, marked or typed.
pub proof fn fresh_terminals_know_nothing(home: &str, r: App)
    requires
        call_ensures(App::new, (home,), r),
    ensures
        r.view() == (AppV {
            pane_order: Seq::empty(),
            panes: Seq::empty(),
            selected: 0,
            hostname: Seq::empty(),
            platform: Seq::empty(),
            ip: Seq::empty(),
            layout: Seq::empty(),
            home: home@,
            owns_daemon: false,
            is_remote: false,
            show_log: false,
            command_mode: false,
            show_picker: false,
            picker_sel: 0,
            layouts: Seq::empty(),
            show_details: false,
            details_mode: DetailsMode::Normal,
            playlist_sel: 0,
            playlist_items: Seq::empty(),
            selected_items: Seq::empty(),
            status_msg: None,
            jump_input: Seq::empty(),
            add_input: Seq::empty(),
            passthrough_mode: false,
        }),
{
}

/// A new connection forgets the node and its panes; what is selected, shown and typed
/// stays.
pub proof fn connections_forget_the_node(app: &mut App, r: ())
    requires
        call_ensures(App::reset, (app,), r),
    ensures
        final(app).view() == (AppV {
            pane_order: Seq::empty(),
            panes: Seq::empty(),
            hostname: Seq::empty(),
            platform: Seq::empty(),
            ip: Seq::empty(),
            layout: Seq::empty(),
            home: Seq::empty(),
            owns_daemon: false,
            is_remote: false,
            layouts: Seq::empty(),
            ..old(app).view()
        }),
{
}

/// The terminal that edits files shows each item by the last part of its path, without
/// slashes at its end.
pub proof fn files_are_shown_by_their_last_part(
    app: &App,
    height: usize,
    r: Vec<crate::screen::Row>,
    k: int,
    head: Seq<char>,
    tail: Seq<char>,
)
    requires
        height > 0,
        app.playlist_sel < height,
        0 <= k < r@.len(),
        k < app.playlist_items@.len(),
        tail.len() > 0,
        forall|i: int| 0 <= i < tail.len() ==> #[trigger] tail[i] != '/',
        app.playlist_items@[k]@ == head + seq!['/'] + tail,
        call_ensures(list_rows, (app, height), r),
    ensures
        r@[k].view().spans[4].text == tail,
        r@[k].selected == (k == app.playlist_sel),
{
    let rows = crate::screen::row_views(r@);
    assert(rows.len() == r@.len());
    assert(rows[k] == r@[k].view());
    let s = head + seq!['/'] + tail;
    assert(app.view().playlist_items[k] == s);
    assert(s.last() == tail[tail.len() - 1]);
    assert(crate::text::without_trailing(s, '/') == s);
    let n = head.len() as int;
    assert(s[n] == '/');
    assert forall|j: int| n < j < s.len() implies s[j] != '/' by {
        assert(s[j] == tail[j - n - 1]);
    }
    crate::text::lemma_last_index_unique(s, '/', n);
    assert(s.skip(n + 1) =~= tail);
}

// ---------------------------------------------------------------------------
// Watchers
// ---------------------------------------------------------------------------

/// A watcher that is told of a node takes in its name and layout, and each pane that it
/// does not know yet, in order, with its type and whether it is up.
pub proof fn watchers_take_in_the_node(app: &mut Watch, v: &Json, down: bool, p: JsonV)
    requires
        at(v.view(), "event"@) == JsonV::Str("bootstrap_complete"@),
        at(v.view(), "panes"@) == JsonV::Arr(seq![p]),
        call_ensures(apply_event, (app, v), down),
    ensures
        !down,
        at(v.view(), "hostname"@) matches JsonV::Str(h) ==> final(app).view().hostname == h,
        at(v.view(), "layout"@) matches JsonV::Str(l) ==> final(app).view().layout == l,
        at(p, "name"@) matches JsonV::Str(n) ==> n.len() > 0 && !player_names(
            old(app).view().players,
        ).contains(n) ==> {
            let now = final(app).view().players;
            &&& now.len() == old(app).view().players.len() + 1
            &&& now.drop_last() == old(app).view().players
            &&& now.last().name == n
            &&& now.last().online == (at(p, "status"@) == JsonV::Str("Online"@))
            &&& at(p, "pane_type"@) matches JsonV::Str(t) ==> now.last().pane_type == t
            &&& now.last().playlist_pos == -1
        },
        at(p, "name"@) matches JsonV::Str(n) ==> player_names(old(app).view().players).contains(n)
            ==> final(app).view().players == old(app).view().players,
{
    reveal_strlit("bootstrap_complete");
    reveal_strlit("node:down");
    assert("bootstrap_complete"@.len() == 18 && "node:down"@.len() == 9);
    reveal_with_fuel(with_players, 3);
    let panes = seq![p];
    assert(panes.drop_last() =~= Seq::empty());
    let was = old(app).view().players;
    let now = final(app).view().players;
    if now.len() == was.len() + 1 {
        assert(now.drop_last() =~= was);
    }
}

} // verus!
