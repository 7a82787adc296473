//! What the screens of the operator's terminal say, and what a client is told first.
use crate::board::{board_get, count_online, is_any_playing, online_count};
use crate::config::Host;
use crate::daemon::Node;
use crate::desk::DeskPane;
use crate::desk_keys::render_dashboard_row;
use crate::json::{at, distinct_keys, lemma_obj_at, Json, JsonV, NumV};
use crate::names::{percent_decode, url_decode};
use crate::node::{known_state, snapshot, snapshot_host, snapshot_pane};
use crate::node_laws::lemma_obj_two;
use crate::protocol::{PaneState, PaneStateV};
use crate::screen::{
    dashboard_header, details_header, details_rows, render_host_picker, render_layout_picker,
    render_log_body, render_pane_list, row_views, span_views, Color, Row, Span, SpanV,
};
use crate::text::{decimal, lines, strs, uppercase, without_suffixes};
use crate::tui::{layout_names, load_layouts, App};
use crate::watch::Watch;
use crate::watch_screen::pane_rows;
use vstd::prelude::*;

verus! {

// ---------------------------------------------------------------------------
// Boards
// ---------------------------------------------------------------------------

/// The panes that are counted are those that are online.
pub proof fn online_panes_are_counted(v: &Vec<PaneState>, r: usize)
    requires
        call_ensures(count_online, (v,), r),
    ensures
        r == crate::protocol::state_views(v@).filter(|p: PaneStateV| p.online).len(),
{
    lemma_online(crate::protocol::state_views(v@));
}

proof fn lemma_online(s: Seq<PaneStateV>)
    ensures
        online_count(s) == s.filter(|p: PaneStateV| p.online).len(),
    decreases s.len(),
{
    reveal(Seq::filter);
    if s.len() > 0 {
        lemma_online(s.drop_last());
    }
}

/// Some pane plays where one is online, has something loaded and is not paused.
pub proof fn playing_panes_are_found(v: &Vec<PaneState>, r: bool)
    requires
        call_ensures(is_any_playing, (v,), r),
    ensures
        r <==> exists|i: int|
            0 <= i < v@.len() && (#[trigger] v@[i]).online && v@[i].idle_active == Some(false)
                && v@[i].paused == Some(false),
{
    let all = crate::protocol::state_views(v@);
    if exists|i: int|
        0 <= i < v@.len() && (#[trigger] v@[i]).online && v@[i].idle_active == Some(false)
            && v@[i].paused == Some(false) {
        let i = choose|i: int|
            0 <= i < v@.len() && (#[trigger] v@[i]).online && v@[i].idle_active == Some(false)
                && v@[i].paused == Some(false);
        assert(all[i] == v@[i].view());
        assert(crate::board::is_playing_now(all[i]));
    }
    if r {
        let i = choose|i: int|
            0 <= i < all.len() && crate::board::is_playing_now(#[trigger] all[i]);
        assert(all[i] == v@[i].view());
        assert(v@[i].online);
    }
}

// ---------------------------------------------------------------------------
// Screens
// ---------------------------------------------------------------------------

/// The text of a line.
pub open spec fn text_of(spans: Seq<SpanV>) -> Seq<char> {
    spans.map_values(|s: SpanV| s.text).flatten()
}

/// The first line names the node, its address, how many of its panes are online, how many
/// there are, and the layout.
pub proof fn the_header_tells_of_the_node(app: &App, r: Vec<Span>)
    requires
        call_ensures(dashboard_header, (app,), r),
    ensures
        text_of(span_views(r@)) == "["@ + app.hostname@ + "]"@ + " :: "@ + app.ip@ + " :: "@
            + "Panes: "@ + decimal(
            app.view().panes.filter(|p: PaneStateV| p.online).len() as int,
        ) + "/"@ + decimal(app.pane_order@.len() as int) + " :: "@ + "Layout: "@ + app.layout@,
{
    lemma_online(app.view().panes);
    let v = span_views(r@).map_values(|s: SpanV| s.text);
    assert(app.view().pane_order.len() == app.pane_order@.len());
    let a = "["@ + app.hostname@ + "]"@;
    let n = "Panes: "@ + decimal(
        app.view().panes.filter(|p: PaneStateV| p.online).len() as int,
    ) + "/"@ + decimal(app.pane_order@.len() as int);
    let l = "Layout: "@ + app.layout@;
    assert(v =~= seq![a, " :: "@, app.ip@, " :: "@, n, " :: "@, l]);
    lemma_flatten_seven(a, " :: "@, app.ip@, " :: "@, n, " :: "@, l);
    assert(text_of(span_views(r@)) =~= "["@ + app.hostname@ + "]"@ + " :: "@ + app.ip@ + " :: "@
        + "Panes: "@ + decimal(
        app.view().panes.filter(|p: PaneStateV| p.online).len() as int,
    ) + "/"@ + decimal(app.pane_order@.len() as int) + " :: "@ + "Layout: "@ + app.layout@);
}

proof fn lemma_flatten_seven(
    a: Seq<char>,
    b: Seq<char>,
    c: Seq<char>,
    d: Seq<char>,
    e: Seq<char>,
    f: Seq<char>,
    g: Seq<char>,
)
    ensures
        seq![a, b, c, d, e, f, g].flatten() == a + b + c + d + e + f + g,
{
    let s = seq![a, b, c, d, e, f, g];
    reveal_with_fuel(Seq::<Seq<char>>::flatten, 8);
    assert(s.drop_first() =~= seq![b, c, d, e, f, g]);
    assert(seq![b, c, d, e, f, g].drop_first() =~= seq![c, d, e, f, g]);
    assert(seq![c, d, e, f, g].drop_first() =~= seq![d, e, f, g]);
    assert(seq![d, e, f, g].drop_first() =~= seq![e, f, g]);
    assert(seq![e, f, g].drop_first() =~= seq![f, g]);
    assert(seq![f, g].drop_first() =~= seq![g]);
    assert(seq![g].drop_first() =~= Seq::empty());
    assert(s.flatten() =~= a + b + c + d + e + f + g);
}

/// A word in brackets, with spaces behind it up to a width.
pub open spec fn bracketed(w: Seq<char>, width: int) -> Seq<char> {
    "["@ + w + Seq::new(
        (if w.len() < width {
            width - w.len()
        } else {
            0
        }) as nat,
        |i: int| ' ',
    ) + "]"@
}

/// What a pane that is known to be so is said to do.
pub open spec fn said_of(p: Option<PaneStateV>) -> (Seq<char>, Color) {
    if p is None || !p->0.online {
        ("Offline"@, Color::Red)
    } else if p->0.idle_active != Some(false) {
        ("Stopped"@, Color::Dim)
    } else if p->0.paused == Some(false) {
        ("Playing"@, Color::Green)
    } else {
        ("Paused"@, Color::Hint)
    }
}

/// The dashboard shows each pane on a row of its own, in order: a mark and the highlight
/// where it is selected, its name, what it does, and its title or a dash.
pub proof fn each_pane_has_a_row(app: &App, r: Vec<Row>, i: int)
    requires
        0 <= i < app.pane_order@.len(),
        call_ensures(render_pane_list, (app,), r),
    ensures
        r@.len() == app.pane_order@.len(),
        r@[i].selected == (i == app.selected),
        ({
            let v = r@[i].view().spans;
            let p = board_get(app.view().panes, app.pane_order@[i]@);
            let name = "\""@ + uppercase(
                if p is Some {
                    p->0.pane_name
                } else {
                    app.pane_order@[i]@
                },
            ) + "\""@;
            &&& v.len() == 9
            &&& v[0].text == (if i == app.selected {
                ":: "@
            } else {
                "   "@
            })
            &&& name.is_prefix_of(v[1].text)
            &&& v[3].text == bracketed(said_of(p).0, 7)
            &&& v[3].color == said_of(p).1
            &&& v[7].text == (if p is Some && p->0.title is Some && p->0.title->0.len() > 0 {
                p->0.title->0
            } else {
                "-"@
            })
            &&& v[8].text == (if i == app.selected && app.passthrough_mode {
                " [MPV]"@
            } else if i == app.selected && app.command_mode {
                " [CMD]"@
            } else {
                ""@
            })
        }),
{
    let rows = row_views(r@);
    assert(rows.len() == r@.len());
    assert(rows[i] == r@[i].view());
    assert(app.view().pane_order[i] == app.pane_order@[i]@);
    let p = board_get(app.view().panes, app.pane_order@[i]@);
    assert(bracketed(said_of(p).0, 7) =~= crate::screen::boxed(said_of(p).0, 7));
    let name = crate::screen::shown_name(p, app.pane_order@[i]@);
    let t = r@[i].view().spans[1].text;
    assert(t.subrange(0, name.len() as int) =~= name);
}

/// The layouts are offered one a row, the selected one marked and the current one starred.
pub proof fn each_layout_has_a_row(app: &App, r: Vec<Row>, i: int)
    requires
        0 <= i < app.layouts@.len(),
        call_ensures(render_layout_picker, (app,), r),
    ensures
        r@.len() == app.layouts@.len(),
        r@[i].selected == (i == app.picker_sel),
        ({
            let v = r@[i].view().spans;
            &&& v.len() == 3
            &&& v[0].text == (if i == app.picker_sel {
                ">> "@
            } else {
                "   "@
            })
            &&& v[1].text == app.layouts@[i]@
            &&& v[2].text == (if app.layouts@[i]@ == app.layout@ {
                " *"@
            } else {
                ""@
            })
        }),
{
    let rows = row_views(r@);
    assert(rows.len() == r@.len());
    assert(rows[i] == r@[i].view());
    assert(app.view().layouts[i] == app.layouts@[i]@);
}

/// The log shows its last lines, as many as fit, the newest at the end.
pub proof fn the_log_shows_its_end(log: &str, height: usize, r: Vec<Row>, i: int)
    requires
        call_ensures(render_log_body, (log, height), r),
        0 <= i < r@.len(),
        !(lines(log@)[lines(log@).len() - r@.len() + i].contains('[')),
    ensures
        r@.len() == (if lines(log@).len() <= height {
            lines(log@).len() as int
        } else {
            height as int
        }),
        text_of(r@[i].view().spans) == lines(log@)[lines(log@).len() - r@.len() + i],
{
    let rows = row_views(r@);
    assert(rows.len() == r@.len());
    assert(rows[i] == r@[i].view());
    let line = lines(log@)[lines(log@).len() - r@.len() + i];
    if line.len() > 0 && line[0] == '[' {
        assert(line.contains('['));
    }
    let v = r@[i].view().spans.map_values(|s: SpanV| s.text);
    assert(v =~= seq![line]);
    seq![line].lemma_flatten_one_element();
}

/// The daemons are offered one a row, by label and address, the selected one marked.
pub proof fn each_daemon_has_a_row(hosts: &Vec<Host>, sel: usize, r: Vec<Row>, i: int)
    requires
        0 <= i < hosts@.len(),
        call_ensures(render_host_picker, (hosts, sel), r),
    ensures
        r@.len() == hosts@.len(),
        r@[i].selected == (i == sel),
        ({
            let v = r@[i].view().spans;
            &&& v.len() == 4
            &&& v[0].text == (if i == sel {
                ">> "@
            } else {
                "   "@
            })
            &&& v[1].text == hosts@[i].label@
            &&& v[3].text == hosts@[i].address@
        }),
{
    let rows = row_views(r@);
    assert(rows.len() == r@.len());
    assert(rows[i] == r@[i].view());
}

/// A playlist shows as many items as fit, from the first on or, further down, so that the
/// selected one is the last seen; each with its number and its name, a star at the one
/// being played and a dot at those that are marked.
pub proof fn items_have_rows(app: &App, height: usize, r: Vec<Row>, k: int, pos: i64)
    requires
        height > 0,
        app.playlist_sel < app.playlist_items@.len(),
        call_ensures(details_rows, (app, height), r),
        call_ensures(App::current_playlist_pos, (app,), pos),
        0 <= k < r@.len(),
    ensures
        ({
            let top = if app.playlist_sel < height {
                0
            } else {
                app.playlist_sel + 1 - height
            };
            let n = app.playlist_items@.len();
            let i = top + k;
            let v = r@[k].view().spans;
            &&& r@.len() == (if n - top < height {
                n - top
            } else {
                height as int
            })
            &&& r@[k].selected == (i == app.playlist_sel)
            &&& v.len() == 5
            &&& v[0].text == (if i == app.playlist_sel {
                ">> "@
            } else {
                "   "@
            })
            &&& v[1].text == (if i == pos {
                "* "@
            } else if app.selected_items@.contains(i as usize) {
                "\u{2022} "@
            } else {
                "  "@
            })
            &&& decimal(i).is_prefix_of(v[2].text)
            &&& v[4].text == app.playlist_items@[i]@
        }),
{
    let rows = row_views(r@);
    assert(rows.len() == r@.len());
    assert(rows[k] == r@[k].view());
    let top = if app.playlist_sel < height {
        0
    } else {
        app.playlist_sel + 1 - height
    };
    let i = top + k;
    assert(app.view().playlist_items[i] == app.playlist_items@[i]@);
    let t = r@[k].view().spans[2].text;
    let d = decimal(i);
    assert(t.subrange(0, d.len() as int) =~= d);
}

/// The first line over a playlist names its pane, what it does and how many items there
/// are.
pub proof fn the_playlist_is_headed(app: &App, r: Option<Vec<Span>>)
    requires
        call_ensures(details_header, (app,), r),
    ensures
        app.selected >= app.pane_order@.len() <==> r is None,
        r matches Some(spans) ==> {
            let v = span_views(spans@);
            let n = app.pane_order@[app.selected as int]@;
            let p = board_get(app.view().panes, n);
            &&& v.len() == 9
            &&& v[2].text == "\""@ + uppercase(
                if p is Some {
                    p->0.pane_name
                } else {
                    n
                },
            ) + "\""@
            &&& v[4].text == bracketed(said_of(p).0, 7)
            &&& v[8].text == decimal(app.playlist_items@.len() as int) + " items"@
        },
{
    assert(app.view().pane_order.len() == app.pane_order@.len());
    assert(app.view().playlist_items.len() == app.playlist_items@.len());
    if let Some(spans) = r {
        let n = app.pane_order@[app.selected as int]@;
        assert(app.view().pane_order[app.selected as int] == n);
        let p = board_get(app.view().panes, n);
        assert(bracketed(said_of(p).0, 7) =~= crate::screen::boxed(said_of(p).0, 7));
    }
}

// ---------------------------------------------------------------------------
// Layouts and names
// ---------------------------------------------------------------------------

/// The layouts that are to be had are the files that end in `.layout`, without that
/// ending, and no other file.
pub proof fn layouts_are_files_with_that_ending(files: &Vec<String>, r: Vec<String>, x: Seq<char>)
    requires
        call_ensures(load_layouts, (files,), r),
        !".layout"@.is_suffix_of(x),
    ensures
        strs(r@).len() == strs(files@).filter(|f: Seq<char>| ".layout"@.is_suffix_of(f)).len(),
        crate::text::in_order(strs(r@)),
        strs(files@).contains(x + ".layout"@) ==> strs(r@).contains(x),
{
    let all = strs(files@);
    lemma_layout_names(all);
    let names = layout_names(all);
    let got = strs(r@);
    names.to_multiset_ensures();
    got.to_multiset_ensures();
    assert(got.len() == names.len());
    if all.contains(x + ".layout"@) {
        let k = choose|k: int| 0 <= k < all.len() && all[k] == x + ".layout"@;
        reveal_strlit(".layout");
        let f = all[k];
        assert(".layout"@.is_suffix_of(f)) by {
            assert(f.subrange(f.len() - 7, f.len() as int) =~= ".layout"@);
        }
        assert(without_suffixes(f, ".layout"@) == x) by {
            reveal_with_fuel(without_suffixes, 3);
            assert(f.take(f.len() - 7) =~= x);
        }
        assert(names.contains(x));
        assert(names.to_multiset().count(x) > 0);
        assert(got.contains(x));
    }
}

proof fn lemma_layout_names(files: Seq<Seq<char>>)
    ensures
        layout_names(files).len() == files.filter(
            |f: Seq<char>| ".layout"@.is_suffix_of(f),
        ).len(),
        forall|k: int|
            0 <= k < files.len() && ".layout"@.is_suffix_of(#[trigger] files[k]) ==> layout_names(
                files,
            ).contains(without_suffixes(files[k], ".layout"@)),
    decreases files.len(),
{
    reveal(Seq::filter);
    if files.len() > 0 {
        let front = files.drop_last();
        lemma_layout_names(front);
        let before = layout_names(front);
        let all = layout_names(files);
        assert forall|k: int|
            0 <= k < files.len() && ".layout"@.is_suffix_of(
                #[trigger] files[k],
            ) implies all.contains(without_suffixes(files[k], ".layout"@)) by {
            if k < front.len() {
                assert(front[k] == files[k]);
                let n = without_suffixes(files[k], ".layout"@);
                assert(before.contains(n));
                let j = choose|j: int| 0 <= j < before.len() && before[j] == n;
                assert(all[j] == n);
            } else {
                assert(all[all.len() - 1] == without_suffixes(files[k], ".layout"@));
            }
        }
    }
}

/// An address is decoded three times over, which undoes as many layers.
pub proof fn addresses_are_decoded_three_times(
    s: &str,
    a: String,
    t: &str,
    b: String,
    u: &str,
    c: String,
    r: String,
)
    requires
        call_ensures(percent_decode, (s,), a),
        t@ == a@,
        call_ensures(percent_decode, (t,), b),
        u@ == b@,
        call_ensures(percent_decode, (u,), c),
        call_ensures(url_decode, (s,), r),
    ensures
        r@ == c@,
{
}

// ---------------------------------------------------------------------------
// Snapshots
// ---------------------------------------------------------------------------

/// A client is told first who the node is and where, its layout, its panes in order, and
/// the other hosts that it knows.
pub proof fn clients_are_told_of_the_node(
    node: &Node,
    ip: &str,
    home: &str,
    hosts: &Vec<Host>,
    r: Json,
    i: int,
)
    requires
        call_ensures(snapshot, (node, ip, home, hosts), r),
    ensures
        at(r.view(), "event"@) == JsonV::Str("node:snapshot"@),
        at(r.view(), "hostname"@) == JsonV::Str(node.hostname@),
        at(r.view(), "platform"@) == JsonV::Str(node.platform@),
        at(r.view(), "ip"@) == JsonV::Str(ip@),
        at(r.view(), "layout"@) == JsonV::Str(node.layout@),
        at(r.view(), "home"@) == JsonV::Str(home@),
        at(r.view(), "panes"@) matches JsonV::Arr(panes) && panes.len() == node.panes@.len() && (0
            <= i < panes.len() ==> at(panes[i], "name"@) == JsonV::Str(node.panes@[i].mpv_name@)
            && at(panes[i], "pane_name"@) == JsonV::Str(node.panes@[i].pane_name@) && (board_get(
            node.view().states,
            node.panes@[i].mpv_name@,
        ) matches Some(s) ==> at(panes[i], "online"@) == JsonV::Bool(s.online) && (
        s.paused matches Some(x) ==> at(panes[i], "paused"@) == JsonV::Bool(x)) && (
        s.muted matches Some(x) ==> at(panes[i], "muted"@) == JsonV::Bool(x)) && (
        s.idle_active matches Some(x) ==> at(panes[i], "idle_active"@) == JsonV::Bool(x)) && (
        s.volume matches Some(x) ==> at(panes[i], "volume"@) == JsonV::Num(NumV::Float(x))) && (
        s.title matches Some(x) ==> at(panes[i], "title"@) == JsonV::Str(x)) && (
        s.playlist_pos matches Some(x) ==> at(panes[i], "playlist_pos"@) == JsonV::Num(
            NumV::Int(x as int),
        )))),
        at(r.view(), "known_hosts"@) matches JsonV::Arr(known) && known.len() == hosts@.len() && (0
            <= i < known.len() ==> known[i] == JsonV::Obj(
            map![
                "label"@ => JsonV::Str(hosts@[i].label@),
                "address"@ => JsonV::Str(hosts@[i].address@),
            ],
        )),
{
    let n = node.view();
    let h = crate::config::host_views(hosts@);
    let panes = JsonV::Arr(
        Seq::new(
            n.panes.len(),
            |i: int| snapshot_pane(n.panes[i], known_state(n.states, n.panes[i])),
        ),
    );
    let known = JsonV::Arr(Seq::new(h.len(), |i: int| snapshot_host(h[i])));
    let e = seq![
        ("event"@, JsonV::Str("node:snapshot"@)),
        ("hostname"@, JsonV::Str(n.hostname)),
        ("platform"@, JsonV::Str(n.platform)),
        ("ip"@, JsonV::Str(ip@)),
        ("layout"@, JsonV::Str(n.layout)),
        ("home"@, JsonV::Str(home@)),
        ("panes"@, panes),
        ("known_hosts"@, known),
    ];
    reveal_strlit("event");
    reveal_strlit("hostname");
    reveal_strlit("platform");
    reveal_strlit("ip");
    reveal_strlit("layout");
    reveal_strlit("home");
    reveal_strlit("panes");
    reveal_strlit("known_hosts");
    assert("event"@.len() == 5 && "hostname"@.len() == 8 && "platform"@.len() == 8 && "ip"@.len()
        == 2 && "layout"@.len() == 6 && "home"@.len() == 4 && "panes"@.len() == 5
        && "known_hosts"@.len() == 11);
    assert("event"@[0] == 'e' && "panes"@[0] == 'p' && "hostname"@[0] == 'h' && "platform"@[0]
        == 'p');
    assert(distinct_keys(e));
    lemma_obj_at(e, 0);
    lemma_obj_at(e, 1);
    lemma_obj_at(e, 2);
    lemma_obj_at(e, 3);
    lemma_obj_at(e, 4);
    lemma_obj_at(e, 5);
    lemma_obj_at(e, 6);
    lemma_obj_at(e, 7);
    if 0 <= i < node.panes@.len() {
        assert(n.panes[i] == node.panes@[i].view());
        crate::mirror::lemma_pane_keys(n.panes[i], known_state(n.states, n.panes[i]));
        lemma_known(n.states, n.panes[i]);
    }
    if 0 <= i < hosts@.len() {
        assert(h[i] == hosts@[i].view());
        lemma_obj_two(
            "label"@,
            JsonV::Str(hosts@[i].label@),
            "address"@,
            JsonV::Str(hosts@[i].address@),
        );
    }
}

/// The watching terminal shows each pane on a row of its own, in order, the selected one
/// marked: its name, its type, what it does and its title or a dash.
pub proof fn each_watched_pane_has_a_row(app: &Watch, r: Vec<Row>, i: int)
    requires
        0 <= i < app.players@.len(),
        call_ensures(pane_rows, (app,), r),
    ensures
        r@.len() == app.players@.len(),
        r@[i].selected == (i == app.selected),
        ({
            let v = r@[i].view().spans;
            let p = app.players@[i].view();
            let name = "\""@ + uppercase(p.name) + "\""@;
            &&& v.len() == 11
            &&& v[0].text == (if i == app.selected {
                ":: "@
            } else {
                "   "@
            })
            &&& name.is_prefix_of(v[1].text)
            &&& ("["@ + uppercase(p.pane_type)).is_prefix_of(v[3].text)
            &&& v[5].text == bracketed(
                if !p.online {
                    "Offline"@
                } else if p.idle_active {
                    "Stopped"@
                } else if p.paused {
                    "Paused"@
                } else {
                    "Playing"@
                },
                7,
            )
            &&& v[5].color == (if !p.online {
                Color::Red
            } else if p.idle_active {
                Color::Dim
            } else if p.paused {
                Color::Hint
            } else {
                Color::Green
            })
            &&& v[9].text == (if p.title.len() == 0 {
                "-"@
            } else {
                p.title
            })
        }),
{
    let rows = row_views(r@);
    assert(rows.len() == r@.len());
    assert(rows[i] == r@[i].view());
    let s = app.view();
    assert(s.players[i] == app.players@[i].view());
    let p = s.players[i];
    let d = crate::watch::doing(p).0;
    assert(bracketed(d, 7) =~= crate::screen::boxed(d, 7));
    let v = r@[i].view().spans;
    let name = "\""@ + uppercase(p.name) + "\""@;
    assert(v[1].text.subrange(0, name.len() as int) =~= name);
    let t = "["@ + uppercase(p.pane_type);
    assert(v[3].text.subrange(0, t.len() as int) =~= t);
}

/// A row of a desk says of its pane what it is called, of which type it is, how it stands
/// and what it plays, and stands out where it is selected.
pub proof fn each_desk_pane_has_a_row(p: &DeskPane, selected: bool, cmd: bool, r: Row)
    requires
        call_ensures(render_dashboard_row, (p, selected, cmd), r),
    ensures
        ({
            let v = r.view().spans;
            let d = p.view();
            &&& r.selected == selected
            &&& v.len() == 11
            &&& v[0].text == (if selected {
                ":: "@
            } else {
                "   "@
            })
            &&& ("\""@ + d.name + "\""@).is_prefix_of(v[1].text)
            &&& v[3].text == bracketed(d.pane_type, 5)
            &&& v[5].text == bracketed(d.status, 7)
            &&& v[5].color == (if d.status == "Playing"@ {
                Color::Orange
            } else if d.status == "Offline"@ {
                Color::Red
            } else {
                Color::Dim
            })
            &&& d.status == "Offline"@ ==> "[Offline]"@.is_prefix_of(v[7].text)
            &&& d.status != "Offline"@ && d.muted ==> "[Vol:Mute]"@.is_prefix_of(v[7].text)
            &&& v[9].text == d.title
            &&& v[10].text == (if cmd && selected {
                "  [CMD]"@
            } else {
                ""@
            })
        }),
{
    let v = r.view().spans;
    let d = p.view();
    assert(bracketed(d.pane_type, 5) =~= crate::screen::boxed(d.pane_type, 5));
    assert(bracketed(d.status, 7) =~= crate::screen::boxed(d.status, 7));
    let n = "\""@ + d.name + "\""@;
    assert(v[1].text.subrange(0, n.len() as int) =~= n);
    if d.status == "Offline"@ {
        assert(v[7].text.subrange(0, "[Offline]"@.len() as int) =~= "[Offline]"@);
    } else if d.muted {
        assert(v[7].text.subrange(0, "[Vol:Mute]"@.len() as int) =~= "[Vol:Mute]"@);
    }
}

proof fn lemma_known(states: Seq<PaneStateV>, p: crate::config::PaneV)
    ensures
        board_get(states, p.mpv_name) matches Some(s) ==> known_state(states, p) == s,
    decreases states.len(),
{
    crate::board::lemma_board_index(states, p.mpv_name);
    if states.len() > 0 && states[0].mpv_name != p.mpv_name {
        let rest = states.skip(1);
        lemma_known(rest, p);
        crate::board::lemma_board_index(rest, p.mpv_name);
        let i = crate::board::board_index(rest, p.mpv_name);
        if i < rest.len() {
            assert(rest[i] == states[i + 1]);
        }
    }
}

} // verus!
