//! The operator's terminal: what it shows of a node, and what each key does.
use crate::board::{
    all_offline, apply_state, board_get, board_put, get_state, put_state, set_all_offline,
    state_applied,
};
use crate::json::{at, bool_of, field, jsons, parsed, str_of, Json, JsonV};
use crate::keys::{down, up};
use crate::picks::rising;
use crate::protocol::{after_property, fresh_state, state_views, PaneState, PaneStateV};
use crate::text::{
    cat, ends_with, in_order, is_empty, lemma_strs_push, opt, same, sort_strings, strs,
    trim_end_str, without_suffixes,
};
use vstd::prelude::*;

verus! {

/// What the playlist screen is being used for.
#[derive(Clone, Copy, Debug, PartialEq, Eq, Structural)]
pub enum DetailsMode {
    Normal,
    Jump,
    Add,
    Save,
    Search,
}

/// What the terminal knows and shows.
#[derive(Debug)]
pub struct App {
    pub pane_order: Vec<String>,
    pub panes: Vec<PaneState>,
    pub selected: usize,
    pub hostname: String,
    pub platform: String,
    pub ip: String,
    pub layout: String,
    pub home: String,
    pub owns_daemon: bool,
    pub is_remote: bool,
    pub show_log: bool,
    pub command_mode: bool,
    pub show_picker: bool,
    pub picker_sel: usize,
    pub layouts: Vec<String>,
    pub show_details: bool,
    pub details_mode: DetailsMode,
    pub playlist_sel: usize,
    pub playlist_items: Vec<String>,
    pub selected_items: Vec<usize>,
    pub status_msg: Option<String>,
    pub jump_input: String,
    pub add_input: String,
    pub passthrough_mode: bool,
}

pub struct AppV {
    pub pane_order: Seq<Seq<char>>,
    pub panes: Seq<PaneStateV>,
    pub selected: usize,
    pub hostname: Seq<char>,
    pub platform: Seq<char>,
    pub ip: Seq<char>,
    pub layout: Seq<char>,
    pub home: Seq<char>,
    pub owns_daemon: bool,
    pub is_remote: bool,
    pub show_log: bool,
    pub command_mode: bool,
    pub show_picker: bool,
    pub picker_sel: usize,
    pub layouts: Seq<Seq<char>>,
    pub show_details: bool,
    pub details_mode: DetailsMode,
    pub playlist_sel: usize,
    pub playlist_items: Seq<Seq<char>>,
    pub selected_items: Seq<usize>,
    pub status_msg: Option<Seq<char>>,
    pub jump_input: Seq<char>,
    pub add_input: Seq<char>,
    pub passthrough_mode: bool,
}

/// A terminal that knows nothing yet.
pub open spec fn fresh_app(home: Seq<char>) -> AppV {
    AppV {
        pane_order: Seq::empty(),
        panes: Seq::empty(),
        selected: 0,
        hostname: Seq::empty(),
        platform: Seq::empty(),
        ip: Seq::empty(),
        layout: Seq::empty(),
        home,
        owns_daemon: false,
        is_remote: false,
        show_log: false,
        command_mode: false,
        show_picker: false,
        picker_sel: 0,
        layouts: Seq::empty(),
        show_details: false,
        details_mode: DetailsMode::Normal,
        playlist_sel: 0,
        playlist_items: Seq::empty(),
        selected_items: Seq::empty(),
        status_msg: None,
        jump_input: Seq::empty(),
        add_input: Seq::empty(),
        passthrough_mode: false,
    }
}

/// Nothing known of a node; what is selected, shown and typed stays.
pub open spec fn session_wiped(s: AppV) -> AppV {
    AppV {
        pane_order: Seq::empty(),
        panes: Seq::empty(),
        hostname: Seq::empty(),
        platform: Seq::empty(),
        ip: Seq::empty(),
        layout: Seq::empty(),
        home: Seq::empty(),
        owns_daemon: false,
        is_remote: false,
        layouts: Seq::empty(),
        ..s
    }
}

/// The name of the selected pane.
pub open spec fn selected_of(s: AppV) -> Option<Seq<char>> {
    if s.selected < s.pane_order.len() {
        Some(s.pane_order[s.selected as int])
    } else {
        None
    }
}

/// The playlist position of the selected pane; -1 where it is not known.
pub open spec fn position_of(s: AppV) -> i64 {
    match selected_of(s) {
        Some(n) => match board_get(s.panes, n) {
            Some(p) => match p.playlist_pos {
                Some(i) => i,
                None => -1i64,
            },
            None => -1i64,
        },
        None => -1i64,
    }
}

/// The last index of a list; zero for an empty one.
pub open spec fn last_index_of(len: int) -> int {
    if len > 0 {
        len - 1
    } else {
        0
    }
}

pub open spec fn smaller(a: int, b: int) -> int {
    if a < b {
        a
    } else {
        b
    }
}

/// A position as an index: zero where it is negative.
pub open spec fn index_of_position(pos: i64) -> int {
    if pos < 0 {
        0
    } else {
        smaller(pos as int, usize::MAX as int)
    }
}

impl App {
    pub open spec fn view(&self) -> AppV {
        AppV {
            pane_order: strs(self.pane_order@),
            panes: state_views(self.panes@),
            selected: self.selected,
            hostname: self.hostname@,
            platform: self.platform@,
            ip: self.ip@,
            layout: self.layout@,
            home: self.home@,
            owns_daemon: self.owns_daemon,
            is_remote: self.is_remote,
            show_log: self.show_log,
            command_mode: self.command_mode,
            show_picker: self.show_picker,
            picker_sel: self.picker_sel,
            layouts: strs(self.layouts@),
            show_details: self.show_details,
            details_mode: self.details_mode,
            playlist_sel: self.playlist_sel,
            playlist_items: strs(self.playlist_items@),
            selected_items: self.selected_items@,
            status_msg: opt(self.status_msg),
            jump_input: self.jump_input@,
            add_input: self.add_input@,
            passthrough_mode: self.passthrough_mode,
        }
    }

    /// The marks are in order.
    pub open spec fn wf(&self) -> bool {
        rising(self.selected_items@)
    }

    /// A terminal that knows nothing yet.
    pub fn new(home: &str) -> (r: App)
        ensures
            r.view() == fresh_app(home@),
            r.wf(),
    {
        let r: App = App {
            pane_order: Vec::new(),
            panes: Vec::new(),
            selected: 0,
            hostname: String::new(),
            platform: String::new(),
            ip: String::new(),
            layout: String::new(),
            home: home.to_owned(),
            owns_daemon: false,
            is_remote: false,
            show_log: false,
            command_mode: false,
            show_picker: false,
            picker_sel: 0,
            layouts: Vec::new(),
            show_details: false,
            details_mode: DetailsMode::Normal,
            playlist_sel: 0,
            playlist_items: Vec::new(),
            selected_items: Vec::new(),
            status_msg: None,
            jump_input: String::new(),
            add_input: String::new(),
            passthrough_mode: false,
        };
        proof {
            assert(strs(r.pane_order@) =~= Seq::empty());
            assert(state_views(r.panes@) =~= Seq::empty());
            assert(strs(r.layouts@) =~= Seq::empty());
            assert(strs(r.playlist_items@) =~= Seq::empty());
        }
        r
    }

    /// How many panes are online.
    pub fn active_count(&self) -> (r: usize)
        ensures
            r == crate::board::online_count(self.view().panes),
    {
        crate::board::count_online(&self.panes)
    }

    /// The name of the selected pane.
    pub fn selected_name(&self) -> (r: Option<String>)
        ensures
            opt(r) == selected_of(self.view()),
    {
        if self.selected < self.pane_order.len() {
            Some(self.pane_order[self.selected].clone())
        } else {
            None
        }
    }

    /// The playlist position of the selected pane.
    pub fn current_playlist_pos(&self) -> (r: i64)
        ensures
            r == position_of(self.view()),
    {
        match self.selected_name() {
            Some(n) => match get_state(&self.panes, n.as_str()) {
                Some(p) => match p.playlist_pos {
                    Some(i) => i,
                    None => -1,
                },
                None => -1,
            },
            None => -1,
        }
    }

    /// Whether the selected item is the one being played.
    pub fn sel_is_playing(&self) -> (r: bool)
        ensures
            r == crate::m3u::is_playing(self.view().playlist_sel as int, position_of(self.view())),
    {
        let pos: i64 = self.current_playlist_pos();
        pos >= 0 && pos as u64 == self.playlist_sel as u64
    }

    /// Forgets what the node told: a new connection brings its own. What is selected,
    /// shown and typed stays.
    pub fn reset(&mut self)
        requires
            old(self).wf(),
        ensures
            final(self).view() == session_wiped(old(self).view()),
            final(self).wf(),
    {
        self.pane_order = Vec::new();
        self.panes = Vec::new();
        self.hostname = String::new();
        self.platform = String::new();
        self.ip = String::new();
        self.layout = String::new();
        self.home = String::new();
        self.owns_daemon = false;
        self.is_remote = false;
        self.layouts = Vec::new();
        proof {
            assert(strs(self.pane_order@) =~= Seq::empty());
            assert(state_views(self.panes@) =~= Seq::empty());
            assert(strs(self.layouts@) =~= Seq::empty());
        }
    }

    /// Selects the next pane, if there is one.
    pub fn select_next(&mut self)
        ensures
            final(self).view() == selected_next(old(self).view()),
            final(self).selected_items@ == old(self).selected_items@,
    {
        let n: usize = self.pane_order.len();
        if self.selected < n && n - self.selected > 1 {
            self.selected = self.selected + 1;
        }
    }

    /// Selects the previous pane, if there is one.
    pub fn select_prev(&mut self)
        ensures
            final(self).view() == selected_prev(old(self).view()),
            final(self).selected_items@ == old(self).selected_items@,
    {
        if self.pane_order.len() > 0 && self.selected > 0 {
            self.selected = self.selected - 1;
        }
    }

    /// Opens the playlist screen.
    pub fn open_details(&mut self)
        ensures
            final(self).view() == details_opened(old(self).view()),
            final(self).wf(),
    {
        self.playlist_items = Vec::new();
        self.playlist_sel = 0;
        self.selected_items = Vec::new();
        self.show_details = true;
        self.details_mode = DetailsMode::Normal;
        self.status_msg = Some("Loading playlist...".to_owned());
        assert(strs(self.playlist_items@) =~= Seq::empty());
    }

    /// Closes the playlist screen.
    pub fn close_details(&mut self)
        ensures
            final(self).view() == details_closed(old(self).view()),
            final(self).wf(),
    {
        self.show_details = false;
        self.details_mode = DetailsMode::Normal;
        self.status_msg = None;
        self.jump_input = String::new();
        self.selected_items = Vec::new();
    }

    /// Shows the log.
    pub fn go_log(&mut self)
        ensures
            final(self).view() == (AppV { show_log: true, ..old(self).view() }),
            final(self).selected_items@ == old(self).selected_items@,
    {
        self.show_log = true;
    }

    /// Leaves the log.
    pub fn leave_log(&mut self)
        ensures
            final(self).view() == (AppV { show_log: false, ..old(self).view() }),
            final(self).selected_items@ == old(self).selected_items@,
    {
        self.show_log = false;
    }
}

pub open spec fn selected_next(s: AppV) -> AppV {
    if s.selected + 1 < s.pane_order.len() {
        AppV { selected: (s.selected + 1) as usize, ..s }
    } else {
        s
    }
}

pub open spec fn selected_prev(s: AppV) -> AppV {
    if s.pane_order.len() > 0 && s.selected > 0 {
        AppV { selected: (s.selected - 1) as usize, ..s }
    } else {
        s
    }
}

pub open spec fn details_opened(s: AppV) -> AppV {
    AppV {
        playlist_items: Seq::empty(),
        playlist_sel: 0,
        selected_items: Seq::empty(),
        show_details: true,
        details_mode: DetailsMode::Normal,
        status_msg: Some("Loading playlist..."@),
        ..s
    }
}

pub open spec fn details_closed(s: AppV) -> AppV {
    AppV {
        show_details: false,
        details_mode: DetailsMode::Normal,
        status_msg: None,
        jump_input: Seq::empty(),
        selected_items: Seq::empty(),
        ..s
    }
}

// ---------------------------------------------------------------------------
// Layout names
// ---------------------------------------------------------------------------

/// The layouts among the files of the layout directory, without their ending.
pub open spec fn layout_names(files: Seq<Seq<char>>) -> Seq<Seq<char>>
    decreases files.len(),
{
    if files.len() == 0 {
        Seq::empty()
    } else {
        let before = layout_names(files.drop_last());
        if ".layout"@.is_suffix_of(files.last()) {
            before.push(without_suffixes(files.last(), ".layout"@))
        } else {
            before
        }
    }
}

/// `names` are the layouts among `files`, in order.
pub open spec fn are_layouts_of(names: Seq<Seq<char>>, files: Seq<Seq<char>>) -> bool {
    in_order(names) && names.to_multiset() == layout_names(files).to_multiset()
}

/// The layouts among the files of the layout directory, in order.
pub fn load_layouts(files: &Vec<String>) -> (r: Vec<String>)
    ensures
        are_layouts_of(strs(r@), strs(files@)),
{
    let ghost all = strs(files@);
    let mut out: Vec<String> = Vec::new();
    assert(strs(out@) =~= layout_names(all.take(0)));
    for i in 0..files.len()
        invariant
            all == strs(files@),
            strs(out@) == layout_names(all.take(i as int)),
    {
        proof {
            assert(all.take(i + 1).drop_last() =~= all.take(i as int));
            assert(all.take(i + 1).last() == files@[i as int]@);
        }
        if ends_with(files[i].as_str(), ".layout") {
            let n: String = trim_end_str(files[i].as_str(), ".layout").to_owned();
            proof {
                lemma_strs_push(out@, n);
            }
            out.push(n);
        }
    }
    assert(all.take(all.len() as int) =~= all);
    sort_strings(&out)
}

// ---------------------------------------------------------------------------
// Events
// ---------------------------------------------------------------------------

/// The text of a field, empty where it is missing or no text.
pub open spec fn text_at(v: JsonV, key: Seq<char>) -> Seq<char> {
    match str_of(at(v, key)) {
        Some(t) => t,
        None => Seq::empty(),
    }
}

fn text_field(v: &Json, key: &str) -> (r: String)
    ensures
        r@ == text_at(v.view(), key@),
{
    match v.str_at(key) {
        Some(t) => t,
        None => String::new(),
    }
}

/// A pane as a snapshot gives it: called by its name where it has no other, and
/// offline unless it is said to be online.
pub open spec fn pane_given(name: Seq<char>, p: JsonV) -> PaneStateV {
    let fresh = fresh_state(
        name,
        match str_of(at(p, "pane_name"@)) {
            Some(n) => n,
            None => name,
        },
    );
    state_applied(PaneStateV { online: bool_of(at(p, "online"@)) == Some(true), ..fresh }, p)
}

/// The panes that a snapshot names, added in order; one without a name is left out.
pub open spec fn with_panes(s: AppV, panes: Seq<JsonV>) -> AppV
    decreases panes.len(),
{
    if panes.len() == 0 {
        s
    } else {
        let before = with_panes(s, panes.drop_last());
        let p = panes.last();
        let name = text_at(p, "name"@);
        if name.len() == 0 {
            before
        } else {
            AppV {
                pane_order: before.pane_order.push(name),
                panes: board_put(before.panes, pane_given(name, p)),
                ..before
            }
        }
    }
}

/// After a snapshot: the node's own description, the layouts that are to be had, and
/// the panes that it lists in place of those that were known. One that lists none
/// leaves the known panes as they are.
pub open spec fn after_snapshot(s: AppV, v: JsonV, layouts: Seq<Seq<char>>) -> AppV {
    let base = AppV {
        hostname: text_at(v, "hostname"@),
        platform: text_at(v, "platform"@),
        ip: text_at(v, "ip"@),
        layout: text_at(v, "layout"@),
        home: text_at(v, "home"@),
        layouts,
        ..s
    };
    match at(v, "panes"@) {
        JsonV::Arr(panes) => with_panes(
            AppV { pane_order: Seq::empty(), panes: Seq::empty(), ..base },
            panes,
        ),
        _ => base,
    }
}

/// The pane came up, with the state that the event gives.
pub open spec fn after_online(s: AppV, v: JsonV) -> AppV {
    match board_get(s.panes, text_at(v, "pane"@)) {
        Some(p) => {
            let up = PaneStateV { online: true, ..p };
            AppV {
                panes: board_put(
                    s.panes,
                    match field(v, "state"@) {
                        Some(st) => state_applied(up, st),
                        None => up,
                    },
                ),
                ..s
            }
        },
        None => s,
    }
}

pub open spec fn after_offline(s: AppV, v: JsonV) -> AppV {
    match board_get(s.panes, text_at(v, "pane"@)) {
        Some(p) => AppV { panes: board_put(s.panes, PaneStateV { online: false, ..p }), ..s },
        None => s,
    }
}

pub open spec fn after_change(s: AppV, v: JsonV) -> AppV {
    match board_get(s.panes, text_at(v, "pane"@)) {
        Some(p) => AppV {
            panes: board_put(
                s.panes,
                after_property(p, text_at(v, "property"@), at(v, "value"@)),
            ),
            ..s
        },
        None => s,
    }
}

/// What a playlist item is called: its title unless that is empty, else its
/// source. An item without a source is none.
pub open spec fn item_name(i: JsonV) -> Option<Seq<char>> {
    match str_of(at(i, "filename"@)) {
        Some(f) => Some(
            match str_of(at(i, "title"@)) {
                Some(t) if t.len() > 0 => t,
                _ => f,
            },
        ),
        None => None,
    }
}

pub open spec fn item_names(items: Seq<JsonV>) -> Seq<Seq<char>>
    decreases items.len(),
{
    if items.len() == 0 {
        Seq::empty()
    } else {
        let before = item_names(items.drop_last());
        match item_name(items.last()) {
            Some(n) => before.push(n),
            None => before,
        }
    }
}

/// Where `name` first stands in the list; past its end where it does not occur.
pub open spec fn name_index(v: Seq<Seq<char>>, name: Seq<char>) -> int
    decreases v.len(),
{
    if v.len() == 0 || v[0] == name {
        0
    } else {
        1 + name_index(v.skip(1), name)
    }
}

/// A playlist counts only for the pane whose playlist is being shown.
pub open spec fn after_playlist(s: AppV, v: JsonV) -> AppV {
    let pane = text_at(v, "pane"@);
    let i = name_index(s.pane_order, pane);
    match at(v, "items"@) {
        JsonV::Arr(items) => if i < s.pane_order.len() && i == s.selected && s.show_details {
            AppV {
                playlist_items: item_names(items),
                playlist_sel: match board_get(s.panes, pane) {
                    Some(p) => match p.playlist_pos {
                        Some(pos) => index_of_position(pos) as usize,
                        None => 0,
                    },
                    None => 0,
                },
                status_msg: None,
                ..s
            }
        } else {
            s
        },
        _ => s,
    }
}

/// The terminal after an event of the daemon. `layouts` are the layouts that are to
/// be had when a snapshot comes.
pub open spec fn after_event(s: AppV, v: JsonV, layouts: Seq<Seq<char>>) -> AppV {
    let event = text_at(v, "event"@);
    if event == "node:snapshot"@ {
        after_snapshot(s, v, layouts)
    } else if event == "online"@ {
        after_online(s, v)
    } else if event == "offline"@ {
        after_offline(s, v)
    } else if event == "property-change"@ {
        after_change(s, v)
    } else if event == "node:down"@ {
        AppV { panes: all_offline(s.panes), ..s }
    } else if event == "node:layout"@ {
        match str_of(at(v, "layout"@)) {
            Some(l) => AppV { layout: l, ..s },
            None => s,
        }
    } else if event == "node:playlist"@ {
        after_playlist(s, v)
    } else if event == "node:playlist-saved"@ {
        AppV {
            status_msg: Some(
                "Saved to "@ + (match str_of(at(v, "path"@)) {
                    Some(p) => p,
                    None => "unknown"@,
                }),
            ),
            ..s
        }
    } else {
        s
    }
}

/// The event that says that the node is going down.
pub open spec fn is_node_down(v: JsonV) -> bool {
    text_at(v, "event"@) == "node:down"@
}

pub fn find_name(v: &Vec<String>, name: &str) -> (r: usize)
    ensures
        r == name_index(strs(v@), name@),
        r <= v@.len(),
{
    let ghost all = strs(v@);
    let mut i: usize = 0;
    assert(all.skip(0) =~= all);
    while i < v.len()
        invariant
            all == strs(v@),
            i <= v@.len(),
            name_index(all, name@) == i + name_index(all.skip(i as int), name@),
        decreases v@.len() - i,
    {
        assert(all.skip(i as int)[0] == v@[i as int]@);
        if same(v[i].as_str(), name) {
            return i;
        }
        assert(all.skip(i as int).skip(1) =~= all.skip(i + 1));
        i = i + 1;
    }
    i
}

/// A position as an index.
pub fn position_index(pos: i64) -> (r: usize)
    ensures
        r == index_of_position(pos),
{
    if pos < 0 {
        0
    } else if pos as u64 > usize::MAX as u64 {
        usize::MAX
    } else {
        pos as usize
    }
}

fn add_panes(app: &mut App, panes: &Vec<Json>)
    ensures
        final(app).view() == with_panes(old(app).view(), jsons(panes@)),
        final(app).selected_items@ == old(app).selected_items@,
{
    let ghost s = app.view();
    let ghost all = jsons(panes@);
    let ghost marks = app.selected_items@;
    assert(all.take(0) =~= Seq::empty());
    for i in 0..panes.len()
        invariant
            all == jsons(panes@),
            app.view() == with_panes(s, all.take(i as int)),
            app.selected_items@ == marks,
    {
        proof {
            assert(all.take(i + 1).drop_last() =~= all.take(i as int));
            assert(all.take(i + 1).last() == panes@[i as int].view());
        }
        let p: &Json = &panes[i];
        let name: String = text_field(p, "name");
        if !is_empty(name.as_str()) {
            let shown: String = match p.str_at("pane_name") {
                Some(n) => n,
                None => name.clone(),
            };
            let mut ps: PaneState = PaneState::new(name.as_str(), shown.as_str());
            ps.online = p.bool_at("online") == Some(true);
            apply_state(&mut ps, p);
            put_state(&mut app.panes, ps);
            proof {
                lemma_strs_push(app.pane_order@, name);
            }
            app.pane_order.push(name);
        }
    }
    assert(all.take(all.len() as int) =~= all);
}

fn names_of(items: &Vec<Json>) -> (r: Vec<String>)
    ensures
        strs(r@) == item_names(jsons(items@)),
{
    let ghost all = jsons(items@);
    let mut out: Vec<String> = Vec::new();
    assert(strs(out@) =~= item_names(all.take(0)));
    for i in 0..items.len()
        invariant
            all == jsons(items@),
            strs(out@) == item_names(all.take(i as int)),
    {
        proof {
            assert(all.take(i + 1).drop_last() =~= all.take(i as int));
            assert(all.take(i + 1).last() == items@[i as int].view());
        }
        if let Some(f) = items[i].str_at("filename") {
            let name: String = match items[i].str_at("title") {
                Some(t) => if is_empty(t.as_str()) {
                    f
                } else {
                    t
                },
                None => f,
            };
            proof {
                lemma_strs_push(out@, name);
            }
            out.push(name);
        }
    }
    assert(all.take(all.len() as int) =~= all);
    out
}

/// Applies a property that the daemon reports.
pub fn apply_property(p: &mut PaneState, property: &str, v: &Json, key: &str)
    ensures
        final(p).view() == after_property(old(p).view(), property@, at(v.view(), key@)),
{
    if same(property, "pause") {
        p.paused = v.bool_at(key);
    } else if same(property, "volume") {
        p.volume = v.double_at(key);
    } else if same(property, "media-title") {
        p.title = v.str_at(key);
    } else if same(property, "playlist-pos") {
        p.playlist_pos = v.i64_at(key);
    } else if same(property, "mute") {
        p.muted = v.bool_at(key);
    } else if same(property, "idle-active") {
        p.idle_active = v.bool_at(key);
    }
}

fn on_snapshot(app: &mut App, v: &Json, layouts: Vec<String>)
    ensures
        final(app).view() == after_snapshot(old(app).view(), v.view(), strs(layouts@)),
        final(app).selected_items@ == old(app).selected_items@,
{
    app.hostname = text_field(v, "hostname");
    app.platform = text_field(v, "platform");
    app.ip = text_field(v, "ip");
    app.layout = text_field(v, "layout");
    app.home = text_field(v, "home");
    app.layouts = layouts;
    if let Some(p) = v.get("panes") {
        if let Some(a) = p.as_array() {
            app.pane_order = Vec::new();
            app.panes = Vec::new();
            proof {
                assert(strs(app.pane_order@) =~= Seq::empty());
                assert(state_views(app.panes@) =~= Seq::empty());
            }
            add_panes(app, a);
        }
    }
}

fn on_pane_event(app: &mut App, v: &Json, event: &str)
    requires
        event@ == "online"@ || event@ == "offline"@ || event@ == "property-change"@,
    ensures
        final(app).view() == (if event@ == "online"@ {
            after_online(old(app).view(), v.view())
        } else if event@ == "offline"@ {
            after_offline(old(app).view(), v.view())
        } else {
            after_change(old(app).view(), v.view())
        }),
        final(app).selected_items@ == old(app).selected_items@,
{
    let pane: String = text_field(v, "pane");
    let mut p: PaneState = match get_state(&app.panes, pane.as_str()) {
        Some(p) => p.copy(),
        None => return,
    };
    if same(event, "online") {
        p.online = true;
        if let Some(st) = v.get("state") {
            apply_state(&mut p, st);
        }
    } else if same(event, "offline") {
        p.online = false;
    } else {
        let prop: String = text_field(v, "property");
        apply_property(&mut p, prop.as_str(), v, "value");
    }
    put_state(&mut app.panes, p);
}

fn on_playlist(app: &mut App, v: &Json)
    ensures
        final(app).view() == after_playlist(old(app).view(), v.view()),
        final(app).selected_items@ == old(app).selected_items@,
{
    let pane: String = text_field(v, "pane");
    let i: usize = find_name(&app.pane_order, pane.as_str());
    let items: &Vec<Json> = match v.get("items") {
        Some(x) => match x.as_array() {
            Some(a) => a,
            None => return,
        },
        None => return,
    };
    if i < app.pane_order.len() && i == app.selected && app.show_details {
        app.playlist_items = names_of(items);
        app.playlist_sel = match get_state(&app.panes, pane.as_str()) {
            Some(p) => match p.playlist_pos {
                Some(pos) => position_index(pos),
                None => 0,
            },
            None => 0,
        };
        app.status_msg = None;
    }
}

/// Takes in an event of the daemon; says whether the node is going down. `layouts`
/// are the layouts that are to be had.
pub fn apply_event(app: &mut App, v: &Json, layouts: Vec<String>) -> (down: bool)
    requires
        old(app).wf(),
    ensures
        final(app).view() == after_event(old(app).view(), v.view(), strs(layouts@)),
        final(app).wf(),
        down == is_node_down(v.view()),
{
    let event: String = text_field(v, "event");
    let e: &str = event.as_str();
    if same(e, "node:snapshot") {
        proof {
            reveal_strlit("node:snapshot");
            reveal_strlit("node:down");
            assert("node:snapshot"@.len() == 13 && "node:down"@.len() == 9);
        }
        on_snapshot(app, v, layouts);
        false
    } else if same(e, "online") || same(e, "offline") || same(e, "property-change") {
        proof {
            reveal_strlit("online");
            reveal_strlit("offline");
            reveal_strlit("property-change");
            reveal_strlit("node:down");
            assert("online"@.len() == 6 && "offline"@.len() == 7 && "property-change"@.len() == 15
                && "node:down"@.len() == 9);
        }
        on_pane_event(app, v, e);
        false
    } else if same(e, "node:down") {
        set_all_offline(&mut app.panes);
        true
    } else if same(e, "node:layout") {
        if let Some(l) = v.str_at("layout") {
            app.layout = l;
        }
        false
    } else if same(e, "node:playlist") {
        on_playlist(app, v);
        false
    } else if same(e, "node:playlist-saved") {
        let path: String = match v.str_at("path") {
            Some(p) => p,
            None => "unknown".to_owned(),
        };
        app.status_msg = Some(cat("Saved to ", path.as_str()));
        false
    } else {
        false
    }
}

/// Takes in a text of the daemon, with the files of the layout directory; says
/// whether the node is going down. A text that is no JSON changes nothing.
pub fn process_event(app: &mut App, text: &str, layout_files: &Vec<String>) -> (down: bool)
    requires
        old(app).wf(),
    ensures
        final(app).wf(),
        match parsed(text@) {
            Some(v) => down == is_node_down(v) && exists|names: Seq<Seq<char>>|
                are_layouts_of(names, strs(layout_files@)) && final(app).view() == #[trigger]
                    after_event(old(app).view(), v, names),
            None => !down && final(app).view() == old(app).view(),
        },
{
    match Json::parse(text) {
        Some(v) => {
            let names: Vec<String> = load_layouts(layout_files);
            let ghost before = app.view();
            let down: bool = apply_event(app, &v, names);
            proof {
                assert(app.view() == after_event(before, v.view(), strs(names@)));
            }
            down
        },
        None => false,
    }
}

// ---------------------------------------------------------------------------
// Laws
// ---------------------------------------------------------------------------

/// An event about one pane changes nothing of any other.
pub proof fn pane_events_touch_only_their_pane(s: AppV, v: JsonV, name: Seq<char>)
    requires
        name != text_at(v, "pane"@),
    ensures
        board_get(after_online(s, v).panes, name) == board_get(s.panes, name),
        board_get(after_offline(s, v).panes, name) == board_get(s.panes, name),
        board_get(after_change(s, v).panes, name) == board_get(s.panes, name),
{
    let pane = text_at(v, "pane"@);
    crate::board::lemma_board_index(s.panes, pane);
    if let Some(p) = board_get(s.panes, pane) {
        assert(p.mpv_name == pane);
        let up = PaneStateV { online: true, ..p };
        let on = match field(v, "state"@) {
            Some(st) => state_applied(up, st),
            None => up,
        };
        crate::board::putting_touches_one_pane(s.panes, on, name);
        crate::board::putting_touches_one_pane(
            s.panes,
            PaneStateV { online: false, ..p },
            name,
        );
        crate::board::putting_touches_one_pane(
            s.panes,
            after_property(p, text_at(v, "property"@), at(v, "value"@)),
            name,
        );
    }
}

/// An online pane is online after its event, an offline one is not, and a change of
/// a property changes neither.
pub proof fn pane_events_say_who_is_online(s: AppV, v: JsonV)
    requires
        board_get(s.panes, text_at(v, "pane"@)) is Some,
    ensures
        board_get(after_online(s, v).panes, text_at(v, "pane"@)) matches Some(p) && p.online,
        board_get(after_offline(s, v).panes, text_at(v, "pane"@)) matches Some(p) && !p.online,
        board_get(after_change(s, v).panes, text_at(v, "pane"@)) matches Some(p) && p.online
            == board_get(s.panes, text_at(v, "pane"@))->0.online,
{
    let pane = text_at(v, "pane"@);
    crate::board::lemma_board_index(s.panes, pane);
    let p = board_get(s.panes, pane)->0;
    let up = PaneStateV { online: true, ..p };
    let on = match field(v, "state"@) {
        Some(st) => state_applied(up, st),
        None => up,
    };
    crate::board::what_was_put_is_found(s.panes, on);
    crate::board::what_was_put_is_found(s.panes, PaneStateV { online: false, ..p });
    crate::board::what_was_put_is_found(
        s.panes,
        after_property(p, text_at(v, "property"@), at(v, "value"@)),
    );
}

/// When the node goes down no pane is online any more.
pub proof fn node_down_takes_every_pane_offline(s: AppV, v: JsonV, layouts: Seq<Seq<char>>)
    requires
        is_node_down(v),
    ensures
        crate::board::online_count(after_event(s, v, layouts).panes) == 0,
        after_event(s, v, layouts).pane_order == s.pane_order,
{
    reveal_strlit("node:down");
    reveal_strlit("node:snapshot");
    reveal_strlit("online");
    reveal_strlit("offline");
    reveal_strlit("property-change");
    assert("node:down"@.len() == 9 && "node:snapshot"@.len() == 13 && "online"@.len() == 6
        && "offline"@.len() == 7 && "property-change"@.len() == 15);
    crate::board::nothing_is_online_after_all_went_down(s.panes);
}

} // verus!
