//! The pane states that a client keeps, found by the name of the pane.
use crate::json::{at, bool_of, double_of, i64_of, str_of, Json, JsonV};
use crate::protocol::{state_views, PaneState, PaneStateV};
use crate::text::same;
use vstd::prelude::*;

verus! {

/// Where the pane `name` stands; past the end where it does not occur.
pub open spec fn board_index(s: Seq<PaneStateV>, name: Seq<char>) -> int
    decreases s.len(),
{
    if s.len() == 0 || s[0].mpv_name == name {
        0
    } else {
        1 + board_index(s.skip(1), name)
    }
}

/// The state of the pane `name`.
pub open spec fn board_get(s: Seq<PaneStateV>, name: Seq<char>) -> Option<PaneStateV> {
    let i = board_index(s, name);
    if 0 <= i < s.len() {
        Some(s[i])
    } else {
        None
    }
}

/// The states with that of one pane put in place of the one it had, or added.
pub open spec fn board_put(s: Seq<PaneStateV>, p: PaneStateV) -> Seq<PaneStateV> {
    let i = board_index(s, p.mpv_name);
    if 0 <= i < s.len() {
        s.update(i, p)
    } else {
        s.push(p)
    }
}

/// Every pane offline, nothing else changed.
pub open spec fn all_offline(s: Seq<PaneStateV>) -> Seq<PaneStateV> {
    Seq::new(s.len(), |i: int| PaneStateV { online: false, ..s[i] })
}

/// How many panes are online.
pub open spec fn online_count(s: Seq<PaneStateV>) -> int
    decreases s.len(),
{
    if s.len() == 0 {
        0
    } else {
        online_count(s.drop_last()) + if s.last().online {
            1int
        } else {
            0
        }
    }
}

/// A pane that is known to be playing: online, neither idle nor paused.
pub open spec fn is_playing_now(p: PaneStateV) -> bool {
    p.online && p.idle_active == Some(false) && p.paused == Some(false)
}

/// Some pane is playing.
pub open spec fn any_playing(s: Seq<PaneStateV>) -> bool {
    exists|i: int| 0 <= i < s.len() && is_playing_now(#[trigger] s[i])
}

/// The state with what `st` gives; what it does not give stays.
pub open spec fn state_applied(p: PaneStateV, st: JsonV) -> PaneStateV {
    PaneStateV {
        paused: match bool_of(at(st, "paused"@)) {
            Some(b) => Some(b),
            None => p.paused,
        },
        muted: match bool_of(at(st, "muted"@)) {
            Some(b) => Some(b),
            None => p.muted,
        },
        idle_active: match bool_of(at(st, "idle_active"@)) {
            Some(b) => Some(b),
            None => p.idle_active,
        },
        volume: match double_of(at(st, "volume"@)) {
            Some(d) => Some(d),
            None => p.volume,
        },
        playlist_pos: match i64_of(at(st, "playlist_pos"@)) {
            Some(n) => Some(n),
            None => p.playlist_pos,
        },
        title: match str_of(at(st, "title"@)) {
            Some(t) => Some(t),
            None => p.title,
        },
        ..p
    }
}

pub proof fn lemma_board_index(s: Seq<PaneStateV>, name: Seq<char>)
    ensures
        0 <= board_index(s, name) <= s.len(),
        board_index(s, name) < s.len() ==> s[board_index(s, name)].mpv_name == name,
        forall|j: int| 0 <= j < board_index(s, name) ==> (#[trigger] s[j]).mpv_name != name,
    decreases s.len(),
{
    if s.len() > 0 && s[0].mpv_name != name {
        lemma_board_index(s.skip(1), name);
        assert forall|j: int| 0 <= j < board_index(s, name) implies (#[trigger] s[j]).mpv_name
            != name by {
            if j > 0 {
                assert(s.skip(1)[j - 1] == s[j]);
            }
        }
    }
}

/// Where the pane `name` stands.
pub fn find_state(v: &Vec<PaneState>, name: &str) -> (r: usize)
    ensures
        r == board_index(state_views(v@), name@),
        r <= v@.len(),
{
    let ghost all = state_views(v@);
    let mut i: usize = 0;
    assert(all.skip(0) =~= all);
    while i < v.len()
        invariant
            all == state_views(v@),
            i <= v@.len(),
            board_index(all, name@) == i + board_index(all.skip(i as int), name@),
        decreases v@.len() - i,
    {
        assert(all.skip(i as int)[0] == v@[i as int].view());
        if same(v[i].mpv_name.as_str(), name) {
            return i;
        }
        assert(all.skip(i as int).skip(1) =~= all.skip(i + 1));
        i = i + 1;
    }
    i
}

/// The state of the pane `name`.
pub fn get_state<'a>(v: &'a Vec<PaneState>, name: &str) -> (r: Option<&'a PaneState>)
    ensures
        match r {
            Some(p) => board_get(state_views(v@), name@) == Some(p.view()),
            None => board_get(state_views(v@), name@) is None,
        },
{
    let i: usize = find_state(v, name);
    if i < v.len() {
        Some(&v[i])
    } else {
        None
    }
}

/// Puts a state in its place.
pub fn put_state(v: &mut Vec<PaneState>, p: PaneState)
    ensures
        state_views(final(v)@) == board_put(state_views(old(v)@), p.view()),
{
    let i: usize = find_state(v, p.mpv_name.as_str());
    let ghost before = v@;
    if i < v.len() {
        v.set(i, p);
        assert(state_views(v@) =~= state_views(before).update(i as int, p.view()));
    } else {
        v.push(p);
        assert(state_views(v@) =~= state_views(before).push(p.view()));
    }
}

/// Takes every pane offline.
pub fn set_all_offline(v: &mut Vec<PaneState>)
    ensures
        state_views(final(v)@) == all_offline(state_views(old(v)@)),
{
    let ghost before = v@;
    let n: usize = v.len();
    for i in 0..n
        invariant
            n == v@.len(),
            v@.len() == before.len(),
            forall|k: int|
                0 <= k < i ==> (#[trigger] v@[k]).view() == (PaneStateV {
                    online: false,
                    ..before[k].view()
                }),
            forall|k: int| i <= k < v@.len() ==> v@[k] == before[k],
    {
        let mut p: PaneState = v[i].copy();
        p.online = false;
        v.set(i, p);
    }
    assert(state_views(v@) =~= all_offline(state_views(before)));
}

/// How many panes are online.
pub fn count_online(v: &Vec<PaneState>) -> (r: usize)
    ensures
        r == online_count(state_views(v@)),
{
    let ghost all = state_views(v@);
    let mut c: usize = 0;
    for i in 0..v.len()
        invariant
            all == state_views(v@),
            c <= i,
            c == online_count(all.take(i as int)),
    {
        proof {
            assert(all.take(i + 1).drop_last() =~= all.take(i as int));
            assert(all.take(i + 1).last() == v@[i as int].view());
        }
        if v[i].online {
            c = c + 1;
        }
    }
    assert(all.take(all.len() as int) =~= all);
    c
}

/// Whether some pane is playing.
pub fn is_any_playing(v: &Vec<PaneState>) -> (r: bool)
    ensures
        r == any_playing(state_views(v@)),
{
    let ghost all = state_views(v@);
    for i in 0..v.len()
        invariant
            all == state_views(v@),
            forall|k: int| 0 <= k < i ==> !is_playing_now(#[trigger] all[k]),
    {
        let p: &PaneState = &v[i];
        assert(all[i as int] == p.view());
        if p.online && p.idle_active == Some(false) && p.paused == Some(false) {
            assert(is_playing_now(all[i as int]));
            return true;
        }
    }
    false
}

/// Takes in what `st` gives.
pub fn apply_state(p: &mut PaneState, st: &Json)
    ensures
        final(p).view() == state_applied(old(p).view(), st.view()),
{
    if let Some(b) = st.bool_at("paused") {
        p.paused = Some(b);
    }
    if let Some(b) = st.bool_at("muted") {
        p.muted = Some(b);
    }
    if let Some(b) = st.bool_at("idle_active") {
        p.idle_active = Some(b);
    }
    if let Some(d) = st.double_at("volume") {
        p.volume = Some(d);
    }
    if let Some(n) = st.i64_at("playlist_pos") {
        p.playlist_pos = Some(n);
    }
    if let Some(t) = st.str_at("title") {
        p.title = Some(t);
    }
}

/// Putting the state of one pane leaves every other pane as it was.
pub proof fn putting_touches_one_pane(s: Seq<PaneStateV>, p: PaneStateV, name: Seq<char>)
    requires
        name != p.mpv_name,
    ensures
        board_get(board_put(s, p), name) == board_get(s, name),
        board_get(board_put(s, p), p.mpv_name) == Some(p),
{
    let t = board_put(s, p);
    lemma_board_index(s, name);
    lemma_board_index(s, p.mpv_name);
    lemma_board_index(t, name);
    lemma_board_index(t, p.mpv_name);
    let a = board_index(s, name);
    let b = board_index(t, name);
    let i = board_index(s, p.mpv_name);
    if a < s.len() {
        assert(t[a].mpv_name == name);
    }
    if b < t.len() {
        assert(t[b].mpv_name == name);
        if i < s.len() {
            assert(b != i);
        }
        assert(b < s.len());
        assert(s[b].mpv_name == name);
    }
    if a < b && a < s.len() {
        assert(t[a].mpv_name != name);
    }
    if b < a && b < t.len() {
        assert(s[b].mpv_name != name);
    }
    let c = board_index(t, p.mpv_name);
    if i < s.len() {
        assert(t[i].mpv_name == p.mpv_name);
        if c < i {
            assert(s[c].mpv_name != p.mpv_name);
        } else if i < c {
            assert(t[i].mpv_name != p.mpv_name);
        }
    } else {
        assert(t[s.len() as int].mpv_name == p.mpv_name);
        if c < s.len() {
            assert(s[c].mpv_name != p.mpv_name);
        }
    }
}

/// The state that was put is the one that is found.
pub proof fn what_was_put_is_found(s: Seq<PaneStateV>, p: PaneStateV)
    ensures
        board_get(board_put(s, p), p.mpv_name) == Some(p),
{
    let other = p.mpv_name.push('x');
    assert(other.len() != p.mpv_name.len());
    putting_touches_one_pane(s, p, other);
}

/// When all panes are taken offline none counts as online, and each pane is still
/// there.
pub proof fn nothing_is_online_after_all_went_down(s: Seq<PaneStateV>)
    ensures
        online_count(all_offline(s)) == 0,
        !any_playing(all_offline(s)),
        forall|n: Seq<char>| #[trigger] board_index(all_offline(s), n) == board_index(s, n),
    decreases s.len(),
{
    let t = all_offline(s);
    if s.len() > 0 {
        nothing_is_online_after_all_went_down(s.drop_last());
        assert(t.drop_last() =~= all_offline(s.drop_last()));
    }
    assert forall|n: Seq<char>| #[trigger] board_index(t, n) == board_index(s, n) by {
        lemma_board_index(s, n);
        lemma_board_index(t, n);
        let a = board_index(s, n);
        let b = board_index(t, n);
        if a < b {
            assert(t[a].mpv_name != n);
        } else if b < a {
            assert(s[b].mpv_name != n);
        }
    }
}

} // verus!
