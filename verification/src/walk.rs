//! The files below a directory, in order.
use crate::names::{extension, is_media, media_extensions};
use crate::paths::{join, joined};
use crate::text::{
    cat, comes_first, lemma_strs_push, lowercase, strs, text_le, trim_end_char, without_trailing,
};
use vstd::prelude::*;

verus! {

/// A file, or a directory and what is below it.
#[derive(Debug)]
pub struct DirNode {
    pub name: String,
    pub is_dir: bool,
    pub below: Vec<DirNode>,
}

pub struct DirNodeV {
    pub name: Seq<char>,
    pub is_dir: bool,
    pub below: Seq<DirNodeV>,
}

impl DirNode {
    pub open spec fn view(&self) -> DirNodeV
        decreases self,
    {
        proof {
            assert(decreases_to!(*self => self.below));
            assert(decreases_to!(self.below => self.below@));
        }
        DirNodeV { name: self.name@, is_dir: self.is_dir, below: node_views(self.below@) }
    }
}

/// The nodes of a list.
pub open spec fn node_views(v: Seq<DirNode>) -> Seq<DirNodeV>
    decreases v,
{
    Seq::new(
        v.len(),
        |i: int|
            if 0 <= i < v.len() {
                v[i].view()
            } else {
                DirNodeV { name: Seq::empty(), is_dir: false, below: Seq::empty() }
            },
    )
}

// ---------------------------------------------------------------------------
// Order
// ---------------------------------------------------------------------------

/// A node put behind those whose names do not come after its own.
pub open spec fn placed(s: Seq<DirNodeV>, e: DirNodeV) -> Seq<DirNodeV>
    decreases s.len(),
{
    if s.len() == 0 || text_le(s.last().name, e.name) {
        s.push(e)
    } else {
        placed(s.drop_last(), e).push(s.last())
    }
}

/// The nodes by name, and those below each directory too.
pub open spec fn by_name(s: Seq<DirNodeV>) -> Seq<DirNodeV>
    decreases s,
{
    if s.len() == 0 {
        Seq::empty()
    } else {
        let e = s.last();
        placed(by_name(s.drop_last()), DirNodeV { below: by_name(e.below), ..e })
    }
}

fn place(v: &mut Vec<DirNode>, e: DirNode)
    ensures
        node_views(final(v)@) == placed(node_views(old(v)@), e.view()),
{
    let ghost all = node_views(v@);
    let ghost start = v@;
    let mut i: usize = v.len();
    assert(all.take(i as int) =~= all);
    assert(all.skip(i as int) =~= Seq::empty());
    assert(placed(all, e.view()) =~= placed(all.take(i as int), e.view()) + all.skip(i as int));
    while i > 0 && !comes_first(v[i - 1].name.as_str(), e.name.as_str())
        invariant
            v@ == start,
            all == node_views(start),
            i <= v@.len(),
            placed(all, e.view()) == placed(all.take(i as int), e.view()) + all.skip(i as int),
        decreases i,
    {
        proof {
            let t = all.take(i as int);
            assert(t.last() == v@[i - 1].view());
            assert(t.drop_last() =~= all.take(i - 1));
            assert(placed(t, e.view()) == placed(all.take(i - 1), e.view()).push(t.last()));
            assert(placed(all.take(i - 1), e.view()).push(t.last()) + all.skip(i as int) =~= placed(
                all.take(i - 1),
                e.view(),
            ) + all.skip(i - 1));
        }
        i = i - 1;
    }
    proof {
        if i > 0 {
            assert(all.take(i as int).last() == v@[i - 1].view());
        }
        assert(placed(all.take(i as int), e.view()) == all.take(i as int).push(e.view()));
        assert(node_views(start.insert(i as int, e)) =~= all.take(i as int).push(e.view())
            + all.skip(i as int));
    }
    v.insert(i, e);
}

/// Puts nodes in order, and those below each directory too.
pub fn in_order(nodes: Vec<DirNode>) -> (r: Vec<DirNode>)
    ensures
        node_views(r@) == by_name(node_views(nodes@)),
    decreases node_views(nodes@),
{
    let ghost all = node_views(nodes@);
    let mut rest: Vec<DirNode> = nodes;
    match rest.pop() {
        Some(e) => {
            proof {
                assert(e == nodes@.last());
                assert(all.last() == e.view());
                assert(node_views(rest@) =~= all.drop_last());
                assert(decreases_to!(all => all.drop_last()));
                assert(decreases_to!(all => all[all.len() - 1]));
                assert(decreases_to!(e.view() => e.view().below));
            }
            let DirNode { name, is_dir, below } = e;
            let sorted: Vec<DirNode> = in_order(below);
            let mut out: Vec<DirNode> = in_order(rest);
            place(&mut out, DirNode { name, is_dir, below: sorted });
            out
        },
        None => {
            assert(all =~= Seq::empty());
            rest
        },
    }
}

// ---------------------------------------------------------------------------
// Paths
// ---------------------------------------------------------------------------

/// The files below `dir`, each by its path: those of a directory stand where the
/// directory does.
pub open spec fn file_paths(dir: Seq<char>, s: Seq<DirNodeV>) -> Seq<Seq<char>>
    decreases s,
{
    if s.len() == 0 {
        Seq::empty()
    } else {
        let e = s.last();
        let p = joined(without_trailing(dir, '/'), e.name);
        file_paths(dir, s.drop_last()) + if e.is_dir {
            file_paths(p + "/"@, e.below)
        } else {
            seq![p]
        }
    }
}

/// A file that a player takes.
pub open spec fn is_media_name(name: Seq<char>) -> bool {
    match extension(name) {
        Some(e) => media_extensions().contains(lowercase(e)),
        None => false,
    }
}

/// The media files below `dir`.
pub open spec fn media_paths(dir: Seq<char>, s: Seq<DirNodeV>) -> Seq<Seq<char>>
    decreases s,
{
    if s.len() == 0 {
        Seq::empty()
    } else {
        let e = s.last();
        let p = joined(dir, e.name);
        media_paths(dir, s.drop_last()) + if e.is_dir {
            media_paths(p, e.below)
        } else if is_media_name(e.name) {
            seq![p]
        } else {
            Seq::empty()
        }
    }
}

proof fn lemma_strs_add(a: Seq<String>, b: Seq<String>)
    ensures
        strs(a + b) == strs(a) + strs(b),
{
    assert(strs(a + b) =~= strs(a) + strs(b));
}

fn paths_of(dir: &str, nodes: &Vec<DirNode>) -> (r: Vec<String>)
    ensures
        strs(r@) == file_paths(dir@, node_views(nodes@)),
    decreases node_views(nodes@),
{
    let ghost all = node_views(nodes@);
    let base: &str = trim_end_char(dir, '/');
    let mut out: Vec<String> = Vec::new();
    assert(strs(out@) =~= file_paths(dir@, all.take(0)));
    for i in 0..nodes.len()
        invariant
            all == node_views(nodes@),
            base@ == without_trailing(dir@, '/'),
            strs(out@) == file_paths(dir@, all.take(i as int)),
        decreases nodes.len() - i,
    {
        let ghost e = all[i as int];
        proof {
            assert(all.take(i + 1).drop_last() =~= all.take(i as int));
            assert(all.take(i + 1).last() == e);
            assert(e == nodes@[i as int].view());
            assert(decreases_to!(all => all[i as int]));
            assert(decreases_to!(e => e.below));
        }
        let p: String = join(base, nodes[i].name.as_str());
        if nodes[i].is_dir {
            let mut more: Vec<String> = paths_of(cat(p.as_str(), "/").as_str(), &nodes[i].below);
            proof {
                lemma_strs_add(out@, more@);
            }
            out.append(&mut more);
        } else {
            proof {
                lemma_strs_push(out@, p);
                assert(strs(out@).push(p@) =~= strs(out@) + seq![p@]);
            }
            out.push(p);
        }
    }
    assert(all.take(all.len() as int) =~= all);
    out
}

/// All files below a directory, by name; `nodes` is what the directory holds.
pub fn walk_dir(dir: &str, nodes: Vec<DirNode>) -> (r: Vec<String>)
    ensures
        strs(r@) == file_paths(dir@, by_name(node_views(nodes@))),
{
    let sorted: Vec<DirNode> = in_order(nodes);
    paths_of(dir, &sorted)
}

fn media_of(dir: &str, nodes: &Vec<DirNode>) -> (r: Vec<String>)
    ensures
        strs(r@) == media_paths(dir@, node_views(nodes@)),
    decreases node_views(nodes@),
{
    let ghost all = node_views(nodes@);
    let mut out: Vec<String> = Vec::new();
    assert(strs(out@) =~= media_paths(dir@, all.take(0)));
    for i in 0..nodes.len()
        invariant
            all == node_views(nodes@),
            strs(out@) == media_paths(dir@, all.take(i as int)),
        decreases nodes.len() - i,
    {
        let ghost e = all[i as int];
        proof {
            assert(all.take(i + 1).drop_last() =~= all.take(i as int));
            assert(all.take(i + 1).last() == e);
            assert(e == nodes@[i as int].view());
            assert(decreases_to!(all => all[i as int]));
            assert(decreases_to!(e => e.below));
        }
        let p: String = join(dir, nodes[i].name.as_str());
        if nodes[i].is_dir {
            let mut more: Vec<String> = media_of(p.as_str(), &nodes[i].below);
            proof {
                lemma_strs_add(out@, more@);
            }
            out.append(&mut more);
        } else if is_media(nodes[i].name.as_str()) {
            proof {
                lemma_strs_push(out@, p);
                assert(strs(out@).push(p@) =~= strs(out@) + seq![p@]);
            }
            out.push(p);
        } else {
            assert(strs(out@) + Seq::empty() =~= strs(out@));
        }
    }
    assert(all.take(all.len() as int) =~= all);
    out
}

/// The media files below a directory, by name; `nodes` is what the directory holds.
pub fn collect_media_files(dir: &str, nodes: Vec<DirNode>) -> (r: Vec<String>)
    ensures
        strs(r@) == media_paths(dir@, by_name(node_views(nodes@))),
{
    let sorted: Vec<DirNode> = in_order(nodes);
    media_of(dir, &sorted)
}

// ---------------------------------------------------------------------------
// Laws
// ---------------------------------------------------------------------------

/// In order by name.
pub open spec fn names_rise(s: Seq<DirNodeV>) -> bool {
    forall|i: int, j: int|
        0 <= i < j < s.len() ==> text_le((#[trigger] s[i]).name, (#[trigger] s[j]).name)
}

proof fn lemma_placed(s: Seq<DirNodeV>, e: DirNodeV)
    requires
        names_rise(s),
    ensures
        names_rise(placed(s, e)),
        placed(s, e).len() == s.len() + 1,
        forall|x: DirNodeV| #[trigger]
            placed(s, e).contains(x) ==> x == e || s.contains(x),
    decreases s.len(),
{
    let r = placed(s, e);
    if s.len() == 0 {
        assert forall|x: DirNodeV| #[trigger] r.contains(x) implies x == e || s.contains(x) by {}
    } else if text_le(s.last().name, e.name) {
        assert forall|i: int, j: int| 0 <= i < j < r.len() implies text_le(
            (#[trigger] r[i]).name,
            (#[trigger] r[j]).name,
        ) by {
            if j == s.len() && i < s.len() - 1 {
                crate::text::lemma_text_le_trans(s[i].name, s.last().name, e.name);
            }
        }
        assert forall|x: DirNodeV| #[trigger] r.contains(x) implies x == e || s.contains(x) by {
            let k = choose|k: int| 0 <= k < r.len() && r[k] == x;
            if k < s.len() {
                assert(s[k] == x);
            }
        }
    } else {
        let t = s.drop_last();
        assert forall|i: int, j: int| 0 <= i < j < t.len() implies text_le(
            (#[trigger] t[i]).name,
            (#[trigger] t[j]).name,
        ) by {
            assert(t[i] == s[i] && t[j] == s[j]);
        }
        lemma_placed(t, e);
        let q = placed(t, e);
        crate::text::lemma_text_le_total(s.last().name, e.name);
        assert forall|i: int, j: int| 0 <= i < j < r.len() implies text_le(
            (#[trigger] r[i]).name,
            (#[trigger] r[j]).name,
        ) by {
            if j == r.len() - 1 {
                assert(q.contains(q[i]));
                if q[i] != e {
                    let k = choose|k: int| 0 <= k < t.len() && t[k] == q[i];
                    assert(s[k] == q[i]);
                    assert(text_le(s[k].name, s[s.len() - 1].name));
                }
            } else {
                assert(r[i] == q[i] && r[j] == q[j]);
            }
        }
        assert forall|x: DirNodeV| #[trigger] r.contains(x) implies x == e || s.contains(x) by {
            let k = choose|k: int| 0 <= k < r.len() && r[k] == x;
            if k < r.len() - 1 {
                assert(q.contains(x)) by {
                    assert(q[k] == x);
                }
                if x != e {
                    let m = choose|m: int| 0 <= m < t.len() && t[m] == x;
                    assert(s[m] == x);
                }
            } else {
                assert(s[s.len() - 1] == x);
            }
        }
    }
}

/// In order by name, and so is what is below each node.
pub open spec fn rises_throughout(s: Seq<DirNodeV>) -> bool
    decreases s,
{
    &&& names_rise(s)
    &&& forall|i: int| 0 <= i < s.len() ==> rises_throughout((#[trigger] s[i]).below)
}

/// A node with what is below it in order.
pub open spec fn settled(e: DirNodeV) -> DirNodeV {
    DirNodeV { below: by_name(e.below), ..e }
}

/// The nodes, each with what is below it in order.
pub open spec fn each_settled(s: Seq<DirNodeV>) -> Seq<DirNodeV> {
    Seq::new(s.len(), |i: int| settled(s[i]))
}

proof fn lemma_placed_nodes(s: Seq<DirNodeV>, e: DirNodeV)
    ensures
        placed(s, e).to_multiset() == s.to_multiset().insert(e),
    decreases s.len(),
{
    broadcast use vstd::seq_lib::to_multiset_build;

    if s.len() > 0 && !text_le(s.last().name, e.name) {
        let t = s.drop_last();
        lemma_placed_nodes(t, e);
        assert(s =~= t.push(s.last()));
        assert(t.to_multiset().insert(e).insert(s.last()) =~= t.to_multiset().insert(
            s.last(),
        ).insert(e));
    }
}

/// A walk visits every directory in the order of the names in it, and leaves nothing
/// out: at each level the same nodes are there.
pub proof fn walks_go_by_name(s: Seq<DirNodeV>)
    ensures
        rises_throughout(by_name(s)),
        by_name(s).to_multiset() == each_settled(s).to_multiset(),
    decreases s,
{
    broadcast use vstd::seq_lib::to_multiset_build;

    if s.len() > 0 {
        let e = s.last();
        assert(decreases_to!(s => s[s.len() - 1]));
        assert(decreases_to!(e => e.below));
        let before = by_name(s.drop_last());
        walks_go_by_name(s.drop_last());
        walks_go_by_name(e.below);
        lemma_placed(before, settled(e));
        lemma_placed_nodes(before, settled(e));
        assert(each_settled(s) =~= each_settled(s.drop_last()).push(settled(e)));
        let r = by_name(s);
        assert forall|i: int| 0 <= i < r.len() implies rises_throughout((#[trigger] r[i]).below) by {
            assert(r.contains(r[i]));
            if r[i] != settled(e) {
                let k = choose|k: int| 0 <= k < before.len() && before[k] == r[i];
                assert(rises_throughout(before[k].below));
            }
        }
    } else {
        assert(each_settled(s) =~= Seq::empty());
    }
}

/// The files that one node adds to those below `dir`.
pub open spec fn node_files(dir: Seq<char>, e: DirNodeV) -> Seq<Seq<char>> {
    let p = joined(without_trailing(dir, '/'), e.name);
    if e.is_dir {
        file_paths(p + "/"@, e.below)
    } else {
        seq![p]
    }
}

proof fn lemma_files_placed(dir: Seq<char>, s: Seq<DirNodeV>, e: DirNodeV)
    ensures
        file_paths(dir, placed(s, e)).to_multiset() == file_paths(dir, s).to_multiset().add(
            node_files(dir, e).to_multiset(),
        ),
    decreases s.len(),
{
    broadcast use vstd::seq_lib::lemma_multiset_commutative;

    let r = placed(s, e);
    if s.len() == 0 || text_le(s.last().name, e.name) {
        assert(r.drop_last() =~= s);
        assert(file_paths(dir, r) == file_paths(dir, s) + node_files(dir, e));
    } else {
        let t = s.drop_last();
        lemma_files_placed(dir, t, e);
        assert(r.drop_last() =~= placed(t, e));
        assert(file_paths(dir, r) == file_paths(dir, placed(t, e)) + node_files(dir, s.last()));
        assert(file_paths(dir, s) == file_paths(dir, t) + node_files(dir, s.last()));
        let a = file_paths(dir, t).to_multiset();
        let b = node_files(dir, e).to_multiset();
        let c = node_files(dir, s.last()).to_multiset();
        assert(a.add(b).add(c) =~= a.add(c).add(b));
    }
}

/// A walk lists the files of the tree below the directory, each as often as the tree
/// holds it, whatever order the tree was read in.
pub proof fn every_file_is_listed(dir: Seq<char>, s: Seq<DirNodeV>)
    ensures
        file_paths(dir, by_name(s)).to_multiset() == file_paths(dir, s).to_multiset(),
    decreases s,
{
    broadcast use vstd::seq_lib::lemma_multiset_commutative;

    if s.len() > 0 {
        let e = s.last();
        assert(decreases_to!(s => s[s.len() - 1]));
        assert(decreases_to!(e => e.below));
        every_file_is_listed(dir, s.drop_last());
        every_file_is_listed(joined(without_trailing(dir, '/'), e.name) + "/"@, e.below);
        lemma_files_placed(dir, by_name(s.drop_last()), settled(e));
        assert(file_paths(dir, s) == file_paths(dir, s.drop_last()) + node_files(dir, e));
        assert(node_files(dir, settled(e)).to_multiset() == node_files(dir, e).to_multiset());
    }
}

/// The media files that one node adds to those below `dir`.
pub open spec fn node_media(dir: Seq<char>, e: DirNodeV) -> Seq<Seq<char>> {
    let p = joined(dir, e.name);
    if e.is_dir {
        media_paths(p, e.below)
    } else if is_media_name(e.name) {
        seq![p]
    } else {
        Seq::empty()
    }
}

proof fn lemma_media_placed(dir: Seq<char>, s: Seq<DirNodeV>, e: DirNodeV)
    ensures
        media_paths(dir, placed(s, e)).to_multiset() == media_paths(dir, s).to_multiset().add(
            node_media(dir, e).to_multiset(),
        ),
    decreases s.len(),
{
    broadcast use vstd::seq_lib::lemma_multiset_commutative;

    let r = placed(s, e);
    if s.len() == 0 || text_le(s.last().name, e.name) {
        assert(r.drop_last() =~= s);
        assert(media_paths(dir, r) == media_paths(dir, s) + node_media(dir, e));
    } else {
        let t = s.drop_last();
        lemma_media_placed(dir, t, e);
        assert(r.drop_last() =~= placed(t, e));
        assert(media_paths(dir, r) == media_paths(dir, placed(t, e)) + node_media(dir, s.last()));
        assert(media_paths(dir, s) == media_paths(dir, t) + node_media(dir, s.last()));
        let a = media_paths(dir, t).to_multiset();
        let b = node_media(dir, e).to_multiset();
        let c = node_media(dir, s.last()).to_multiset();
        assert(a.add(b).add(c) =~= a.add(c).add(b));
    }
}

/// The media files that are collected are those of the tree below the directory, each
/// as often as the tree holds it, whatever order the tree was read in.
pub proof fn every_media_file_is_collected(dir: Seq<char>, s: Seq<DirNodeV>)
    ensures
        media_paths(dir, by_name(s)).to_multiset() == media_paths(dir, s).to_multiset(),
    decreases s,
{
    broadcast use vstd::seq_lib::lemma_multiset_commutative;

    if s.len() > 0 {
        let e = s.last();
        assert(decreases_to!(s => s[s.len() - 1]));
        assert(decreases_to!(e => e.below));
        every_media_file_is_collected(dir, s.drop_last());
        every_media_file_is_collected(joined(dir, e.name), e.below);
        lemma_media_placed(dir, by_name(s.drop_last()), settled(e));
        assert(media_paths(dir, s) == media_paths(dir, s.drop_last()) + node_media(dir, e));
        assert(node_media(dir, settled(e)).to_multiset() == node_media(dir, e).to_multiset());
    }
}

} // verus!
