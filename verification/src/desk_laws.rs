//! What the desk writes it reads back: window geometries and the panes file.
use crate::desk::{
    desk_pane_of, desk_panes_of, geometry_text, idle_pane, or_dash, pane_conf, window_of, DeskPaneV,
    WindowV,
};
use crate::ini_laws::{
    ini_then, is_value, lemma_header_read, lemma_ini_of_then, lemma_pair_read, lemma_text_added,
    no_ini, pair_text,
};
use crate::ini::{ini_of, last_value, IniV, SectionV};
use crate::paths::tilde_expanded;
use crate::text::{
    decimal, is_digit, lemma_decimal_value, lemma_first_index_unique, lines, number_value, split,
};
use vstd::prelude::*;

verus! {

// ---------------------------------------------------------------------------
// Geometries
// ---------------------------------------------------------------------------

/// Two texts with `c` between them, the first without it, are cut there.
proof fn lemma_split_two(a: Seq<char>, c: char, b: Seq<char>)
    requires
        !a.contains(c),
        !b.contains(c),
    ensures
        split(a.push(c) + b, c) == seq![a, b],
{
    let s = a.push(c) + b;
    assert forall|j: int| 0 <= j < a.len() implies s[j] != c by {
        assert(s[j] == a[j]);
    }
    lemma_first_index_unique(s, c, a.len() as int);
    assert(s.take(a.len() as int) =~= a);
    assert(s.skip(a.len() as int + 1) =~= b);
    assert forall|j: int| 0 <= j < b.len() implies b[j] != c by {}
    lemma_first_index_unique(b, c, b.len() as int);
    assert(split(b, c) =~= seq![b]);
    assert(split(s, c) =~= seq![a, b]);
}

proof fn lemma_decimal_plain(n: int, c: char)
    requires
        0 <= n,
        !is_digit(c),
    ensures
        !decimal(n).contains(c),
        number_value(decimal(n)) == Some(n),
{
    lemma_decimal_value(n);
    assert forall|j: int| 0 <= j < decimal(n).len() implies decimal(n)[j] != c by {
        assert(is_digit(decimal(n)[j]));
    }
}

/// A geometry that was written is read as the window it was written for; without a
/// width, as its corner alone.
pub proof fn geometries_are_read_back(w: int, h: int, x: int, y: int)
    requires
        0 <= w <= u32::MAX,
        0 <= h <= u32::MAX,
        0 <= x <= u32::MAX,
        0 <= y <= u32::MAX,
    ensures
        window_of(geometry_text(w, h, x, y)) == (WindowV {
            w,
            h: if w > 0 {
                h
            } else {
                0
            },
            x,
            y,
        }),
{
    reveal_strlit("x");
    reveal_strlit("+");
    let g = geometry_text(w, h, x, y);
    lemma_decimal_plain(w, '+');
    lemma_decimal_plain(w, 'x');
    lemma_decimal_plain(h, '+');
    lemma_decimal_plain(h, 'x');
    lemma_decimal_plain(x, '+');
    lemma_decimal_plain(y, '+');
    let corner = decimal(x).push('+') + decimal(y);
    lemma_split_two(decimal(x), '+', decimal(y));
    if w > 0 {
        let size = decimal(w).push('x') + decimal(h);
        lemma_split_two(decimal(w), 'x', decimal(h));
        assert(g =~= size.push('+') + corner);
        assert forall|j: int| 0 <= j < size.len() implies g[j] != '+' by {
            assert(g[j] == size[j]);
            if j < decimal(w).len() {
                assert(size[j] == decimal(w)[j]);
            } else if j > decimal(w).len() {
                assert(size[j] == decimal(h)[j - decimal(w).len() - 1]);
            }
        }
        lemma_first_index_unique(g, '+', size.len() as int);
        assert(g.take(size.len() as int) =~= size);
        assert(g.skip(size.len() as int + 1) =~= corner);
    } else {
        assert(g =~= seq!['+'] + corner);
        lemma_first_index_unique(g, '+', 0);
        assert(g.take(0) =~= Seq::empty());
        assert(g.skip(1) =~= corner);
        let none = Seq::<char>::empty();
        assert(split(none, 'x') =~= seq![none]);
    }
}

// ---------------------------------------------------------------------------
// The panes file
// ---------------------------------------------------------------------------

/// A pane that the panes file can hold: its fields are single lines without white
/// space at their ends, no field is a lone dash, and no path starts at the home
/// directory's sign.
pub open spec fn can_be_written(p: DeskPaneV, home: Seq<char>) -> bool {
    &&& !p.name.contains('\n')
    &&& is_value(p.socket) && tilde_expanded(p.socket, home) == p.socket
    &&& is_value(p.pane_type)
    &&& is_value(or_dash(p.slot)) && p.slot != Some("-"@)
    &&& is_value(or_dash(p.geometry)) && p.geometry != Some("-"@)
    &&& is_value(or_dash(p.playlist)) && p.playlist != Some("-"@)
    &&& p.playlist matches Some(f) ==> tilde_expanded(f, home) == f
}

/// The section that is written for a pane.
pub open spec fn pane_section(p: DeskPaneV) -> SectionV {
    SectionV {
        name: p.name,
        pairs: seq![
            ("socket"@, p.socket),
            ("type"@, p.pane_type),
            ("slot"@, or_dash(p.slot)),
            ("geometry"@, or_dash(p.geometry)),
            ("playlist"@, or_dash(p.playlist)),
        ],
    }
}

proof fn lemma_section_pane(p: DeskPaneV, home: Seq<char>)
    requires
        can_be_written(p, home),
    ensures
        desk_pane_of(pane_section(p), home) == Some(
            idle_pane(p.name, p.socket, p.pane_type, p.slot, p.geometry, p.playlist),
        ),
{
    reveal_strlit("socket");
    reveal_strlit("type");
    reveal_strlit("slot");
    reveal_strlit("geometry");
    reveal_strlit("playlist");
    assert("socket"@.len() == 6 && "type"@.len() == 4 && "slot"@.len() == 4 && "geometry"@.len() == 8
        && "playlist"@.len() == 8);
    assert("type"@[0] == 't' && "slot"@[0] == 's' && "geometry"@[0] == 'g' && "playlist"@[0] == 'p');
    let q = pane_section(p).pairs;
    let q4 = q.drop_last();
    let q3 = q4.drop_last();
    let q2 = q3.drop_last();
    let q1 = q2.drop_last();
    assert(q.last() == ("playlist"@, or_dash(p.playlist)));
    assert(q4.last() == ("geometry"@, or_dash(p.geometry)));
    assert(q3.last() == ("slot"@, or_dash(p.slot)));
    assert(q2.last() == ("type"@, p.pane_type));
    assert(q1.last() == ("socket"@, p.socket));
    assert(last_value(q1, "socket"@) == Some(p.socket));
    assert(last_value(q2, "socket"@) == Some(p.socket));
    assert(last_value(q3, "socket"@) == Some(p.socket));
    assert(last_value(q4, "socket"@) == Some(p.socket));
    assert(last_value(q, "socket"@) == Some(p.socket));
    assert(last_value(q2, "type"@) == Some(p.pane_type));
    assert(last_value(q3, "type"@) == Some(p.pane_type));
    assert(last_value(q4, "type"@) == Some(p.pane_type));
    assert(last_value(q, "type"@) == Some(p.pane_type));
    assert(last_value(q3, "slot"@) == Some(or_dash(p.slot)));
    assert(last_value(q4, "slot"@) == Some(or_dash(p.slot)));
    assert(last_value(q, "slot"@) == Some(or_dash(p.slot)));
    assert(last_value(q4, "geometry"@) == Some(or_dash(p.geometry)));
    assert(last_value(q, "geometry"@) == Some(or_dash(p.geometry)));
    assert(last_value(q, "playlist"@) == Some(or_dash(p.playlist)));
}

/// What is written for a pane, behind its header.
pub open spec fn pairs_text(p: DeskPaneV) -> Seq<char> {
    let one = seq![' '];
    let three = seq![' ', ' ', ' '];
    let five = seq![' ', ' ', ' ', ' ', ' '];
    pair_text(
        "socket"@,
        three,
        p.socket,
        pair_text(
            "type"@,
            five,
            p.pane_type,
            pair_text(
                "slot"@,
                five,
                or_dash(p.slot),
                pair_text(
                    "geometry"@,
                    one,
                    or_dash(p.geometry),
                    pair_text("playlist"@, one, or_dash(p.playlist), Seq::empty()),
                ),
            ),
        ),
    )
}

proof fn lemma_conf_shape(p: DeskPaneV)
    ensures
        pane_conf(p).len() > 0,
        pane_conf(p)[0] == '\n',
        pane_conf(p).skip(1) == (seq!['['] + p.name + seq![']']) + "\n"@ + pairs_text(p),
{
    reveal_strlit("\n[");
    reveal_strlit("]\nsocket   = ");
    reveal_strlit("\ntype     = ");
    reveal_strlit("\nslot     = ");
    reveal_strlit("\ngeometry = ");
    reveal_strlit("\nplaylist = ");
    reveal_strlit("\n");
    reveal_strlit("= ");
    reveal_strlit("socket");
    reveal_strlit("type");
    reveal_strlit("slot");
    reveal_strlit("geometry");
    reveal_strlit("playlist");
    let one = seq![' '];
    let three = seq![' ', ' ', ' '];
    let five = seq![' ', ' ', ' ', ' ', ' '];
    assert("]\nsocket   = "@ =~= seq![']'] + "\n"@ + "socket"@ + three + "= "@);
    assert("\ntype     = "@ =~= "\n"@ + "type"@ + five + "= "@);
    assert("\nslot     = "@ =~= "\n"@ + "slot"@ + five + "= "@);
    assert("\ngeometry = "@ =~= "\n"@ + "geometry"@ + one + "= "@);
    assert("\nplaylist = "@ =~= "\n"@ + "playlist"@ + one + "= "@);
    assert("\n["@ =~= seq!['\n'] + seq!['[']);
    lemma_conf_parts(
        p,
        seq!['\n'],
        seq!['['],
        seq![']'],
        "\n"@,
        "socket"@,
        "type"@,
        "slot"@,
        "geometry"@,
        "playlist"@,
        "= "@,
        one,
        three,
        five,
    );
}

/// Grouping the pieces of the text otherwise does not change it.
proof fn lemma_conf_parts(
    p: DeskPaneV,
    lf: Seq<char>,
    open: Seq<char>,
    close: Seq<char>,
    feed: Seq<char>,
    a: Seq<char>,
    b: Seq<char>,
    c: Seq<char>,
    d: Seq<char>,
    e: Seq<char>,
    eq: Seq<char>,
    one: Seq<char>,
    three: Seq<char>,
    five: Seq<char>,
)
    requires
        lf.len() == 1,
    ensures
        ({
            let whole = (lf + open) + p.name + (close + feed + a + three + eq) + p.socket + (feed + b
                + five + eq) + p.pane_type + (feed + c + five + eq) + or_dash(p.slot) + (feed + d + one
                + eq) + or_dash(p.geometry) + (feed + e + one + eq) + or_dash(p.playlist) + feed;
            let t5 = e + one + eq + or_dash(p.playlist) + feed + Seq::empty();
            let t4 = d + one + eq + or_dash(p.geometry) + feed + t5;
            let t3 = c + five + eq + or_dash(p.slot) + feed + t4;
            let t2 = b + five + eq + p.pane_type + feed + t3;
            let t1 = a + three + eq + p.socket + feed + t2;
            whole.len() > 0 && whole[0] == lf[0] && whole.skip(1) == (open + p.name + close) + feed
                + t1
        }),
{
    let t5 = e + one + eq + or_dash(p.playlist) + feed + Seq::empty();
    let t4 = d + one + eq + or_dash(p.geometry) + feed + t5;
    let t3 = c + five + eq + or_dash(p.slot) + feed + t4;
    let t2 = b + five + eq + p.pane_type + feed + t3;
    let t1 = a + three + eq + p.socket + feed + t2;
    let w1 = (lf + open) + p.name + (close + feed + a + three + eq) + p.socket;
    let w2 = w1 + (feed + b + five + eq) + p.pane_type;
    let w3 = w2 + (feed + c + five + eq) + or_dash(p.slot);
    let w4 = w3 + (feed + d + one + eq) + or_dash(p.geometry);
    let whole = w4 + (feed + e + one + eq) + or_dash(p.playlist) + feed;
    lemma_regroup(w4, feed, e, one, eq, or_dash(p.playlist), Seq::empty());
    assert(feed + Seq::empty() =~= feed);
    lemma_regroup(w3, feed, d, one, eq, or_dash(p.geometry), t5);
    lemma_regroup(w2, feed, c, five, eq, or_dash(p.slot), t4);
    lemma_regroup(w1, feed, b, five, eq, p.pane_type, t3);
    lemma_regroup_header(lf, open, p.name, close, feed, a, three, eq, p.socket, t2);
}

proof fn lemma_regroup(
    w: Seq<char>,
    feed: Seq<char>,
    key: Seq<char>,
    gap: Seq<char>,
    eq: Seq<char>,
    v: Seq<char>,
    rest: Seq<char>,
)
    ensures
        w + (feed + key + gap + eq) + v + (feed + rest) == w + (feed + (key + gap + eq + v + feed
            + rest)),
{
    assert(w + (feed + key + gap + eq) + v + (feed + rest) =~= w + (feed + (key + gap + eq + v + feed
        + rest)));
}

proof fn lemma_regroup_header(
    lf: Seq<char>,
    open: Seq<char>,
    name: Seq<char>,
    close: Seq<char>,
    feed: Seq<char>,
    key: Seq<char>,
    gap: Seq<char>,
    eq: Seq<char>,
    v: Seq<char>,
    rest: Seq<char>,
)
    requires
        lf.len() == 1,
    ensures
        ({
            let whole = (lf + open) + name + (close + feed + key + gap + eq) + v + (feed + rest);
            whole.len() > 0 && whole[0] == lf[0] && whole.skip(1) == (open + name + close) + feed + (
            key + gap + eq + v + feed + rest)
        }),
{
    let whole = (lf + open) + name + (close + feed + key + gap + eq) + v + (feed + rest);
    assert(whole.skip(1) =~= (open + name + close) + feed + (key + gap + eq + v + feed + rest));
}

/// What is written for a pane, read after the lines that were there.
proof fn lemma_section_read(base: IniV, p: DeskPaneV, home: Seq<char>)
    requires
        can_be_written(p, home),
    ensures
        ini_then(base, lines(pane_conf(p).skip(1))).sections == base.sections.push(
            pane_section(p),
        ),
{
    reveal_strlit("socket");
    reveal_strlit("type");
    reveal_strlit("slot");
    reveal_strlit("geometry");
    reveal_strlit("playlist");
    let one = seq![' '];
    let three = seq![' ', ' ', ' '];
    let five = seq![' ', ' ', ' ', ' ', ' '];
    let t5 = pair_text("playlist"@, one, or_dash(p.playlist), Seq::empty());
    let t4 = pair_text("geometry"@, one, or_dash(p.geometry), t5);
    let t3 = pair_text("slot"@, five, or_dash(p.slot), t4);
    let t2 = pair_text("type"@, five, p.pane_type, t3);
    lemma_conf_shape(p);
    lemma_header_read(base, p.name, pairs_text(p));
    let before = base.sections;
    let s0 = SectionV { name: p.name, pairs: Seq::empty() };
    lemma_pair_read(before, s0, base.all, "socket"@, three, p.socket, t2);
    let s1 = SectionV { name: p.name, pairs: s0.pairs.push(("socket"@, p.socket)) };
    let a1 = base.all.push(("socket"@, p.socket));
    lemma_pair_read(before, s1, a1, "type"@, five, p.pane_type, t3);
    let s2 = SectionV { name: p.name, pairs: s1.pairs.push(("type"@, p.pane_type)) };
    let a2 = a1.push(("type"@, p.pane_type));
    lemma_pair_read(before, s2, a2, "slot"@, five, or_dash(p.slot), t4);
    let s3 = SectionV { name: p.name, pairs: s2.pairs.push(("slot"@, or_dash(p.slot))) };
    let a3 = a2.push(("slot"@, or_dash(p.slot)));
    lemma_pair_read(before, s3, a3, "geometry"@, one, or_dash(p.geometry), t5);
    let s4 = SectionV { name: p.name, pairs: s3.pairs.push(("geometry"@, or_dash(p.geometry))) };
    let a4 = a3.push(("geometry"@, or_dash(p.geometry)));
    lemma_pair_read(before, s4, a4, "playlist"@, one, or_dash(p.playlist), Seq::empty());
    assert(lines(Seq::<char>::empty()) =~= Seq::empty());
    assert(s4.pairs.push(("playlist"@, or_dash(p.playlist))) =~= pane_section(p).pairs);
}

/// A pane that is added to the panes file is read back from it, after the panes that
/// were there and without changing them, whatever the file held.
pub proof fn written_panes_are_read_back(text: Seq<char>, home: Seq<char>, p: DeskPaneV)
    requires
        can_be_written(p, home),
    ensures
        desk_panes_of(ini_of(lines(text + pane_conf(p))).sections, home) == desk_panes_of(
            ini_of(lines(text)).sections,
            home,
        ).push(idle_pane(p.name, p.socket, p.pane_type, p.slot, p.geometry, p.playlist)),
{
    reveal_strlit("\n");
    let conf = pane_conf(p);
    let rest = conf.skip(1);
    lemma_conf_shape(p);
    assert(text + conf =~= text + "\n"@ + rest);
    lemma_ini_of_then(lines(text + conf));
    lemma_ini_of_then(lines(text));
    lemma_text_added(no_ini(), text, rest);
    let before = ini_of(lines(text));
    lemma_section_read(before, p, home);
    lemma_section_pane(p, home);
    let after = before.sections.push(pane_section(p));
    assert(after.drop_last() =~= before.sections);
    assert(after.last() == pane_section(p));
}

} // verus!
