use vstd::prelude::*;

use crate::dimension::Dimension;
use crate::fonts::ProfileView;
use crate::layout::{
    count_content, h_line_dim, h_slot, list_item_dim, resolved, resolved_tile, sat_sub,
    split_first, split_second, v_line_dim, v_slot,
};
use crate::node::{is_separator, Node, Tile};
use crate::render::sized;

verus! {

/// Sum of the heights handed to the first `m` children of a vertical stack over `d`.
pub open spec fn v_heights_sum(c: Seq<Node>, d: Dimension, m: int) -> nat
    decreases m,
{
    if m <= 0 {
        0
    } else {
        v_heights_sum(c, d, m - 1) + v_slot(c, m - 1, d).height as nat
    }
}

/// `a` and `b` are the same tree with the same geometry.
pub open spec fn same_layout(a: Node, b: Node) -> bool
    decreases a,
{
    match a {
        Node::V(x) => b is V && x@.len() == b->V_0@.len() && forall|i: int|
            0 <= i < x@.len() ==> same_layout(#[trigger] x@[i], b->V_0@[i]),
        Node::H(x) => b is H && x@.len() == b->H_0@.len() && forall|i: int|
            0 <= i < x@.len() ==> same_layout(#[trigger] x@[i], b->H_0@[i]),
        Node::HH(s) => {
            &&& b is HH
            &&& s.first_occupation_permille == b->HH_0.first_occupation_permille
            &&& s.second_occupation_permille == b->HH_0.second_occupation_permille
            &&& same_layout(*s.first, *b->HH_0.first)
            &&& same_layout(*s.second, *b->HH_0.second)
        },
        Node::Tile(t) => b == Node::Tile(t),
        Node::HorizontalLine(r) => b == Node::HorizontalLine(r),
        Node::VerticalLine(r) => b == Node::VerticalLine(r),
        Node::VListWidget(l) => {
            &&& b is VListWidget
            &&& l.dim == b->VListWidget_0.dim
            &&& l.visible_elements == b->VListWidget_0.visible_elements
            &&& l.elements@ == b->VListWidget_0.elements@
        },
    }
}

/// Same kind of node, so the same role in a stack.
spec fn same_kind(a: Node, b: Node) -> bool {
    &&& (a is V <==> b is V)
    &&& (a is H <==> b is H)
    &&& (a is HH <==> b is HH)
    &&& (a is Tile <==> b is Tile)
    &&& (a is HorizontalLine <==> b is HorizontalLine)
    &&& (a is VerticalLine <==> b is VerticalLine)
    &&& (a is VListWidget <==> b is VListWidget)
}

proof fn lemma_no_separators_count(c: Seq<Node>, i: int)
    requires
        0 <= i <= c.len(),
        forall|j: int| 0 <= j < c.len() ==> !is_separator(#[trigger] c[j]),
    ensures
        count_content(c.take(i)) == i,
    decreases i,
{
    if i > 0 {
        lemma_no_separators_count(c, i - 1);
        assert(c.take(i).drop_last() =~= c.take(i - 1));
    }
}

proof fn lemma_heights_sum(c: Seq<Node>, d: Dimension, m: int)
    requires
        0 <= m <= c.len(),
        count_content(c) > 0,
    ensures
        v_heights_sum(c, d, m) == m * (d.height as nat / count_content(c)),
    decreases m,
{
    if m > 0 {
        lemma_heights_sum(c, d, m - 1);
        let n = count_content(c);
        let slot = d.height as nat / n;
        vstd::arithmetic::div_mod::lemma_fundamental_div_mod(d.height as int, n as int);
        vstd::arithmetic::div_mod::lemma_mod_pos_bound(d.height as int, n as int);
        assert(slot <= n * slot) by (nonlinear_arith)
            requires
                n >= 1,
        ;
        assert(v_slot(c, m - 1, d).height == slot);
        assert(v_heights_sum(c, d, m) == v_heights_sum(c, d, m - 1) + v_slot(c, m - 1, d).height as nat);
        assert((m - 1) * slot + slot == m * slot) by (nonlinear_arith);
    } else {
        let q = d.height as nat / count_content(c);
        assert(m * q == 0) by (nonlinear_arith)
            requires
                m == 0,
        ;
    }
}

/// In a vertical stack without separators, the heights handed to the children add up to
/// the stack's height, short by at most one pixel per child beyond the first, and no two
/// children overlap.
pub proof fn lemma_vertical_stack_partition(c: Seq<Node>, d: Dimension)
    requires
        c.len() > 0,
        forall|j: int| 0 <= j < c.len() ==> !is_separator(#[trigger] c[j]),
        d.fits(),
    ensures
        d.height - (c.len() - 1) <= v_heights_sum(c, d, c.len() as int) <= d.height,
        forall|i: int, j: int|
            0 <= i < j < c.len() ==> #[trigger] v_slot(c, i, d).y + v_slot(c, i, d).height
                <= #[trigger] v_slot(c, j, d).y,
{
    let n = c.len();
    lemma_no_separators_count(c, n as int);
    assert(c.take(n as int) =~= c);
    let h = d.height as nat;
    let slot = h / n;
    lemma_heights_sum(c, d, n as int);
    vstd::arithmetic::div_mod::lemma_fundamental_div_mod(h as int, n as int);
    vstd::arithmetic::div_mod::lemma_mod_pos_bound(h as int, n as int);
    assert forall|i: int, j: int|
        0 <= i < j < c.len() implies #[trigger] v_slot(c, i, d).y + v_slot(c, i, d).height
            <= #[trigger] v_slot(c, j, d).y by {
        lemma_no_separators_count(c, i);
        lemma_no_separators_count(c, j);
        assert(i * slot + slot <= j * slot) by (nonlinear_arith)
            requires
                i < j,
        ;
        assert(j * slot <= n * slot) by (nonlinear_arith)
            requires
                j <= n,
        ;
    }
}

proof fn lemma_count_concat(a: Seq<Node>, b: Seq<Node>)
    ensures
        count_content(a + b) == count_content(a) + count_content(b),
    decreases b.len(),
{
    if b.len() > 0 {
        lemma_count_concat(a, b.drop_last());
        assert((a + b).drop_last() =~= a + b.drop_last());
    } else {
        assert(a + b =~= a);
    }
}

proof fn lemma_count_single(s: Node)
    ensures
        count_content(seq![s]) == if is_separator(s) {
            0nat
        } else {
            1nat
        },
{
    assert(seq![s].drop_last() =~= Seq::<Node>::empty());
    assert(seq![s].last() == s);
    assert(count_content(Seq::<Node>::empty()) == 0);
}

/// Slot indices of the children of `c` once separator `s` is placed at `i`.
proof fn lemma_insert_counts(c: Seq<Node>, i: int, s: Node)
    requires
        0 <= i < c.len(),
        is_separator(s),
    ensures
        count_content(c.insert(i, s)) == count_content(c),
        count_content(c.insert(i, s).take(i)) == count_content(c.take(i)),
        forall|j: int|
            0 <= j < c.len() ==> count_content(c.insert(i, s).take(if j < i {
                j
            } else {
                j + 1
            })) == #[trigger] count_content(c.take(j)),
        forall|j: int|
            0 <= j < c.len() ==> c.insert(i, s)[if j < i {
                j
            } else {
                j + 1
            }] == #[trigger] c[j],
{
    let c2 = c.insert(i, s);
    let len = c.len() as int;
    lemma_count_single(s);
    assert(c2 =~= c.take(i) + seq![s] + c.subrange(i, len));
    assert(c =~= c.take(i) + c.subrange(i, len));
    lemma_count_concat(c.take(i) + seq![s], c.subrange(i, len));
    lemma_count_concat(c.take(i), seq![s]);
    lemma_count_concat(c.take(i), c.subrange(i, len));
    assert forall|j: int| 0 <= j < c.len() implies count_content(c2.take(if j < i {
        j
    } else {
        j + 1
    })) == #[trigger] count_content(c.take(j)) by {
        if j < i {
            assert(c2.take(j) =~= c.take(j));
        } else {
            assert(c2.take(j + 1) =~= c.take(i) + seq![s] + c.subrange(i, j));
            assert(c.take(j) =~= c.take(i) + c.subrange(i, j));
            lemma_count_concat(c.take(i) + seq![s], c.subrange(i, j));
            lemma_count_concat(c.take(i), c.subrange(i, j));
        }
    }
    assert(c2.take(i) =~= c.take(i));
}

/// Placing a separator into a vertical stack takes no slot: every other child keeps the
/// rectangle it had, so a child after it sits one position further on but in the same
/// slot; the separator shares the slot of the child that follows it, and a horizontal
/// rule there spans that slot's width less the margin on each side.
pub proof fn lemma_separator_shares_slot(c: Seq<Node>, i: int, s: Node, d: Dimension, m: usize)
    requires
        0 <= i < c.len(),
        is_separator(s),
        count_content(c) > 0,
    ensures
        count_content(c.insert(i, s)) == count_content(c),
        forall|j: int|
            0 <= j < c.len() ==> v_slot(c.insert(i, s), if j < i {
                j
            } else {
                j + 1
            }, d) == #[trigger] v_slot(c, j, d),
        v_slot(c.insert(i, s), i, d).y == v_slot(c, i, d).y,
        v_slot(c.insert(i, s), i, d).height == v_slot(c, i, d).height,
        s is HorizontalLine ==> h_line_dim(v_slot(c.insert(i, s), i, d), m) == (Dimension {
            x: (d.x + m) as usize,
            y: v_slot(c, i, d).y,
            width: sat_sub(d.width as nat, 2 * m as nat) as usize,
            height: 1,
        }),
{
    lemma_insert_counts(c, i, s);
    assert forall|j: int| 0 <= j < c.len() implies v_slot(c.insert(i, s), if j < i {
        j
    } else {
        j + 1
    }, d) == #[trigger] v_slot(c, j, d) by {
        assert(c.insert(i, s)[if j < i { j } else { j + 1 }] == c[j]);
    }
}

/// Placing a separator into a horizontal stack takes no slot: every other child keeps the
/// rectangle it had, the separator shares the slot of the child that follows it, and a
/// vertical rule there spans that slot's height less the margin at each end.
pub proof fn lemma_separator_shares_slot_horizontal(
    c: Seq<Node>,
    i: int,
    s: Node,
    d: Dimension,
    m: usize,
)
    requires
        0 <= i < c.len(),
        is_separator(s),
        count_content(c) > 0,
    ensures
        count_content(c.insert(i, s)) == count_content(c),
        forall|j: int|
            0 <= j < c.len() ==> h_slot(c.insert(i, s), if j < i {
                j
            } else {
                j + 1
            }, d) == #[trigger] h_slot(c, j, d),
        h_slot(c.insert(i, s), i, d).x == h_slot(c, i, d).x,
        h_slot(c.insert(i, s), i, d).width == h_slot(c, i, d).width,
        s is VerticalLine ==> v_line_dim(h_slot(c.insert(i, s), i, d), m) == (Dimension {
            x: h_slot(c, i, d).x,
            y: (d.y + m) as usize,
            width: 1,
            height: sat_sub(d.height as nat, 2 * m as nat) as usize,
        }),
{
    lemma_insert_counts(c, i, s);
    assert forall|j: int| 0 <= j < c.len() implies h_slot(c.insert(i, s), if j < i {
        j
    } else {
        j + 1
    }, d) == #[trigger] h_slot(c, j, d) by {
        assert(c.insert(i, s)[if j < i { j } else { j + 1 }] == c[j]);
    }
}

proof fn lemma_resolved_same_kind(t: Node, a: Node, d: Dimension, p: ProfileView)
    requires
        resolved(t, a, d, p),
    ensures
        same_kind(t, a),
{
}

proof fn lemma_count_same_kinds(x: Seq<Node>, y: Seq<Node>)
    requires
        x.len() == y.len(),
        forall|i: int| 0 <= i < x.len() ==> same_kind(#[trigger] x[i], y[i]),
    ensures
        count_content(x) == count_content(y),
    decreases x.len(),
{
    if x.len() > 0 {
        lemma_count_same_kinds(x.drop_last(), y.drop_last());
        assert(same_kind(x[x.len() - 1], y[y.len() - 1]));
    }
}

proof fn lemma_slots_agree(x: Seq<Node>, y: Seq<Node>, i: int, d: Dimension)
    requires
        x.len() == y.len(),
        0 <= i < x.len(),
        forall|j: int| 0 <= j < x.len() ==> same_kind(#[trigger] x[j], y[j]),
    ensures
        v_slot(x, i, d) == v_slot(y, i, d),
        h_slot(x, i, d) == h_slot(y, i, d),
{
    lemma_count_same_kinds(x, y);
    assert forall|j: int| 0 <= j < i implies same_kind(#[trigger] x.take(i)[j], y.take(i)[j]) by {
        assert(same_kind(x[j], y[j]));
    }
    lemma_count_same_kinds(x.take(i), y.take(i));
    assert(same_kind(x[i], y[i]));
}

proof fn lemma_tile_twice(t: Node, a: Node, b: Node, d: Dimension, p: ProfileView)
    requires
        t is Tile,
        resolved(t, a, d, p),
        resolved(a, b, d, p),
    ensures
        same_layout(a, b),
{
    let ta = a->Tile_0;
    let tb = b->Tile_0;
    assert(tb.text.dim == ta.text.dim);
    assert(tb.text == ta.text);
    assert(tb == ta);
}

proof fn lemma_list_twice(t: Node, a: Node, b: Node, d: Dimension, p: ProfileView)
    requires
        t is VListWidget,
        resolved(t, a, d, p),
        resolved(a, b, d, p),
    ensures
        same_layout(a, b),
{
    let la = a->VListWidget_0;
    let lb = b->VListWidget_0;
    assert forall|i: int| 0 <= i < la.elements@.len() implies #[trigger] lb.elements@[i]
        == la.elements@[i] by {
        let before = t->VListWidget_0.elements@[i];
        assert(lb.elements@[i].text.dim == la.elements@[i].text.dim);
        assert(lb.elements@[i].text == la.elements@[i].text);
    }
    assert(lb.elements@ =~= la.elements@);
}

#[verifier::rlimit(100)]
proof fn lemma_v_twice(t: Node, a: Node, b: Node, d: Dimension, p: ProfileView)
    requires
        t is V,
        resolved(t, a, d, p),
        resolved(a, b, d, p),
    ensures
        same_layout(a, b),
    decreases t, 0nat,
{
    let c = t->V_0@;
    let x = a->V_0@;
    let y = b->V_0@;
    assert forall|j: int| 0 <= j < x.len() implies same_kind(#[trigger] c[j], x[j]) by {
        lemma_resolved_same_kind(c[j], x[j], v_slot(c, j, d), p);
    }
    assert forall|i: int| 0 <= i < x.len() implies same_layout(#[trigger] x[i], y[i]) by {
        lemma_slots_agree(c, x, i, d);
        assert(decreases_to!(t => c[i]));
        lemma_resolve_twice(c[i], x[i], y[i], v_slot(c, i, d), p);
    }
}

proof fn lemma_h_twice(t: Node, a: Node, b: Node, d: Dimension, p: ProfileView)
    requires
        t is H,
        resolved(t, a, d, p),
        resolved(a, b, d, p),
    ensures
        same_layout(a, b),
    decreases t, 0nat,
{
    let c = t->H_0@;
    let x = a->H_0@;
    let y = b->H_0@;
    assert forall|j: int| 0 <= j < x.len() implies same_kind(#[trigger] c[j], x[j]) by {
        lemma_resolved_same_kind(c[j], x[j], h_slot(c, j, d), p);
    }
    assert forall|i: int| 0 <= i < x.len() implies same_layout(#[trigger] x[i], y[i]) by {
        lemma_slots_agree(c, x, i, d);
        assert(decreases_to!(t => c[i]));
        lemma_resolve_twice(c[i], x[i], y[i], h_slot(c, i, d), p);
    }
}

/// Resolving an already resolved tree again against the same bounds changes no geometry:
/// the two passes give the same tree.
pub proof fn lemma_resolve_twice(t: Node, a: Node, b: Node, d: Dimension, p: ProfileView)
    requires
        resolved(t, a, d, p),
        resolved(a, b, d, p),
    ensures
        same_layout(a, b),
    decreases t, 1nat,
{
    match t {
        Node::V(_) => lemma_v_twice(t, a, b, d, p),
        Node::H(_) => lemma_h_twice(t, a, b, d, p),
        Node::HH(s) => {
            let first = split_first(d, s.first_occupation_permille);
            let second = split_second(d, s.first_occupation_permille);
            lemma_resolve_twice(*s.first, *a->HH_0.first, *b->HH_0.first, first, p);
            lemma_resolve_twice(*s.second, *a->HH_0.second, *b->HH_0.second, second, p);
        },
        Node::Tile(_) => lemma_tile_twice(t, a, b, d, p),
        Node::HorizontalLine(_) => {},
        Node::VerticalLine(_) => {},
        Node::VListWidget(_) => lemma_list_twice(t, a, b, d, p),
    }
}

/// A laid-out tree always has a font size on every tile, so it can always be rendered.
pub proof fn lemma_resolved_is_sized(t: Node, a: Node, d: Dimension, p: ProfileView)
    requires
        resolved(t, a, d, p),
    ensures
        sized(a),
    decreases t,
{
    match t {
        Node::V(c) => {
            assert forall|i: int| 0 <= i < a->V_0@.len() implies sized(#[trigger] a->V_0@[i]) by {
                lemma_resolved_is_sized(c@[i], a->V_0@[i], v_slot(c@, i, d), p);
            }
        },
        Node::H(c) => {
            assert forall|i: int| 0 <= i < a->H_0@.len() implies sized(#[trigger] a->H_0@[i]) by {
                lemma_resolved_is_sized(c@[i], a->H_0@[i], h_slot(c@, i, d), p);
            }
        },
        Node::HH(s) => {
            lemma_resolved_is_sized(
                *s.first,
                *a->HH_0.first,
                split_first(d, s.first_occupation_permille),
                p,
            );
            lemma_resolved_is_sized(
                *s.second,
                *a->HH_0.second,
                split_second(d, s.first_occupation_permille),
                p,
            );
        },
        Node::VListWidget(l) => {
            let al = a->VListWidget_0;
            assert forall|i: int| 0 <= i < al.elements@.len() implies (
            #[trigger] al.elements@[i]).text.font_size is Some by {
                let slot = d.height as nat / l.visible_elements as nat;
                assert(resolved_tile(
                    l.elements@[i],
                    al.elements@[i],
                    list_item_dim(d, p.list_margin, slot, i),
                    p.fonts,
                ));
            }
        },
        _ => {},
    }
}

proof fn lemma_tile_deterministic(t: Tile, a: Tile, b: Tile, d: Dimension, p: ProfileView)
    requires
        resolved_tile(t, a, d, p.fonts),
        resolved_tile(t, b, d, p.fonts),
    ensures
        a == b,
{
    assert(a.text.dim == b.text.dim);
    assert(a.text == b.text);
}

#[verifier::rlimit(50)]
proof fn lemma_v_deterministic(t: Node, a: Node, b: Node, d: Dimension, p: ProfileView)
    requires
        t is V,
        resolved(t, a, d, p),
        resolved(t, b, d, p),
    ensures
        same_layout(a, b),
    decreases t, 0nat,
{
    let c = t->V_0@;
    assert forall|i: int| 0 <= i < c.len() implies same_layout(
        #[trigger] a->V_0@[i],
        b->V_0@[i],
    ) by {
        assert(decreases_to!(t => c[i]));
        lemma_resolve_deterministic(c[i], a->V_0@[i], b->V_0@[i], v_slot(c, i, d), p);
    }
}

#[verifier::rlimit(50)]
proof fn lemma_h_deterministic(t: Node, a: Node, b: Node, d: Dimension, p: ProfileView)
    requires
        t is H,
        resolved(t, a, d, p),
        resolved(t, b, d, p),
    ensures
        same_layout(a, b),
    decreases t, 0nat,
{
    let c = t->H_0@;
    assert forall|i: int| 0 <= i < c.len() implies same_layout(
        #[trigger] a->H_0@[i],
        b->H_0@[i],
    ) by {
        assert(decreases_to!(t => c[i]));
        lemma_resolve_deterministic(c[i], a->H_0@[i], b->H_0@[i], h_slot(c, i, d), p);
    }
}

proof fn lemma_list_deterministic(t: Node, a: Node, b: Node, d: Dimension, p: ProfileView)
    requires
        t is VListWidget,
        resolved(t, a, d, p),
        resolved(t, b, d, p),
    ensures
        same_layout(a, b),
{
    let l = t->VListWidget_0;
    let la = a->VListWidget_0;
    let lb = b->VListWidget_0;
    let slot = d.height as nat / l.visible_elements as nat;
    assert forall|i: int| 0 <= i < la.elements@.len() implies #[trigger] la.elements@[i]
        == lb.elements@[i] by {
        lemma_tile_deterministic(
            l.elements@[i],
            la.elements@[i],
            lb.elements@[i],
            list_item_dim(d, p.list_margin, slot, i),
            p,
        );
    }
    assert(la.elements@ =~= lb.elements@);
}

/// Layout is a function of the tree, the bounds and the profile: two results of laying
/// out the same tree against the same bounds are the same tree.
pub proof fn lemma_resolve_deterministic(t: Node, a: Node, b: Node, d: Dimension, p: ProfileView)
    requires
        resolved(t, a, d, p),
        resolved(t, b, d, p),
    ensures
        same_layout(a, b),
    decreases t, 1nat,
{
    match t {
        Node::V(_) => lemma_v_deterministic(t, a, b, d, p),
        Node::H(_) => lemma_h_deterministic(t, a, b, d, p),
        Node::HH(s) => {
            let first = split_first(d, s.first_occupation_permille);
            let second = split_second(d, s.first_occupation_permille);
            lemma_resolve_deterministic(*s.first, *a->HH_0.first, *b->HH_0.first, first, p);
            lemma_resolve_deterministic(*s.second, *a->HH_0.second, *b->HH_0.second, second, p);
        },
        Node::Tile(tt) => lemma_tile_deterministic(tt, a->Tile_0, b->Tile_0, d, p),
        Node::VListWidget(_) => lemma_list_deterministic(t, a, b, d, p),
        _ => {},
    }
}

} // verus!
