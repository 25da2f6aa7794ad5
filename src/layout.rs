use vstd::prelude::*;

use crate::dimension::{Dimension, MAX_COORD};
use crate::fonts::{
    center_offset_x, center_offset_y, center_text, fit_font, set_bc_font_size, width_of,
    DeviceProfile, FontMetric, ProfileView,
};
use crate::node::{is_separator, HardSplit, List, Node, Tile};

verus! {

/// Why a tree cannot be laid out.
#[derive(Debug, Clone, Copy, PartialEq, Eq)]
pub enum LayoutError {
    /// The bounds reach past `MAX_COORD`.
    BoundsTooLarge,
    /// A stack whose children are all separators (or that has none) has no slot size.
    EmptyStack,
    /// A list with no visible entries has no slot size.
    EmptyList,
    /// A list with more than `MAX_COORD` entries.
    ListTooLong,
    /// The two shares of a split do not add up to the whole height.
    InvalidSplit,
    /// An explicit font size that the device's font table lacks.
    UnknownFontSize,
}

// ---------------------------------------------------------------- structure

/// Number of children of a stack that take a slot (all but separators).
pub open spec fn count_content(s: Seq<Node>) -> nat
    decreases s.len(),
{
    if s.len() == 0 {
        0
    } else {
        count_content(s.drop_last()) + if is_separator(s.last()) {
            0nat
        } else {
            1nat
        }
    }
}

/// A tile whose font size, if set, is one the table has.
pub open spec fn tile_ok(t: Tile, fonts: Seq<FontMetric>) -> bool {
    t.text.font_size is Some ==> width_of(fonts, t.text.font_size->0) is Some
}

/// The first problem met in a pre-order walk of `n`, if any.
pub open spec fn first_error(n: Node, p: ProfileView) -> Option<LayoutError>
    decreases n, 1nat,
{
    match n {
        Node::V(c) => if count_content(c@) == 0 {
            Some(LayoutError::EmptyStack)
        } else {
            first_error_seq(c@, p)
        },
        Node::H(c) => if count_content(c@) == 0 {
            Some(LayoutError::EmptyStack)
        } else {
            first_error_seq(c@, p)
        },
        Node::HH(sp) => if sp.first_occupation_permille + sp.second_occupation_permille != 1000 {
            Some(LayoutError::InvalidSplit)
        } else if first_error(*sp.first, p) is Some {
            first_error(*sp.first, p)
        } else {
            first_error(*sp.second, p)
        },
        Node::Tile(t) => if tile_ok(t, p.fonts) {
            None
        } else {
            Some(LayoutError::UnknownFontSize)
        },
        Node::HorizontalLine(_) => None,
        Node::VerticalLine(_) => None,
        Node::VListWidget(l) => if l.visible_elements == 0 {
            Some(LayoutError::EmptyList)
        } else if l.elements@.len() > MAX_COORD {
            Some(LayoutError::ListTooLong)
        } else if forall|i: int|
            0 <= i < l.elements@.len() ==> tile_ok(#[trigger] l.elements@[i], p.fonts) {
            None
        } else {
            Some(LayoutError::UnknownFontSize)
        },
    }
}

/// The first problem among the nodes of `s`, in order.
pub open spec fn first_error_seq(s: Seq<Node>, p: ProfileView) -> Option<LayoutError>
    decreases s, 0nat,
{
    if s.len() == 0 {
        None
    } else if first_error(s[0], p) is Some {
        first_error(s[0], p)
    } else {
        first_error_seq(s.drop_first(), p)
    }
}

// ---------------------------------------------------------------- geometry

/// The rectangle given to child `i` of a vertical stack over `d`: separators take no
/// slot of their own, and a vertical separator stands at the middle of the width.
pub open spec fn v_slot(s: Seq<Node>, i: int, d: Dimension) -> Dimension {
    let slot = d.height as nat / count_content(s);
    let k = count_content(s.take(i));
    Dimension {
        x: if s[i] is VerticalLine {
            (d.x + d.width / 2) as usize
        } else {
            d.x
        },
        y: (d.y + k * slot) as usize,
        width: d.width,
        height: slot as usize,
    }
}

/// The rectangle given to child `i` of a horizontal stack over `d`: separators take no
/// slot of their own, and a horizontal separator stands at the middle of the height.
pub open spec fn h_slot(s: Seq<Node>, i: int, d: Dimension) -> Dimension {
    let slot = d.width as nat / count_content(s);
    let k = count_content(s.take(i));
    Dimension {
        x: (d.x + k * slot) as usize,
        y: if s[i] is HorizontalLine {
            (d.y + d.height / 2) as usize
        } else {
            d.y
        },
        width: slot as usize,
        height: d.height,
    }
}

/// Height of the upper part of a split: `permille` thousandths of `height`, rounded down.
pub open spec fn split_height(height: usize, permille: usize) -> nat {
    (height * permille / 1000) as nat
}

/// The upper part of a split of `d`.
pub open spec fn split_first(d: Dimension, permille: usize) -> Dimension {
    Dimension { height: split_height(d.height, permille) as usize, ..d }
}

/// The lower part of a split of `d`.
pub open spec fn split_second(d: Dimension, permille: usize) -> Dimension {
    let up = split_height(d.height, permille);
    Dimension { y: (d.y + up) as usize, height: (d.height - up) as usize, ..d }
}

/// `a - b`, or 0 where `b` is larger.
pub open spec fn sat_sub(a: nat, b: nat) -> nat {
    if b <= a {
        (a - b) as nat
    } else {
        0
    }
}

/// A horizontal separator in `d`: one pixel high at its top, inset by `m` on each side.
pub open spec fn h_line_dim(d: Dimension, m: usize) -> Dimension {
    Dimension {
        x: (d.x + m) as usize,
        y: d.y,
        width: sat_sub(d.width as nat, 2 * m as nat) as usize,
        height: 1,
    }
}

/// A vertical separator in `d`: one pixel wide at its left, inset by `m` at each end.
pub open spec fn v_line_dim(d: Dimension, m: usize) -> Dimension {
    Dimension {
        x: d.x,
        y: (d.y + m) as usize,
        width: 1,
        height: sat_sub(d.height as nat, 2 * m as nat) as usize,
    }
}

/// Entry `i` of a list over `d` with slots of height `slot`; entries past the visible
/// ones lie below the list.
pub open spec fn list_item_dim(d: Dimension, m: usize, slot: nat, i: int) -> Dimension {
    Dimension {
        x: (d.x + m) as usize,
        y: (d.y + i * slot) as usize,
        width: sat_sub(d.width as nat, 2 * m as nat) as usize,
        height: slot as usize,
    }
}

/// The font size a tile ends up with: the author's, or the one fitted to `d`.
pub open spec fn chosen_size(t: Tile, d: Dimension, fonts: Seq<FontMetric>) -> usize {
    match t.text.font_size {
        Some(s) => s,
        None => fit_font(fonts, t.text.name@.len(), d.width as nat, d.height as nat),
    }
}

/// `after` is `before` placed at `d`, with its font size chosen and its text centred.
pub open spec fn resolved_tile(before: Tile, after: Tile, d: Dimension, fonts: Seq<FontMetric>) -> bool {
    let size = chosen_size(before, d, fonts);
    let gw = width_of(fonts, size)->0;
    &&& after.dim == d
    &&& after.text.name == before.text.name
    &&& after.text.format == before.text.format
    &&& after.text.font_size == Some(size)
    &&& after.text.dim.x == center_offset_x((gw * before.text.name@.len()) as nat, d.width as nat)
    &&& after.text.dim.y == center_offset_y(size as nat, d.height as nat)
    &&& after.text.dim.width == before.text.dim.width
    &&& after.text.dim.height == before.text.dim.height
}

/// `after` is `before` with every element given its geometry for bounds `d`.
pub open spec fn resolved(before: Node, after: Node, d: Dimension, p: ProfileView) -> bool
    decreases before,
{
    match before {
        Node::V(c) => {
            &&& after is V
            &&& after->V_0@.len() == c@.len()
            &&& forall|i: int|
                0 <= i < c@.len() ==> resolved(
                    #[trigger] c@[i],
                    after->V_0@[i],
                    v_slot(c@, i, d),
                    p,
                )
        },
        Node::H(c) => {
            &&& after is H
            &&& after->H_0@.len() == c@.len()
            &&& forall|i: int|
                0 <= i < c@.len() ==> resolved(
                    #[trigger] c@[i],
                    after->H_0@[i],
                    h_slot(c@, i, d),
                    p,
                )
        },
        Node::HH(sp) => {
            let asp = after->HH_0;
            &&& after is HH
            &&& asp.first_occupation_permille == sp.first_occupation_permille
            &&& asp.second_occupation_permille == sp.second_occupation_permille
            &&& resolved(
                *sp.first,
                *asp.first,
                split_first(d, sp.first_occupation_permille),
                p,
            )
            &&& resolved(
                *sp.second,
                *asp.second,
                split_second(d, sp.first_occupation_permille),
                p,
            )
        },
        Node::Tile(t) => after is Tile && resolved_tile(t, after->Tile_0, d, p.fonts),
        Node::HorizontalLine(_) => after == Node::HorizontalLine(h_line_dim(d, p.h_line_margin)),
        Node::VerticalLine(_) => after == Node::VerticalLine(v_line_dim(d, p.v_line_margin)),
        Node::VListWidget(l) => {
            let al = after->VListWidget_0;
            let slot = d.height as nat / l.visible_elements as nat;
            &&& after is VListWidget
            &&& al.dim == d
            &&& al.visible_elements == l.visible_elements
            &&& al.elements@.len() == l.elements@.len()
            &&& forall|i: int|
                0 <= i < l.elements@.len() ==> resolved_tile(
                    #[trigger] l.elements@[i],
                    al.elements@[i],
                    list_item_dim(d, p.list_margin, slot, i),
                    p.fonts,
                )
        },
    }
}

// ---------------------------------------------------------------- lemmas

proof fn lemma_count_step(s: Seq<Node>, i: int)
    requires
        0 <= i < s.len(),
    ensures
        count_content(s.take(i + 1)) == count_content(s.take(i)) + if is_separator(s[i]) {
            0nat
        } else {
            1nat
        },
{
    assert(s.take(i + 1).drop_last() =~= s.take(i));
}

proof fn lemma_count_monotone(s: Seq<Node>, i: int, j: int)
    requires
        0 <= i <= j <= s.len(),
    ensures
        count_content(s.take(i)) <= count_content(s.take(j)),
        count_content(s.take(j)) <= j,
    decreases j,
{
    if j > 0 {
        lemma_count_step(s, j - 1);
        if i < j {
            lemma_count_monotone(s, i, j - 1);
        } else {
            lemma_count_monotone(s, j - 1, j - 1);
        }
    }
}

proof fn lemma_count_whole(s: Seq<Node>)
    ensures
        count_content(s.take(s.len() as int)) == count_content(s),
{
    assert(s.take(s.len() as int) =~= s);
}

/// A non-separator child of a stack takes a slot before the last one.
proof fn lemma_content_slot(s: Seq<Node>, i: int)
    requires
        0 <= i < s.len(),
        !is_separator(s[i]),
    ensures
        count_content(s.take(i)) + 1 <= count_content(s),
{
    lemma_count_step(s, i);
    lemma_count_monotone(s, i + 1, s.len() as int);
    lemma_count_whole(s);
}

proof fn lemma_slots_fit(h: nat, n: nat, k: nat)
    requires
        n > 0,
        k <= n,
    ensures
        k * (h / n) <= h,
{
    vstd::arithmetic::div_mod::lemma_fundamental_div_mod(h as int, n as int);
    vstd::arithmetic::div_mod::lemma_mod_pos_bound(h as int, n as int);
    let q = h / n;
    assert(k * q <= n * q) by (nonlinear_arith)
        requires
            k <= n,
            q >= 0,
    ;
}

/// The rectangle of each child of a stack stays addressable, and that of a child that
/// takes a slot stays inside the stack.
proof fn lemma_v_slot_bounds(s: Seq<Node>, i: int, d: Dimension)
    requires
        0 <= i < s.len(),
        count_content(s) > 0,
        d.bounded(),
        d.fits(),
    ensures
        count_content(s.take(i)) * (d.height as nat / count_content(s)) <= d.height,
        v_slot(s, i, d).bounded(),
        !is_separator(s[i]) ==> v_slot(s, i, d).fits(),
{
    let n = count_content(s);
    let k = count_content(s.take(i));
    let slot = d.height as nat / n;
    lemma_count_monotone(s, i, s.len() as int);
    lemma_count_whole(s);
    lemma_slots_fit(d.height as nat, n, k);
    lemma_slots_fit(d.height as nat, n, 1);
    if !is_separator(s[i]) {
        lemma_content_slot(s, i);
        lemma_slots_fit(d.height as nat, n, k + 1);
        assert((k + 1) * slot == k * slot + slot) by (nonlinear_arith);
    }
}

proof fn lemma_h_slot_bounds(s: Seq<Node>, i: int, d: Dimension)
    requires
        0 <= i < s.len(),
        count_content(s) > 0,
        d.bounded(),
        d.fits(),
    ensures
        count_content(s.take(i)) * (d.width as nat / count_content(s)) <= d.width,
        h_slot(s, i, d).bounded(),
        !is_separator(s[i]) ==> h_slot(s, i, d).fits(),
{
    let n = count_content(s);
    let k = count_content(s.take(i));
    let slot = d.width as nat / n;
    lemma_count_monotone(s, i, s.len() as int);
    lemma_count_whole(s);
    lemma_slots_fit(d.width as nat, n, k);
    lemma_slots_fit(d.width as nat, n, 1);
    if !is_separator(s[i]) {
        lemma_content_slot(s, i);
        lemma_slots_fit(d.width as nat, n, k + 1);
        assert((k + 1) * slot == k * slot + slot) by (nonlinear_arith);
    }
}

proof fn lemma_first_error_seq_none(s: Seq<Node>, p: ProfileView)
    requires
        first_error_seq(s, p) is None,
    ensures
        forall|i: int| 0 <= i < s.len() ==> (#[trigger] first_error(s[i], p)) is None,
    decreases s.len(),
{
    if s.len() > 0 {
        lemma_first_error_seq_none(s.drop_first(), p);
        assert forall|i: int| 0 <= i < s.len() implies (#[trigger] first_error(s[i], p)) is None by {
            if i > 0 {
                assert(s.drop_first()[i - 1] == s[i]);
            }
        }
    }
}

proof fn lemma_first_error_seq_step(s: Seq<Node>, i: int, p: ProfileView)
    requires
        0 <= i < s.len(),
        first_error(s[i], p) is None,
    ensures
        first_error_seq(s.subrange(i, s.len() as int), p) == first_error_seq(
            s.subrange(i + 1, s.len() as int),
            p,
        ),
{
    let t = s.subrange(i, s.len() as int);
    assert(t[0] == s[i]);
    assert(t.drop_first() =~= s.subrange(i + 1, s.len() as int));
}

proof fn lemma_width_of_fit(fonts: Seq<FontMetric>, chars: nat, width: nat, height: nat)
    requires
        fonts.len() > 0,
    ensures
        width_of(fonts, fit_font(fonts, chars, width, height)) is Some,
    decreases fonts.len(),
{
    if !(crate::fonts::font_fits(fonts[0], chars, width, height) || fonts.len() == 1) {
        lemma_width_of_fit(fonts.drop_first(), chars, width, height);
    }
}

// ---------------------------------------------------------------- checking

fn is_separator_node(n: &Node) -> (r: bool)
    ensures
        r == is_separator(*n),
{
    match n {
        Node::HorizontalLine(_) | Node::VerticalLine(_) => true,
        _ => false,
    }
}

/// Number of children that take a slot of the stack.
fn count_non_separators(c: &Vec<Node>) -> (r: usize)
    ensures
        r == count_content(c@),
{
    let mut cnt: usize = 0;
    let mut i: usize = 0;
    while i < c.len()
        invariant
            i <= c@.len(),
            cnt == count_content(c@.take(i as int)),
            cnt <= i,
        decreases c@.len() - i,
    {
        proof {
            lemma_count_step(c@, i as int);
        }
        if !is_separator_node(&c[i]) {
            cnt = cnt + 1;
        }
        i = i + 1;
    }
    proof {
        lemma_count_whole(c@);
    }
    cnt
}

fn tile_font_known(t: &Tile, p: &DeviceProfile) -> (r: bool)
    requires
        p.wf(),
    ensures
        r == tile_ok(*t, p.fonts@),
{
    match t.text.font_size {
        Some(s) => crate::fonts::get_bc_font_width(p, s).is_some(),
        None => true,
    }
}

/// Finds the first problem that stops `n` from being laid out, walking it in pre-order.
pub fn check_layout(n: &Node, p: &DeviceProfile) -> (r: Result<(), LayoutError>)
    requires
        p.wf(),
    ensures
        r is Ok <==> first_error(*n, p@) is None,
        r is Err ==> first_error(*n, p@) == Some(r->Err_0),
    decreases *n,
{
    match n {
        Node::V(c) | Node::H(c) => {
            if count_non_separators(c) == 0 {
                return Err(LayoutError::EmptyStack);
            }
            let mut i: usize = 0;
            assert(c@.subrange(0, c@.len() as int) =~= c@);
            while i < c.len()
                invariant
                    p.wf(),
                    i <= c@.len(),
                    count_content(c@) != 0,
                    n is V ==> *n == Node::V(*c),
                    n is H ==> *n == Node::H(*c),
                    n is V || n is H,
                    first_error_seq(c@, p@) == first_error_seq(
                        c@.subrange(i as int, c@.len() as int),
                        p@,
                    ),
                decreases c@.len() - i,
            {
                proof {
                    assert(decreases_to!(*n => c@[i as int]));
                }
                let r = check_layout(&c[i], p);
                if r.is_err() {
                    proof {
                        let t = c@.subrange(i as int, c@.len() as int);
                        assert(t[0] == c@[i as int]);
                        assert(first_error_seq(t, p@) == first_error(c@[i as int], p@));
                        assert(first_error(*n, p@) == first_error_seq(c@, p@));
                    }
                    return r;
                }
                proof {
                    lemma_first_error_seq_step(c@, i as int, p@);
                }
                i = i + 1;
            }
            proof {
                assert(c@.subrange(c@.len() as int, c@.len() as int).len() == 0);
            }
            Ok(())
        },
        Node::HH(sp) => {
            if sp.first_occupation_permille > 1000 || sp.second_occupation_permille != 1000
                - sp.first_occupation_permille {
                return Err(LayoutError::InvalidSplit);
            }
            let r = check_layout(&sp.first, p);
            if r.is_err() {
                return r;
            }
            check_layout(&sp.second, p)
        },
        Node::Tile(t) => {
            if tile_font_known(t, p) {
                Ok(())
            } else {
                Err(LayoutError::UnknownFontSize)
            }
        },
        Node::HorizontalLine(_) | Node::VerticalLine(_) => Ok(()),
        Node::VListWidget(l) => {
            if l.visible_elements == 0 {
                return Err(LayoutError::EmptyList);
            }
            if l.elements.len() > MAX_COORD {
                return Err(LayoutError::ListTooLong);
            }
            let mut i: usize = 0;
            while i < l.elements.len()
                invariant
                    p.wf(),
                    *n == Node::VListWidget(*l),
                    l.visible_elements != 0,
                    l.elements@.len() <= MAX_COORD,
                    i <= l.elements@.len(),
                    forall|j: int| 0 <= j < i ==> tile_ok(#[trigger] l.elements@[j], p.fonts@),
                decreases l.elements@.len() - i,
            {
                if !tile_font_known(&l.elements[i], p) {
                    assert(!tile_ok(l.elements@[i as int], p.fonts@));
                    return Err(LayoutError::UnknownFontSize);
                }
                i = i + 1;
            }
            Ok(())
        },
    }
}

// ---------------------------------------------------------------- resolution

/// Places `t` at `d`: chooses a font size where the author set none, then centres the text.
fn resolve_tile(t: &mut Tile, d: Dimension, p: &DeviceProfile)
    requires
        p.wf(),
        tile_ok(*old(t), p.fonts@),
    ensures
        resolved_tile(*old(t), *final(t), d, p.fonts@),
{
    let ghost before = *t;
    t.dim = d;
    if t.text.font_size.is_none() {
        set_bc_font_size(t, p);
        proof {
            lemma_width_of_fit(p.fonts@, before.text.name@.len(), d.width as nat, d.height as nat);
        }
    }
    center_text(t, p);
}

fn sat_sub_exec(a: usize, b: usize) -> (r: usize)
    ensures
        r == sat_sub(a as nat, b as nat),
{
    if b <= a {
        a - b
    } else {
        0
    }
}

/// The rectangle of child `i` of a vertical stack, given the slot index `k` it takes.
fn v_child_rect(child: &Node, Ghost(s): Ghost<Seq<Node>>, i: usize, k: usize, slot: usize, d: Dimension) -> (r: Dimension)
    requires
        0 <= i < s.len(),
        *child == s[i as int],
        count_content(s) > 0,
        k == count_content(s.take(i as int)),
        slot == d.height as nat / count_content(s),
        d.bounded(),
        d.fits(),
    ensures
        r == v_slot(s, i as int, d),
        r.bounded(),
        !is_separator(s[i as int]) ==> r.fits(),
{
    proof {
        lemma_v_slot_bounds(s, i as int, d);
    }
    let x = match child {
        Node::VerticalLine(_) => d.x + d.width / 2,
        _ => d.x,
    };
    Dimension { x, y: d.y + k * slot, width: d.width, height: slot }
}

/// The rectangle of child `i` of a horizontal stack, given the slot index `k` it takes.
fn h_child_rect(child: &Node, Ghost(s): Ghost<Seq<Node>>, i: usize, k: usize, slot: usize, d: Dimension) -> (r: Dimension)
    requires
        0 <= i < s.len(),
        *child == s[i as int],
        count_content(s) > 0,
        k == count_content(s.take(i as int)),
        slot == d.width as nat / count_content(s),
        d.bounded(),
        d.fits(),
    ensures
        r == h_slot(s, i as int, d),
        r.bounded(),
        !is_separator(s[i as int]) ==> r.fits(),
{
    proof {
        lemma_h_slot_bounds(s, i as int, d);
    }
    let y = match child {
        Node::HorizontalLine(_) => d.y + d.height / 2,
        _ => d.y,
    };
    Dimension { x: d.x + k * slot, y, width: slot, height: d.height }
}

/// Resolves the children of a stack, in order; `vertical` picks the axis.
fn resolve_stack(c: Vec<Node>, vertical: bool, d: Dimension, p: &DeviceProfile, Ghost(
    parent,
): Ghost<Node>) -> (r: Vec<Node>)
    requires
        p.wf(),
        d.bounded(),
        d.fits(),
        vertical ==> parent == Node::V(c),
        !vertical ==> parent == Node::H(c),
        count_content(c@) > 0,
        first_error_seq(c@, p@) is None,
    ensures
        r@.len() == c@.len(),
        forall|j: int|
            0 <= j < c@.len() ==> resolved(
                #[trigger] c@[j],
                r@[j],
                if vertical {
                    v_slot(c@, j, d)
                } else {
                    h_slot(c@, j, d)
                },
                p@,
            ),
    decreases parent, 0nat,
{
    let ghost old_c = c@;
    proof {
        lemma_first_error_seq_none(old_c, p@);
    }
    let n = count_non_separators(&c);
    let slot = if vertical {
        d.height / n
    } else {
        d.width / n
    };
    let len = c.len();
    let mut rest = c;
    let mut out: Vec<Node> = Vec::new();
    let mut k: usize = 0;
    let mut i: usize = 0;
    while i < len
        invariant
            p.wf(),
            d.bounded(),
            d.fits(),
            vertical ==> parent is V && parent->V_0@ == old_c,
            !vertical ==> parent is H && parent->H_0@ == old_c,
            len == old_c.len(),
            n == count_content(old_c),
            n > 0,
            vertical ==> slot == d.height / n,
            !vertical ==> slot == d.width / n,
            i <= len,
            k == count_content(old_c.take(i as int)),
            rest@ == old_c.subrange(i as int, len as int),
            out@.len() == i,
            forall|j: int|
                0 <= j < i ==> resolved(
                    #[trigger] old_c[j],
                    out@[j],
                    if vertical {
                        v_slot(old_c, j, d)
                    } else {
                        h_slot(old_c, j, d)
                    },
                    p@,
                ),
            forall|j: int| 0 <= j < len ==> (#[trigger] first_error(old_c[j], p@)) is None,
        decreases len - i,
    {
        proof {
            lemma_count_step(old_c, i as int);
            lemma_count_monotone(old_c, i as int + 1, i as int + 1);
            assert(rest@[0] == old_c[i as int]);
            assert(decreases_to!(parent => old_c[i as int]));
        }
        let child = rest.remove(0);
        proof {
            assert(rest@ =~= old_c.subrange(i as int + 1, len as int));
        }
        let sep = is_separator_node(&child);
        let rect = if vertical {
            v_child_rect(&child, Ghost(old_c), i, k, slot, d)
        } else {
            h_child_rect(&child, Ghost(old_c), i, k, slot, d)
        };
        let done = resolve_owned(child, rect, p);
        out.push(done);
        if !sep {
            k = k + 1;
        }
        i = i + 1;
    }
    out
}

/// Resolves the entries of a list over `d`.
fn resolve_list_items(items: &Vec<Tile>, visible: usize, d: Dimension, p: &DeviceProfile) -> (r: Vec<Tile>)
    requires
        p.wf(),
        d.bounded(),
        d.fits(),
        visible > 0,
        items@.len() <= MAX_COORD,
        forall|j: int| 0 <= j < items@.len() ==> tile_ok(#[trigger] items@[j], p.fonts@),
    ensures
        r@.len() == items@.len(),
        forall|j: int|
            0 <= j < items@.len() ==> resolved_tile(
                #[trigger] items@[j],
                r@[j],
                list_item_dim(d, p.list_margin, d.height as nat / visible as nat, j),
                p.fonts@,
            ),
{
    let m = p.list_margin;
    let slot = d.height / visible;
    let width = sat_sub_exec(d.width, 2 * m);
    let len = items.len();
    let mut out: Vec<Tile> = Vec::new();
    let mut i: usize = 0;
    while i < len
        invariant
            p.wf(),
            d.bounded(),
            d.fits(),
            m == p.list_margin,
            slot == d.height as nat / visible as nat,
            slot <= d.height,
            width == sat_sub(d.width as nat, 2 * m as nat),
            len == items@.len(),
            len <= MAX_COORD,
            out@.len() == i,
            i <= len,
            forall|j: int|
                0 <= j < i ==> resolved_tile(
                    #[trigger] items@[j],
                    out@[j],
                    list_item_dim(d, m, slot as nat, j),
                    p.fonts@,
                ),
            forall|j: int| 0 <= j < len ==> tile_ok(#[trigger] items@[j], p.fonts@),
        decreases len - i,
    {
        proof {
            assert(i * slot <= MAX_COORD * MAX_COORD) by (nonlinear_arith)
                requires
                    i <= MAX_COORD,
                    slot <= MAX_COORD,
            ;
        }
        let rect = Dimension { x: d.x + m, y: d.y + i * slot, width, height: slot };
        let mut t = items[i];
        resolve_tile(&mut t, rect, p);
        out.push(t);
        i = i + 1;
    }
    out
}

/// Returns `node` with every element it holds given its geometry for bounds `d`.
fn resolve_owned(node: Node, d: Dimension, p: &DeviceProfile) -> (r: Node)
    requires
        p.wf(),
        first_error(node, p@) is None,
        d.bounded(),
        !is_separator(node) ==> d.fits(),
    ensures
        resolved(node, r, d, p@),
    decreases node, 1nat,
{
    let ghost before = node;
    match node {
        Node::V(c) => Node::V(resolve_stack(c, true, d, p, Ghost(before))),
        Node::H(c) => Node::H(resolve_stack(c, false, d, p, Ghost(before))),
        Node::HH(sp) => {
            let permille = sp.first_occupation_permille;
            proof {
                assert(d.height * permille <= MAX_COORD * 1000) by (nonlinear_arith)
                    requires
                        permille <= 1000,
                        d.height <= MAX_COORD,
                ;
            }
            let up = d.height * permille / 1000;
            proof {
                assert(d.height * permille / 1000 <= d.height) by (nonlinear_arith)
                    requires
                        permille <= 1000,
                ;
                assert(decreases_to!(before => *sp.first));
                assert(decreases_to!(before => *sp.second));
            }
            let first = Dimension { x: d.x, y: d.y, width: d.width, height: up };
            let second = Dimension { x: d.x, y: d.y + up, width: d.width, height: d.height - up };
            let a = resolve_owned(*sp.first, first, p);
            let b = resolve_owned(*sp.second, second, p);
            Node::HH(
                HardSplit {
                    first: Box::new(a),
                    first_occupation_permille: permille,
                    second: Box::new(b),
                    second_occupation_permille: sp.second_occupation_permille,
                },
            )
        },
        Node::Tile(t) => {
            let mut t = t;
            resolve_tile(&mut t, d, p);
            Node::Tile(t)
        },
        Node::HorizontalLine(_) => {
            let m = p.h_line_margin;
            Node::HorizontalLine(
                Dimension { x: d.x + m, y: d.y, width: sat_sub_exec(d.width, 2 * m), height: 1 },
            )
        },
        Node::VerticalLine(_) => {
            let m = p.v_line_margin;
            Node::VerticalLine(
                Dimension { x: d.x, y: d.y + m, width: 1, height: sat_sub_exec(d.height, 2 * m) },
            )
        },
        Node::VListWidget(l) => {
            let elements = resolve_list_items(&l.elements, l.visible_elements, d, p);
            Node::VListWidget(List { dim: d, elements, visible_elements: l.visible_elements })
        },
    }
}

/// Lays out `root` inside `d` for the display that `p` describes: every element gets its
/// absolute rectangle, and every tile its font size and text offset.
/// Where the tree cannot be laid out, the first problem of a pre-order walk is returned
/// and the tree is left as it was.
pub fn resolve(root: &mut Node, d: &Dimension, p: &DeviceProfile) -> (r: Result<(), LayoutError>)
    requires
        p.wf(),
    ensures
        !d.fits() ==> r == Err::<(), LayoutError>(LayoutError::BoundsTooLarge),
        d.fits() ==> (r is Ok <==> first_error(*old(root), p@) is None),
        d.fits() && r is Err ==> first_error(*old(root), p@) == Some(r->Err_0),
        r is Err ==> *final(root) == *old(root),
        r is Ok ==> resolved(*old(root), *final(root), *d, p@),
{
    if d.width > MAX_COORD || d.x > MAX_COORD - d.width || d.height > MAX_COORD || d.y
        > MAX_COORD - d.height {
        return Err(LayoutError::BoundsTooLarge);
    }
    match check_layout(root, p) {
        Err(e) => Err(e),
        Ok(()) => {
            let mut tree = Node::V(Vec::new());
            std::mem::swap(root, &mut tree);
            *root = resolve_owned(tree, *d, p);
            Ok(())
        },
    }
}

} // verus!
