use vstd::prelude::*;

use crate::decimal::{dec, push_dec};
use crate::dimension::Dimension;
use crate::node::{Node, Tile};
use crate::render::{is_sized, sized, RenderError};

verus! {

/// Preview markup of one tile: a light rectangle holding its text, centred horizontally.
pub open spec fn preview_tile(t: Tile) -> Seq<char> {
    "Rectangle {\n    x: "@ + dec(t.dim.x as nat) + "phx;\n    y: "@ + dec(t.dim.y as nat)
        + "phx;\n    width: "@ + dec(t.dim.width as nat) + "phx;\n    height: "@ + dec(
        t.dim.height as nat,
    ) + "phx;\n    background: whitesmoke;\n    border-color: black;\n    border-width: 0px;\n    Text {\n        y: "@
        + dec(t.text.dim.y as nat)
        + "phx;\n        width: 100%;\n        height: 100%;\n        text: \""@ + t.text.name@
        + "\";\n        font-size: "@ + dec(t.text.font_size->0 as nat)
        + "phx;\n        font-family: \"noto mono\";\n        horizontal-alignment: center;\n    }\n}\n"@
}

/// Preview markup of a separator: a filled black rectangle.
pub open spec fn preview_line(r: Dimension) -> Seq<char> {
    "Rectangle {\n    x: "@ + dec(r.x as nat) + "phx;\n    y: "@ + dec(r.y as nat)
        + "phx;\n    width: "@ + dec(r.width as nat) + "phx;\n    height: "@ + dec(
        r.height as nat,
    ) + "phx;\n    background: black;\n}\n"@
}

/// Preview markup of the entries of a list, in order.
pub open spec fn preview_tiles(items: Seq<Tile>) -> Seq<char>
    decreases items.len(),
{
    if items.len() == 0 {
        Seq::empty()
    } else {
        preview_tiles(items.drop_last()) + preview_tile(items.last())
    }
}

/// Markup of the elements of `n` that change: tiles and list entries, in tree order.
pub open spec fn preview_dynamic(n: Node) -> Seq<char>
    decreases n, 1nat,
{
    match n {
        Node::V(c) => preview_dynamic_seq(c@),
        Node::H(c) => preview_dynamic_seq(c@),
        Node::HH(s) => preview_dynamic(*s.first) + preview_dynamic(*s.second),
        Node::Tile(t) => preview_tile(t),
        Node::HorizontalLine(_) => Seq::empty(),
        Node::VerticalLine(_) => Seq::empty(),
        Node::VListWidget(l) => preview_tiles(l.elements@),
    }
}

/// `preview_dynamic` of each node of `s`, in order.
pub open spec fn preview_dynamic_seq(s: Seq<Node>) -> Seq<char>
    decreases s, 0nat,
{
    if s.len() == 0 {
        Seq::empty()
    } else {
        preview_dynamic_seq(s.drop_last()) + preview_dynamic(s.last())
    }
}

/// Markup of the elements of `n` that never change: separators, in tree order.
pub open spec fn preview_static(n: Node) -> Seq<char>
    decreases n, 1nat,
{
    match n {
        Node::V(c) => preview_static_seq(c@),
        Node::H(c) => preview_static_seq(c@),
        Node::HH(s) => preview_static(*s.first) + preview_static(*s.second),
        Node::Tile(_) => Seq::empty(),
        Node::HorizontalLine(r) => preview_line(r),
        Node::VerticalLine(r) => preview_line(r),
        Node::VListWidget(_) => Seq::empty(),
    }
}

/// `preview_static` of each node of `s`, in order.
pub open spec fn preview_static_seq(s: Seq<Node>) -> Seq<char>
    decreases s, 0nat,
{
    if s.len() == 0 {
        Seq::empty()
    } else {
        preview_static_seq(s.drop_last()) + preview_static(s.last())
    }
}

/// The whole preview document: a window of the display's size holding every element.
pub open spec fn preview_document(root: Node, d: Dimension) -> Seq<char> {
    "MainWindow := Window {\n    width: "@ + dec(d.width as nat) + "phx;\n    height: "@ + dec(
        d.height as nat,
    ) + "phx;\n    background: white;\n\n"@ + preview_dynamic(root) + "\n"@ + preview_static(
        root,
    ) + "}\n"@
}

fn render_60fps_rectangle(out: &mut String, tile: &Tile)
    requires
        tile.text.font_size is Some,
    ensures
        final(out)@ == old(out)@ + preview_tile(*tile),
{
    let font_size = match tile.text.font_size {
        Some(s) => s,
        None => 0,
    };
    out.append("Rectangle {\n    x: ");
    push_dec(out, tile.dim.x as u128);
    out.append("phx;\n    y: ");
    push_dec(out, tile.dim.y as u128);
    out.append("phx;\n    width: ");
    push_dec(out, tile.dim.width as u128);
    out.append("phx;\n    height: ");
    push_dec(out, tile.dim.height as u128);
    out.append(
        "phx;\n    background: whitesmoke;\n    border-color: black;\n    border-width: 0px;\n    Text {\n        y: ",
    );
    push_dec(out, tile.text.dim.y as u128);
    out.append("phx;\n        width: 100%;\n        height: 100%;\n        text: \"");
    out.append(tile.text.name);
    out.append("\";\n        font-size: ");
    push_dec(out, font_size as u128);
    out.append(
        "phx;\n        font-family: \"noto mono\";\n        horizontal-alignment: center;\n    }\n}\n",
    );
    assert(out@ =~= old(out)@ + preview_tile(*tile));
}

fn render_60fps_line(out: &mut String, r: &Dimension)
    ensures
        final(out)@ == old(out)@ + preview_line(*r),
{
    out.append("Rectangle {\n    x: ");
    push_dec(out, r.x as u128);
    out.append("phx;\n    y: ");
    push_dec(out, r.y as u128);
    out.append("phx;\n    width: ");
    push_dec(out, r.width as u128);
    out.append("phx;\n    height: ");
    push_dec(out, r.height as u128);
    out.append("phx;\n    background: black;\n}\n");
    assert(out@ =~= old(out)@ + preview_line(*r));
}

/// Appends the markup of `n` to `dynamic` (tiles) and to `fixed` (separators).
fn render_60fps_widgets(n: &Node, dynamic: &mut String, fixed: &mut String)
    requires
        sized(*n),
    ensures
        final(dynamic)@ == old(dynamic)@ + preview_dynamic(*n),
        final(fixed)@ == old(fixed)@ + preview_static(*n),
    decreases *n,
{
    match n {
        Node::V(c) | Node::H(c) => {
            let mut i: usize = 0;
            while i < c.len()
                invariant
                    i <= c@.len(),
                    n is V ==> *n == Node::V(*c),
                    n is H ==> *n == Node::H(*c),
                    n is V || n is H,
                    forall|j: int| 0 <= j < c@.len() ==> sized(#[trigger] c@[j]),
                    dynamic@ == old(dynamic)@ + preview_dynamic_seq(c@.take(i as int)),
                    fixed@ == old(fixed)@ + preview_static_seq(c@.take(i as int)),
                decreases c@.len() - i,
            {
                proof {
                    if n is V {
                        assert(decreases_to!(*n => n->V_0));
                    } else {
                        assert(decreases_to!(*n => n->H_0));
                    }
                    assert(decreases_to!(*c => c@));
                    assert(decreases_to!(c@ => c@[i as int]));
                    assert(c@.take(i as int + 1).drop_last() =~= c@.take(i as int));
                    assert(c@.take(i as int + 1).last() == c@[i as int]);
                }
                render_60fps_widgets(&c[i], dynamic, fixed);
                assert(dynamic@ =~= old(dynamic)@ + preview_dynamic_seq(c@.take(i as int + 1)));
                assert(fixed@ =~= old(fixed)@ + preview_static_seq(c@.take(i as int + 1)));
                i = i + 1;
            }
            assert(c@.take(c@.len() as int) =~= c@);
        },
        Node::HH(s) => {
            render_60fps_widgets(&s.first, dynamic, fixed);
            render_60fps_widgets(&s.second, dynamic, fixed);
            assert(dynamic@ =~= old(dynamic)@ + preview_dynamic(*n));
            assert(fixed@ =~= old(fixed)@ + preview_static(*n));
        },
        Node::Tile(t) => {
            render_60fps_rectangle(dynamic, t);
            assert(fixed@ =~= old(fixed)@ + preview_static(*n));
        },
        Node::HorizontalLine(r) | Node::VerticalLine(r) => {
            render_60fps_line(fixed, r);
            assert(dynamic@ =~= old(dynamic)@ + preview_dynamic(*n));
        },
        Node::VListWidget(l) => {
            let mut i: usize = 0;
            while i < l.elements.len()
                invariant
                    i <= l.elements@.len(),
                    *n == Node::VListWidget(*l),
                    forall|j: int|
                        0 <= j < l.elements@.len() ==> (#[trigger] l.elements@[j]).text.font_size is Some,
                    dynamic@ == old(dynamic)@ + preview_tiles(l.elements@.take(i as int)),
                    fixed@ == old(fixed)@,
                decreases l.elements@.len() - i,
            {
                proof {
                    assert(l.elements@.take(i as int + 1).drop_last() =~= l.elements@.take(i as int));
                    assert(l.elements@.take(i as int + 1).last() == l.elements@[i as int]);
                }
                render_60fps_rectangle(dynamic, &l.elements[i]);
                assert(dynamic@ =~= old(dynamic)@ + preview_tiles(l.elements@.take(i as int + 1)));
                i = i + 1;
            }
            assert(l.elements@.take(l.elements@.len() as int) =~= l.elements@);
            assert(fixed@ =~= old(fixed)@ + preview_static(*n));
        },
    }
}

/// Preview markup of a laid-out tree: a window of the size of `d` holding a rectangle
/// with its text for each tile and list entry, then a filled rectangle for each separator,
/// all at absolute pixel positions. A tree that was never laid out is refused.
pub fn render_to_60fps(root: &Node, d: &Dimension) -> (r: Result<String, RenderError>)
    ensures
        r is Ok <==> sized(*root),
        r is Ok ==> r->Ok_0@ == preview_document(*root, *d),
        r is Err ==> r == Err::<String, RenderError>(RenderError::Unresolved),
{
    if !is_sized(root) {
        return Err(RenderError::Unresolved);
    }
    let mut tiles = String::new();
    let mut fixed = String::new();
    render_60fps_widgets(root, &mut tiles, &mut fixed);
    let mut out = String::new();
    out.append("MainWindow := Window {\n    width: ");
    push_dec(&mut out, d.width as u128);
    out.append("phx;\n    height: ");
    push_dec(&mut out, d.height as u128);
    out.append("phx;\n    background: white;\n\n");
    out.append(tiles.as_str());
    out.append("\n");
    out.append(fixed.as_str());
    out.append("}\n");
    assert(out@ =~= preview_document(*root, *d));
    Ok(out)
}

} // verus!
