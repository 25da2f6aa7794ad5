use vstd::prelude::*;

use crate::decimal::{dec, push_dec, push_dec_minus_one, signed_dec};
use crate::dimension::Dimension;
use crate::node::{Node, Tile};
use crate::render::{is_sized, sized, RenderError};

verus! {

/// Height of the band at the top of the display that the static drawing covers.
pub const STATUS_BAR_HEIGHT: usize = 13;

/// The statement that fills the message buffer of a tile: its format template, whose
/// arguments the device supplies, or else its literal text.
pub open spec fn draw_message(t: Tile) -> Seq<char> {
    match t.text.format {
        Some(f) => "snprintf(message, msg_size, \""@ + f@ + "\", data.);"@,
        None => "snprintf(message, msg_size, \""@ + t.text.name@ + "\");"@,
    }
}

/// Opening of the draw block of a tile, up to the statement that fills its buffer.
pub open spec fn draw_tile_head(t: Tile) -> Seq<char> {
    "// "@ + t.text.name@
        + "\ndisplay_->enqueueDraw(\n    [&](Paint &paint) {\n        const int msg_size = 128;\n        char message[msg_size];\n\n        "@
        + draw_message(t)
}

/// The call that draws the text of a tile at the tile's origin plus the text offset.
pub open spec fn draw_tile_text(t: Tile) -> Seq<char> {
    "\n        paint.DrawStringAt("@ + dec((t.dim.x + t.text.dim.x) as nat) + ", "@ + dec(
        (t.dim.y + t.text.dim.y) as nat,
    ) + ", message, &Font"@ + dec(t.text.font_size->0 as nat) + ", COLORED);\n    },\n    {"@
}

/// The redraw rectangle of a tile, one pixel inside the tile on every side, so that
/// redrawing the tile does not erase a separator on its border.
pub open spec fn draw_tile_area(t: Tile) -> Seq<char> {
    dec((t.dim.x + 1) as nat) + ", "@ + dec((t.dim.y + 1) as nat) + ", "@ + signed_dec(
        t.dim.x + t.dim.width - 1,
    ) + ", "@ + signed_dec(t.dim.y + t.dim.height - 1) + "});\n\n"@
}

/// Draw code of one tile.
pub open spec fn draw_tile(t: Tile) -> Seq<char> {
    draw_tile_head(t) + draw_tile_text(t) + draw_tile_area(t)
}

/// Draw code of a horizontal separator.
pub open spec fn draw_h_line(r: Dimension) -> Seq<char> {
    "    paint.DrawHorizontalLine("@ + dec(r.x as nat) + ", "@ + dec(r.y as nat) + ", "@ + dec(
        r.width as nat,
    ) + ", COLORED);\n"@
}

/// Draw code of a vertical separator.
pub open spec fn draw_v_line(r: Dimension) -> Seq<char> {
    "    paint.DrawVerticalLine("@ + dec(r.x as nat) + ", "@ + dec(r.y as nat) + ", "@ + dec(
        r.height as nat,
    ) + ", COLORED);\n"@
}

/// Draw code redone on every refresh: one block per tile, in tree order.
/// Lists have no drawing primitive on the device yet and contribute nothing.
pub open spec fn draw_dynamic(n: Node) -> Seq<char>
    decreases n, 1nat,
{
    match n {
        Node::V(c) => draw_dynamic_seq(c@),
        Node::H(c) => draw_dynamic_seq(c@),
        Node::HH(s) => draw_dynamic(*s.first) + draw_dynamic(*s.second),
        Node::Tile(t) => draw_tile(t),
        Node::HorizontalLine(_) => Seq::empty(),
        Node::VerticalLine(_) => Seq::empty(),
        Node::VListWidget(_) => Seq::empty(),
    }
}

/// `draw_dynamic` of each node of `s`, in order.
pub open spec fn draw_dynamic_seq(s: Seq<Node>) -> Seq<char>
    decreases s, 0nat,
{
    if s.len() == 0 {
        Seq::empty()
    } else {
        draw_dynamic_seq(s.drop_last()) + draw_dynamic(s.last())
    }
}

/// Draw code run once: one line call per separator, in tree order.
pub open spec fn draw_static(n: Node) -> Seq<char>
    decreases n, 1nat,
{
    match n {
        Node::V(c) => draw_static_seq(c@),
        Node::H(c) => draw_static_seq(c@),
        Node::HH(s) => draw_static(*s.first) + draw_static(*s.second),
        Node::Tile(_) => Seq::empty(),
        Node::HorizontalLine(r) => draw_h_line(r),
        Node::VerticalLine(r) => draw_v_line(r),
        Node::VListWidget(_) => Seq::empty(),
    }
}

/// `draw_static` of each node of `s`, in order.
pub open spec fn draw_static_seq(s: Seq<Node>) -> Seq<char>
    decreases s, 0nat,
{
    if s.len() == 0 {
        Seq::empty()
    } else {
        draw_static_seq(s.drop_last()) + draw_static(s.last())
    }
}

/// The whole draw-code fragment: the per-tile blocks, then the routine that draws every
/// separator once, bounded by the status bar band across the display's width.
pub open spec fn draw_document(root: Node) -> Seq<char> {
    "// Draw calls of the status view.\n\n"@ + draw_dynamic(root)
        + "void StatusView::drawStatic() {\n    display_->enqueueStaticDraw(\n        [&](Paint &paint) {\n"@
        + draw_static(root)
        + "        },\n        // The rectangle covers the whole status bar.\n        {0, 0, display_->getWidth(), "@
        + dec(STATUS_BAR_HEIGHT as nat) + "});\n}\n"@
}

fn render_bc_tile_head(out: &mut String, t: &Tile)
    ensures
        final(out)@ == old(out)@ + draw_tile_head(*t),
{
    out.append("// ");
    out.append(t.text.name);
    out.append(
        "\ndisplay_->enqueueDraw(\n    [&](Paint &paint) {\n        const int msg_size = 128;\n        char message[msg_size];\n\n        ",
    );
    match t.text.format {
        Some(f) => {
            out.append("snprintf(message, msg_size, \"");
            out.append(f);
            out.append("\", data.);");
        },
        None => {
            out.append("snprintf(message, msg_size, \"");
            out.append(t.text.name);
            out.append("\");");
        },
    }
    assert(out@ =~= old(out)@ + draw_tile_head(*t));
}

fn render_bc_tile_text(out: &mut String, t: &Tile)
    requires
        t.text.font_size is Some,
    ensures
        final(out)@ == old(out)@ + draw_tile_text(*t),
{
    let font_size = match t.text.font_size {
        Some(s) => s,
        None => 0,
    };
    out.append("\n        paint.DrawStringAt(");
    push_dec(out, t.dim.x as u128 + t.text.dim.x as u128);
    out.append(", ");
    push_dec(out, t.dim.y as u128 + t.text.dim.y as u128);
    out.append(", message, &Font");
    push_dec(out, font_size as u128);
    out.append(", COLORED);\n    },\n    {");
    assert(out@ =~= old(out)@ + draw_tile_text(*t));
}

fn render_bc_tile_area(out: &mut String, t: &Tile)
    ensures
        final(out)@ == old(out)@ + draw_tile_area(*t),
{
    push_dec(out, t.dim.x as u128 + 1);
    out.append(", ");
    push_dec(out, t.dim.y as u128 + 1);
    out.append(", ");
    push_dec_minus_one(out, t.dim.x as u128 + t.dim.width as u128);
    out.append(", ");
    push_dec_minus_one(out, t.dim.y as u128 + t.dim.height as u128);
    out.append("});\n\n");
    assert(out@ =~= old(out)@ + draw_tile_area(*t));
}

fn render_bc_tile(out: &mut String, t: &Tile)
    requires
        t.text.font_size is Some,
    ensures
        final(out)@ == old(out)@ + draw_tile(*t),
{
    render_bc_tile_head(out, t);
    render_bc_tile_text(out, t);
    render_bc_tile_area(out, t);
    assert(out@ =~= old(out)@ + draw_tile(*t));
}

fn render_bc_h_line(out: &mut String, r: &Dimension)
    ensures
        final(out)@ == old(out)@ + draw_h_line(*r),
{
    out.append("    paint.DrawHorizontalLine(");
    push_dec(out, r.x as u128);
    out.append(", ");
    push_dec(out, r.y as u128);
    out.append(", ");
    push_dec(out, r.width as u128);
    out.append(", COLORED);\n");
    assert(out@ =~= old(out)@ + draw_h_line(*r));
}

fn render_bc_v_line(out: &mut String, r: &Dimension)
    ensures
        final(out)@ == old(out)@ + draw_v_line(*r),
{
    out.append("    paint.DrawVerticalLine(");
    push_dec(out, r.x as u128);
    out.append(", ");
    push_dec(out, r.y as u128);
    out.append(", ");
    push_dec(out, r.height as u128);
    out.append(", COLORED);\n");
    assert(out@ =~= old(out)@ + draw_v_line(*r));
}

/// Appends the draw code of `n` to `dynamic` (tiles) and to `fixed` (separators).
fn render_bc_widgets(n: &Node, dynamic: &mut String, fixed: &mut String)
    requires
        sized(*n),
    ensures
        final(dynamic)@ == old(dynamic)@ + draw_dynamic(*n),
        final(fixed)@ == old(fixed)@ + draw_static(*n),
    decreases *n,
{
    match n {
        Node::V(c) | Node::H(c) => {
            let mut i: usize = 0;
            while i < c.len()
                invariant
                    i <= c@.len(),
                    n is V ==> *n == Node::V(*c),
                    n is H ==> *n == Node::H(*c),
                    n is V || n is H,
                    forall|j: int| 0 <= j < c@.len() ==> sized(#[trigger] c@[j]),
                    dynamic@ == old(dynamic)@ + draw_dynamic_seq(c@.take(i as int)),
                    fixed@ == old(fixed)@ + draw_static_seq(c@.take(i as int)),
                decreases c@.len() - i,
            {
                proof {
                    if n is V {
                        assert(decreases_to!(*n => n->V_0));
                    } else {
                        assert(decreases_to!(*n => n->H_0));
                    }
                    assert(decreases_to!(*c => c@));
                    assert(decreases_to!(c@ => c@[i as int]));
                    assert(c@.take(i as int + 1).drop_last() =~= c@.take(i as int));
                    assert(c@.take(i as int + 1).last() == c@[i as int]);
                }
                render_bc_widgets(&c[i], dynamic, fixed);
                assert(dynamic@ =~= old(dynamic)@ + draw_dynamic_seq(c@.take(i as int + 1)));
                assert(fixed@ =~= old(fixed)@ + draw_static_seq(c@.take(i as int + 1)));
                i = i + 1;
            }
            assert(c@.take(c@.len() as int) =~= c@);
        },
        Node::HH(s) => {
            render_bc_widgets(&s.first, dynamic, fixed);
            render_bc_widgets(&s.second, dynamic, fixed);
            assert(dynamic@ =~= old(dynamic)@ + draw_dynamic(*n));
            assert(fixed@ =~= old(fixed)@ + draw_static(*n));
        },
        Node::Tile(t) => {
            render_bc_tile(dynamic, t);
            assert(fixed@ =~= old(fixed)@ + draw_static(*n));
        },
        Node::HorizontalLine(r) => {
            render_bc_h_line(fixed, r);
            assert(dynamic@ =~= old(dynamic)@ + draw_dynamic(*n));
        },
        Node::VerticalLine(r) => {
            render_bc_v_line(fixed, r);
            assert(dynamic@ =~= old(dynamic)@ + draw_dynamic(*n));
        },
        Node::VListWidget(_) => {
            assert(dynamic@ =~= old(dynamic)@ + draw_dynamic(*n));
            assert(fixed@ =~= old(fixed)@ + draw_static(*n));
        },
    }
}

/// Draw code for the display driver of a laid-out tree: a block per tile that formats
/// its text into a bounded buffer and draws it, redone on every refresh, then one
/// routine, run once, that draws every separator. A tree that was never laid out is
/// refused.
pub fn render_to_bc(root: &Node, d: &Dimension) -> (r: Result<String, RenderError>)
    ensures
        r is Ok <==> sized(*root),
        r is Ok ==> r->Ok_0@ == draw_document(*root),
        r is Err ==> r == Err::<String, RenderError>(RenderError::Unresolved),
{
    if !is_sized(root) {
        return Err(RenderError::Unresolved);
    }
    let mut tiles = String::new();
    let mut fixed = String::new();
    render_bc_widgets(root, &mut tiles, &mut fixed);
    let mut out = String::new();
    out.append("// Draw calls of the status view.\n\n");
    out.append(tiles.as_str());
    out.append(
        "void StatusView::drawStatic() {\n    display_->enqueueStaticDraw(\n        [&](Paint &paint) {\n",
    );
    out.append(fixed.as_str());
    out.append(
        "        },\n        // The rectangle covers the whole status bar.\n        {0, 0, display_->getWidth(), ",
    );
    push_dec(&mut out, STATUS_BAR_HEIGHT as u128);
    out.append("});\n}\n");
    assert(out@ =~= draw_document(*root));
    Ok(out)
}

} // verus!
