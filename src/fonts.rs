use vstd::prelude::*;

use crate::dimension::MAX_COORD;
use crate::node::Tile;

verus! {

/// One size of a fixed-width bitmap font and the width of each of its glyphs.
#[derive(Debug, Clone, Copy, PartialEq, Eq)]
pub struct FontMetric {
    pub size: usize,
    pub glyph_width: usize,
}

/// The calibration data of one display: its font table and separator margins.
#[derive(Debug)]
pub struct DeviceProfile {
    /// Available font sizes, largest first.
    pub fonts: Vec<FontMetric>,
    /// Inset of a horizontal separator from each side.
    pub h_line_margin: usize,
    /// Inset of a vertical separator from each end.
    pub v_line_margin: usize,
    /// Inset of a list entry from each side of its list.
    pub list_margin: usize,
}

/// What a device profile holds, as mathematical values.
pub struct ProfileView {
    pub fonts: Seq<FontMetric>,
    pub h_line_margin: usize,
    pub v_line_margin: usize,
    pub list_margin: usize,
}

impl View for DeviceProfile {
    type V = ProfileView;

    open spec fn view(&self) -> ProfileView {
        ProfileView {
            fonts: self.fonts@,
            h_line_margin: self.h_line_margin,
            v_line_margin: self.v_line_margin,
            list_margin: self.list_margin,
        }
    }
}

/// The calibration of the 2.7" Sharp memory-in-pixel display.
pub open spec fn sharp_mip_2in7_view() -> ProfileView {
    ProfileView {
        fonts: seq![
            FontMetric { size: 56, glyph_width: 32 },
            FontMetric { size: 42, glyph_width: 24 },
            FontMetric { size: 31, glyph_width: 18 },
            FontMetric { size: 24, glyph_width: 14 },
            FontMetric { size: 19, glyph_width: 11 },
        ],
        h_line_margin: 13,
        v_line_margin: 3,
        list_margin: 1,
    }
}

/// The calibration of the 2.9" Waveshare e-paper display.
pub open spec fn waveshare_2in9_view() -> ProfileView {
    ProfileView {
        fonts: seq![
            FontMetric { size: 24, glyph_width: 17 },
            FontMetric { size: 20, glyph_width: 14 },
            FontMetric { size: 16, glyph_width: 11 },
            FontMetric { size: 12, glyph_width: 7 },
            FontMetric { size: 8, glyph_width: 5 },
        ],
        h_line_margin: 13,
        v_line_margin: 3,
        list_margin: 1,
    }
}

impl DeviceProfile {
    /// A non-empty font table with strictly decreasing sizes, and small values throughout.
    pub open spec fn wf(&self) -> bool {
        &&& 0 < self.fonts@.len() <= MAX_COORD
        &&& forall|i: int, j: int|
            0 <= i < j < self.fonts@.len() ==> #[trigger] self.fonts@[i].size
                > #[trigger] self.fonts@[j].size
        &&& forall|i: int|
            0 <= i < self.fonts@.len() ==> (#[trigger] self.fonts@[i]).size <= MAX_COORD
                && self.fonts@[i].glyph_width <= MAX_COORD
        &&& self.h_line_margin <= MAX_COORD
        &&& self.v_line_margin <= MAX_COORD
        &&& self.list_margin <= MAX_COORD
    }

    /// Tells whether the profile can be used for layout.
    pub fn is_well_formed(&self) -> (r: bool)
        ensures
            r == self.wf(),
    {
        let n = self.fonts.len();
        if n == 0 || n > MAX_COORD || self.h_line_margin > MAX_COORD || self.v_line_margin
            > MAX_COORD || self.list_margin > MAX_COORD {
            return false;
        }
        let mut i: usize = 0;
        while i < n
            invariant
                n == self.fonts@.len(),
                i <= n,
                forall|j: int|
                    0 <= j < i ==> (#[trigger] self.fonts@[j]).size <= MAX_COORD
                        && self.fonts@[j].glyph_width <= MAX_COORD,
                forall|j: int, k: int|
                    0 <= j < k < i ==> #[trigger] self.fonts@[j].size > #[trigger] self.fonts@[k].size,
            decreases n - i,
        {
            let m = self.fonts[i];
            if m.size > MAX_COORD || m.glyph_width > MAX_COORD {
                return false;
            }
            if i > 0 && self.fonts[i - 1].size <= m.size {
                return false;
            }
            proof {
                assert forall|j: int, k: int|
                    0 <= j < k < i + 1 implies #[trigger] self.fonts@[j].size
                    > #[trigger] self.fonts@[k].size by {
                    if k == i && j < i - 1 {
                        assert(self.fonts@[j].size > self.fonts@[i - 1].size);
                    }
                }
            }
            i = i + 1;
        }
        true
    }
}

/// Glyph width of `size` in the table, if the table has that size.
pub open spec fn width_of(fonts: Seq<FontMetric>, size: usize) -> Option<usize>
    decreases fonts.len(),
{
    if fonts.len() == 0 {
        None
    } else if fonts[0].size == size {
        Some(fonts[0].glyph_width)
    } else {
        width_of(fonts.drop_first(), size)
    }
}

/// A text of `chars` characters in font `m` fits a `width` x `height` box.
pub open spec fn font_fits(m: FontMetric, chars: nat, width: nat, height: nat) -> bool {
    m.glyph_width * chars < width && m.size < height
}

/// The first size of the table, in order, that fits the box; the last size if none does.
pub open spec fn fit_font(fonts: Seq<FontMetric>, chars: nat, width: nat, height: nat) -> usize
    decreases fonts.len(),
{
    if fonts.len() == 0 {
        0
    } else if font_fits(fonts[0], chars, width, height) || fonts.len() == 1 {
        fonts[0].size
    } else {
        fit_font(fonts.drop_first(), chars, width, height)
    }
}

/// Horizontal offset that centres a text of `text_width` pixels in `width`;
/// a text wider than its box starts at the box's left edge.
pub open spec fn center_offset_x(text_width: nat, width: nat) -> nat {
    if text_width < width {
        ((width - text_width) / 2) as nat
    } else {
        0
    }
}

/// Vertical offset that centres a font of `size` in `height`;
/// a font taller than its box starts at the box's top edge.
pub open spec fn center_offset_y(size: nat, height: nat) -> nat {
    if size < height {
        ((height - size) / 2) as nat
    } else {
        0
    }
}

/// The font table of the 2.7" Sharp memory-in-pixel display.
pub fn sharp_mip_2in7() -> (r: DeviceProfile)
    ensures
        r.wf(),
        r@ == sharp_mip_2in7_view(),
{
    let fonts = vec![
        FontMetric { size: 56, glyph_width: 32 },
        FontMetric { size: 42, glyph_width: 24 },
        FontMetric { size: 31, glyph_width: 18 },
        FontMetric { size: 24, glyph_width: 14 },
        FontMetric { size: 19, glyph_width: 11 },
    ];
    DeviceProfile { fonts, h_line_margin: 13, v_line_margin: 3, list_margin: 1 }
}

/// The font table of the 2.9" Waveshare e-paper display.
pub fn waveshare_2in9() -> (r: DeviceProfile)
    ensures
        r.wf(),
        r@ == waveshare_2in9_view(),
{
    let fonts = vec![
        FontMetric { size: 24, glyph_width: 17 },
        FontMetric { size: 20, glyph_width: 14 },
        FontMetric { size: 16, glyph_width: 11 },
        FontMetric { size: 12, glyph_width: 7 },
        FontMetric { size: 8, glyph_width: 5 },
    ];
    DeviceProfile { fonts, h_line_margin: 13, v_line_margin: 3, list_margin: 1 }
}

proof fn lemma_width_of_suffix(fonts: Seq<FontMetric>, i: int, size: usize)
    requires
        0 <= i <= fonts.len(),
        forall|j: int| 0 <= j < i ==> #[trigger] fonts[j].size != size,
    ensures
        width_of(fonts, size) == width_of(fonts.subrange(i, fonts.len() as int), size),
    decreases i,
{
    if i > 0 {
        assert(fonts[0].size != size);
        let rest = fonts.drop_first();
        lemma_width_of_suffix(rest, i - 1, size);
        assert(rest.subrange(i - 1, rest.len() as int) =~= fonts.subrange(i, fonts.len() as int));
    } else {
        assert(fonts.subrange(0, fonts.len() as int) =~= fonts);
    }
}

proof fn lemma_width_of_bounded(fonts: Seq<FontMetric>, size: usize)
    requires
        forall|i: int| 0 <= i < fonts.len() ==> (#[trigger] fonts[i]).glyph_width <= MAX_COORD,
    ensures
        width_of(fonts, size) is Some ==> width_of(fonts, size)->0 <= MAX_COORD,
    decreases fonts.len(),
{
    if fonts.len() > 0 {
        assert(fonts[0].glyph_width <= MAX_COORD);
        let rest = fonts.drop_first();
        assert forall|i: int| 0 <= i < rest.len() implies (#[trigger] rest[i]).glyph_width
            <= MAX_COORD by {
            assert(rest[i] == fonts[i + 1]);
        }
        lemma_width_of_bounded(rest, size);
    }
}

/// Width in pixels of one character at `font_size`, as the profile's table gives it;
/// `None` where the table has no such size.
pub fn get_bc_font_width(p: &DeviceProfile, font_size: usize) -> (r: Option<usize>)
    requires
        p.wf(),
    ensures
        r == width_of(p.fonts@, font_size),
        r is Some ==> r->0 <= MAX_COORD,
{
    proof {
        lemma_width_of_bounded(p.fonts@, font_size);
    }
    let mut i: usize = 0;
    while i < p.fonts.len()
        invariant
            p.wf(),
            i <= p.fonts@.len(),
            forall|j: int| 0 <= j < i ==> #[trigger] p.fonts@[j].size != font_size,
        decreases p.fonts@.len() - i,
    {
        if p.fonts[i].size == font_size {
            proof {
                lemma_width_of_suffix(p.fonts@, i as int, font_size);
                let rest = p.fonts@.subrange(i as int, p.fonts@.len() as int);
                assert(rest[0] == p.fonts@[i as int]);
                assert(p.fonts@[i as int].glyph_width <= MAX_COORD);
            }
            return Some(p.fonts[i].glyph_width);
        }
        i = i + 1;
    }
    proof {
        lemma_width_of_suffix(p.fonts@, i as int, font_size);
    }
    None
}

proof fn lemma_fit_font_suffix(fonts: Seq<FontMetric>, i: int, chars: nat, width: nat, height: nat)
    requires
        0 <= i < fonts.len(),
        forall|j: int| 0 <= j < i ==> !font_fits(#[trigger] fonts[j], chars, width, height),
    ensures
        fit_font(fonts, chars, width, height) == fit_font(
            fonts.subrange(i, fonts.len() as int),
            chars,
            width,
            height,
        ),
    decreases i,
{
    if i > 0 {
        assert(!font_fits(fonts[0], chars, width, height));
        let rest = fonts.drop_first();
        assert forall|j: int| 0 <= j < i - 1 implies !font_fits(
            #[trigger] rest[j],
            chars,
            width,
            height,
        ) by {
            assert(rest[j] == fonts[j + 1]);
        }
        lemma_fit_font_suffix(rest, i - 1, chars, width, height);
        assert(rest.subrange(i - 1, rest.len() as int) =~= fonts.subrange(i, fonts.len() as int));
    } else {
        assert(fonts.subrange(0, fonts.len() as int) =~= fonts);
    }
}

/// Width in pixels of `chars` glyphs of `glyph_width` pixels each.
fn text_width(glyph_width: usize, chars: usize) -> (r: u128)
    requires
        glyph_width <= MAX_COORD,
    ensures
        r == glyph_width * chars,
{
    let g = glyph_width as u128;
    let c = chars as u128;
    assert(g * c <= 0xffff_ffff_ffff_ffff_ffff_ffff_ffff_ffffu128) by (nonlinear_arith)
        requires
            g <= 65535,
            c <= 0xffff_ffff_ffff_ffff,
    ;
    g * c
}

/// The font size that layout picks for `t` where its author set none.
pub open spec fn fitted_size(fonts: Seq<FontMetric>, t: Tile) -> usize {
    fit_font(fonts, t.text.name@.len(), t.dim.width as nat, t.dim.height as nat)
}

/// Picks the largest font of the profile that fits the tile, trying sizes largest first:
/// the text must be narrower than the tile and the size smaller than its height.
/// Where none fits, the smallest size is taken and the text overflows.
pub fn set_bc_font_size(tile: &mut Tile, p: &DeviceProfile)
    requires
        p.wf(),
    ensures
        final(tile).text.font_size == Some(fitted_size(p.fonts@, *old(tile))),
        final(tile).dim == old(tile).dim,
        final(tile).text.dim == old(tile).text.dim,
        final(tile).text.name == old(tile).text.name,
        final(tile).text.format == old(tile).text.format,
{
    let char_len = tile.text.name.unicode_len();
    let width = tile.dim.width as u128;
    let height = tile.dim.height as u128;
    let ghost fonts = p.fonts@;
    let n = p.fonts.len();
    let mut i: usize = 0;
    while i + 1 < n
        invariant
            p.wf(),
            fonts == p.fonts@,
            n == fonts.len(),
            i < n,
            char_len == tile.text.name@.len(),
            width == tile.dim.width,
            height == tile.dim.height,
            forall|j: int|
                0 <= j < i ==> !font_fits(#[trigger] fonts[j], char_len as nat, width as nat, height as nat),
        ensures
            i < n,
            i + 1 == n || font_fits(fonts[i as int], char_len as nat, width as nat, height as nat),
            forall|j: int|
                0 <= j < i ==> !font_fits(#[trigger] fonts[j], char_len as nat, width as nat, height as nat),
        decreases n - i,
    {
        let m = p.fonts[i];
        assert(fonts[i as int].size <= MAX_COORD);
        let str_width = text_width(m.glyph_width, char_len);
        if str_width < width && (m.size as u128) < height {
            break;
        }
        assert(!font_fits(fonts[i as int], char_len as nat, width as nat, height as nat));
        i = i + 1;
    }
    proof {
        lemma_fit_font_suffix(fonts, i as int, char_len as nat, width as nat, height as nat);
        let rest = fonts.subrange(i as int, fonts.len() as int);
        assert(rest[0] == fonts[i as int]);
    }
    tile.text.font_size = Some(p.fonts[i].size);
}

/// Centres the text of `tile` inside it: the text is as wide as its glyphs, clamped to
/// the tile's width, and as tall as its font size.
pub fn center_text(tile: &mut Tile, p: &DeviceProfile)
    requires
        p.wf(),
        old(tile).text.font_size is Some,
        width_of(p.fonts@, old(tile).text.font_size->0) is Some,
    ensures
        ({
            let t = *old(tile);
            let gw = width_of(p.fonts@, t.text.font_size->0)->0;
            &&& final(tile).text.dim.x == center_offset_x(
                (gw * t.text.name@.len()) as nat,
                t.dim.width as nat,
            )
            &&& final(tile).text.dim.y == center_offset_y(
                t.text.font_size->0 as nat,
                t.dim.height as nat,
            )
        }),
        final(tile).text.dim.width == old(tile).text.dim.width,
        final(tile).text.dim.height == old(tile).text.dim.height,
        final(tile).dim == old(tile).dim,
        final(tile).text.name == old(tile).text.name,
        final(tile).text.format == old(tile).text.format,
        final(tile).text.font_size == old(tile).text.font_size,
{
    let font_size = match tile.text.font_size {
        Some(s) => s,
        None => 0,
    };
    let char_width = match get_bc_font_width(p, font_size) {
        Some(w) => w,
        None => 0,
    };
    let char_len = tile.text.name.unicode_len();
    let str_width = text_width(char_width, char_len);
    let width = tile.dim.width;
    if str_width < width as u128 {
        tile.text.dim.x = (width - str_width as usize) / 2;
    } else {
        tile.text.dim.x = 0;
    }
    let height = tile.dim.height;
    if font_size < height {
        tile.text.dim.y = (height - font_size) / 2;
    } else {
        tile.text.dim.y = 0;
    }
}

} // verus!
