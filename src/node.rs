use vstd::prelude::*;

use crate::dimension::Dimension;

verus! {

/// The label of a tile: what it shows, and where inside its tile it is drawn.
#[derive(Debug, Clone, Copy)]
pub struct Text {
    /// Offset of the label relative to the owning tile's rectangle.
    pub dim: Dimension,
    /// Literal display text, or sample text when `format` is set.
    pub name: &'static str,
    /// printf-style template whose arguments the device supplies at run time.
    pub format: Option<&'static str>,
    /// Font size; when set by the author, layout never changes it.
    pub font_size: Option<usize>,
}

/// A leaf that pairs a rectangle with a text label.
#[derive(Debug, Clone, Copy)]
pub struct Tile {
    pub dim: Dimension,
    pub text: Text,
}

/// A vertical list of selectable entries.
#[derive(Debug)]
pub struct List {
    /// Rectangle of the whole list.
    pub dim: Dimension,
    /// The entries, top to bottom.
    pub elements: Vec<Tile>,
    /// How many entries share the list's height; the slot height is derived from it.
    pub visible_elements: usize,
}

/// An uneven two-way division of vertical space, in thousandths of the height.
#[derive(Debug)]
pub struct HardSplit {
    pub first: Box<Node>,
    pub first_occupation_permille: usize,
    pub second: Box<Node>,
    pub second_occupation_permille: usize,
}

/// A layout tree.
#[derive(Debug)]
pub enum Node {
    /// Vertical stack: splits the height evenly among its non-separator children.
    V(Vec<Node>),
    /// Horizontal stack: splits the width evenly among its non-separator children.
    H(Vec<Node>),
    /// Uneven split of the height between two parts.
    HH(HardSplit),
    Tile(Tile),
    HorizontalLine(Dimension),
    VerticalLine(Dimension),
    VListWidget(List),
}

/// An attribute was attached to an element that carries no text.
#[derive(Debug, Clone, Copy, PartialEq, Eq)]
pub enum ConfigurationError {
    /// `with_format` on a stack, split or separator.
    FormatWithoutText,
    /// `with_font_size` on a stack, split or separator.
    FontSizeWithoutText,
}

/// A separator occupies no slot of its own in a stack.
pub open spec fn is_separator(n: Node) -> bool {
    n is HorizontalLine || n is VerticalLine
}

/// Only tiles and lists carry text.
pub open spec fn carries_text(n: Node) -> bool {
    n is Tile || n is VListWidget
}

/// A label that shows `name`, not yet placed.
pub open spec fn fresh_text(name: &'static str) -> Text {
    Text { dim: Dimension { x: 0, y: 0, width: 0, height: 0 }, name, format: None, font_size: None }
}

/// A tile that shows `name`, not yet placed.
pub open spec fn fresh_tile(name: &'static str) -> Tile {
    Tile { dim: Dimension { x: 0, y: 0, width: 0, height: 0 }, text: fresh_text(name) }
}

fn new_tile(name: &'static str) -> (r: Tile)
    ensures
        r == fresh_tile(name),
{
    Tile {
        dim: Dimension::zero(),
        text: Text { dim: Dimension::zero(), name, format: None, font_size: None },
    }
}

/// `[] [] []`: children side by side, sharing the width evenly.
pub fn h_layout(elements: Vec<Node>) -> (r: Node)
    ensures
        r == Node::H(elements),
{
    Node::H(elements)
}

/// Children stacked top to bottom, sharing the height evenly.
pub fn v_layout(elements: Vec<Node>) -> (r: Node)
    ensures
        r == Node::V(elements),
{
    Node::V(elements)
}

/// `left` above `right`; `left` takes `left_permille` thousandths of the height.
pub fn h_split(left: Node, left_permille: usize, right: Node) -> (r: Node)
    requires
        left_permille <= 1000,
    ensures
        r is HH,
        *r->HH_0.first == left,
        *r->HH_0.second == right,
        r->HH_0.first_occupation_permille == left_permille,
        r->HH_0.second_occupation_permille == 1000 - left_permille,
{
    Node::HH(
        HardSplit {
            first: Box::new(left),
            first_occupation_permille: left_permille,
            second: Box::new(right),
            second_occupation_permille: 1000 - left_permille,
        },
    )
}

/// A horizontal rule.
pub fn h_line() -> (r: Node)
    ensures
        r == Node::HorizontalLine(Dimension { x: 0, y: 0, width: 0, height: 0 }),
{
    Node::HorizontalLine(Dimension::zero())
}

/// A vertical rule.
pub fn v_line() -> (r: Node)
    ensures
        r == Node::VerticalLine(Dimension { x: 0, y: 0, width: 0, height: 0 }),
{
    Node::VerticalLine(Dimension::zero())
}

/// A tile that shows `name`.
pub fn tile(name: &'static str) -> (r: Node)
    ensures
        r == Node::Tile(fresh_tile(name)),
{
    Node::Tile(new_tile(name))
}

/// A list with one entry per name, all of them visible.
pub fn v_list(elements: Vec<&'static str>) -> (r: Node)
    ensures
        r is VListWidget,
        r->VListWidget_0.dim == (Dimension { x: 0, y: 0, width: 0, height: 0 }),
        r->VListWidget_0.visible_elements == elements@.len(),
        r->VListWidget_0.elements@.len() == elements@.len(),
        forall|i: int|
            0 <= i < elements@.len() ==> #[trigger] r->VListWidget_0.elements@[i] == fresh_tile(
                elements@[i],
            ),
{
    let mut tiles: Vec<Tile> = Vec::new();
    let mut i: usize = 0;
    while i < elements.len()
        invariant
            i <= elements@.len(),
            tiles@.len() == i,
            forall|j: int| 0 <= j < i ==> #[trigger] tiles@[j] == fresh_tile(elements@[j]),
        decreases elements@.len() - i,
    {
        tiles.push(new_tile(elements[i]));
        i = i + 1;
    }
    let n = tiles.len();
    Node::VListWidget(List { dim: Dimension::zero(), elements: tiles, visible_elements: n })
}

/// `t` with its format template set to `format`.
pub open spec fn tile_with_format(t: Tile, format: &'static str) -> Tile {
    Tile { text: Text { format: Some(format), ..t.text }, ..t }
}

/// `t` with its font size set to `size`.
pub open spec fn tile_with_font_size(t: Tile, size: usize) -> Tile {
    Tile { text: Text { font_size: Some(size), ..t.text }, ..t }
}

fn formatted_tiles(tiles: Vec<Tile>, format: &'static str) -> (r: Vec<Tile>)
    ensures
        r@.len() == tiles@.len(),
        forall|i: int| 0 <= i < tiles@.len() ==> #[trigger] r@[i] == tile_with_format(tiles@[i], format),
{
    let mut out: Vec<Tile> = Vec::new();
    let mut i: usize = 0;
    while i < tiles.len()
        invariant
            i <= tiles@.len(),
            out@.len() == i,
            forall|j: int| 0 <= j < i ==> #[trigger] out@[j] == tile_with_format(tiles@[j], format),
        decreases tiles@.len() - i,
    {
        let mut t = tiles[i];
        t.text.format = Some(format);
        out.push(t);
        i = i + 1;
    }
    out
}

fn sized_tiles(tiles: Vec<Tile>, size: usize) -> (r: Vec<Tile>)
    ensures
        r@.len() == tiles@.len(),
        forall|i: int| 0 <= i < tiles@.len() ==> #[trigger] r@[i] == tile_with_font_size(tiles@[i], size),
{
    let mut out: Vec<Tile> = Vec::new();
    let mut i: usize = 0;
    while i < tiles.len()
        invariant
            i <= tiles@.len(),
            out@.len() == i,
            forall|j: int| 0 <= j < i ==> #[trigger] out@[j] == tile_with_font_size(tiles@[j], size),
        decreases tiles@.len() - i,
    {
        let mut t = tiles[i];
        t.text.font_size = Some(size);
        out.push(t);
        i = i + 1;
    }
    out
}

impl Node {
    /// Attaches a printf-style template to a tile, or to every entry of a list.
    pub fn with_format(self, format: &'static str) -> (r: Result<Node, ConfigurationError>)
        ensures
            carries_text(self) <==> r is Ok,
            !carries_text(self) ==> r == Err::<Node, ConfigurationError>(
                ConfigurationError::FormatWithoutText,
            ),
            self is Tile ==> r == Ok::<Node, ConfigurationError>(
                Node::Tile(tile_with_format(self->Tile_0, format)),
            ),
            self is VListWidget ==> ({
                let l = self->VListWidget_0;
                let m = r->Ok_0->VListWidget_0;
                &&& r->Ok_0 is VListWidget
                &&& m.dim == l.dim
                &&& m.visible_elements == l.visible_elements
                &&& m.elements@.len() == l.elements@.len()
                &&& forall|i: int|
                    0 <= i < l.elements@.len() ==> #[trigger] m.elements@[i] == tile_with_format(
                        l.elements@[i],
                        format,
                    )
            }),
    {
        match self {
            Node::Tile(t) => {
                let mut t = t;
                t.text.format = Some(format);
                Ok(Node::Tile(t))
            },
            Node::VListWidget(l) => {
                let elements = formatted_tiles(l.elements, format);
                Ok(
                    Node::VListWidget(
                        List { dim: l.dim, elements, visible_elements: l.visible_elements },
                    ),
                )
            },
            _ => Err(ConfigurationError::FormatWithoutText),
        }
    }

    /// Fixes the font size of a tile, or of every entry of a list.
    /// The size is never changed by layout, even where it overflows the tile.
    pub fn with_font_size(self, size: usize) -> (r: Result<Node, ConfigurationError>)
        ensures
            carries_text(self) <==> r is Ok,
            !carries_text(self) ==> r == Err::<Node, ConfigurationError>(
                ConfigurationError::FontSizeWithoutText,
            ),
            self is Tile ==> r == Ok::<Node, ConfigurationError>(
                Node::Tile(tile_with_font_size(self->Tile_0, size)),
            ),
            self is VListWidget ==> ({
                let l = self->VListWidget_0;
                let m = r->Ok_0->VListWidget_0;
                &&& r->Ok_0 is VListWidget
                &&& m.dim == l.dim
                &&& m.visible_elements == l.visible_elements
                &&& m.elements@.len() == l.elements@.len()
                &&& forall|i: int|
                    0 <= i < l.elements@.len() ==> #[trigger] m.elements@[i] == tile_with_font_size(
                        l.elements@[i],
                        size,
                    )
            }),
    {
        match self {
            Node::Tile(t) => {
                let mut t = t;
                t.text.font_size = Some(size);
                Ok(Node::Tile(t))
            },
            Node::VListWidget(l) => {
                let elements = sized_tiles(l.elements, size);
                Ok(
                    Node::VListWidget(
                        List { dim: l.dim, elements, visible_elements: l.visible_elements },
                    ),
                )
            },
            _ => Err(ConfigurationError::FontSizeWithoutText),
        }
    }
}

} // verus!
