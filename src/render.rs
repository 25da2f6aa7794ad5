use vstd::prelude::*;

use crate::node::{Node, Tile};

verus! {

/// Why a tree cannot be turned into output.
#[derive(Debug, Clone, Copy, PartialEq, Eq)]
pub enum RenderError {
    /// Some tile has no font size: the tree was never laid out.
    Unresolved,
}

/// Every tile of `n`, list entries included, has a font size, as layout leaves it.
pub open spec fn sized(n: Node) -> bool
    decreases n,
{
    match n {
        Node::V(c) => forall|i: int| 0 <= i < c@.len() ==> sized(#[trigger] c@[i]),
        Node::H(c) => forall|i: int| 0 <= i < c@.len() ==> sized(#[trigger] c@[i]),
        Node::HH(s) => sized(*s.first) && sized(*s.second),
        Node::Tile(t) => t.text.font_size is Some,
        Node::HorizontalLine(_) => true,
        Node::VerticalLine(_) => true,
        Node::VListWidget(l) => forall|i: int|
            0 <= i < l.elements@.len() ==> (#[trigger] l.elements@[i]).text.font_size is Some,
    }
}

fn tiles_sized(items: &Vec<Tile>) -> (r: bool)
    ensures
        r == forall|i: int|
            0 <= i < items@.len() ==> (#[trigger] items@[i]).text.font_size is Some,
{
    let mut i: usize = 0;
    while i < items.len()
        invariant
            i <= items@.len(),
            forall|j: int| 0 <= j < i ==> (#[trigger] items@[j]).text.font_size is Some,
        decreases items@.len() - i,
    {
        if items[i].text.font_size.is_none() {
            return false;
        }
        i = i + 1;
    }
    true
}

/// Tells whether every tile of `n` has a font size.
pub fn is_sized(n: &Node) -> (r: bool)
    ensures
        r == sized(*n),
    decreases *n,
{
    match n {
        Node::V(c) | Node::H(c) => {
            let mut i: usize = 0;
            while i < c.len()
                invariant
                    i <= c@.len(),
                    n is V ==> *n == Node::V(*c),
                    n is H ==> *n == Node::H(*c),
                    n is V || n is H,
                    forall|j: int| 0 <= j < i ==> sized(#[trigger] c@[j]),
                decreases c@.len() - i,
            {
                proof {
                    if n is V {
                        assert(decreases_to!(*n => n->V_0));
                    } else {
                        assert(decreases_to!(*n => n->H_0));
                    }
                    assert(decreases_to!(*c => c@));
                    assert(decreases_to!(c@ => c@[i as int]));
                    assert(decreases_to!(*n => c@[i as int]));
                }
                if !is_sized(&c[i]) {
                    return false;
                }
                i = i + 1;
            }
            true
        },
        Node::HH(s) => is_sized(&s.first) && is_sized(&s.second),
        Node::Tile(t) => t.text.font_size.is_some(),
        Node::HorizontalLine(_) | Node::VerticalLine(_) => true,
        Node::VListWidget(l) => tiles_sized(&l.elements),
    }
}

} // verus!
