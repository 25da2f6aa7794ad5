use vstd::prelude::*;

use crate::dimension::Dimension;
use crate::fonts::{sharp_mip_2in7, sharp_mip_2in7_view};
use crate::layout::{first_error, resolve, resolved, LayoutError};
use crate::node::Node;

verus! {

/// Lays out `root` inside `d` for the 2.7" Sharp memory-in-pixel display.
pub fn invalidate_dimensions(root: &mut Node, d: &Dimension) -> (r: Result<(), LayoutError>)
    ensures
        !d.fits() ==> r == Err::<(), LayoutError>(LayoutError::BoundsTooLarge),
        d.fits() ==> (r is Ok <==> first_error(*old(root), sharp_mip_2in7_view()) is None),
        d.fits() && r is Err ==> first_error(*old(root), sharp_mip_2in7_view()) == Some(r->Err_0),
        r is Err ==> *final(root) == *old(root),
        r is Ok ==> resolved(*old(root), *final(root), *d, sharp_mip_2in7_view()),
{
    let p = sharp_mip_2in7();
    resolve(root, d, &p)
}

} // verus!
