use vstd::prelude::*;

use crate::dimension::Dimension;
use crate::fonts::{waveshare_2in9, waveshare_2in9_view};
use crate::layout::{first_error, resolve, resolved, LayoutError};
use crate::node::Node;

pub use crate::sixtyfps_render::render_to_60fps;

verus! {

/// Lays out `root` inside `d` for the 2.9" Waveshare e-paper display.
pub fn invalidate_dimensions(root: &mut Node, d: &Dimension) -> (r: Result<(), LayoutError>)
    ensures
        !d.fits() ==> r == Err::<(), LayoutError>(LayoutError::BoundsTooLarge),
        d.fits() ==> (r is Ok <==> first_error(*old(root), waveshare_2in9_view()) is None),
        d.fits() && r is Err ==> first_error(*old(root), waveshare_2in9_view()) == Some(r->Err_0),
        r is Err ==> *final(root) == *old(root),
        r is Ok ==> resolved(*old(root), *final(root), *d, waveshare_2in9_view()),
{
    let p = waveshare_2in9();
    resolve(root, d, &p)
}

} // verus!
