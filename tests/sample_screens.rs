use screen_layout::bc_render::render_to_bc;
use screen_layout::sixtyfps_render::render_to_60fps;
use screen_layout::{common, gui_orchestrator};
use screen_layout::{h_layout, h_line, h_split, tile, v_layout, v_line, v_list, Dimension};
use screen_layout::{LayoutError, RenderError};

#[test]
fn main_sample_gui() {
    let mut gui = v_layout(vec![
        h_layout(vec![
            h_layout(vec![tile("A"), tile("B")]),
            v_layout(vec![tile("C"), tile("D")]),
        ]),
        h_layout(vec![
            tile("E"),
            h_layout(vec![tile("F"), v_layout(vec![tile("G"), tile("H")])]),
        ]),
    ]);
    let d = Dimension { x: 0, y: 0, width: 296, height: 128 };
    assert_eq!(common::invalidate_dimensions(&mut gui, &d), Ok(()));
    let preview = render_to_60fps(&gui, &d).unwrap();
    assert!(preview.starts_with("MainWindow := Window {"));
}

#[test]
fn main_v_layout_with_h_layouts_splits_them_via_v_lines() {
    
    let mut gui = v_layout(vec![
        v_line(), 
        h_layout(vec![tile("A"), tile("B")]),
        v_line(), 
        h_layout(vec![tile("C"), tile("D")]),
    ]);
    let d = Dimension { x: 0, y: 0, width: 296, height: 128 };
    assert_eq!(common::invalidate_dimensions(&mut gui, &d), Ok(()));
    let preview = render_to_60fps(&gui, &d).unwrap();
    assert!(preview.starts_with("MainWindow := Window {"));
}

#[test]
fn main_h_layout_with_v_layouts_splits_them_via_h_lines() {
    
    let mut gui = h_layout(vec![
        h_line(),
        v_layout(vec![tile("A"), tile("B")]),
        h_line(),
        v_layout(vec![tile("C"), tile("D")]),
    ]);
    let d = Dimension { x: 0, y: 0, width: 296, height: 128 };
    assert_eq!(common::invalidate_dimensions(&mut gui, &d), Ok(()));
    let preview = render_to_60fps(&gui, &d).unwrap();
    assert!(preview.starts_with("MainWindow := Window {"));
}
