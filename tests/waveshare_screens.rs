use screen_layout::bc_render::render_to_bc;
use screen_layout::sixtyfps_render::render_to_60fps;
use screen_layout::{common, gui_orchestrator};
use screen_layout::{h_layout, h_line, h_split, tile, v_layout, v_line, v_list, Dimension};
use screen_layout::{LayoutError, RenderError};

#[test]
fn gui_orchestrator_sample_gui() {
    let mut gui = v_layout(vec![
        h_layout(vec![
            h_layout(vec![tile("A"), tile("B")]),
            v_layout(vec![tile("C"), tile("D")]),
        ]),
        h_layout(vec![
            tile("E"),
            h_layout(vec![tile("F"), v_layout(vec![tile("G"), tile("H")])]),
        ]),
    ]);
    let d = Dimension { x: 0, y: 0, width: 296, height: 128 };
    assert_eq!(gui_orchestrator::invalidate_dimensions(&mut gui, &d), Ok(()));
    let preview = render_to_60fps(&gui, &d).unwrap();
    assert!(preview.starts_with("MainWindow := Window {"));
}

#[test]
fn gui_orchestrator_v_layout_with_h_layouts_splits_them_via_v_lines() {
    
    let mut gui = v_layout(vec![
        v_line(), 
        h_layout(vec![tile("A"), tile("B")]),
        v_line(), 
        h_layout(vec![tile("C"), tile("D")]),
    ]);
    let d = Dimension { x: 0, y: 0, width: 296, height: 128 };
    assert_eq!(gui_orchestrator::invalidate_dimensions(&mut gui, &d), Ok(()));
    let preview = render_to_60fps(&gui, &d).unwrap();
    assert!(preview.starts_with("MainWindow := Window {"));
}

#[test]
fn gui_orchestrator_h_layout_with_v_layouts_splits_them_via_h_lines() {
    
    let mut gui = h_layout(vec![
        h_line(),
        v_layout(vec![tile("A"), tile("B")]),
        h_line(),
        v_layout(vec![tile("C"), tile("D")]),
    ]);
    let d = Dimension { x: 0, y: 0, width: 296, height: 128 };
    assert_eq!(gui_orchestrator::invalidate_dimensions(&mut gui, &d), Ok(()));
    let preview = render_to_60fps(&gui, &d).unwrap();
    assert!(preview.starts_with("MainWindow := Window {"));
}

#[test]
fn gui_orchestrator_bc_test_page() {
    let status_bar = h_layout(vec![
        tile("21:37").with_format("%T").unwrap(),
        v_line(),
        tile("GPS 3D").with_format("GPS %1d").unwrap(),
        v_line(),
        tile("02/09/21").with_format("%d/%m/%y").unwrap(),
    ]);
    let welcome_page = v_layout(vec![
        h_line(),
        v_line(),
        h_layout(vec![
            v_layout(vec![
                tile("02/09/21").with_format("%d/%m/%y").unwrap(),
                tile("19:34:20").with_format("%T").unwrap(),
            ]),
            v_layout(vec![
                tile("in view / tracked"),
                tile("13 / 11").with_format("%d / %d").unwrap().with_font_size(12).unwrap(),
            ]),
        ]),
        h_line(),
        v_line(),
        h_layout(vec![
            v_layout(vec![
                tile("23.19[*C]").with_format("%5.2f[*C]").unwrap(),
                tile("133.94[m]").with_format("%5.2f[m]").unwrap(),
            ]),
            v_layout(vec![
                tile("Hit button below"),
                tile("to calculate your"),
                tile("BMI"),
            ]),
        ]),
    ]);
    let mut gui = h_split(status_bar, 101, welcome_page);
    let d = Dimension { x: 0, y: 0, width: 296, height: 128 };
    assert_eq!(gui_orchestrator::invalidate_dimensions(&mut gui, &d), Ok(()));
    let preview = render_to_60fps(&gui, &d).unwrap();
    assert!(preview.starts_with("MainWindow := Window {"));
    let code = render_to_bc(&gui, &d).unwrap();
    assert!(code.contains("void StatusView::drawStatic()"));
}

#[test]
fn gui_orchestrator_welcome() {
    let status_bar = h_layout(vec![
        tile("21:37").with_format("%T").unwrap(),
        v_line(),
        tile("GPS 3D").with_format("GPS %1d").unwrap(),
        v_line(),
        tile("02/09/21").with_format("%d/%m/%y").unwrap(),
    ]);
    let welcome_page = v_layout(vec![
        h_line(),
        h_layout(vec![v_layout(vec![
            tile("21:37:07").with_format("%T").unwrap(),
            h_line(),
            tile("02/09/21").with_format("%d/%m/%y").unwrap(),
        ])]),
    ]);
    let mut gui = h_split(status_bar, 101, welcome_page);
    let d = Dimension { x: 0, y: 0, width: 296, height: 128 };
    assert_eq!(gui_orchestrator::invalidate_dimensions(&mut gui, &d), Ok(()));
    let preview = render_to_60fps(&gui, &d).unwrap();
    assert!(preview.starts_with("MainWindow := Window {"));
    let code = render_to_bc(&gui, &d).unwrap();
    assert!(code.contains("void StatusView::drawStatic()"));
}

#[test]
fn gui_orchestrator_select_activity() {
    let status_bar = h_layout(vec![
        tile("21:37").with_format("%T").unwrap(),
        v_line(),
        tile("GPS 3D").with_format("GPS %1d").unwrap(),
        v_line(),
        tile("02/09/21").with_format("%d/%m/%y").unwrap(),
    ]);
    let welcome_page = v_layout(vec![
        h_line(),
        v_line(),
        h_layout(vec![
            v_layout(vec![tile("Activity"), h_line(), tile("")]),
            v_list(vec![
                "Running",
                "Cycling",
                "Hiking",
                "Ind. Cycling",
                "Yoga",
                "Swimming",
            ])
            .with_font_size(16).unwrap(),
        ]),
    ]);
    let mut gui = h_split(status_bar, 101, welcome_page);
    let d = Dimension { x: 0, y: 0, width: 296, height: 128 };
    assert_eq!(gui_orchestrator::invalidate_dimensions(&mut gui, &d), Ok(()));
    let preview = render_to_60fps(&gui, &d).unwrap();
    assert!(preview.starts_with("MainWindow := Window {"));
    let code = render_to_bc(&gui, &d).unwrap();
    assert!(code.contains("void StatusView::drawStatic()"));
}

#[test]
fn gui_orchestrator_select_running_workouts() {
    let status_bar = h_layout(vec![
        tile("21:37").with_format("%T").unwrap(),
        v_line(),
        tile("GPS 3D").with_format("GPS %1d").unwrap(),
        v_line(),
        tile("02/09/21").with_format("%d/%m/%y").unwrap(),
    ]);
    let welcome_page = v_layout(vec![
        h_line(),
        v_line(),
        h_layout(vec![
            v_layout(vec![tile("Running"), h_line(), tile("Workouts")]),
            v_layout(vec![
                tile("5k").with_font_size(16).unwrap(),
                tile("10k").with_font_size(16).unwrap(),
                tile("Half Marathon").with_font_size(16).unwrap(),
                tile("Marathon").with_font_size(16).unwrap(),
                tile("Cooper Test").with_font_size(16).unwrap(),
            ]),
        ]),
    ]);
    let mut gui = h_split(status_bar, 101, welcome_page);
    let d = Dimension { x: 0, y: 0, width: 296, height: 128 };
    assert_eq!(gui_orchestrator::invalidate_dimensions(&mut gui, &d), Ok(()));
    let preview = render_to_60fps(&gui, &d).unwrap();
    assert!(preview.starts_with("MainWindow := Window {"));
    let code = render_to_bc(&gui, &d).unwrap();
    assert!(code.contains("void StatusView::drawStatic()"));
}

#[test]
fn gui_orchestrator_activity_running_cooper_test() {
    let status_bar = h_layout(vec![
        tile("21:37").with_format("%T").unwrap(),
        v_line(),
        tile("GPS 3D").with_format("GPS %1d").unwrap(),
        v_line(),
        tile("02/09/21").with_format("%d/%m/%y").unwrap(),
    ]);
    let welcome_page = v_layout(vec![
        h_line(),
        v_line(),
        h_layout(vec![
            v_layout(vec![tile("Running"), h_line(), tile("Cooper Test")]),
            v_layout(vec![tile("Do It"), tile("View")]),
        ]),
    ]);
    let mut gui = h_split(status_bar, 101, welcome_page);
    let d = Dimension { x: 0, y: 0, width: 296, height: 128 };
    assert_eq!(gui_orchestrator::invalidate_dimensions(&mut gui, &d), Ok(()));
    let preview = render_to_60fps(&gui, &d).unwrap();
    assert!(preview.starts_with("MainWindow := Window {"));
    let code = render_to_bc(&gui, &d).unwrap();
    assert!(code.contains("void StatusView::drawStatic()"));
}

#[test]
fn gui_orchestrator_activity_running_cooper_test_view() {
    let status_bar = h_layout(vec![
        tile("21:37").with_format("%T").unwrap(),
        v_line(),
        tile("GPS 3D").with_format("GPS %1d").unwrap(),
        v_line(),
        tile("02/09/21").with_format("%d/%m/%y").unwrap(),
    ]);
    let welcome_page = v_layout(vec![
        h_line(),
        h_split(
            v_layout(vec![tile("Cooper Test"), h_line()]),
            200,
            v_layout(vec![
                tile("Step 1: Warmup").with_font_size(12).unwrap(),
                tile("Step 2: Run for your life for 12 mins").with_font_size(12).unwrap(),
                tile("Step 3: Note the distance").with_font_size(12).unwrap(),
                tile("Step 4: Look at the table").with_font_size(12).unwrap(),
            ]),
        ),
    ]);
    let mut gui = h_split(status_bar, 101, welcome_page);
    let d = Dimension { x: 0, y: 0, width: 296, height: 128 };
    assert_eq!(gui_orchestrator::invalidate_dimensions(&mut gui, &d), Ok(()));
    let preview = render_to_60fps(&gui, &d).unwrap();
    assert!(preview.starts_with("MainWindow := Window {"));
    let code = render_to_bc(&gui, &d).unwrap();
    assert!(code.contains("void StatusView::drawStatic()"));
}

#[test]
fn waveshare_select_activity_activity_splash() {
    let status_bar = h_layout(vec![
        tile("21:37").with_format("%T").unwrap(),
        v_line(),
        tile("GPS 3D").with_format("GPS %1d").unwrap(),
        v_line(),
        tile("02/09/21").with_format("%d/%m/%y").unwrap(),
    ]);
    let welcome_page = v_layout(vec![h_line(), h_layout(vec![tile("Activities")])]);
    let mut gui = h_split(status_bar, 101, welcome_page);
    let d = Dimension { x: 0, y: 0, width: 296, height: 128 };
    assert_eq!(gui_orchestrator::invalidate_dimensions(&mut gui, &d), Ok(()));
    let preview = render_to_60fps(&gui, &d).unwrap();
    assert!(preview.starts_with("MainWindow := Window {"));
    let code = render_to_bc(&gui, &d).unwrap();
    assert!(code.contains("void StatusView::drawStatic()"));
}

#[test]
fn waveshare_select_activity_select_activity() {
    let status_bar = h_layout(vec![
        tile("21:37").with_format("%T").unwrap(),
        v_line(),
        tile("GPS 3D").with_format("GPS %1d").unwrap(),
        v_line(),
        tile("02/09/21").with_format("%d/%m/%y").unwrap(),
    ]);
    let welcome_page = v_layout(vec![
        h_line(),
        v_line(),
        h_layout(vec![
            v_layout(vec![tile("Activity"), h_line(), tile("")]),
            v_list(vec![
                "Running",
                "Cycling",
                "Hiking",
                "Ind. Cycling",
                "Yoga",
                "Swimming",
            ])
            .with_font_size(16).unwrap(),
        ]),
    ]);
    let mut gui = h_split(status_bar, 101, welcome_page);
    let d = Dimension { x: 0, y: 0, width: 296, height: 128 };
    assert_eq!(gui_orchestrator::invalidate_dimensions(&mut gui, &d), Ok(()));
    let preview = render_to_60fps(&gui, &d).unwrap();
    assert!(preview.starts_with("MainWindow := Window {"));
    let code = render_to_bc(&gui, &d).unwrap();
    assert!(code.contains("void StatusView::drawStatic()"));
}

#[test]
fn waveshare_select_activity_select_running_workouts() {
    let status_bar = h_layout(vec![
        tile("21:37").with_format("%T").unwrap(),
        v_line(),
        tile("GPS 3D").with_format("GPS %1d").unwrap(),
        v_line(),
        tile("02/09/21").with_format("%d/%m/%y").unwrap(),
    ]);
    let welcome_page = v_layout(vec![
        h_line(),
        v_line(),
        h_layout(vec![
            v_layout(vec![tile("Workouts"), h_line(), tile("Running")]),
            v_list(vec!["5k", "10k", "Half Marathon", "Marathon", "Cooper Test"])
                .with_font_size(16).unwrap(),
        ]),
    ]);
    let mut gui = h_split(status_bar, 101, welcome_page);
    let d = Dimension { x: 0, y: 0, width: 296, height: 128 };
    assert_eq!(gui_orchestrator::invalidate_dimensions(&mut gui, &d), Ok(()));
    let preview = render_to_60fps(&gui, &d).unwrap();
    assert!(preview.starts_with("MainWindow := Window {"));
    let code = render_to_bc(&gui, &d).unwrap();
    assert!(code.contains("void StatusView::drawStatic()"));
}

#[test]
fn waveshare_select_activity_activity_running_cooper_test() {
    let status_bar = h_layout(vec![
        tile("21:37").with_format("%T").unwrap(),
        v_line(),
        tile("GPS 3D").with_format("GPS %1d").unwrap(),
        v_line(),
        tile("02/09/21").with_format("%d/%m/%y").unwrap(),
    ]);
    let welcome_page = v_layout(vec![
        h_line(),
        v_line(),
        h_layout(vec![
            v_layout(vec![tile("Running"), h_line(), tile("Cooper Test")]),
            v_list(vec!["Do It", "View"]).with_font_size(16).unwrap(),
        ]),
    ]);
    let mut gui = h_split(status_bar, 101, welcome_page);
    let d = Dimension { x: 0, y: 0, width: 296, height: 128 };
    assert_eq!(gui_orchestrator::invalidate_dimensions(&mut gui, &d), Ok(()));
    let preview = render_to_60fps(&gui, &d).unwrap();
    assert!(preview.starts_with("MainWindow := Window {"));
    let code = render_to_bc(&gui, &d).unwrap();
    assert!(code.contains("void StatusView::drawStatic()"));
}

#[test]
fn waveshare_select_activity_activity_running_cooper_test_view() {
    let status_bar = h_layout(vec![
        tile("21:37").with_format("%T").unwrap(),
        v_line(),
        tile("GPS 3D").with_format("GPS %1d").unwrap(),
        v_line(),
        tile("02/09/21").with_format("%d/%m/%y").unwrap(),
    ]);
    let welcome_page = v_layout(vec![
        h_line(),
        h_split(
            v_layout(vec![tile("Cooper Test"), h_line()]),
            200,
            v_layout(vec![
                tile("Step 1: Warmup").with_font_size(12).unwrap(),
                tile("Step 2: Run for your life for 12 mins").with_font_size(12).unwrap(),
                tile("Step 3: Note the distance").with_font_size(12).unwrap(),
                tile("Step 4: Look at the table").with_font_size(12).unwrap(),
            ]),
        ),
    ]);
    let mut gui = h_split(status_bar, 101, welcome_page);
    let d = Dimension { x: 0, y: 0, width: 296, height: 128 };
    assert_eq!(gui_orchestrator::invalidate_dimensions(&mut gui, &d), Ok(()));
    let preview = render_to_60fps(&gui, &d).unwrap();
    assert!(preview.starts_with("MainWindow := Window {"));
    let code = render_to_bc(&gui, &d).unwrap();
    assert!(code.contains("void StatusView::drawStatic()"));
}

#[test]
fn waveshare_select_activity_activity_running_do_it() {
    let status_bar = h_layout(vec![
        tile("21:37").with_format("%T").unwrap(),
        v_line(),
        tile("GPS 3D").with_format("GPS %1d").unwrap(),
        v_line(),
        tile("02/09/21").with_format("%d/%m/%y").unwrap(),
    ]);
    let welcome_page = v_layout(vec![
        h_line(),
        v_line(),
        h_layout(vec![
            v_layout(vec![tile("Running"), h_line(), tile("5k")]),
            v_layout(vec![
                tile("GPS 3D").with_font_size(16).unwrap(),
                h_line(),
                tile("Press OK").with_font_size(16).unwrap(),
                tile("to start").with_font_size(16).unwrap(),
            ]),
        ]),
    ]);
    let mut gui = h_split(status_bar, 101, welcome_page);
    let d = Dimension { x: 0, y: 0, width: 296, height: 128 };
    assert_eq!(gui_orchestrator::invalidate_dimensions(&mut gui, &d), Ok(()));
    let preview = render_to_60fps(&gui, &d).unwrap();
    assert!(preview.starts_with("MainWindow := Window {"));
    let code = render_to_bc(&gui, &d).unwrap();
    assert!(code.contains("void StatusView::drawStatic()"));
}
