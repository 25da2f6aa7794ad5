pub mod bc_render;
pub mod common;
pub mod decimal;
pub mod dimension;
pub mod fonts;
pub mod gui_orchestrator;
pub mod layout;
pub mod layout_laws;
pub mod node;
pub mod render;
pub mod sixtyfps_render;

pub use dimension::{Dimension, MAX_COORD};
pub use fonts::{
    center_text, get_bc_font_width, set_bc_font_size, sharp_mip_2in7, waveshare_2in9,
    DeviceProfile, FontMetric,
};
pub use layout::{check_layout, resolve, LayoutError};
pub use render::RenderError;
pub use node::{
    h_layout, h_line, h_split, tile, v_layout, v_line, v_list, ConfigurationError, HardSplit, List,
    Node, Text, Tile,
};
