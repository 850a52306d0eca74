//! A scene-graph renderer: walks a tree of positioned, nested drawings
//! composed on a canvas and serializes the visible result into a vector
//! graphics document.

pub mod decimal;
pub mod render;
pub mod scene;

pub use render::render_drawing;
pub use render::render_shape;
pub use render::Document;
pub use render::SvgRenderer;
pub use scene::Canvas;
pub use scene::DisplayList;
pub use scene::Drawing;
pub use scene::Position;
pub use scene::Shape;
