//! Camera transform model and render-loop scheduling for an interactive
//! fractal viewer.
//!
//! The camera owns a position, an orientation about the view axis, and a
//! per-axis scale; it derives view, projection and model-view-projection
//! matrices. All arithmetic is binary fixed point (20 fraction bits), so
//! every transform has an exact, machine-checked contract.

pub mod camera;
pub mod config_pick;
pub mod fx;
pub mod input;
pub mod mat;
pub mod render_loop;
pub mod rot;

pub use camera::Camera;
pub use config_pick::GlConfigInfo;
pub use config_pick::gl_config_picker;
pub use fx::Fx;
pub use input::InputState;
pub use input::KeyAction;
pub use input::NavKey;
pub use mat::Mat4;
pub use render_loop::Directive;
pub use render_loop::LoopEvent;
pub use render_loop::LoopState;
pub use render_loop::RenderLoop;
pub use rot::Rot2;
