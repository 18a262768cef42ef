//! Renders a short history of a sensor metric as a small square icon: a line
//! graph with a gradient fill under it, or a horseshoe gauge of the latest
//! value. Samples are fixed-point integers in thousandths of the metric's unit;
//! every pixel of a render is stated by the renderer's contracts.

pub mod canvas;
pub mod line;
pub mod fill;
pub mod arc;
pub mod normalize;
pub mod render;
pub mod encode;
pub mod window;
pub mod settings;
pub mod websocket;
pub mod sensors;
pub mod json;
pub mod stat;
pub mod text;
