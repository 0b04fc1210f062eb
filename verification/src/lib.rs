pub mod api;
pub mod canvas;
pub mod dispatch;
pub mod fonts;
pub mod layout;
pub mod prepare;
pub mod queue;
pub mod raster;
