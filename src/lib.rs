//! Display output driving for a compositor on a kernel mode-setting device:
//! output selection, the per-frame composite pass over a surface forest with
//! its lazy texture cache, and the page-flip frame scheduler.

pub mod output;
pub mod scene;
pub mod render;
pub mod scheduler;
