//! Catalog browser core: the image download queue and its worker, the
//! texture pool, the feed document model, and the grid selection state
//! machine with its transition animators.
pub mod data;
pub mod lerp;
pub mod util;
pub mod ux;
pub mod cache;
pub mod pool;
