//! Rasterizes a geographic vector dataset (points, lines, polygons and nested
//! collections, in longitude/latitude coordinates) into a fixed-size RGBA
//! raster: a viewport is resolved (whole world or fitted to the data), every
//! coordinate is projected through an affine, y-flipped map into pixel space,
//! and each geometry variant is reduced to filled-circle and anti-aliased
//! line-segment drawing operations on a pixel canvas.
pub mod canvas;
pub mod float_bits;
pub mod geometry;
pub mod project;
pub mod raster;
pub mod viewport;
