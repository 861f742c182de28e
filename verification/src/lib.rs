//! A 2D drawing front end that turns rectangles, polygons, strokes, curves,
//! images and text into one buffer of triangles for a single draw call.
//!
//! The canvas arranges vertices and never computes with them: positions and
//! colours are 32-bit IEEE 754 numbers carried by their bit patterns, and
//! the caller does the arithmetic. Text is laid out in whole half pixels
//! against the metrics of two glyph atlases.
pub mod atlas;
pub mod canvas;
pub mod character;
pub mod image;
pub mod scalar;
pub mod stroke;
pub mod text;
pub mod vertex;
pub mod window;
