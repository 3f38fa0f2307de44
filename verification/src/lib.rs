//! A minimal software rasterizer: 2D triangles with solid colors are painted
//! into a square pixel buffer by a bounding-box scan with a half-plane
//! containment test. Geometry lives in integer pixel coordinates; colors are
//! 8-bit RGB channels.

pub mod sample;
pub mod scene;
pub mod tri2;
pub mod vec2;
pub mod vec3;
