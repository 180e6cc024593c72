//! Verified core of a path-tracing renderer: the scene-language lexer and
//! token cursor, the painter's scheduling decisions and the random helpers
//! that the integrator draws from.

pub mod cursor;
pub mod lexer;
pub mod number;
pub mod painter;
pub mod random;
pub mod shading;
pub mod syntax;
