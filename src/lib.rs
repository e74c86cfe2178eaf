//! The verified core of a small real-time renderer: the keyboard state,
//! the decisions of the frame loop, the layout and wiring of full-screen
//! filter passes, a symbolic texture pool that runs those passes, the
//! CPU side of GPU-mirrored arrays, and the demo mesh's indices.
pub mod engine;
pub mod filter;
pub mod input;
pub mod mesh;
pub mod pool;
pub mod staged;
