pub mod chunked;
pub mod flow;
pub mod laws;
pub mod session;
pub mod stitcher;
pub mod word_fill;
