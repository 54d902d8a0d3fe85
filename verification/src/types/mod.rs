pub mod overlap;
pub mod reading;
pub mod transcript;
pub mod translate;
