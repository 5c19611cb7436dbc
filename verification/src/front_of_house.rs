//! The front of the restaurant: hosting and serving.

pub mod hosting;
pub mod serving;
