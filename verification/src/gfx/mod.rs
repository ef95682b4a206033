pub mod pass;
pub mod pipeline;
pub mod plan;
pub mod quad;
pub mod vertex;
