pub mod model;
pub mod app;
pub mod labels;
pub mod runtime;
pub mod sections;
pub mod keys;
