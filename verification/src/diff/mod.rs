pub mod load;
pub mod model;
pub mod parser;
pub mod patch;
pub mod split;
