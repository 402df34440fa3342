pub mod text;
pub mod paths;
pub mod musicman;
pub mod env;
pub mod json;
pub mod outreach;
