pub mod cli;
pub mod envfile;
pub mod json;
pub mod num;
pub mod parse;
pub mod paths;
pub mod render;
pub mod resolve;
pub mod ser;
pub mod strip;
pub mod supervisor;
pub mod text;
pub mod update;
