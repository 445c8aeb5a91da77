pub mod access;
pub mod json;
pub mod level;
pub mod record;
pub mod render;
pub mod text;
pub mod time;
