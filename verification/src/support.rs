pub mod regex_source;
pub mod text;
