pub mod bot;
pub mod cycle;
pub mod database;
pub mod downloader;
pub mod made_title;
pub mod mikan;
pub mod nesting;
pub mod pattern;
pub mod pipeline;
pub mod text;
pub mod title_parser;
pub mod utils;
