pub mod mikan_parser;
pub mod mikan_rss;
