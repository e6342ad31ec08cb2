pub mod cli;
pub mod crawler;
pub mod epub_util;
pub mod html;
pub mod scrape;
pub mod scraper;
pub mod search;
pub mod text;
pub mod wuxiaworldco;
