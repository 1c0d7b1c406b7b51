//! Verified core of the Paradigm: Reboot "Best 50" page generator: the
//! difficulty model, the rating formula, the choice of the best records,
//! the wiki table rules that build the metadata cache, the page and script
//! text, and the routing rules of the local preview server.

pub mod text;
pub mod models;
pub mod calculator;
pub mod scraper;
pub mod server;
pub mod html_generator;
pub mod script_generator;
pub mod capture;
