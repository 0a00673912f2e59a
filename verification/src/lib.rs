//! A chat bot's message routing, keyword rules and session bookkeeping.

#[allow(non_snake_case)]
pub mod LineAPI;
pub mod fetch;
pub mod google_image;
pub mod line_api;
mod random;
pub mod terminator;
pub mod text;
