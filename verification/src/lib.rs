//! A reader's library for stories published on Royal Road: it reads story
//! pages, chapter lists and chapter pages, keeps a reader's collection of
//! stories, and answers the questions a reading front end asks of it.

pub mod number;
pub mod pattern;
pub mod site;
pub mod story;
pub mod manager;
pub mod lists;
pub mod reader;
