//! A personal task list: the tasks, the store that owns them, the text form
//! in which the store is kept between runs, and what the front end decides.

pub mod cli;
pub mod storage;
pub mod terminal;
pub mod todo;
