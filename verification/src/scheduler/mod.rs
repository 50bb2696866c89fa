//! Decisions of the scheduler's tasks: the event router, the mode switch,
//! the screen watcher and the game watcher.
pub mod game_moniter;
pub mod manager;
pub mod mode_switch;
pub mod screen_moniter;
