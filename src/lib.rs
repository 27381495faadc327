//! A terminal task tracker's core: the task store, the key-driven interaction
//! state machine, the periodic job scheduler, the single-slot issue cache and
//! the parsing that finds a repository's issue endpoint.

pub mod cache;
pub mod display;
pub mod event_loop;
pub mod issues;
pub mod remote;
pub mod scheduler;
pub mod store;
pub mod text;
pub mod time;
pub mod tracker;
