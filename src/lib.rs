pub mod civil;
pub mod command;
pub mod offset;
pub mod task;
pub mod text;
pub mod window;
