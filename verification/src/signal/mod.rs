pub mod command;
pub mod event;
pub mod status;
pub mod worker;

pub use command::Command;
pub use event::Event;
