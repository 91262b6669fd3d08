pub mod linking;
pub mod main;

pub use linking::Linking;
pub use main::Main;
