pub mod contact;
pub mod content;
pub mod history;
pub mod ident;
pub mod message;
pub mod thread;
pub mod thread_map;

pub use contact::{contact_name, Contact, Group};
pub use content::{from_content, receipt_from_content, Content, ContentBody, ReceiptKind};
pub use message::{Message, Status};
pub use thread::{ContactId, Thread};
pub use thread_map::ThreadMap;
