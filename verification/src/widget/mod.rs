pub mod avatar;
pub mod message_view;
pub mod qr;
pub mod sidebar;
