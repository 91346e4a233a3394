pub mod view;
pub mod event;
pub mod keys;
pub mod layout;
pub mod manager;
