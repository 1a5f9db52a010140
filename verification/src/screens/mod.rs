//! The decisions of the register's screens.
pub mod manager;
pub mod menu;
pub mod sales;
pub mod transactions;

pub use tab::TabId;

mod tab;
