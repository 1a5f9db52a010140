//! Cash register logic: the menu, receipts and sales summaries, and the
//! decisions taken by the register's screens.
mod text;
pub mod time;
pub mod connection;
pub mod items;
pub mod lines;
pub mod receipts;
pub mod summary;
pub mod sets;
pub mod calc;
pub mod error;
pub mod icons;
pub mod item;
pub mod kinded;
pub mod payment;
pub mod receipt;
pub mod reciept;
pub mod theme;
pub mod widgets;
pub mod screens;

pub use connection::{set_receipt_path, Error};
