//! Library catalogue: book availability, reservations, accounts and the
//! calendar helpers they rely on.

pub mod account;
pub mod book;
pub mod catalogue;
pub mod listing;
pub mod status;
pub mod text;
pub mod time;
