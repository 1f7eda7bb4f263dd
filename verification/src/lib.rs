//! The decision logic of the Focuser desktop shell: when the tray may quit,
//! how a remaining lock time reads, which store and launcher belong to a
//! browser, how the app password is hashed and checked, and the script
//! text of the two modal dialogs the shell shows.

pub mod text;
pub mod remaining;
pub mod browsers;
pub mod lock;
pub mod password;
pub mod json;
pub mod modal;
