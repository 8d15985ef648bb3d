//! Verified core of a Wine profile manager: the profile registry, the
//! Windows executable and shortcut parsers, the system check and the
//! interface texts.

pub mod bytes;
pub mod text;
pub mod i18n;
pub mod icon;
pub mod listing;
pub mod lnk;
pub mod state;
pub mod state_laws;
pub mod style;
pub mod system;
pub mod prefix;
pub mod programs;
pub mod registry_laws;

