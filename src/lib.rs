//! Battery levels of connected Bluetooth devices, as one line of text.
//!
//! The device records come from the management service's object tree ([`bulk`]) or
//! from reads of single addresses ([`targeted`]); they are sorted ([`device`]) and
//! written out in one of three formats ([`format`]) with glyphs from [`icon`].

pub mod bulk;
pub mod device;
pub mod format;
pub mod icon;
pub mod targeted;
pub mod text;
