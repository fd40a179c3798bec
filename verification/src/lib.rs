//! Data and layout logic of a font fallback inspector: UTF-16 conversion of
//! names, decoding of `FontLink\SystemLink` registry values, the settings
//! file, the table of fonts that is shown, and the geometry of the window
//! and of each list row.

pub mod config;
pub mod fontlink;
pub mod fonts;
pub mod items;
pub mod layout;
pub mod wide;
