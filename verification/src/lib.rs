//! Font quality checks: the decision logic behind a set of OpenType and
//! foundry-specific font checks, stated over plain values and proved.
pub mod text;
pub mod status;
pub mod font;
pub mod names;
pub mod consistency;
pub mod fontwerk;
pub mod gasp;
pub mod style;
pub mod opentype;
pub mod family;
pub mod universal;
pub mod license;
pub mod sections;
pub mod profile;
pub mod listing;
pub mod plugins;
pub mod constants;
pub mod laws;
pub mod rules;
pub use plugins::{Fontwerk, Iso15009};
