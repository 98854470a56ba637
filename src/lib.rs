//! Type-aware, two-column directory listing: file-name splitting, extension
//! colouring by MIME type, entry labels measured on their visible text, and
//! the two-column layout.

pub mod color;
pub mod label;
pub mod layout;
pub mod listing;
pub mod name;
pub mod text;

pub use color::{color_for_mime, get_type_color, ExtColor};
pub use label::{entry_label, Label, Segment, Style};
pub use layout::{two_columns, Columns, Row};
pub use listing::{column_gap, plan_listing, Entry, Listing};
pub use name::{split_name, NameParts};
pub use text::{has_prefix, str_equals};
