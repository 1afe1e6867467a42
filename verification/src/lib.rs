//! Helpers for a code generator that emits versioned serialization logic.
//!
//! A derive-style facility lets users annotate type definitions and their
//! fields with a small vocabulary of options: the first and last wire
//! version in which a field is present, and the name of a function that
//! produces a default value when a field is absent. These helpers scan the
//! annotations on a definition, flatten the ones under the facility's
//! marker name into a name-to-literal map, extract the recognized options
//! with strict value-kind checks, detect the C-layout marker on tagged
//! unions, and compute the definition-wide version as the maximum of all
//! per-field version windows.
//!
//! The host-language syntax tree is kept out of these helpers: annotations
//! arrive already reduced to the plain shapes in [`ast`], and every
//! function here carries a contract over that model.

pub mod ast;
pub mod attrs;
pub mod decimal;
pub mod layout;
pub mod scan;
pub mod version;

pub use ast::Attr;
pub use ast::AttrMeta;
pub use ast::Ident;
pub use ast::Lit;
pub use ast::Meta;
pub use ast::TypeShape;
pub use attrs::get_end_version;
pub use attrs::get_ident_attr;
pub use attrs::get_start_version;
pub use attrs::parse_field_attributes;
pub use attrs::AttrError;
pub use attrs::AttrMap;
pub use layout::has_c_layout;
pub use layout::is_array;
pub use scan::scan_attributes;
pub use version::compute_version;
pub use version::Exists;
pub use version::VersionWindow;
