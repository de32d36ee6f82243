//! Style, font and debugging helpers of a DOM layer: conversions from computed
//! CSS values to text-layout styles, `@font-face` subset selection, font byte
//! decoding, and a textual dump of a node tree.

pub mod image;
pub mod font_bytes;
pub mod parley;
pub mod stylo;
pub mod subsets;
pub mod stylo_to_parley;
pub mod text;
pub mod tree_dump;
pub mod svg;
