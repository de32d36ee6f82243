# blitz-dom helpers, verified

Style and font helpers of a DOM layer, written in Verus.

- `src/stylo.rs`, `src/parley.rs`: the computed CSS values that text layout
  reads, and the layout style values built from them.
- `src/stylo_to_parley.rs`: the conversions, and the splicing of
  `@font-face` subset families into a font stack.
- `src/subsets.rs`: choosing which `unicode-range` subsets of a family to
  offer the shaper (slant first, then closest weight, all ties kept).
- `src/font_bytes.rs`: WOFF/WOFF2 detection and decompression (through
  `wuff`), falling back to the input bytes.
- `src/tree_dump.rs`: the text of a node-tree dump.
- `src/svg.rs`: the style sheet that makes an SVG's `currentColor` follow
  an element's CSS `color`.
- `src/text.rs`: the string operations of std the library calls.
- `app/`: SVG parsing with `usvg` against the system font database, color
  conversion on float components, and printing.
