# svgcolor

A parser for the CSS/SVG `<color>` type, verified with Verus: hex notation
(`#rgb`, `#rgba`, `#rrggbb`, `#rrggbbaa`), the color keywords, `rgb()`/`rgba()`,
`hsl()`/`hsla()` and `color-mix()`.

Every reading step is specified by a spec function of the text and the
position, and the executable parser is proved to compute exactly that.
Numbers are read exactly (no floating point): channels are rounded half away
from zero from the exact value, `hsl()` works in fixed point, and
`color-mix()` weights are fractions of `WEIGHT_ONE`.

`color-mix()` is evaluated by the library in sRGB, and in every space when no
weight falls on a visible color; the alpha of every mix is computed here. The
red, green and blue of a mix in another space go through conversions that
this library does not compute (roots and powers for the Lab and linear
spaces; HSL and HWB are rational, but are computed with palette's `f32`
conversions like the others): the parser then reports
`Error::UnresolvedColorMix` with the request, and a caller supplies the mixed
color through `Color::from_str_with_mixes`.

Layout:

- `src/` — the verified library.
  - `stream.rs`: the byte cursor and its spec functions.
  - `number.rs`: the number reader.
  - `arith.rs`, `hsl.rs`: exact channel arithmetic and the HSL conversion.
  - `color_mix.rs`: mixing in sRGB, weights, hue interpolation.
  - `parser.rs`: the `<color>` grammar, as spec functions and as code.
  - `colors.rs`, `keywords.rs`: the color keywords and function names.
  - `error.rs`: errors and their messages.
  - `locality.rs`, `whitespace.rs`, `properties.rs`: properties of the parser
    as a whole (letter case, surrounding whitespace, round trips, supplied
    mixed colors).
- `tests/` — tests of the library.
- `app/` — the floating-point side of `color-mix()`, with palette.
