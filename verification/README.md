# shortest_color

Reads a CSS colour in any of its notations — `#rgb`, `#rgba`, `#rrggbb`, `#rrggbbaa`,
`rgb()`/`rgba()`, `hsl()`/`hsla()` and the named colours — and writes the shortest text
for the same colour. Every function of the library carries a contract that Verus proves.

```text
"#ff0000"       -> "red"
"rgb(0,0,255)"  -> "blue"
"WHITE"         -> "#fff"
```

## Layout

- `src/lib.rs`: `shorten_css_color`, what it reads and how it answers.
- `src/color/`: the `Color` model; `converter` (reading colour text into a colour and
  writing a colour back), `shortener` and `validator` (a well-formedness check that
  converts nothing).
- `src/text.rs`, `src/decimal.rs`, `src/hex.rs`, `src/values.rs`: text, number and hex
  notation as bytes.
- `src/keywords.rs`: the 149 named colours.
- `src/format.rs`: the shortest text for a colour.
- `src/properties.rs`: properties that span several functions, proved.
- `app/`: a command-line program around the library. The hue, saturation and lightness of an
  `hsl()` colour are turned into red, green and blue there, in single precision; the library
  hands over the checked parts and finishes with the result.
- `tests/`: the tests.
