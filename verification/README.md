# mdview

A command-line Markdown viewer: it renders a Markdown file into one
self-contained HTML page (fonts, styles and scripts embedded) and opens it in
the browser. `--checkhealth` reports which of the preferred fonts are
installed; `--debug` adds a font diagnosis section to the page; the color
scheme comes from `--colorscheme`, else from `colorscheme` in
`~/.config/mdview.toml`, else gruvbox-light.

## Layout

- `src/` is the verified library (Verus):
  - `text.rs`: character-level string operations (search, replacement, joining,
    decimal notation) specified over `Seq<char>`;
  - `config.rs`: font preferences and the font stacks built from them, with the
    laws of stack building;
  - `theme.rs`: the color schemes and the choice of one;
  - `check.rs`: matching font files against family names, where the font
    directories and the configuration file are, and the text of the health
    report;
  - `encoding.rs`: standard base64, with the proof that decoding gives the
    bytes back;
  - `html.rs`: CSS font-family values, the KaTeX font table and its
    `@font-face` rules, and the assembly of the page, with the proofs that the
    Markdown source adds no `</script>` to the page and that the page declares
    the colors of its theme;
  - `launch.rs`: the WSL check, the extension check, the temporary file name
    and the page URL.
- `app/` is the program around it: command-line parsing, reading the
  configuration file (`~/.config/mdview.toml`), listing font directories,
  writing the page and starting the browser.
- `tests/` runs the library on concrete inputs.

The page assets (marked, KaTeX with its fonts, Prism) are embedded at build
time from `vendor/` next to `app/`; the app hands the font files to the
library in the order of its font table.
