# puppeteer_cli

Command-line tools that drive Chrome with Puppeteer-style lines such as
`const page = await browser.newPage();` or `await page.goto('https://example.com');`.

- `src/` is the verified library (Verus): the line parser, the readers of string,
  viewport, path and number arguments, the JavaScript rewriting of `evaluate` calls,
  `console.log` formatting, the session that decides what each command asks of the
  browser and what it prints, the launch settings of the `p` program, and the laws
  that relate these functions (`laws.rs`, `session_laws.rs`).
- `tests/` runs the library on concrete inputs.
- `app/` holds the programs `puppeteer`, `puppeteer-script` and `p`: flags, the
  configuration file, the REPL, and the calls into `headless_chrome` that perform each
  browser action.
