# hue

A command-line tool for controlling Philips Hue lights over the local network,
built around a library whose logic is proved with Verus.

- `src/` — the verified library:
  - `text.rs`: string helpers (equality without regard to case, code-point order,
    trimming, `u8` parsing and printing, joining, sorting) with their specs;
  - `json.rs`: the JSON values read from the bridge's replies;
  - `presets.rs`: presets and the table that keeps them by name (viewed as a map);
  - `config.rs`: the stored configuration;
  - `bridge.rs`: the requests sent to the bridge and the reading of its replies;
  - `rgb.rs`: the `R,G,B` argument;
  - `commands.rs`: what each command decides and prints;
  - `setup.rs`: the steps of `hue init`;
  - `laws.rs`: properties across operations.
- `app/` — the program: command-line parsing, HTTP, the configuration file,
  and the RGB to CIE xy conversion (floating point).
- `tests/` — tests of the library.

The bridge is reached over HTTPS (it presents a self-signed certificate, which
the program accepts) at its `/api/<username>` resources: `/groups` to list the
groups and `/groups/<id>/action` to set them. Every request the library builds
and every reply it reads follows that resource layout and its JSON shapes; the
`/clip/v2` resources (grouped-light ids, the `hue-application-key` header)
have other shapes that the library does not model.
