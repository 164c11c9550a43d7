# cups_http_gateway

An HTTP gateway for CUPS. The library (`src/`) is verified with Verus; the
program around it (`app/`) serves HTTP with axum and talks IPP to CUPS.

Library modules:

- `print_options` — document formats, sides, color modes, orientations and
  media sizes, and the IPP/CUPS keywords they travel as (with round-trip laws).
- `ipp_model` — the parts of IPP messages the gateway reads and writes, as
  plain values, and their text renderings.
- `cups_client` — printer URIs, the attributes each request carries, and what
  each CUPS reply means.
- `printer_uri` — parsed printer URIs that keep the text they were parsed
  from.
- `errors` — the gateway's errors and the HTTP answer for each.
- `http_api` — content decoding, option mapping and response bodies.
- `escpos` — Floyd-Steinberg dithering, MSB-first bit packing and the
  ESC/POS `GS v 0` raster command.
- `capabilities_cache` — a TTL cache of printer capabilities.
- `services`, `printer`, `models`, `text` — shared state, records, bodies and
  string helpers.

`app/` holds `main`, the HTTP routes, the IPP exchange (which converts
between the ipp crate's types and the library's), the async cache shell and
the image-to-PDF conversion (floating-point layout).
