# quirk

A QR code generator. The library in `src/` is verified with Verus; `app/` is
the egui window around it.

- `src/text.rs`: trimming, words, substring tests and decimal numerals, stated
  over the characters a string views as.
- `src/qr_types.rs`: the payload builders (Wi-Fi, vCard, mailto, tel, SMS, geo,
  vEvent, crypto payment URIs), each proved equal to a spec function of the
  form, and `build`, which picks the builder of a content kind.
- `src/symbol.rs`: the `qrcode` crate behind two trusted wrappers: the module
  grid of a symbol, and its SVG rendering.
- `src/raster.rs`: drawing a module grid into an RGBA buffer, pixel by pixel.
- `src/app.rs`: the generator's state and its transitions (regenerating the
  preview, exporting, copying), with the laws they keep.
- `app/`: the window, the preview texture, the file dialog and the files
  written on export.
