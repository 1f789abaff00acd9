# mapscow_mule

A map renderer for OpenStreetMap data: it reads OSM XML, GPX tracks and
stylesheets, applies styles to map features and writes SVG maps.

- `src/` is the library, written in Verus. Every function carries a contract
  that Verus proves: the OSM and GPX readers (as state machines over XML
  events), the stylesheet reader (colors, the custom line format), style
  matching and z-ordering, map data bookkeeping, what an SVG export draws for
  each element and in which layer, the decisions of the map view, and the
  application settings. Floating-point numbers are held as their bit patterns
  and decoded by the caller.
- `tests/` runs the library on concrete inputs.
- `app/` is the program around it: command line, files, YAML/TOML reading with
  serde, floating-point geometry and projections, SVG writing, and the egui
  panels of the user interface. The native window runner, the geocoding HTTP
  client, file dialogs and raster (PNG/JPEG) export are not part of this build:
  the program prepares its state and reports that no window can be opened.
