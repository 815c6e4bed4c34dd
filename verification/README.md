# nannou (verified core)

A Verus library holding the logic of the nannou toolkit that can be stated and proved over
integers and plain values, with the floating-point, GPU, windowing and I/O parts around it in
`app/`.

- `src/geom`: integer vectors and points, triangles, quads, polygon fans, mesh vertex indexing,
  graph edge kinds, miter triangulation indices, path and polyline builders.
- `src/mesh`: channels and the mesh adaptors that combine them.
- `src/text`: line breaking (`Infos`), newline scanning over UTF-8, line slicing, font maps and
  parsing fonts from bytes.
- `src/stream`: laser frame optimisation (segments, point graph, Euler graph and a circuit that
  takes the cheapest turn at each node) and DAC point counts.
- `src/bars.rs`, `src/period.rs`, `src/ruler.rs`: timeline durations, periods and markers.
- `src/osc.rs`, `src/state`, `src/vk.rs`: OSC packets, mouse button state, sample counts.
- `app/`: laser point interpolation, RustType text measurement, OSC over UDP, reading font files.
