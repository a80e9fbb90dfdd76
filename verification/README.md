# arendur (verified core)

The integer core of a path-tracing renderer, written in Verus.

- `src/geometry`: points, vectors and 2D/3D bounding boxes over any machine
  integer type (`coord::Coord`), with a mathematical model of boxes
  (`model`), the row-major scan of a box's integer points, and laws about
  both (`laws`).
- `src/sample/sink.rs`: the store of precomputed sample values that samplers
  read one dimension at a time.
- `src/filming`: bounded pixel sinks, images, and the split of a film's crop
  window into render tiles, with the proof that the tiles partition the
  window.
- `src/component/bvh.rs`: the BVH build tree and its flattening into the
  pre-order array that traversal walks, with the proof of its layout.
- `src/lighting`, `src/bxdf`: light and bxdf flag sets.
- `app/`: part of the floating-point side over the same types: box
  interpolation, bounding circles and spheres, ray/box tests and transforms,
  pixel centers, film tiles and sample accumulation, filters, sample warping,
  distributions and samplers. The rest of the renderer (cameras, shapes,
  materials, bxdfs, lights, renderers) is not reproduced here.
