# wyvern

Linear and kernel-based interpolation of real and complex arrays along their
last axis, with optional propagation of inverse-variance weights.

## Layout

- `src/` — the verified core, written in Verus. It decides everything that
  depends only on how samples are ordered, working on the IEEE-754 binary64
  encodings of the coordinates:
  - `ieee`: comparisons, NaN/finiteness tests, totalOrder keys and zero
    masking on encodings;
  - `plan`: bracketing of each output coordinate by a pair of consecutive
    input coordinates, with the checks that reject too few, missing or
    unsorted coordinates;
  - `window`: placement of fixed-width kernel windows, choice of the window
    width, and validation of the filter scale;
  - `median`: selection of the median sample spacing;
  - `cache`: a bounded first-in-first-out cache of plans keyed by
    coordinate encodings;
  - `kinds`: the accepted element kinds and their layout;
  - `support`: where the compact kernels may be nonzero, and the boxcar
    kernel itself.
- `app/` — ordinary Rust around the core: the floating-point arithmetic of
  the plans and kernels, the row-parallel drivers over `ndarray` arrays, and
  the Python bindings.
- `tests/` — tests of the verified core.
