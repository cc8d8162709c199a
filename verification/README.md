# kinavis

Marine navigation in exact units, with its contracts proved by Verus.

Lengths are whole millimetres, speeds whole millimetres per hour, angles
whole microdegrees, positions whole nanodegrees and times whole nanoseconds,
so every comparison and sum the library makes is exact.

## Layout

- `src/` — the verified library: units and time, deviation tables (lookup,
  update, periodic linear interpolation, spacing and steepness), GNSS intake,
  anchor watch, under-keel clearance, composite sailing, guidance decisions,
  man-overboard datum, the estimator's bookkeeping (timing, history, sensor
  health), traffic tracking and collision assessment, the avoidance search,
  the Signal K picture and watch levels, and the WMM coefficient layout.
  Spherical and relative-motion geometry is taken as input: the library
  reasons over its results.
- `tests/` — tests of the library.
- `app/` — what runs in floating point or speaks JSON: the spherical
  construction of sailings and composite tracks, the relative-motion plots
  and avoidance searches, the estimator's Kalman filter, the World Magnetic
  Model synthesis, the cubic, shape-preserving and five-coefficient
  deviation methods, the Signal K watch over JSON deltas, and serialised
  forms of the library's types. Each calls the library for what it decides.
