# OpenBSE

The control, geometry and accounting of a building energy simulation, written in Verus: every
function of the library states what it computes, and Verus proves it.

- `src/` is the library. All quantities have a type that implements `scalar::Scalar`, so the
  formulas hold for each number type that a caller brings; `fixed::Fixed` is one that is proved.
  - `shading`, `geometry`: sunlit fractions, diffuse sky ratios, overhangs and fins.
  - `gshp`: the ground-source heat pump.
  - `control`, `signals`, `vav`, `dual_duct`: control of the air loops.
  - `air_side`, `loop_step`, `loop_results`, `chain`: a timestep of an air loop.
  - `plant`, `plant_order`: plant loops and the order in which they run.
  - `model`, `setup`, `sizing`, `energy`, `services`, `coupling`, `zone_report`: a whole run.
  - `shading_laws`, `clip_laws`, `plane_laws`, `frame_laws`, `device_laws`, `sky_laws`,
    `supply_laws`, `series_laws`, `gshp_laws`, `control_laws`: what holds of several functions
    together. A law that needs no arithmetic
    holds for every number type; some hold for every type that is `scalar::Ordered` or
    `scalar::Monotone`; the others are proved for `fixed::Fixed` only, with its rounding where
    that shows.
- `tests/` runs the library on double-precision and fixed-point numbers.
- `app/` is the command-line program around the library: files, logging, and the components that
  are simulated by other crates of the engine.
