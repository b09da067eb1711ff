# av-scenechange

Scene change detection for video, as a verified library.

`src/` is the library. Every function in it is checked by Verus against its contract:

- `measure`, `score`, `timeline`, `frame_map`, `results`: measurements (the bit patterns of
  doubles, with their order), the record of a frame, sets of frames and maps by frame.
- `options`, `overrides`, `option_text`, `decimal`, `tuning`: options, their presets and how they are
  read from text.
- `picture`, `prefilter`, `blocks`, `masking`, `active`: samples, signatures, block
  differences, masks and bars.
- `similarity`, `detector`: the analysis of one frame after another, up to a verdict.
- `cursor`, `serial`, `parallel`: the way through a video, alone or by several workers
  whose parts are put together.
- `postprocess`: the corrections once all frames are known.

Measurements are compared in the library and computed outside it: quotients, means and
thresholds are floating-point arithmetic and come in as values of type `Measure`.

`app/` is ordinary Rust around the library: decoders, threads, floating-point formulas,
serialization. How the costs of a pair of frames are estimated is left to an implementation
of `CostEstimator`.

`tests/` runs the library.
