# wl-screenrec

Records the screen of a Wayland compositor into `out.mp4`, with hardware surfaces from the
compositor's copy to the encoder.

The logic is a library verified with Verus, under `src/`:

- `protocol`: which output is recorded, and the arguments of the compositor requests;
- `state`: the recorder as a machine that takes events and answers with actions;
- `laws`: what holds of every run of that machine (no surface is lost, surfaces come back in
  order, every packet is written once, the trailer comes last, ...);
- `setup`: the hardware contexts, the encoder and the filter graph of a recording.

`app/` is the program around it: it performs the actions through the Wayland client library and
FFmpeg, and reports what came of them.

The DRM format code comes from `drm-fourcc`, the crate behind `gbm::Format`, so that nothing has
to be linked to libgbm.
