# nokhwa_bindings

The decision logic of the camera backends (Video4Linux, Media Foundation,
AVFoundation, GStreamer), written in Verus and proved against its contracts.

- `src/` is the verified library: format negotiation and ordering, control
  tables and conversions, packed-value decoding, hotplug snapshot diffing and
  the event channel model, and the state machines that decide what a device
  does next (GStreamer pipeline actions, the Video4Linux format change).
- `app/` is plain Rust around it: the Video4Linux device and hotplug worker,
  which perform the ioctls, inotify and thread work and ask the library for
  every decision.
- `tests/` runs the library on concrete values.
