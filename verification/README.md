# android_hid_connect

Control of an Android device over HID and control messages, written and proved in
Verus.

- `src/` is the verified library.
  - `types`, `frames`, `gamepad`, `command`, `single`: what an agent can say to a
    device.
  - `message`, `wire`, `transport`, `clock`, `coalesce`: control messages and the
    writer that gathers them.
  - `client`, `batch`, `gamepad_batch`, `gestures`, `plan`: queueing commands,
    filling batches, gestures and what a plan of actions costs.
  - `dispatch`: which session calls a command makes, and how errors come back.
  - `ai`, `device`, `latest`: frame summaries, messages from the device and the
    newest frame.
  - `agent`, `geometry`: points, rectangles and targets on a screen.
- `tests/` runs the library.
- `app/` is ordinary Rust around it: Tokio and blocking readers, the dispatcher
  thread, wrappers that flush when dropped and floating-point coordinates.

Floating-point values travel through the library as single-precision bit
patterns, which `==` compares as numbers. Times are nanoseconds. The writer's
contracts speak of a ghost record of what its transport and its clock were asked
and what they answered.
