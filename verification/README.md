# hypnos-audio

A Windows background utility that mutes the system when a headset goes away and
restores the saved mute state and volume when it comes back.

- `src/` is the verified library (Verus): the headset event loop as a state
  machine (`event_loop`), the snapshot store (`state`), the classification of
  endpoint changes (`bluetooth`), toast markup and escaping (`notifications`),
  the launch-on-startup registry decisions and data layout (`startup`), the
  update decisions (`updater`) and the tray menu commands (`tray`).
- `app/` is the program around it: COM audio and device notifications, the
  registry, toasts, the tray icon, the update manager, and the loop that performs
  the library's actions.
- `tests/` runs the library on concrete values.
