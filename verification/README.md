# steam_controller_x

An XInput adapter for the new Steam Controller: it reads the controller's
raw USB HID reports, maps them through a button profile and presents the
result as a virtual Xbox 360 gamepad (uinput on Linux, ViGEmBus on
Windows), with an optional local web UI for live monitoring, remapping and
profiles.

## Layout

- `src/` is the verified library, written in Verus. Every function there
  carries a contract that Verus proves:
  - `report`, `protocol`, `buttons`: the HID input and telemetry report
    layout and its decoder.
  - `config`: the physical-control-to-XInput button mapping, the default
    profile and the stick Y convention, with the mapping's laws as proof
    functions.
  - `xinput`: the virtual pad's state and the evdev events that present it.
  - `hid`: device filtering, interface probing decisions and rumble output
    reports.
  - `cli`, `input_devices`, `profiles`, `text`: command-line id parsing,
    report dump and replay lines, `/proc/bus/input/devices` parsing, and
    profile file naming and listing.
- `tests/` runs the library on concrete inputs.
- `app/` is the program around the library: argument handling, HID and
  file I/O, the uinput/ViGEm backends, input grabbing, the axum web UI, and
  the floating-point deadzone and response-curve shaping.
