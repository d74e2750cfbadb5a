# foc_rust

Firmware of an ST B-G431B-ESC1 motor controller: the part that decides,
verified with Verus, and the part that touches the hardware around it.

## The library (`src/`)

| Module | What it is |
|--------|------------|
| `ota` | the update machine: announces, takes blocks, checks the image, installs it; its checksum |
| `uds` | the diagnostic server: sessions, security, the services, queued work, its tables |
| `can` | the CANopen node: network management, heartbeat, object dictionary, SDO server, diagnostics through the object dictionary |
| `drivers`, `hal` | flash layout and flash operations, the transport adapter for diagnostics over CAN FD |
| `metadata`, `key_store`, `boot` | what is kept in flash: image metadata, key material, the boot confirmation |
| `shell`, `commands` | line editor, command parser, what the commands answer |
| `tasks` | when the inverter bridge is on |
| `bytes`, `bsp` | byte orders, board constants |

Nothing in the library waits or touches the hardware. A function that needs
the flash controller stops with a `FlashOp`; the caller carries it out and
hands the outcome to the matching `resume`.

Each stateful type has a model (`OtaModel`, `ServerModel`, `NodeModel`, ...),
and the contract of a function says which model it leads to. Proof functions
whose names begin with `law_` state what holds over several calls, such as:

- a download whose blocks all arrive is installed, a corrupted one is refused;
- no update is started, and no key replaced, without the session and the
  security level it needs;
- a refused request leaves the server as it was;
- saved key material and metadata are read back as they were written;
- a start with stored key material returns it and leaves the flash alone;
- once the key material is replaced, only keys derived from the new one unlock;
- a value comes out of the SDO server as it is, in one piece or in segments.

Three functions are trusted: `can::frame` makes frames with embassy-stm32's
`Frame::new_standard` and `FdFrame::new_standard`, and `shell::commands`
decodes a line with the standard library's `from_utf8`.

## The firmware (`app/`)

Clock tree, flash registers, timer, UART, CAN controller, the embassy tasks,
and everything in floating point: the ramp, the rotating voltage vector and
the modulation.

## Tests (`tests/`)

Plain tests of the library on concrete values.
