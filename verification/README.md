# potato-hue

`potato-hue` pulses a Philips Hue light whenever Pot Potato is snatched, and can
turn the light into a live indicator of how hot the potato is.

The decisions of the service are a library that Verus verifies; the program
around it talks to the network, the clock and the state file.

| Where | What |
| --- | --- |
| `src/config.rs`, `src/units.rs`, `src/error.rs` | the settings, their units, and what can be wrong with them |
| `src/watch.rs` | the watch: queueing, saving and pulsing snatches |
| `src/pulse.rs` | a batch of pulses, from the first command to bringing the light back |
| `src/holder.rs`, `src/potato.rs` | holder mode and the state of the game |
| `src/light.rs`, `src/listing.rs` | the light, its commands, and the list of lights |
| `src/bridge.rs` | being let in by the bridge, and what its replies mean |
| `src/json.rs` | the model of JSON values, and the operations of `serde_json` that are trusted |
| `src/text.rs`, `src/command.rs` | text, and the commands of the program |
| `app/` | the program |
| `tests/` | the library on concrete values |

The opening of a watch, the watch, a batch and an update of holder mode are state
machines: each says what to do next, the program does it, and hands back how it
went.
