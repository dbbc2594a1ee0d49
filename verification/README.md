# toboggan_esp32

Presentation controller for the ESP32-S3-BOX-3B: it joins WiFi, fetches a talk from a
[Toboggan](https://github.com/ilaborie/toboggan) server, follows the presentation over a
WebSocket, and shows the slides on the LCD and the state on the RGB LED.

The crate is split in two:

- `src/` is the verified library (Verus). It holds the logic of the controller:
  - `state`: the application state, the diffs that move it, and the talk data;
  - `main_loop`: which diffs the main loop applies, when failing hardware leads to the
    error state, and which background service starts next;
  - `display_manager`: what the screen shows for each state, as drawing commands, and the
    hash check that redraws only on a change;
  - `text`: decimal numbers, splitting into words, greedy line wrapping to a width in
    UTF-8 bytes;
  - `led`: the LED pattern of each state and the blink override;
  - `websocket`: the server protocol, the event queue and the session state machine;
  - `api`, `host`, `wifi`, `services`, `touch`: the talk request and its errors, server
    host candidates and the order in which they are resolved, WiFi authentication, service outcomes and reconnection delays, and
    touch coordinates.
- `app/` is the firmware around it: ESP-IDF peripherals, WiFi, HTTP, WebSocket client,
  threads, JSON (serde) and drawing with `embedded-graphics`.

Verus proves every function in `src/` against its contract. Where the state manager or the WebSocket
event handler and session hand values to another thread or take them from one (the state channel, the event
queue), the call goes through a small trusted method that records, in a ghost log, what it handed over or
what came back; the contracts speak of that log, not of what the other side does. The free
`send_diff`, which only borrows a sender, keeps no such log and states nothing. The laws of
the library (for instance that applying a diff twice equals applying it once, that wrapped
lines fit their width, or are a single character wider than it, and keep every word of the
text in order, that a fallback host is used only when every host before it failed, or that a
registered client's refused command does not blank the screen) are proof functions next to
the code they speak of.
