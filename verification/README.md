# X-Control

Remote desktop screen sharing and control: a Windows agent streams JPEG
screen captures through a WebSocket relay to a browser viewer, and replays
the viewer's mouse and keyboard input. Agent and viewer meet in a room named
by a five-letter PIN (letters A to H).

## Layout

- `src/` is the verified library (Verus):
  - `relay.rs`: the relay's room table. A PIN names at most one room; a
    registration takes a free PIN, a join enters an existing room, input goes
    to the room's agent, frames go to its viewers, and rooms end with their
    agent. The laws of the table are proof functions at the end of the file.
  - `agent.rs`: PIN generation, the registration handshake, the input steps
    for a viewer's message, and the status line.
  - `input.rs`: `SendInput` records and the key-name table.
  - `frame.rs`: BGRA screen pixels to a quality-70 RGB JPEG (through `image`).
  - `window.rs`: what the agent window does with each message, centering,
    UTF-16 text for Win32.
- `app/` is the program around it: the Win32 window and capture, the tokio
  WebSocket client of the agent, and the axum relay (`xcontrol relay`). The
  relay serves the viewer page from `web/index.html`.
- `tests/` exercises the library on concrete values.
