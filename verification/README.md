# synkmusic-rpc

Shows what is playing on SynkMusic as Discord Rich Presence. The program
listens on a local WebSocket for "now playing" messages from the player page
and mirrors them to Discord over its local IPC socket.

- `src/` is the verified library (Verus):
  - `text`: truncation of text to a byte limit on UTF-8 character boundaries,
    decimal rendering and the `minutes:seconds` play-time format;
  - `presence`: the messages, the Rich Presence activity built from an update,
    and the state machine that skips repeated updates and clears on request;
  - `frame`: the IPC frame format (opcode, little-endian length, JSON payload)
    and the checks made on Discord's replies;
  - `session`: when to connect to Discord, what happens to messages while
    it cannot be reached or after a failed send, and how a player
    connection's WebSocket frames are relayed;
  - `reconnect`: the doubling, capped pauses between connection attempts;
  - `paths`: the directories and socket paths searched for Discord's IPC
    socket, with path joining and comparison as `std::path` does them on Unix.
- `app/` is the program around it: argument parsing, the WebSocket server,
  the socket I/O, JSON (de)serialisation and the floating-point play times.
- `tests/` runs the library on concrete values.
