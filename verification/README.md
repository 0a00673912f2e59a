# wakeupscrew

The logic of WakeUpScrew, a chat bot for LINE and for web chat rooms, as a
library verified with Verus, and the server around it.

- `src/line_api/keyword_switch.rs` — the keyword rules of the LINE bot (a topic
  closed by an ellipsis, an image name or address, a web address, a wake-up
  call), written as functions on characters with contracts, and the answers
  built once the reply search, image search or page fetch is done.
- `src/LineAPI/` — the first, text-only version of the rules and data.
- `src/google_image/` — the image search address (percent-encoding), the image
  link in a search page, and `ImageHunt`, the search / download / re-upload
  loop as a state machine, with the proof that it makes at most six searches.
- `src/terminator/` — chat-room messages and what a websocket session does with
  each frame.
- `src/fetch.rs`, `src/text.rs`, `src/random.rs` — page text, character
  classes, and the random pick among replies.
- `app/` — the actix-web server, HTTP requests, JSON and the reply-search
  engine (`vec2seq_rust`), driving the library.
