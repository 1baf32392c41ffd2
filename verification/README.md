# gigachat

A chat client for Twitch, Destiny.gg and YouTube live chat, with emote
support (Twitch, FFZ, BTTV, 7TV, animated and zero-width emotes), combos,
mentions, an emote and user selector, and split-screen chat panels.

The client's logic is a library verified with Verus; a small program around
it does the networking and file access.

## Layout

- `src/` — the verified library. Every function carries a `requires` /
  `ensures` contract that Verus proves.
  - `state.rs`, `loading.rs`, `menus.rs`: the client's state and what each
    chat event, emote-loader answer and menu action does to it.
  - `twitch.rs`, `dgg.rs`, `youtube.rs`, `reconnect.rs`: the chat protocols,
    as steps from a session's state and an event to the next state and the
    messages to send.
  - `messages.rs`, `combo.rs`, `render.rs`, `panel.rs`, `tabs.rs`: what a
    message shows (emotes, badges, mentions, links, combos) and what a chat
    panel and the tab row show.
  - `composer.rs`, `selector.rs`, `history.rs`: the message box, the
    emote/user selector, sent-line recall and the user history popup.
  - `emote_json.rs`, `json.rs`, `css.rs`, `images.rs`, `emotes.rs`,
    `animation.rs`: reading emote lists, the Destiny.gg stylesheet's sprite
    animations, image cache names and formats, and animation frames.
  - `text.rs`, `numbers.rs`, `color.rs`, `ordering.rs`, `name_map.rs`: text,
    number and colour helpers, the name order, and the map of names the state
    is kept in.
  - `laws.rs`: properties that relate several of the above.
  Calls into outside crates (`regex`, `chrono`, `hex`, `sha256`, `base64`,
  `urlencoding`, `rand`, `backoff`) go through small trusted wrappers whose
  doc comments say what their contracts claim.
- `tests/` — tests of the library on concrete values.
- `app/` — a window-less client: downloads, sockets, the IRC connection, the
  YouTube bridge server and standard input, handing plain values to the
  library.
