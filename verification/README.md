# wavis-backend

The rules of a voice-chat backend, verified with Verus: who may join,
invite, ban and recover an account, how tokens are issued and rotated, how often
anyone may ask for anything, and what becomes of a bug report.

## Layout

- `src/` is the library. Its functions have contracts that Verus proves, but for
  the wrappers described below.
  - `abuse/`: sliding windows, join limits, temporary bans, connection counts
    and counters of refused requests.
  - `auth/`: phrases, tokens, devices, pairing, tickets for the socket, alpha
    invites, and the answers of the authentication routes.
  - `channel/`: roles, memberships, bans and invites of channels, and the
    answers of the channel routes.
  - `chat/`: the history of a room.
  - `diagnostics/`: bug reports, the prompts for the language model, what is
    read out of its replies, and the operator's views.
  - `app_state`, `config_validation`: the settings that the service starts with.
  - `table`, `text`, `time`, `calendar`, `ids`, `net`, `json`, `members`,
    `crypto`, `jwt_token`, `http`: what the rest is built on.
- `tests/` runs the library on concrete values.
- `app/` is the program around it: the database, the HTTP server, the clients of
  outside services and the command line.

## How it is built

A function that needs the database does not call it. It is a small state
machine instead: a value says what is to be done next, the program does it, and
a function of the library takes the outcome and gives the next value. The
monotonic clock is read outside too, and a reading is an argument. The system
clock is read within only where tokens are signed and validated; beside each
function that signs a media or an access token stands one that takes the clock's
answer as an argument. So it is with chance: what is made of numbers or bytes
that were drawn is made by a function that takes them as an argument.

Calls into other crates (HMAC, AES-GCM, Argon2, JSON Web Tokens, LiveKit tokens,
Base64, hex, JSON, UUIDs, timestamps, random numbers) stand behind small
wrappers whose contracts are believed, not proved. Each says in its comment what
it claims of the function that it calls. Where a result is too long to state it
has a name, such as `hmac_sha256`, and the contracts above speak of that name.

Properties that span several functions are proof functions whose names begin
with `law_`.
