# chat_core

The core of a chat server, verified with Verus.

`src/` holds the logic that decides: who a request or a websocket frame
comes from, which handler an action names, what a private or group message
turns into (the notification for its receiver, the record for the database
worker), the rows the workers write and the batching windows they write
them in, the per-group framing and fan-out of group messages, the group
membership table, and the account checks (Argon2 hashing at sign-up,
verification and token at sign-in).

`app/` is the server around it: the axum routes and websocket loop, the
Postgres queries, the worker tasks, and the clock and randomness that the
library takes as inputs.

`tests/` exercise the library on concrete values.
