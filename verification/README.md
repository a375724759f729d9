# avacity

A server for the Avacity game client, with its logic verified by Verus.

- `src/` is the library. It holds the binary wire format (`encoder`,
  `decoder`, `framing`, `checksum`), the session decisions (`session`: how a
  buffer of frames is read, what each message asks for, how a login goes), the
  players online (`world`), the item catalogues read from the game's XML
  files (`parser`), inventories (`inventory`), and the game modules under
  `modules/`, each of which reads its commands and builds its replies.
  `laws` and `properties` state and prove what holds across functions:
  encoded messages decode to what was encoded, frames read back, rooms hold
  whoever entered them, player ids stay distinct, each room routes to its
  module, stores give back what was written, and no purchase
  spends money a player lacks.
- `app/` is the program around it: the TCP listener, one thread per
  connection, the redis store and the configuration files.
- `tests/` exercises the library on concrete values.
