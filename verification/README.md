# tictactoe

The core of a multiplayer tic-tac-toe service, written in Verus and verified.

- `src/board.rs`: the board, the magic-square winner check and its proof that
  three numbers summing to 15 are exactly a row, column or diagonal.
- `src/room_manager.rs`: the rooms and clients the websocket server keeps in
  memory, moves, and which clients each broadcast reaches.
- `src/handlers.rs`: what each websocket request does to the rooms, answers
  and broadcasts, and what it asks the database to store.
- `src/routes.rs`: the decisions of the HTTP routes (capacity, membership,
  symbols of a new game, pagination through page-hunter).
- `src/auth.rs`, `src/clock.rs`: token claims and expiry, through chrono.
- `src/db.rs`: room codes (through rand) and the values of new records.
- `src/types/`: the records shared by all of these.

`app/` holds the two servers (actix-web), the PostgreSQL store (sqlx), JSON
encoding (serde) and token signing (jsonwebtoken); it runs the library's
decisions and performs what they ask for.
