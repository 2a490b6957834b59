# georuggine

The server side of a fleet-tracking service: vehicles log in over TCP, stream
their positions, chat with the operator, and ask for movement statistics; the
operator watches them on a terminal dashboard.

- `src/` is the verified library (Verus): the per-connection session logic
  (`session`), the users' status table (`user_status`) and how position reports
  move a user between moving and stopped (`tracking`), the time split of the
  statistics (`stats`), timestamps and periods (`time`), the dashboard's key
  handling and conversations (`dashboard`) and geometry (`layout`), the console
  queue (`console`), the line menu (`menu`), and password hashing with Argon2
  (`auth`).
- `app/` is the program around it: the TCP server, SQLite storage, JSON framing,
  the terminal drawing, floating-point distances, and the CPU logger.
- `tests/` exercises the library.
