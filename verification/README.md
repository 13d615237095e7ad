# legendado_server

The server of a subtitle sharing service. Users sign in with a PIN sent to
their e-mail, upload subtitles, download them and give feedback.

- `src/` is the verified library (Verus): PIN generation, the PIN request
  and sign-in protocols as state machines over the database's answers,
  bearer token extraction, feedback names, and the assembly of the
  subtitle list. Each module states its contracts over views; the laws
  that span several steps are the `lemma_*` proof functions.
- `app/` is the Rocket server around it: routes, the PostgreSQL
  connection, JSON and JWT encoding, and the environment. It performs the
  database requests the state machines ask for and hands back the answers.
- `tests/` exercises the library on concrete values.
