# print_manager

The data layer of a desktop manager for 3D-printing projects, verified with
Verus. Projects live in a SQLite database together with their files, tags and
sources.

- `src/models/`: the project, file, tag and source records.
- `src/repository/`: one repository per table. Each keeps a log of what it
  hands to SQLite and what it reads back, and the contract of each call
  states that log exactly (the SQL text of every statement, the arguments
  bound to it, in order) and gives the result as a function of what the
  recorded reads gave: the rows decoded by functions with exact contracts
  that follow `rusqlite`'s column conversions, or the first failure. What
  SQLite stores, and which rows it answers with, depend on the database and
  are not stated.
- `src/db.rs`: the calls into `rusqlite`, behind small trusted wrappers that
  promise nothing about what the database holds, and the verified helpers
  that prepare, bind (checking the parameter count first), run and read, and
  record each statement and each read in the log.
- `src/db_manager.rs`, `src/migration.rs`: opening the database, deciding
  which migration scripts to run, and running exactly those, each followed by
  the record of its version.
- `src/text.rs`: decimal formatting and parsing of integers.
- `src/pages/`: what the project page shows.
- `app/`: the iced application, the embedded migration scripts, and
  serializable copies of the models.
