# claude_vault

A searchable archive of conversations in a SQLite database with a full-text index, kept in
a local file or in a replica of a libSQL sync server.

The library in `src/` holds every decision of the archive, with its contracts proved by
Verus. It talks to no database: an operation is a task that asks for one thing at a time
and is resumed with the reply.

| Module | What it holds |
|--------|---------------|
| `text` | splitting, joining, searching, trimming, decimal notation |
| `project` | how a project directory is named, and how a filter finds it |
| `fts` | how a user's words become a full-text query; the row limit |
| `filter` | queries with conditions, and the numbering of their parameters |
| `task` | requests, replies, steps, and what it means to run a task |
| `error` | why an operation fails and what the user is told |
| `store` | storing sessions and messages, counting and deleting them |
| `messages` | searching messages and reading those of a session |
| `sessions` | resolving prefixes, recent sessions, listings with previews |
| `vault` | opening a vault, its schema and its migration, syncing |
| `report` | the integrity check and its report |
| `tables` | a model of the database: what the statements do to the tables |
| `laws` | what holds of the operations and the tables together |

The functions whose names start with `law_` state what holds of the archive as a whole.
Those in `laws` hold of every database that answers as `tables` says; that a given database
does is not proved.

`app/` runs the tasks on libSQL. `tests/` runs them on a real database and on replies
written by hand.
