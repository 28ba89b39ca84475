# kafkalite

The back end of a small Kafka desktop client: saved connections, topic
browsing and administration, consume sessions that stream message previews,
record deletion and tombstones. The logic is a library verified with Verus;
the parts that talk to SQLite, the Kafka brokers and the runtime sit around it.

## Layout

- `src/` — the verified library.
  - `error` — the error kinds, their codes and messages, and the result
    envelope every command answers with.
  - `text`, `text_map`, `ids` — text helpers with their specifications, a
    map keyed by text, and fresh identifiers.
  - `security::credential` — the password store keyed by credential reference.
  - `storage` — the stored form of a connection and how it reads back.
  - `kafka::config_builder` — connection profiles, the bootstrap server list
    and the client settings a profile turns into.
  - `kafka::connection_manager` — the open connections and the active one,
    and how client errors are classified.
  - `kafka::admin_service` — topic listing and description, topic name
    rules, and the checks before creating or deleting topics and records.
  - `kafka::consumer_session` — session settings, start positions,
    partition choice, the receive loop's decisions and the session table.
  - `kafka::message_decoder` — bounded text, hexadecimal or base64 previews
    of record keys, values and headers.
  - `kafka::producer_service`, `commands` — tombstones, and the decisions of
    the connection, topic and message commands.
- `app/` — the SQLite store, the Kafka clients and network calls, the command
  entry points, and serialisable copies of the library's types.
- `tests/` — tests of the library on concrete values.

Laws that relate several operations are public proof functions named `law_*`.
