# shadownetwork2d

Networking for 2D games: messages and their wire format, rate limiting, rooms
with host migration, anti-cheat, lag compensation, NAT traversal and metrics.

The library in `src/` decides everything and does no input or output. It is
written in Verus: contracts say what its functions return and change, and Verus
proves them. Sockets, tasks and channels live in `app/`, which hands in what arrived
and performs what it is told.

## Layout

| Module | What it holds |
| --- | --- |
| `message`, `payload`, `ids`, `text`, `filters`, `error`, `event`, `config`, `addr`, `time` | the types and small facts that everything else rests on |
| `wire`, `gzip`, `codec` | messages as bytes, and bytes as messages |
| `validator`, `rate_limit`, `anti_cheat` | which messages are let through |
| `lag` | past states of travelers |
| `connection`, `room`, `room_table`, `host`, `host_laws` | the host's side |
| `traveler` | the traveler's side |
| `manager`, `nat_traversal`, `metrics` | what stands around them |

Functions that read a clock or draw a random identifier have a twin, mostly
ending in `_at` or `_as`, that takes the time or the identifier as an argument. The
twin's contract is exact; the other says that a time which its clock reads, or an
identifier which was drawn, was used.

## What is taken on trust

`bincode`, `bytes`, `dashmap`, `flate2`, `uuid` and the clocks of std are called
through small functions marked `external_body`, or declared with
`assume_specification`. The comment above each says what is claimed of it.
Everything else is proved.

## Compression

`Message::serialize_with`, `Message::deserialize_with` and the constructors named
`new_with` take whether compression is available. Where it is, a message that is
marked for compression leaves as a gzip stream, and a stream that unpacks to such a
message is read as that message. Sender and receiver have to agree: a message that
is marked and not packed, or packed and not marked, is refused.
