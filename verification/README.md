# ArcRelay protocol

The rules of the ArcRelay control protocol, written in Rust and proved with
Verus: what a desktop answers to a paired device, and what it refuses.

The library (`src/`) holds no sockets, files or tasks. Each function takes what was
read and gives back what is to be done, with a contract that says exactly what that
is. Time is passed in; the system clock is read only to date what is new and to
check the date of what arrives. `app/` is the ordinary Rust around it: it reads and writes streams,
runs the tasks of a session and calls the host.

## Modules

| Modules | What they hold |
| --- | --- |
| `product`, `peer`, `pairing` | products and installations, capabilities and grants, pairing |
| `features`, `session`, `connection_registry` | negotiation, the frames of a control session, connected devices |
| `access`, `queries`, `query_handler`, `snapshots`, `commands`, `command_cache`, `requests` | who may ask what, what the host is asked, how its state is shown, commands that are carried out once |
| `subscriptions`, `events` | subscriptions, numbered events, gaps |
| `input_session`, `input_stream` | leases for remote input and ordered frames of input |
| `blob_store`, `blob_stream`, `clipboard_upload` | content-addressed blobs, one-time tickets, uploads |
| `remote_files`, `remote_file_wire`, `remote_file_stream` | requests for remote files, their encoding, downloads and uploads |
| `replication`, `replication_wire`, `replication_service`, `reconciliation`, `reconciler`, `sync_record` | the clipboard on several devices |
| `domain`, `proto`, `proto_msg`, `host` | the host's own types, the types on the wire, and conversions |
| `error`, `status`, `text`, `keyed`, `float_bits` | errors, text and other basics |
| `outside` | calls into other crates, each with what is trusted of it |

## What is proved

Beside the contracts of the single functions, public proof functions state what
holds of the library as a whole. Some of them:

- queries, commands, subscriptions, input and clipboard streams need both the
  negotiated feature and the granted capability;
- a pairing grants nothing that was not requested;
- a ticket is good for one download, and a blob is what its digest says;
- a command is carried out once for each idempotency key;
- frames of input are taken in order and none twice, and what a lease held is let
  go at its end;
- a path never leaves the share that it begins in;
- what is encoded is read back as it was;
- an installation keeps its identity, which never serves another product;
- lost output of an action is told as a gap;
- two clipboards are reported to be in step only after a comparison in which
  neither could bring the other one anything.

What is trusted of other crates and of std stands in `src/outside.rs`: digests,
hashes, random numbers, identifiers, shared buffers, the system clock and two
operations on strings.
