# boinc_app_api

Communication between a BOINC client and the applications it runs: eight
1 KiB message slots in shared memory, the XML bodies of the messages that
travel through them, and connections that queue outgoing messages until
their slot is free.

- `src/` is verified with Verus.
  - `shmem.rs`: a slot (`MSG_CHANNEL`) and the shared memory (`SHARED_MEM`),
    with pushing, peeking, popping and pulling the next message.
  - `models.rs`: channels and messages, their XML bodies (`to_xml`,
    `from_xml`, `from_raw`, `to_raw`).
  - `xml.rs`: reading the top-level elements of a body (through treexml) and
    looking values up among them.
  - `num.rs`: decimal reading and writing of `i64`.
  - `connection.rs`: messages waiting to be sent, and flushing them.
  - `laws.rs`: a message written into the shared memory is the one read back.
- `app/` holds what needs the operating system or an async runtime: the
  `AppChannel` trait with an in-process and a file-mapped memory, the
  `Stream`/`Sink` connections, and serde-ready copies of the message types
  (numbers the library carries as decimal text are `f64` there).
- `tests/` runs the library.
