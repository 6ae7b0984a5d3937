# rft

RFT ("robust file transfer") moves files over UDP: a server cuts a file into
blocks of up to fifty 1270-byte data packets, announces the size of the next
block in a metadata packet, and adapts its flow window to acknowledgments
(slow start, additive growth, halving after loss, repair mode after heavy
loss); a client reassembles each block, reports missing packets, and checks
the file's SHA-256 hash at the end.

Layout:

- `src/` — the library, verified with Verus:
  - `wire.rs`: big-endian encodings, reading integers with byteorder,
    decoding text from received bytes;
  - `packets.rs`: the six packet kinds, their layout on the wire, codecs and
    classifiers; `packet_laws.rs`: round trips and classification of
    serialized packets;
  - `text.rs`: trimming, decimal numbers, parsing ports;
  - `utils.rs`: host names, file hashes, cutting blocks into packets, the
    state record of a partial download, choosing a local address;
  - `server.rs`: connection state and the server's decisions;
    `client.rs`: the client's decisions; `transfer_laws.rs`: how the packets
    of a block tile it and are put back by the client;
  - `cmdline.rs`: reading the command line.
- `app/` — the `rft` program: sockets, files, logging, and the loss
  simulation, which draws on float probabilities.
- `tests/` — tests of the library.
