# nsqueue

A client for the [NSQ](https://nsq.io) realtime message processing system,
written in Verus: the wire codec, the protocol commands and the client's
decisions are verified against their specifications.

- `src/` — the verified library.
  - `codec` decodes the frames that nsqd sends (responses, heartbeats, the
    stream of messages) and encodes requests; `decode_step` and
    `encode_request` state exactly what the two do, and the `lemma_*` proof
    functions state the codec's laws.
  - `protocol` and `commands` build the requests (`PUB`, `MPUB`, `DPUB`,
    `SUB`, `RDY`, `FIN`, `NOP`, `IDENTIFY`).
  - `config` holds the settings announced in `IDENTIFY`.
  - `consumer` decides the steps of a subscription, `producer` judges the
    answer to a publication.
  - `wire` holds big-endian integers and UTF-8 text; `buffer` the trusted
    contracts of the `bytes` crate's `BytesMut`.
- `app/` — the Tokio side: the `Decoder`/`Encoder` and `ClientProto` impls,
  connections and futures, JSON serialization of the settings.
- `tests/` — tests of the library on concrete inputs.
