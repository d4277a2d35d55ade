# huidu

A verified client library for Huidu full-colour LED controller cards: the
SDK 2.0 binary framing and XML command layer, the HD2020 Gen6 realtime
protocol, and the `Screen → Program → Area → Item` content builder.

- `src/` is the library, written in Verus. Everything in it is I/O-free and
  carries contracts: framing (`codec`, `frame`, `sdk_frame`, `file`), the SDK
  XML envelope and message bodies (`sdk`), HD2020 framing, bitmaps and font
  (`hd2020`), the screen builder (`screen`), and the decisions of the client
  (`probe`, `device`, `transport`, `upload`, `config`, `digest`).
- `app/` is the async client around it: the TCP connection and its codec
  adapter, round-trips under a lock with poison-on-cancel, the heartbeat
  task, the typed commands and the streamed file upload.
- `tests/` exercises the library through its public API.

Writing and reading XML is done by `quick_xml`. The library names what
`quick_xml`'s reader finds in a document, states the few facts of its
behaviour the proofs rest on (a document written as well-formed elements
reads back as those elements; unescaping undoes escaping), and proves for
each info body that the bytes of an encoded reply decode to the value that
was encoded.
