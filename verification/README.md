# qedl

A Qualcomm EDL (9008) toolkit: the Sahara handshake, the Firehose XML
command engine, GPT parsing, rawprogram and patch files, Android sparse
images, device selection, and the jobs built on them (dump, write, erase,
flash, info, GPT listing, verify, raw XML).

The library in `src/` is written in Verus. Every function states what it
computes in its contract, over plain mathematical models (sequences of
bytes and characters, integers, options), and Verus proves the code
against it. Device I/O is not in the library: its functions decide what to
send, what an answer means, when an answer is complete and what a job does
next, and the program in `app/` performs the reads and writes.

Layout of `src/`:

- `base`: errors and error codes, events, device state machine, device and
  partition types, session, protocol identifiers, size and dump formatting.
- `text`, `num`, `wire`, `xml`: text building, number parsing, little-endian
  fields, and XML reading through quick-xml as plain tokens.
- `storage`: CRC-32, GPT headers, entries and tables, the partition map.
- `firehose`: commands and their XML, answers, the session state and the
  decisions of each exchange (framing of answers, read data, digests, peek).
- `sahara`: packets and the handshake as a state machine.
- `transport`: DIAG framing (CRC-16, HDLC), USB interface classification,
  port listing and device selection.
- `image`: sparse images, patch files, rawprogram task lists.
- `job`: job plans and results, the info summary, executor configuration.
- `cli`: command line types, device listing, hex parsing and dumps,
  rawprogram generation.

Properties that span functions are stated as proof functions next to the
code they are about (for example that every state of the device can be
left, that a transfer plan covers its range exactly, that a DIAG frame holds
no flag byte but its delimiters, that bytes after a Firehose answer are
kept).
