# arinc429_sniffer

Decoding and analysis of ARINC 429 avionics bus captures, with the decoding
logic verified by Verus.

- `src/` is the verified library:
  - `protocol/`: the 32-bit word (fields, label bit order, odd parity,
    assembling words), SSM and payload formats, and the label dictionary.
  - `decode/`: BNR field extraction (two's complement), BCD digit
    extraction and named discrete flags.
  - `io/`: reading binary and hex-text dumps, writing them, the decoding
    pipeline's routing and statistics, dictionary queries, and the compact
    and bitwise text rows.
  - `timing/`: timestamps, the clock, the ring buffer, interval windows
    for jitter statistics, and the steps of precise waiting.
  - `replay/`: word framing for output ports, injection steps and counts,
    port plans and replay tallies.
- `app/` is the `a429-sniff` command-line tool around the library: argument
  handling, files, the terminal, floating-point scaling of BNR and BCD
  values, jitter statistics and bus output.
- `tests/` exercises the library.
