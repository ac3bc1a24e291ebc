# raw_sniffer

A packet sniffer's decoding and filtering, verified with Verus. The library
turns a raw Ethernet frame into the one-line summary that the sniffer prints
(MAC addresses, IPv4 addresses and ports, address owners, protocol and TCP
flags, with terminal colors), or into nothing when the capture filters hide it.

- `src/text.rs`: decimal and hex rendering, prefix and substring tests, case folding.
- `src/color.rs`: the ANSI form of painted text and lines built of plain and painted pieces.
- `src/frame.rs`: the layout of Ethernet, IPv4 and TCP/UDP headers; MAC and address text; TCP flags.
- `src/filters.rs`: the filter set of a capture session and the matching of protocol, address and port filters.
- `src/parser.rs`: summaries with owners, colored addresses and UDP services under the include/exclude filters of a session (`Filters::summarize`).
- `src/capture.rs`: plainer summaries (no owners, no address colors) under one optional protocol, port and address filter.
- `app/`: the command line (all include/exclude options and `--no-mac`), the raw socket, promiscuous mode and the capture loop.
