# Stargaze

A verified core for a low-latency desktop and game streaming client.

`src/` is the library. It holds what the client decides and computes: the wire
format and the control messages, reassembly and loss recovery, the receive
loop, input mapping and gamepad pass-through, HID and USB forwarding, the
launcher and its screens, configuration and the command line, statistics, and
the planning of decoding and rendering. Every function in it is proved against
its contract with Verus.

`app/` is the client around it: sockets, threads, files, FFmpeg, Opus, SDL and
OpenGL. It asks the library what to do and does it.

`tests/` runs the library on concrete values.

What the proofs rest on besides Verus and its standard library is small: the
encoding of single values by postcard, the dots of the font8x8 table, the
monotonic clock, the debug form of a message, and the end of a `String` being
pushed and popped. Each of these is declared where it is used, with what is
believed of it.
