# pimax_alvr

An ALVR client for Pimax headsets. The library in `src/` holds everything the client decides and
computes, written in Verus: each function states in its contract what it returns or changes, and
each contract is proved. The program in `app/` does the input and output around it: sockets,
threads, Java calls, the graphics context and the arithmetic on floating-point numbers.

| Modules | What they hold |
| --- | --- |
| `wire`, `text`, `scan`, `float`, `raster` | bytes, text, bit patterns of floating-point numbers, rows of pixels |
| `config`, `settings`, `protocol`, `discovery` | the client's settings, the server's session document, the discovery packet and who answered it |
| `framing`, `session`, `maintenance`, `recovery` | the control connection, the life of a stream session, what is sent over it, and how the video is recovered |
| `packets`, `stream`, `decoder`, `video`, `staging` | datagrams and their shards, the stream of video and sound, the decoder, frames on their way to the eyes |
| `tracking`, `views`, `controller`, `native`, `service` | where the head and the hands are, the fields of view, and what the controllers report |
| `audio`, `statistics`, `diagnostics` | sound in both directions, latencies, counts of what went wrong |
| `headset`, `frames`, `pattern`, `surface` | the headset's state, the loop that shows frames, the test picture, surfaces and contexts |
| `tune`, `page` | the settings that can be changed while the client runs, and the page to change them |

Times are nanoseconds that the caller passes in. Floating-point numbers are carried as their bits.
What holds of several functions together is stated in the public proof functions whose names begin
with `law_`.

Calls into other crates and into parts of the standard library without a specification stand in
small functions marked `external_body`. The comment above each says what is taken on trust.
