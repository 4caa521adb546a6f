# mcs

Multi Cast Streamer: a service that receives stereo call audio from a media
server over a datagram socket and streams it to any number of gRPC subscribers,
each in combined or split mode, reporting start, stop and subscriber events back
to the media server over its event socket.

- `src/` is the verified library: the datagram format, the request and response
  payloads, the per-call-leg channel map, the decisions of the HTTP API and of
  each subscriber stream (routing, response handling, retry back-off), the event
  socket login, the settings, and the recording subscriber's bookkeeping.
- `app/` is the executable around it: HTTP and gRPC servers, sockets, files,
  the SQLite table of streams, metrics and logging. Run it with the argument
  `recorder` to start the recording subscriber instead.
- `tests/` exercises the library on concrete values.
