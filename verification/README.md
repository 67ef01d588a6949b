# sp_playback

The playback core of a player that sends YouTube playlists to NDI outputs on a
shared wall-clock grid, written in Verus.

`src/` holds the decisions, each with a contract that Verus proves:

- the grid (`genlock`, `pacer_sink`) and the handoff of stamped frames to a
  submit thread (`submit_handoff`, `pacing_stats`);
- the program bus, which forwards one source's frames and fills what is missing
  (`program_bus`, `program_output`, `program_laws`);
- the preview: scaled pictures (`preview`), letterboxed video and wall-clocked
  audio (`letterbox`, `audio_align`, `preview_stream`, `preview_audio_hold`), and
  the encoder child (`encoder_args`, `preview_encoder`);
- a playlist's pipeline (`state`, `pipeline`, `pipeline_paced`, `pipeline_audio`,
  `pipeline_heartbeat`, `pipeline_types`), the engine above the pipelines
  (`engine`) and the senders at startup (`startup_senders`);
- the memory gauge (`proc_mem`) and text helpers (`text`).

Nothing in `src/` reads a clock, waits, or starts a thread: every function takes
the time and what came back from the outside as arguments. Fractional values
(audio samples, gauges) are carried through type parameters.

The proof functions named `law_..` state what holds across functions.

`app/` runs the loops: threads, sockets, the encoder process, the database and
the platform. `tests/` runs the library on concrete values.
