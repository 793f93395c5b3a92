# reims_vgpu

The executor of a paravirtual GPU, as a verified library: what a guest's command
streams ask for, and what the device is asked to do about it.

`src/` holds the library. Two rails read the same streams.

The projection rail decodes a whole submission before anything runs:

- `exec_streams` chains the segments of a submission into encoders,
- `encoder_state` and `compute_state` hold what an open encoder was told,
- `sync_records`, `blit`, `compute`, `icb`, `attachments`, `bindings`, `draw`
  and `tile` resolve records against the answers of a `session`,
- `projection` and `stream_projection` put them together,
- `encoder_marks` and `manifest` read the result.

The stream rail runs records as they come:

- `submission` reads a packet, and `walk` goes over its segments,
- `stream_accum`, `render_records`, `stream_binds`, `stream_pass` and
  `stream_draws` gather a render stream, and `render_rail` routes to them,
- `compute_rail`, `blit_rail`, `residency` and `census` do the same for the rest,
- `finish` ends a stream: it says what to encode, and what each answer leads to,
- `clears`, `visibility` and `draw_request` are what it asks for,
- `refusals` names what is lost, and `sights` keeps what is reported once.

`fence_exec` keeps events and fences, `preflight` finds the shaders that are
still being translated, and `executor` is the port to a device.

What a guest's references stand for, what its memory holds and what the backend
answers are plain values in the library. A question that has no answer yet is
refused under its own name, so that it can be asked and the work taken up again.
`app/` asks, reads memory and does the work: `packet` reads a submission,
`project` drives the projection rail, `execute` and `device` the stream rail, and
`report` writes down what is lost.
