# SafClip controller

A terminal tool that marks segments of the video playing in an MPRIS media
player, snaps them to keyframes and exports them losslessly with ffmpeg.

- `src/` is the controller as a Verus-verified library. Times are integer
  nanoseconds. It holds the segment model, the timeline (zoom, pan, pixel and
  time conversion), key and mouse bindings, the controller's state machine
  (`AppState::apply_action` and the `on_*` methods, which return the effects
  the program must carry out), keyframe snapping, ffmpeg argument lists and
  output names, progress parsing, probe-result handling and session
  validation. `src/laws.rs` states properties that span operations (undo and
  redo, ordering of added segments, session restore, automatic saving, snapped
  bounds). The timeline never zooms past the point where a view of
  `u16::MAX` columns spans fewer than that many nanoseconds, and
  `src/timeline.rs` proves that a column's time maps back to that column on
  every such view of a media at least as many nanoseconds long as the view
  is wide. Where an answer comes from the disk (whether a file exists), a
  verified function takes the answers as arguments and decides.
- `app/` is the program around it: the terminal loop and drawing (crossterm,
  ratatui), MPRIS players, running ffprobe and ffmpeg, and reading and writing
  session files (serde_json).
- `tests/` exercises the library on concrete values.
