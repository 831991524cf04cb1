# ooosplat

The decision logic of a Gaussian-splatting pipeline (video or images →
COLMAP → Brush → `final.ply`), verified with Verus.

`src/` is the verified library:

- `presets` – quality tiers, mapper choice and the global mapper's frame limit.
- `checkpoint` – pipeline stages, resumable checkpoints, the registration
  floor and the mapper fallback.
- `driver` – the run itself as a decision step: which stage runs next on a
  (resumed) checkpoint, what each finished stage records, and when a run or
  a resume is refused.
- `edit_mask` – the deletion-mask bitmap and its file format.
- `ply` – validation of the Gaussian PLY that Brush writes.
- `progress` – parsing of FFmpeg, COLMAP and Brush output into progress.
- `estimate` – calibration sample selection, confidence bands and basis texts.
- `reshoot` – reshoot plans and their PNG guidance images.
- `brush` – Brush's command line.
- `frames` – names of merged frames, masks and guidance images.
- `text` – the string functions the others are specified with.

`app/` holds what Verus does not see: file I/O, the loop that performs each
action of the decision step through a `PipelineWork` implementation, the
floating-point runtime model, and serialisable copies of the library's types.
`tests/` runs the library on concrete values.
