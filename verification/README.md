# skelform_editor

The editing logic of a 2D skeletal-animation editor, verified with Verus:
selecting, copying, pasting, moving and deleting bones, undo and redo,
keyframe editing, styles and textures, and mesh bookkeeping.

## Layout

- `src/` — the verified library.
  - `model.rs` — bones, keyframes, animations, styles, the armature, the
    selection, the undo stacks and the copy buffer, each with a view.
    Floating-point quantities are carried as the bit patterns of their `f32`
    values; the logic moves them around but never computes with them.
  - `hierarchy.rs` — children, ancestors, and hierarchy order of bones.
  - `state.rs` — selecting bones, clearing the selection, modals.
  - `undo.rs` — undo and redo of saved states, chains included.
  - `clipboard.rs` — copying and pasting bones.
  - `arrange.rs` — moving and dropping bones in the hierarchy.
  - `deletion.rs` — deleting bones, triangles and vertices.
  - `keyframes.rs` — sorting, copying, pasting, moving and selecting keyframes.
  - `events.rs` — what the remaining editor events do to the document.
  - `dispatch.rs` — the editor's events: how many values each takes from
    the queue, what it saves for undo, and `apply_event`, which carries out
    each event with a contract stating the state it leaves.
  - `recording.rs` — editing one element of a bone: setting it, or recording
    it into an animation as keyframes.
  - `document_events.rs` — new documents, styles and animations, importing
    an armature, saving an edited bone, and the flags of the edit tools,
    the export and the animations.
  - `new_bones.rs` — a new bone under the selected one, and a new parent for
    the selected bones.
  - `mesh_events.rs` — keyframe curves, binding vertices, path binds and
    resetting a mesh.
  - `mesh.rs` — dropping unused vertices and blacklisted triangles.
  - `text.rs`, `seqs.rs` — small string and vector helpers.
- `app/` — the event queue that feeds the library (turning the interface's
  `f32` values into the library's numbers); the camera, settings and render
  options; the parts of events that need `f32` arithmetic, texture pixels or
  interface texts, each handing plain values to the library function that
  does the rest; and the geometry behind them: Delaunay triangulation and
  mesh tracing (`image`, `spade`).
- `tests/` — tests of the library on concrete documents.
