//! The editing logic of a 2D skeletal-animation editor: the document model,
//! and what each editing operation does to it, with its contract.
pub mod model;
pub mod seqs;
pub mod text;
pub mod mesh;
pub mod undo;
pub mod hierarchy;
pub mod state;
pub mod keyframes;
pub mod clipboard;
pub mod arrange;
pub mod events;
pub mod deletion;
pub mod dispatch;
pub mod recording;
pub mod document_events;
pub mod new_bones;
pub mod mesh_events;
