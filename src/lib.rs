//! A task store kept as plain text files in a folder tree: each task is a
//! file with a metadata header, its folder says whether it is new or
//! active, and lists are folders of pointer files.
pub mod text;
pub mod stamp;
pub mod record;
pub mod codec;
pub mod store;
pub mod task;
pub mod journal;
pub mod task_list;
pub mod laws;
pub mod reminder;
