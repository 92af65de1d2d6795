//! A small notes helper: substring search over note files and the
//! date-keyed naming of the daily note.
pub mod date;
pub mod notes;
pub mod search;
pub mod text;

pub use date::{daily_note_name, CalendarDate};
pub use notes::{ensure_step, notes_root, open, run, Config, FsStep, RootOutcome, Task};
pub use search::{matching_lines, search, NoteFile};
