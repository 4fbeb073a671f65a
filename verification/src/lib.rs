//! A checklist kept in a plain text file: one line per item, `- [ ] name` for an
//! open item and `- [X] name` for a completed one.
//!
//! The library holds everything that is decided or computed between reading the
//! file and writing it back: the line format in both directions, the command
//! words, the validation of item ids, the changes a command makes to the list,
//! the order in which failures are reported, and the lines shown to the user.
//! Items are addressed by their position in the list, counted from one.
//!
//! Reading and writing the file, the arguments of the program and what it
//! prints are left to the caller, who hands over lines and gets text back.

pub mod command;
pub mod edit;
pub mod error;
pub mod ids;
pub mod item;
pub mod line;
pub mod path;
pub mod render;
pub mod run;
pub mod store;

pub use command::{apply_command, resolve_command, Command};
pub use edit::{add_items, mark_items, remove_items};
pub use error::{CommandError, ParseIdsError, ParseTodosError};
pub use ids::{check_id, normalize_ids, parse_ids};
pub use item::{ItemView, TodoItem};
pub use line::{capture_line, format_line, item_from_captures, parse_line, LINE_PATTERN};
pub use path::{backing_file, DEFAULT_FILE};
pub use render::{decimal_text, render_line, render_todos};
pub use run::{run_command, Outcome, RunError};
pub use store::{parse_todos, serialize_todos};
