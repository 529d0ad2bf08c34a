//! A positional list of saved working directories: the engine that lists,
//! saves, moves, deletes and selects entries by their 1-based position, the
//! line-oriented text form the list is kept in, and the confirmation texts.

pub mod engine;
pub mod error;
pub mod position;
pub mod prompt;
pub mod store;
pub mod text;

pub use engine::{
    check_dir, chdir_command, delete, get_invalid_pos_err, l, list, remove_entry, restore, save,
    select, Effect, Entry, CAPACITY, SHORT_LIST_LINES,
};
pub use error::{Error, Warn};
pub use position::{id_to_pos, pos_to_id, resolve_position};
pub use text::{attach_nested, decimal_string, fmt_effect, fmt_id, fmt_path, fmt_row};
pub use store::{parse_lines, render_lines};
pub use prompt::{answer, Prompt};
