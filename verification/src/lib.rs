//! A verified core for a directory-backup scheduler: the schedule data
//! model, the line-oriented persistence codec, the skip rules and the
//! modelled effect of the filtered tree copy, run bookkeeping with its
//! session log, and the elapsed-hours check. Filesystem walking, the
//! external compression tool and the front end live outside this crate
//! and drive these functions.

pub mod codec;
pub mod copier;
pub mod decimal;
pub mod error;
pub mod run;
pub mod schedule;
pub mod strutil;
pub mod time;

pub use codec::{lemma_record_round_trip, lemma_store_round_trip, parse_bool, parse_state,
    serialize_record, serialize_state};
pub use copier::{copy_decision, extension_of, file_skipped, folder_skipped, lemma_copy_idempotent,
    lemma_copy_missing_source, lemma_copy_preserves_rest, lemma_copy_takes_included,
    lemma_skip_file_excludes, lemma_skip_folder_excludes, EntryAction};
pub use error::BackupError;
pub use run::{append_log, archive_name, begin_run, finish_run, save_log, RunPlan};
pub use schedule::{AppState, BackupApp, Schedule, ScheduleView};
pub use strutil::{contains_string, join_with, split_on_char};
pub use time::hour_check;
