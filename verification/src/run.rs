use vstd::prelude::*;
use vstd::string::*;

use crate::error::BackupError;
use crate::schedule::AppState;
use crate::strutil::{split_on_char, split_seq, views_of};

verus! {

/// One line of the session log: the timestamp in brackets, then the message.
pub open spec fn log_line(stamp: Seq<char>, msg: Seq<char>) -> Seq<char> {
    "["@ + stamp + "] "@ + msg
}

/// The log entry that opens a run.
pub open spec fn started_message(source: Seq<char>) -> Seq<char> {
    "backup started: "@ + source
}

/// The log entry that closes a run.
pub open spec fn completed_message(source: Seq<char>) -> Seq<char> {
    "backup completed: "@ + source
}

/// The name of the dated archive file: the destination path, an
/// underscore, the hour-truncated timestamp, and the zip suffix.
pub open spec fn archive_name_spec(dest: Seq<char>, stamp: Seq<char>) -> Seq<char> {
    dest + "_"@ + stamp + ".zip"@
}

/// Builds the archive file name for a destination and a timestamp.
pub fn archive_name(dest: &str, stamp: &str) -> (r: String)
    ensures
        r@ == archive_name_spec(dest@, stamp@),
{
    let mut out: String = dest.to_owned();
    out.append("_");
    out.append(stamp);
    out.append(".zip");
    out
}

/// Relies on chrono's `Local::now` and its `%Y-%m-%d %H:%M:%S` formatting:
/// a clock reading rendered to second precision. Of a clock reading, no
/// more than "some nonempty text" is promised.
#[verifier::external_body]
fn now_log_stamp() -> (r: String)
    ensures
        r@.len() > 0,
{
    chrono::Local::now().format("%Y-%m-%d %H:%M:%S").to_string()
}

/// Relies on chrono's `Local::now` and the `Display` rendering of
/// `DateTime<Local>`: always nonempty text.
#[verifier::external_body]
fn now_local_string() -> (r: String)
    ensures
        r@.len() > 0,
{
    chrono::Local::now().to_string()
}

/// Appends one log entry built from the given timestamp text: everything
/// else in the state stays as it was.
pub fn append_log(app_state: &mut AppState, stamp: &str, s_msg: &str)
    ensures
        final(app_state).list_schedule@ == old(app_state).list_schedule@,
        final(app_state).n_sel_index == old(app_state).n_sel_index,
        final(app_state).logs@.len() == old(app_state).logs@.len() + 1,
        final(app_state).logs@.take(old(app_state).logs@.len() as int) == old(app_state).logs@,
        final(app_state).logs@.last()@ == log_line(stamp@, s_msg@),
{
    let mut line = String::from_str("[");
    line.append(stamp);
    line.append("] ");
    line.append(s_msg);
    app_state.logs.push(line);
    proof {
        assert(final(app_state).logs@.take(old(app_state).logs@.len() as int) =~= old(app_state).logs@);
    }
}

/// Appends one log entry stamped with the current local time: everything
/// else in the state stays as it was.
pub fn save_log(app_state: &mut AppState, s_msg: &str)
    ensures
        final(app_state).list_schedule@ == old(app_state).list_schedule@,
        final(app_state).n_sel_index == old(app_state).n_sel_index,
        final(app_state).logs@.len() == old(app_state).logs@.len() + 1,
        final(app_state).logs@.take(old(app_state).logs@.len() as int) == old(app_state).logs@,
        exists|stamp: Seq<char>|
            final(app_state).logs@.last()@ == log_line(stamp, s_msg@) && stamp.len() > 0,
{
    let stamp = now_log_stamp();
    let ghost sv = stamp@;
    append_log(app_state, stamp.as_str(), s_msg);
    proof {
        assert(final(app_state).logs@.last()@ == log_line(sv, s_msg@) && sv.len() > 0);
    }
}

/// Everything one run needs from its schedule record: the two paths, the
/// space-split skip lists, and the archive flag.
pub struct RunPlan {
    pub source: String,
    pub dest: String,
    pub skip_files: Vec<String>,
    pub skip_folders: Vec<String>,
    pub use_zip: bool,
}

/// Opens a run of the schedule at `schedule_index`: appends the started
/// log entry and hands back the run's plan. An out-of-range index fails
/// with the invalid-index error and changes nothing; records and the
/// last-run marker are never touched here, so a run that fails after this
/// step leaves exactly one dangling started entry behind.
pub fn begin_run(app_state: &mut AppState, schedule_index: usize) -> (r: Result<
    RunPlan,
    BackupError,
>)
    ensures
        schedule_index >= old(app_state).list_schedule@.len() ==> {
            &&& r matches Err(BackupError::InvalidScheduleIndex)
            &&& final(app_state).list_schedule@ == old(app_state).list_schedule@
            &&& final(app_state).n_sel_index == old(app_state).n_sel_index
            &&& final(app_state).logs@ == old(app_state).logs@
        },
        schedule_index < old(app_state).list_schedule@.len() ==> {
            let sv = old(app_state).list_schedule@[schedule_index as int]@;
            &&& r matches Ok(plan) && plan.source@ == sv.source && plan.dest@ == sv.dest
                && views_of(plan.skip_files@) == split_seq(sv.skip_file, ' ') && views_of(
                plan.skip_folders@,
            ) == split_seq(sv.skip_folder, ' ') && plan.use_zip == sv.use_zip
            &&& final(app_state).list_schedule@ == old(app_state).list_schedule@
            &&& final(app_state).n_sel_index == old(app_state).n_sel_index
            &&& final(app_state).logs@.len() == old(app_state).logs@.len() + 1
            &&& final(app_state).logs@.take(old(app_state).logs@.len() as int) == old(app_state).logs@
            &&& exists|stamp: Seq<char>|
                final(app_state).logs@.last()@ == log_line(stamp, started_message(sv.source))
                    && stamp.len() > 0
        },
{
    if schedule_index >= app_state.list_schedule.len() {
        return Err(BackupError::InvalidScheduleIndex);
    }
    let source = app_state.list_schedule[schedule_index].s_dir_source.clone();
    let dest = app_state.list_schedule[schedule_index].s_dir_dest.clone();
    let skip_file_text = app_state.list_schedule[schedule_index].s_skip_file.clone();
    let skip_folder_text = app_state.list_schedule[schedule_index].s_skip_folder.clone();
    let use_zip = app_state.list_schedule[schedule_index].b_use_zip;
    let ghost src_seq = old(app_state).list_schedule@[schedule_index as int]@.source;
    let mut msg = String::from_str("backup started: ");
    msg.append(source.as_str());
    save_log(app_state, msg.as_str());
    proof {
        assert(msg@ == started_message(src_seq));
        let stamp = choose|stamp: Seq<char>|
            app_state.logs@.last()@ == log_line(stamp, msg@) && stamp.len() > 0;
        assert(app_state.logs@.last()@ == log_line(stamp, started_message(src_seq))
            && stamp.len() > 0);
    }
    let skip_files = split_on_char(skip_file_text.as_str(), ' ');
    let skip_folders = split_on_char(skip_folder_text.as_str(), ' ');
    Ok(RunPlan { source, dest, skip_files, skip_folders, use_zip })
}

/// Closes a run that copied (and, if asked, archived) successfully:
/// appends the completed log entry and stamps the record's last-run marker
/// with the current local time. An out-of-range index fails with the
/// invalid-index error and changes nothing. A run whose copy step failed
/// must not reach this function.
pub fn finish_run(app_state: &mut AppState, schedule_index: usize) -> (r: Result<
    (),
    BackupError,
>)
    ensures
        schedule_index >= old(app_state).list_schedule@.len() ==> {
            &&& r matches Err(BackupError::InvalidScheduleIndex)
            &&& final(app_state).list_schedule@ == old(app_state).list_schedule@
            &&& final(app_state).n_sel_index == old(app_state).n_sel_index
            &&& final(app_state).logs@ == old(app_state).logs@
        },
        schedule_index < old(app_state).list_schedule@.len() ==> {
            let sv = old(app_state).list_schedule@[schedule_index as int]@;
            let nv = final(app_state).list_schedule@[schedule_index as int]@;
            &&& r matches Ok(_)
            &&& final(app_state).n_sel_index == old(app_state).n_sel_index
            &&& final(app_state).logs@.len() == old(app_state).logs@.len() + 1
            &&& final(app_state).logs@.take(old(app_state).logs@.len() as int) == old(app_state).logs@
            &&& exists|stamp: Seq<char>|
                final(app_state).logs@.last()@ == log_line(stamp, completed_message(sv.source))
                    && stamp.len() > 0
            &&& final(app_state).list_schedule@.len() == old(app_state).list_schedule@.len()
            &&& forall|j: int|
                0 <= j < old(app_state).list_schedule@.len() && j != schedule_index ==> final(app_state).list_schedule@[j] == old(app_state).list_schedule@[j]
            &&& nv.source == sv.source && nv.dest == sv.dest && nv.period == sv.period
                && nv.skip_file == sv.skip_file && nv.skip_folder == sv.skip_folder && nv.use_zip
                == sv.use_zip
            &&& nv.last_time.len() > 0
        },
{
    if schedule_index >= app_state.list_schedule.len() {
        return Err(BackupError::InvalidScheduleIndex);
    }
    let ghost src_seq = old(app_state).list_schedule@[schedule_index as int]@.source;
    let source = app_state.list_schedule[schedule_index].s_dir_source.clone();
    let mut msg = String::from_str("backup completed: ");
    msg.append(source.as_str());
    save_log(app_state, msg.as_str());
    proof {
        assert(msg@ == completed_message(src_seq));
        let stamp = choose|stamp: Seq<char>|
            app_state.logs@.last()@ == log_line(stamp, msg@) && stamp.len() > 0;
        assert(app_state.logs@.last()@ == log_line(stamp, completed_message(src_seq))
            && stamp.len() > 0);
    }
    let time_stamp = now_local_string();
    let mut record = app_state.list_schedule.remove(schedule_index);
    record.dt_last_time = time_stamp;
    let ghost mid_logs = app_state.logs@;
    app_state.list_schedule.insert(schedule_index, record);
    proof {
        assert(app_state.list_schedule@ =~= old(app_state).list_schedule@.update(
            schedule_index as int,
            record,
        ));
        assert(app_state.logs@ == mid_logs);
    }
    Ok(())
}

} // verus!
