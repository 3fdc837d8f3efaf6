use vstd::prelude::*;

verus! {

/// Mathematical view of one schedule record: every text field as a
/// sequence of characters.
pub ghost struct ScheduleView {
    pub source: Seq<char>,
    pub dest: Seq<char>,
    pub period: Seq<char>,
    pub skip_file: Seq<char>,
    pub skip_folder: Seq<char>,
    pub use_zip: bool,
    pub last_time: Seq<char>,
}

/// One configured backup job: where to copy from and to, the scheduling
/// period token, the skip rules, the archive flag, and the last-run marker
/// (empty means "never run").
#[derive(Debug, Clone)]
pub struct Schedule {
    pub s_dir_source: String,
    pub s_dir_dest: String,
    pub s_period: String,
    pub s_skip_file: String,
    pub s_skip_folder: String,
    pub b_use_zip: bool,
    pub dt_last_time: String,
}

impl View for Schedule {
    type V = ScheduleView;

    open spec fn view(&self) -> ScheduleView {
        ScheduleView {
            source: self.s_dir_source@,
            dest: self.s_dir_dest@,
            period: self.s_period@,
            skip_file: self.s_skip_file@,
            skip_folder: self.s_skip_folder@,
            use_zip: self.b_use_zip,
            last_time: self.dt_last_time@,
        }
    }
}

impl Schedule {
    /// Builds a record that has never run: `dt_last_time` is empty.
    pub fn new(
        s_dir_source: String,
        s_dir_dest: String,
        s_period: String,
        s_skip_file: String,
        s_skip_folder: String,
        b_use_zip: bool,
    ) -> (r: Self)
        ensures
            r@.source == s_dir_source@,
            r@.dest == s_dir_dest@,
            r@.period == s_period@,
            r@.skip_file == s_skip_file@,
            r@.skip_folder == s_skip_folder@,
            r@.use_zip == b_use_zip,
            r@.last_time == Seq::<char>::empty(),
    {
        proof {
            reveal_strlit("");
            assert(""@ =~= Seq::<char>::empty());
        }
        Self {
            s_dir_source,
            s_dir_dest,
            s_period,
            s_skip_file,
            s_skip_folder,
            b_use_zip,
            dt_last_time: String::from_str(""),
        }
    }
}

/// The whole application state: the ordered schedule list, the selected
/// index of the front end (`-1` means no selection), and the session log.
#[derive(Debug)]
pub struct AppState {
    pub list_schedule: Vec<Schedule>,
    pub n_sel_index: i32,
    pub logs: Vec<String>,
}

impl AppState {
    /// An empty state: no schedules, nothing selected, no log entries.
    pub fn new() -> (r: Self)
        ensures
            r.list_schedule@ == Seq::<Schedule>::empty(),
            r.n_sel_index == -1int,
            r.logs@ == Seq::<String>::empty(),
    {
        Self { list_schedule: Vec::new(), n_sel_index: -1, logs: Vec::new() }
    }

    /// Appends a record at the end of the schedule list; nothing else moves.
    pub fn add_schedule(&mut self, schedule: Schedule)
        ensures
            final(self).list_schedule@ == old(self).list_schedule@.push(schedule),
            final(self).n_sel_index == old(self).n_sel_index,
            final(self).logs@ == old(self).logs@,
    {
        self.list_schedule.push(schedule);
    }
}

impl Default for AppState {
    /// Same as `AppState::new`.
    fn default() -> (r: Self)
        ensures
            r.list_schedule@ == Seq::<Schedule>::empty(),
            r.n_sel_index == -1int,
            r.logs@ == Seq::<String>::empty(),
    {
        AppState::new()
    }
}

/// The front end's working data: the application state plus the record the
/// user is currently entering. The drawing layer itself lives outside this
/// crate and holds a value of this type.
pub struct BackupApp {
    pub state: AppState,
    pub new_schedule: Schedule,
}

impl BackupApp {
    /// Wraps a loaded state together with a blank input record.
    pub fn new(state: AppState) -> (r: Self)
        ensures
            r.state.list_schedule@ == state.list_schedule@,
            r.state.n_sel_index == state.n_sel_index,
            r.state.logs@ == state.logs@,
            r.new_schedule@.source == Seq::<char>::empty(),
            r.new_schedule@.dest == Seq::<char>::empty(),
            r.new_schedule@.period == Seq::<char>::empty(),
            r.new_schedule@.skip_file == Seq::<char>::empty(),
            r.new_schedule@.skip_folder == Seq::<char>::empty(),
            r.new_schedule@.use_zip == false,
            r.new_schedule@.last_time == Seq::<char>::empty(),
    {
        proof {
            reveal_strlit("");
            assert(""@ =~= Seq::<char>::empty());
        }
        BackupApp {
            state,
            new_schedule: Schedule::new(
                String::from_str(""),
                String::from_str(""),
                String::from_str(""),
                String::from_str(""),
                String::from_str(""),
                false,
            ),
        }
    }
}

} // verus!
