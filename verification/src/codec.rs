use vstd::prelude::*;
use vstd::string::*;

use crate::decimal::{all_digits, dec_rep, dec_val, is_dec_digit, lemma_dec_rep, parse_usize,
    u64_to_dec};
use crate::error::BackupError;
use crate::schedule::{AppState, Schedule, ScheduleView};
use crate::strutil::{join_seq, join_with, lemma_join_push, lemma_split_join, sep_free,
    split_on_char, split_seq, views_of};

verus! {

/// The boolean literal used in the persisted store.
pub open spec fn bool_rep(b: bool) -> Seq<char> {
    if b {
        "true"@
    } else {
        "false"@
    }
}

/// The six comma-separated fields of one persisted record, in order.
pub open spec fn record_fields(v: ScheduleView) -> Seq<Seq<char>> {
    seq![v.source, v.dest, v.period, v.skip_file, v.skip_folder, bool_rep(v.use_zip)]
}

/// One persisted record line.
pub open spec fn record_line(v: ScheduleView) -> Seq<char> {
    join_seq(record_fields(v), ',')
}

/// What one store line parses to: a record when it has at least six
/// comma-separated fields (extra fields are ignored), nothing otherwise.
/// The last-run marker is not persisted, so it comes back empty, and a
/// boolean field that is not the literal `true` falls back to `false`.
pub open spec fn record_of_line(line: Seq<char>) -> Option<ScheduleView> {
    let parts = split_seq(line, ',');
    if parts.len() >= 6 {
        Some(
            ScheduleView {
                source: parts[0],
                dest: parts[1],
                period: parts[2],
                skip_file: parts[3],
                skip_folder: parts[4],
                use_zip: parts[5] == "true"@,
                last_time: Seq::<char>::empty(),
            },
        )
    } else {
        None
    }
}

/// The lines of the persisted store: the fixed header, the record count in
/// decimal, then one line per record.
pub open spec fn store_lines(records: Seq<ScheduleView>) -> Seq<Seq<char>> {
    seq!["Count"@, dec_rep(records.len())] + records.map_values(|v: ScheduleView| record_line(v))
}

/// The full text of the persisted store; every line ends with a newline.
pub open spec fn store_text(records: Seq<ScheduleView>) -> Seq<char> {
    join_seq(store_lines(records), '\n') + seq!['\n']
}

/// The records recovered from store lines `k`, `k + 1`, ... (line `k + 2`
/// of the file onward), stopping after `count` records or at the end of the
/// file, whichever comes first; lines that parse to nothing are skipped.
pub open spec fn records_from(lines: Seq<Seq<char>>, k: int, count: int) -> Seq<ScheduleView>
    decreases count - k,
{
    if k < 0 || k >= count || k + 2 >= lines.len() {
        Seq::<ScheduleView>::empty()
    } else {
        match record_of_line(lines[k + 2]) {
            Some(v) => seq![v] + records_from(lines, k + 1, count),
            None => records_from(lines, k + 1, count),
        }
    }
}

/// The record views of a schedule list.
pub open spec fn record_views(list: Seq<Schedule>) -> Seq<ScheduleView> {
    list.map_values(|s: Schedule| s@)
}

/// True when a record can be persisted faithfully: no text field holds the
/// comma that separates fields or the newline that separates lines.
pub open spec fn record_persistable(v: ScheduleView) -> bool {
    &&& sep_free(v.source, ',') && sep_free(v.source, '\n')
    &&& sep_free(v.dest, ',') && sep_free(v.dest, '\n')
    &&& sep_free(v.period, ',') && sep_free(v.period, '\n')
    &&& sep_free(v.skip_file, ',') && sep_free(v.skip_file, '\n')
    &&& sep_free(v.skip_folder, ',') && sep_free(v.skip_folder, '\n')
}

/// What a record looks like after one save/load cycle: the same record,
/// except that the last-run marker is not persisted and so comes back empty.
pub open spec fn persisted_view(v: ScheduleView) -> ScheduleView {
    ScheduleView { last_time: Seq::<char>::empty(), ..v }
}

/// Joining parts that avoid a character, with a different separator, gives
/// text that still avoids that character.
proof fn lemma_join_avoids(parts: Seq<Seq<char>>, sep: char, other: char)
    requires
        sep != other,
        forall|k: int| 0 <= k < parts.len() ==> sep_free(#[trigger] parts[k], other),
    ensures
        sep_free(join_seq(parts, sep), other),
    decreases parts.len(),
{
    if parts.len() <= 1 {
    } else {
        lemma_join_avoids(parts.skip(1), sep, other);
        let j = join_seq(parts, sep);
        assert(j == parts[0] + seq![sep] + join_seq(parts.skip(1), sep));
        assert forall|k: int| 0 <= k < j.len() implies j[k] != other by {
            let h = parts[0].len() as int;
            if k < h {
                assert(j[k] == parts[0][k]);
            } else if k == h {
                assert(j[k] == sep);
            } else {
                assert(j[k] == join_seq(parts.skip(1), sep)[k - h - 1]);
            }
        }
    }
}

/// The boolean literals hold neither commas nor newlines, and differ.
proof fn lemma_bool_rep_facts(b: bool)
    ensures
        sep_free(bool_rep(b), ','),
        sep_free(bool_rep(b), '\n'),
        (bool_rep(b) == "true"@) == b,
{
    reveal_strlit("true");
    reveal_strlit("false");
    assert("true"@.len() == 4);
    assert("false"@.len() == 5);
}

/// One record survives the save/load cycle: its store line parses back to
/// the same record, with an empty last-run marker.
pub proof fn lemma_record_round_trip(v: ScheduleView)
    requires
        record_persistable(v),
    ensures
        record_of_line(record_line(v)) == Some(persisted_view(v)),
{
    lemma_bool_rep_facts(v.use_zip);
    lemma_split_join(record_fields(v), ',');
}

/// The round trip of the whole store: saving any persistable schedule list
/// and parsing the text back recovers the same records in the same order,
/// each with an empty last-run marker.
pub proof fn lemma_store_round_trip(records: Seq<ScheduleView>)
    requires
        records.len() <= usize::MAX,
        forall|k: int| 0 <= k < records.len() ==> record_persistable(#[trigger] records[k]),
    ensures
        ({
            let lines = split_seq(store_text(records), '\n');
            &&& lines.len() >= 2
            &&& lines[1].len() >= 1
            &&& all_digits(lines[1])
            &&& dec_val(lines[1]) == records.len()
            &&& records_from(lines, 0, records.len() as int) == records.map_values(
                |v: ScheduleView| persisted_view(v),
            )
        }),
{
    let ls = store_lines(records);
    let full = ls.push(Seq::<char>::empty());
    lemma_dec_rep(records.len());
    lemma_join_push(ls, Seq::<char>::empty(), '\n');
    assert(join_seq(full, '\n') == join_seq(ls, '\n') + seq!['\n'] + Seq::<char>::empty());
    assert(store_text(records) =~= join_seq(full, '\n'));
    reveal_strlit("Count");
    assert forall|k: int| 0 <= k < full.len() implies sep_free(#[trigger] full[k], '\n') by {
        if k == 0 {
            assert(full[0] == "Count"@);
            assert(forall|j: int| 0 <= j < "Count"@.len() ==> "Count"@[j] != '\n');
        } else if k == 1 {
            assert(full[1] == dec_rep(records.len()));
            assert(forall|j: int|
                0 <= j < dec_rep(records.len()).len() ==> is_dec_digit(
                    #[trigger] dec_rep(records.len())[j],
                ));
            assert('\n' as u32 == 10);
        } else if k < full.len() - 1 {
            let v = records[k - 2];
            assert(full[k] == record_line(v));
            lemma_bool_rep_facts(v.use_zip);
            lemma_join_avoids(record_fields(v), ',', '\n');
        }
    }
    lemma_split_join(full, '\n');
    let lines = split_seq(store_text(records), '\n');
    assert(lines == full);
    assert(lines[1] == dec_rep(records.len()));
    lemma_records_from_lines(records, lines, 0);
    assert(records_from(lines, 0, records.len() as int) =~= records.map_values(
        |v: ScheduleView| persisted_view(v),
    ));
}

/// The tail of the recovered record list, from position `k` on, matches the
/// tail of the stored one.
proof fn lemma_records_from_lines(records: Seq<ScheduleView>, lines: Seq<Seq<char>>, k: int)
    requires
        0 <= k <= records.len(),
        lines.len() == records.len() + 3,
        forall|j: int| 0 <= j < records.len() ==> record_persistable(#[trigger] records[j]),
        forall|j: int|
            0 <= j < records.len() ==> lines[j + 2] == record_line(#[trigger] records[j]),
    ensures
        records_from(lines, k, records.len() as int) =~= records.skip(k).map_values(
            |v: ScheduleView| persisted_view(v),
        ),
    decreases records.len() - k,
{
    if k == records.len() {
        assert(records.skip(k).map_values(|v: ScheduleView| persisted_view(v)) =~= Seq::<
            ScheduleView,
        >::empty());
    } else {
        lemma_record_round_trip(records[k]);
        lemma_records_from_lines(records, lines, k + 1);
        assert(records.skip(k).map_values(|v: ScheduleView| persisted_view(v)) =~= seq![
            persisted_view(records[k]),
        ] + records.skip(k + 1).map_values(|v: ScheduleView| persisted_view(v)));
    }
}

/// The boolean literal for `b`.
pub fn bool_string(b: bool) -> (r: String)
    ensures
        r@ == bool_rep(b),
{
    if b {
        String::from_str("true")
    } else {
        String::from_str("false")
    }
}

/// True exactly when `s` is the literal `true`; everything else falls back
/// to `false`, as the lenient store format asks.
pub fn parse_bool(s: &str) -> (r: bool)
    ensures
        r == (s@ == "true"@),
{
    let t = String::from_str("true");
    let own: String = s.to_owned();
    own == t
}

/// One record rendered as its store line.
pub fn serialize_record(s: &Schedule) -> (r: String)
    ensures
        r@ == record_line(s@),
{
    let mut fields: Vec<String> = Vec::new();
    fields.push(s.s_dir_source.clone());
    fields.push(s.s_dir_dest.clone());
    fields.push(s.s_period.clone());
    fields.push(s.s_skip_file.clone());
    fields.push(s.s_skip_folder.clone());
    fields.push(bool_string(s.b_use_zip));
    proof {
        reveal_strlit(",");
        assert(views_of(fields@) =~= record_fields(s@));
    }
    join_with(&fields, ",")
}

/// The whole schedule list rendered as the text of the persisted store.
pub fn serialize_state(state: &AppState) -> (r: String)
    ensures
        r@ == store_text(record_views(state.list_schedule@)),
{
    let mut lines: Vec<String> = Vec::new();
    lines.push(String::from_str("Count"));
    let n: u64 = state.list_schedule.len() as u64;
    lines.push(u64_to_dec(n));
    let mut k: usize = 0;
    while k < state.list_schedule.len()
        invariant
            0 <= k <= state.list_schedule.len(),
            n == state.list_schedule.len(),
            views_of(lines@) =~= seq!["Count"@, dec_rep(n as nat)] + record_views(
                state.list_schedule@.take(k as int),
            ).map_values(|v: ScheduleView| record_line(v)),
        decreases state.list_schedule.len() - k,
    {
        let line = serialize_record(&state.list_schedule[k]);
        proof {
            assert(record_views(state.list_schedule@.take(k as int + 1)).map_values(
                |v: ScheduleView| record_line(v),
            ) =~= record_views(state.list_schedule@.take(k as int)).map_values(
                |v: ScheduleView| record_line(v),
            ).push(record_line(state.list_schedule@[k as int]@)));
            assert(views_of(lines@.push(line)) =~= views_of(lines@).push(line@));
        }
        lines.push(line);
        k = k + 1;
    }
    proof {
        reveal_strlit("\n");
        assert(state.list_schedule@.take(state.list_schedule@.len() as int) =~= state
            .list_schedule@);
        assert(views_of(lines@) =~= store_lines(record_views(state.list_schedule@)));
    }
    let mut out = join_with(&lines, "\n");
    out.append("\n");
    proof {
        assert("\n"@ =~= seq!['\n']);
    }
    out
}

/// Parses the text of a persisted store.
///
/// Succeeds exactly when the text has a second line holding a decimal
/// record count that fits the machine; the result is then the fresh state
/// holding the records of the following `count` lines, with the documented
/// leniencies (short files stop early, lines with fewer than six fields are
/// skipped). Anything else is a parse error.
pub fn parse_state(text: &str) -> (r: Result<AppState, BackupError>)
    ensures
        ({
            let lines = split_seq(text@, '\n');
            match r {
                Ok(st) => {
                    &&& lines.len() >= 2
                    &&& lines[1].len() >= 1
                    &&& all_digits(lines[1])
                    &&& dec_val(lines[1]) <= usize::MAX
                    &&& record_views(st.list_schedule@) == records_from(lines, 0, dec_val(lines[1]))
                    &&& st.n_sel_index == -1int
                    &&& st.logs@ == Seq::<String>::empty()
                },
                Err(e) => {
                    &&& lines.len() < 2 || lines[1].len() == 0 || !all_digits(lines[1]) || dec_val(
                        lines[1],
                    ) > usize::MAX
                    &&& e matches BackupError::Parse(_)
                },
            }
        }),
{
    let lines = split_on_char(text, '\n');
    if lines.len() < 2 {
        return Err(BackupError::Parse(String::from_str("missing record count")));
    }
    let count = match parse_usize(lines[1].as_str()) {
        Some(c) => c,
        None => {
            return Err(BackupError::Parse(String::from_str("unreadable record count")));
        },
    };
    let mut st = AppState::new();
    let available: usize = lines.len() - 2;
    let limit: usize = if count < available {
        count
    } else {
        available
    };
    let ghost lv = split_seq(text@, '\n');
    let mut k: usize = 0;
    proof {
        assert(record_views(st.list_schedule@) =~= Seq::<ScheduleView>::empty());
    }
    while k < limit
        invariant
            0 <= k <= limit,
            limit <= count,
            limit + 2 <= lines.len(),
            limit == count || limit + 2 == lines.len(),
            lv == views_of(lines@),
            st.n_sel_index == -1int,
            st.logs@ == Seq::<String>::empty(),
            records_from(lv, 0, count as int) =~= record_views(st.list_schedule@) + records_from(
                lv,
                k as int,
                count as int,
            ),
        decreases limit - k,
    {
        let line = &lines[2 + k];
        let parts = split_on_char(line.as_str(), ',');
        if parts.len() >= 6 {
            let use_zip = parse_bool(parts[5].as_str());
            let sched = Schedule::new(
                parts[0].clone(),
                parts[1].clone(),
                parts[2].clone(),
                parts[3].clone(),
                parts[4].clone(),
                use_zip,
            );
            proof {
                assert(record_of_line(lv[k as int + 2]) == Some(sched@));
                assert(record_views(st.list_schedule@.push(sched)) =~= record_views(
                    st.list_schedule@,
                ).push(sched@));
                assert(record_views(st.list_schedule@).push(sched@) + records_from(
                    lv,
                    k as int + 1,
                    count as int,
                ) =~= record_views(st.list_schedule@) + (seq![sched@] + records_from(
                    lv,
                    k as int + 1,
                    count as int,
                )));
            }
            st.add_schedule(sched);
        } else {
            proof {
                assert(record_of_line(lv[k as int + 2]) is None);
            }
        }
        k = k + 1;
    }
    proof {
        assert(records_from(lv, limit as int, count as int) =~= Seq::<ScheduleView>::empty());
        assert(record_views(st.list_schedule@) + Seq::<ScheduleView>::empty() =~= record_views(
            st.list_schedule@,
        ));
    }
    Ok(st)
}

} // verus!
