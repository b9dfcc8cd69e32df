//! The cyclic slideshow schedule and its rendered document.
//!
//! Given an ordered list of filenames, the schedule is one static entry per
//! file; with two or more files each static entry is followed by an overlay
//! transition to the next file, the last wrapping back to the first. The
//! document is the start time, then the schedule's blocks in order, inside a
//! single `background` element.

use vstd::arithmetic::div_mod::lemma_mod_self_0;
use vstd::arithmetic::div_mod::lemma_small_mod;
use vstd::prelude::*;
use vstd::string::StringExecFns;

use crate::decimal::Decimal;
use crate::digits::i32_string;
use crate::digits::int_string;
use crate::digits::padded2;
use crate::digits::u32_padded2;

verus! {

/// The wall-clock start time of the slideshow, in local calendar and clock
/// fields.
#[derive(Clone, Copy, Debug, PartialEq, Eq, Structural)]
pub struct StartTime {
    /// Calendar year.
    pub year: i32,
    /// Calendar month, 1 through 12.
    pub month: u32,
    /// Day of the month, 1 through 31.
    pub day: u32,
    /// Hour of the day, 0 through 23.
    pub hour: u32,
    /// Minute, 0 through 59.
    pub minute: u32,
    /// Second, 0 through 59.
    pub second: u32,
}

impl StartTime {
    /// The calendar and clock fields lie in their usual ranges.
    pub open spec fn wf(&self) -> bool {
        &&& 1 <= self.month <= 12
        &&& 1 <= self.day <= 31
        &&& self.hour < 24
        &&& self.minute < 60
        &&& self.second < 60
    }
}

/// The render-ready context: start time, the two durations, and the ordered
/// filenames that define the cycle.
pub struct IndexContext {
    /// When the slideshow starts.
    pub starttime: StartTime,
    /// Seconds each file is shown.
    pub duration: Decimal,
    /// Seconds each transition takes.
    pub trans_duration: Decimal,
    /// The files of the cycle, in display order.
    pub filenames: Vec<String>,
}

impl IndexContext {
    /// Assembles the context, copying every field verbatim.
    pub fn new(
        starttime: StartTime,
        duration: Decimal,
        trans_duration: Decimal,
        filenames: Vec<String>,
    ) -> (c: IndexContext)
        ensures
            c.starttime == starttime,
            c.duration == duration,
            c.trans_duration == trans_duration,
            c.filenames == filenames,
    {
        IndexContext { starttime, duration, trans_duration, filenames }
    }
}

/// One entry of the schedule.
pub enum ScheduleEntry {
    /// Show one file for the static duration.
    Static { file: Seq<char> },
    /// Blend from one file to the next over the transition duration, in the
    /// overlay style.
    Transition { from: Seq<char>, to: Seq<char> },
}

/// The character sequences of the filenames, in order.
pub open spec fn file_views(files: Seq<String>) -> Seq<Seq<char>> {
    Seq::new(files.len(), |i: int| files[i]@)
}

/// The cyclic schedule of an ordered filename list: one static entry per
/// file and, with two or more files, a transition after each static entry to
/// the following file, the last wrapping around to the first.
pub open spec fn schedule_of(files: Seq<Seq<char>>) -> Seq<ScheduleEntry> {
    if files.len() < 2 {
        files.map(|i: int, f: Seq<char>| ScheduleEntry::Static { file: f })
    } else {
        Seq::new(
            2 * files.len(),
            |k: int|
                if k % 2 == 0 {
                    ScheduleEntry::Static { file: files[k / 2] }
                } else {
                    ScheduleEntry::Transition {
                        from: files[k / 2],
                        to: files[(k / 2 + 1) % (files.len() as int)],
                    }
                },
        )
    }
}

/// The text of a static block.
pub open spec fn static_block(dur: Seq<char>, file: Seq<char>) -> Seq<char> {
    "\n  <static>\n    <duration>"@ + dur + "</duration>\n    <file>"@ + file
        + "</file>\n  </static>\n"@
}

/// The text of an overlay transition block.
pub open spec fn transition_block(dur: Seq<char>, from: Seq<char>, to: Seq<char>) -> Seq<char> {
    "\n  <transition type=\"overlay\">\n    <duration>"@ + dur + "</duration>\n    <from>"@ + from
        + "</from>\n    <to>"@ + to + "</to>\n  </transition>\n"@
}

/// The text of one schedule entry, with the display and transition duration
/// strings it embeds.
pub open spec fn entry_text(e: ScheduleEntry, dur: Seq<char>, trans: Seq<char>) -> Seq<char> {
    match e {
        ScheduleEntry::Static { file } => static_block(dur, file),
        ScheduleEntry::Transition { from, to } => transition_block(trans, from, to),
    }
}

/// The concatenated text of a sequence of schedule entries, in order.
pub open spec fn entries_text(es: Seq<ScheduleEntry>, dur: Seq<char>, trans: Seq<char>) -> Seq<
    char,
>
    decreases es.len(),
{
    if es.len() == 0 {
        Seq::empty()
    } else {
        entries_text(es.drop_last(), dur, trans) + entry_text(es.last(), dur, trans)
    }
}

/// The text of the start-time element: the year unpadded, the other fields
/// zero-padded to two digits.
pub open spec fn header_text(t: StartTime) -> Seq<char> {
    "<background>\n  <starttime>\n    <year>"@ + int_string(t.year as int) + "</year>\n    <month>"@
        + padded2(t.month as int) + "</month>\n    <day>"@ + padded2(t.day as int)
        + "</day>\n    <hour>"@ + padded2(t.hour as int) + "</hour>\n    <minute>"@ + padded2(
        t.minute as int,
    ) + "</minute>\n    <second>"@ + padded2(t.second as int) + "</second>\n  </starttime>\n"@
}

/// The full rendered document of a context: the start-time element followed
/// by the schedule's blocks, both durations shown under the whole-value
/// formatting rule.
pub open spec fn document_text(c: IndexContext) -> Seq<char> {
    header_text(c.starttime) + entries_text(
        schedule_of(file_views(c.filenames@)),
        c.duration.spec_with_zero_text(),
        c.trans_duration.spec_with_zero_text(),
    ) + "</background>"@
}

/// Appending one entry's text extends the concatenation of the entries
/// before it.
proof fn lemma_entries_text_take(es: Seq<ScheduleEntry>, dur: Seq<char>, trans: Seq<char>, k: int)
    requires
        0 <= k < es.len(),
    ensures
        entries_text(es.take(k + 1), dur, trans) == entries_text(es.take(k), dur, trans)
            + entry_text(es[k], dur, trans),
{
    assert(es.take(k + 1).drop_last() =~= es.take(k));
    assert(es.take(k + 1).last() == es[k]);
}

fn push_static_block(out: &mut String, dur: &str, file: &str)
    ensures
        final (out)@ == old(out)@ + static_block(dur@, file@),
{
    out.append("\n  <static>\n    <duration>");
    out.append(dur);
    out.append("</duration>\n    <file>");
    out.append(file);
    out.append("</file>\n  </static>\n");
    proof {
        assert(out@ =~= old(out)@ + static_block(dur@, file@));
    }
}

fn push_transition_block(out: &mut String, dur: &str, from: &str, to: &str)
    ensures
        final (out)@ == old(out)@ + transition_block(dur@, from@, to@),
{
    out.append("\n  <transition type=\"overlay\">\n    <duration>");
    out.append(dur);
    out.append("</duration>\n    <from>");
    out.append(from);
    out.append("</from>\n    <to>");
    out.append(to);
    out.append("</to>\n  </transition>\n");
    proof {
        assert(out@ =~= old(out)@ + transition_block(dur@, from@, to@));
    }
}

fn push_header(out: &mut String, t: StartTime)
    ensures
        final (out)@ == old(out)@ + header_text(t),
{
    out.append("<background>\n  <starttime>\n    <year>");
    let year = i32_string(t.year);
    out.append(year.as_str());
    out.append("</year>\n    <month>");
    let month = u32_padded2(t.month);
    out.append(month.as_str());
    out.append("</month>\n    <day>");
    let day = u32_padded2(t.day);
    out.append(day.as_str());
    out.append("</day>\n    <hour>");
    let hour = u32_padded2(t.hour);
    out.append(hour.as_str());
    out.append("</hour>\n    <minute>");
    let minute = u32_padded2(t.minute);
    out.append(minute.as_str());
    out.append("</minute>\n    <second>");
    let second = u32_padded2(t.second);
    out.append(second.as_str());
    out.append("</second>\n  </starttime>\n");
    proof {
        assert(out@ =~= old(out)@ + header_text(t));
    }
}

/// Renders the context into the document text: the start-time element, then
/// for each file its static block and — when the cycle has at least two
/// files — the transition block to the next file, wrapping from the last
/// file back to the first.
pub fn render(context: IndexContext) -> (r: String)
    ensures
        r@ == document_text(context),
{
    let ghost files = file_views(context.filenames@);
    let ghost sched = schedule_of(files);
    let ghost d = context.duration.spec_with_zero_text();
    let ghost td = context.trans_duration.spec_with_zero_text();
    let mut out = String::new();
    push_header(&mut out, context.starttime);
    let dur = context.duration.to_text_with_zero();
    let trans = context.trans_duration.to_text_with_zero();
    let n = context.filenames.len();
    if n == 1 {
        push_static_block(&mut out, dur.as_str(), context.filenames[0].as_str());
        proof {
            assert(files[0] == context.filenames@[0]@);
            assert(sched.drop_last() =~= Seq::<ScheduleEntry>::empty());
            assert(sched.last() == ScheduleEntry::Static { file: files[0] });
            assert(entries_text(sched.drop_last(), d, td) =~= Seq::<char>::empty());
            assert(entries_text(sched, d, td) =~= static_block(d, files[0]));
            assert(out@ =~= header_text(context.starttime) + entries_text(sched, d, td));
        }
    } else if n >= 2 {
        let mut i: usize = 0;
        while i < n
            invariant
                n == context.filenames.len(),
                2 <= n,
                i <= n,
                files == file_views(context.filenames@),
                sched == schedule_of(files),
                files.len() == n,
                sched.len() == 2 * n,
                d == context.duration.spec_with_zero_text(),
                td == context.trans_duration.spec_with_zero_text(),
                dur@ == d,
                trans@ == td,
                out@ == header_text(context.starttime) + entries_text(
                    sched.take(2 * (i as int)),
                    d,
                    td,
                ),
            decreases n - i,
        {
            let next: usize = if i + 1 < n {
                i + 1
            } else {
                0
            };
            push_static_block(&mut out, dur.as_str(), context.filenames[i].as_str());
            proof {
                assert(sched[2 * (i as int)] == ScheduleEntry::Static { file: files[i as int] });
                lemma_entries_text_take(sched, d, td, 2 * (i as int));
                assert(out@ =~= header_text(context.starttime) + entries_text(
                    sched.take(2 * (i as int) + 1),
                    d,
                    td,
                ));
            }
            push_transition_block(
                &mut out,
                trans.as_str(),
                context.filenames[i].as_str(),
                context.filenames[next].as_str(),
            );
            proof {
                if i + 1 < n {
                    lemma_small_mod((i + 1) as nat, n as nat);
                } else {
                    lemma_mod_self_0(n as int);
                }
                assert((i as int + 1) % (n as int) == next as int);
                assert(sched[2 * (i as int) + 1] == ScheduleEntry::Transition {
                    from: files[i as int],
                    to: files[(i as int + 1) % (files.len() as int)],
                });
                lemma_entries_text_take(sched, d, td, 2 * (i as int) + 1);
                assert(out@ =~= header_text(context.starttime) + entries_text(
                    sched.take(2 * (i as int) + 2),
                    d,
                    td,
                ));
            }
            i += 1;
        }
        proof {
            assert(sched.take(2 * (n as int)) =~= sched);
        }
    } else {
        proof {
            assert(sched =~= Seq::<ScheduleEntry>::empty());
        }
    }
    out.append("</background>");
    proof {
        assert(out@ =~= document_text(context));
    }
    out
}

/// With a single file the schedule is exactly one static entry and no
/// transition entries.
pub proof fn lemma_schedule_single(files: Seq<Seq<char>>)
    requires
        files.len() == 1,
    ensures
        schedule_of(files) =~= seq![ScheduleEntry::Static { file: files[0] }],
{
}

/// With two files the schedule is the 2-cycle: static, transition to the
/// other file, static, and the transition back, with `from` and `to`
/// swapped relative to the first.
pub proof fn lemma_schedule_two(files: Seq<Seq<char>>)
    requires
        files.len() == 2,
    ensures
        schedule_of(files) =~= seq![
            ScheduleEntry::Static { file: files[0] },
            ScheduleEntry::Transition { from: files[0], to: files[1] },
            ScheduleEntry::Static { file: files[1] },
            ScheduleEntry::Transition { from: files[1], to: files[0] },
        ],
{
    assert(schedule_of(files).len() == 4);
    assert(schedule_of(files)[1] == ScheduleEntry::Transition { from: files[0], to: files[1] });
    assert(schedule_of(files)[3] == ScheduleEntry::Transition { from: files[1], to: files[0] });
}

/// With at least two files the schedule interleaves statics and
/// transitions: the entry pair of index `i` shows file `i` and then blends
/// into file `(i + 1) mod n`, closing the cycle at the end.
pub proof fn lemma_schedule_cyclic(files: Seq<Seq<char>>, i: int)
    requires
        files.len() >= 2,
        0 <= i < files.len(),
    ensures
        schedule_of(files).len() == 2 * files.len(),
        schedule_of(files)[2 * i] == (ScheduleEntry::Static { file: files[i] }),
        schedule_of(files)[2 * i + 1] == (ScheduleEntry::Transition {
            from: files[i],
            to: files[(i + 1) % (files.len() as int)],
        }),
{
}

/// With a single file the document is the start-time element, exactly one
/// static block, and no transition blocks.
pub proof fn lemma_document_single_file(c: IndexContext)
    requires
        c.filenames@.len() == 1,
    ensures
        document_text(c) == header_text(c.starttime) + static_block(
            c.duration.spec_with_zero_text(),
            c.filenames@[0]@,
        ) + "</background>"@,
{
    let files = file_views(c.filenames@);
    let sched = schedule_of(files);
    let d = c.duration.spec_with_zero_text();
    let td = c.trans_duration.spec_with_zero_text();
    lemma_schedule_single(files);
    assert(files[0] == c.filenames@[0]@);
    assert(sched.drop_last() =~= Seq::<ScheduleEntry>::empty());
    assert(entries_text(sched.drop_last(), d, td) =~= Seq::<char>::empty());
    assert(entries_text(sched, d, td) =~= static_block(d, files[0]));
}

/// With two files the document holds, in order, a static block for the
/// first file, a transition from the first to the second, a static block
/// for the second, and the transition back: a 2-cycle whose second
/// transition swaps `from` and `to` relative to the first.
pub proof fn lemma_document_two_files(c: IndexContext)
    requires
        c.filenames@.len() == 2,
    ensures
        document_text(c) == header_text(c.starttime) + static_block(
            c.duration.spec_with_zero_text(),
            c.filenames@[0]@,
        ) + transition_block(
            c.trans_duration.spec_with_zero_text(),
            c.filenames@[0]@,
            c.filenames@[1]@,
        ) + static_block(c.duration.spec_with_zero_text(), c.filenames@[1]@) + transition_block(
            c.trans_duration.spec_with_zero_text(),
            c.filenames@[1]@,
            c.filenames@[0]@,
        ) + "</background>"@,
{
    let files = file_views(c.filenames@);
    let sched = schedule_of(files);
    let d = c.duration.spec_with_zero_text();
    let td = c.trans_duration.spec_with_zero_text();
    lemma_schedule_two(files);
    assert(files[0] == c.filenames@[0]@);
    assert(files[1] == c.filenames@[1]@);
    assert(sched.take(0) =~= Seq::<ScheduleEntry>::empty());
    assert(entries_text(sched.take(0), d, td) =~= Seq::<char>::empty());
    lemma_entries_text_take(sched, d, td, 0);
    lemma_entries_text_take(sched, d, td, 1);
    lemma_entries_text_take(sched, d, td, 2);
    lemma_entries_text_take(sched, d, td, 3);
    assert(sched.take(4) =~= sched);
    assert(entries_text(sched, d, td) =~= static_block(d, files[0]) + transition_block(
        td,
        files[0],
        files[1],
    ) + static_block(d, files[1]) + transition_block(td, files[1], files[0]));
}

/// Rendering is deterministic: contexts with equal fields produce the same
/// document text, so rendering twice yields byte-identical output.
pub proof fn lemma_render_deterministic(a: IndexContext, b: IndexContext)
    requires
        a.starttime == b.starttime,
        a.duration == b.duration,
        a.trans_duration == b.trans_duration,
        a.filenames@ == b.filenames@,
    ensures
        document_text(a) == document_text(b),
{
    assert(file_views(a.filenames@) =~= file_views(b.filenames@));
}

} // verus!
