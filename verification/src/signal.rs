//! A simulated source: the samples that a sensor without jitter shows
//! while it sends a frame, and the proof that a capture of those samples
//! gives the frame back.

use vstd::prelude::*;
use crate::capture::{
    lemma_run_stays_over, CapturePhase, CaptureRun, CaptureState, FrameError, LineSample,
};
use crate::pixel::{big_endian, lemma_join_split, split_bytes};

verus! {

/// The lines between frames: everything low.
pub open spec fn idle_sample() -> LineSample {
    LineSample { frame_sync: false, line_sync: false, pixel_clock: false, data: 0 }
}

/// The lines while frame-sync is pulsed.
pub open spec fn frame_sample() -> LineSample {
    LineSample { frame_sync: true, line_sync: false, pixel_clock: false, data: 0 }
}

/// The lines inside a row.
pub open spec fn row_sample(pixel_clock: bool, data: u8) -> LineSample {
    LineSample { frame_sync: false, line_sync: true, pixel_clock, data }
}

/// The pulse on frame-sync that announces a frame.
pub open spec fn frame_pulse() -> Seq<LineSample> {
    seq![idle_sample(), frame_sample(), idle_sample()]
}

/// The four samples of one pixel: the clock rises on the high byte, falls,
/// rises on the low byte, and falls. With the last fall line-sync drops
/// unless the row has `more` pixels.
pub open spec fn pixel_signal(code: u16, more: bool) -> Seq<LineSample> {
    seq![
        row_sample(true, split_bytes(code).0),
        row_sample(false, 0),
        row_sample(true, split_bytes(code).1),
        if more {
            row_sample(false, 0)
        } else {
            idle_sample()
        },
    ]
}

/// The samples of the first `count` pixels of a row.
pub open spec fn pixels_signal(codes: Seq<u16>, count: nat) -> Seq<LineSample>
    decreases count,
{
    if count == 0 {
        Seq::empty()
    } else {
        pixels_signal(codes, (count - 1) as nat) + pixel_signal(
            codes[count - 1],
            count < codes.len(),
        )
    }
}

/// The samples of one row: line-sync rises, and the pixels follow.
pub open spec fn row_signal(codes: Seq<u16>) -> Seq<LineSample> {
    seq![row_sample(false, 0)] + pixels_signal(codes, codes.len())
}

/// The samples of the first `count` rows of a frame.
pub open spec fn rows_signal(frame: Seq<Seq<u16>>, count: nat) -> Seq<LineSample>
    decreases count,
{
    if count == 0 {
        Seq::empty()
    } else {
        rows_signal(frame, (count - 1) as nat) + row_signal(frame[count - 1])
    }
}

/// The samples of a whole frame.
pub open spec fn frame_signal(frame: Seq<Seq<u16>>) -> Seq<LineSample> {
    frame_pulse() + rows_signal(frame, frame.len())
}

/// `count` samples that all show the same levels.
pub open spec fn held_sample(sample: LineSample, count: nat) -> Seq<LineSample> {
    Seq::new(count, |i: int| sample)
}

/// The samples of a source that is polled `hold` times as fast as its lines
/// change: every sample of `signals` is seen `hold` times in a row.
pub open spec fn oversampled(signals: Seq<LineSample>, hold: nat) -> Seq<LineSample>
    decreases signals.len(),
{
    if signals.len() == 0 {
        Seq::empty()
    } else {
        oversampled(signals.drop_last(), hold) + held_sample(signals.last(), hold)
    }
}

/// The samples of the rows `from..to` of a frame.
spec fn rows_between(frame: Seq<Seq<u16>>, from: nat, to: nat) -> Seq<LineSample>
    decreases to,
{
    if to <= from {
        Seq::empty()
    } else {
        rows_between(frame, from, (to - 1) as nat) + row_signal(frame[to - 1])
    }
}

/// Feeding two lists one after the other is feeding their concatenation.
pub proof fn lemma_feed_concat(run: CaptureRun, first: Seq<LineSample>, second: Seq<LineSample>)
    ensures
        run.feed(first + second) == run.feed(first).feed(second),
    decreases second.len(),
{
    if second.len() == 0 {
        assert(first + second =~= first);
    } else {
        assert((first + second).drop_last() =~= first + second.drop_last());
        lemma_feed_concat(run, first, second.drop_last());
    }
}

/// Oversampling two lists one after the other is oversampling their
/// concatenation, and polling once for every change is not oversampling.
pub proof fn lemma_oversampled_concat(first: Seq<LineSample>, second: Seq<LineSample>, hold: nat)
    ensures
        oversampled(first + second, hold) == oversampled(first, hold) + oversampled(second, hold),
        oversampled(first, 1) == first,
    decreases second.len(), first.len(),
{
    if second.len() == 0 {
        assert(first + second =~= first);
        assert(oversampled(first, hold) + Seq::<LineSample>::empty() =~= oversampled(first, hold));
    } else {
        assert((first + second).drop_last() =~= first + second.drop_last());
        lemma_oversampled_concat(first, second.drop_last(), hold);
        assert(oversampled(first, hold) + (oversampled(second.drop_last(), hold) + held_sample(
            second.last(),
            hold,
        )) =~= (oversampled(first, hold) + oversampled(second.drop_last(), hold)) + held_sample(
            second.last(),
            hold,
        ));
    }
    if first.len() > 0 {
        lemma_oversampled_concat(first.drop_last(), Seq::empty(), 1);
        assert(first.drop_last() + held_sample(first.last(), 1) =~= first);
    }
}

proof fn lemma_oversampled_one(sample: LineSample, hold: nat)
    ensures
        oversampled(seq![sample], hold) == held_sample(sample, hold),
{
    reveal_with_fuel(oversampled, 2);
    assert(seq![sample].drop_last() =~= Seq::<LineSample>::empty());
    assert(Seq::<LineSample>::empty() + held_sample(sample, hold) =~= held_sample(sample, hold));
}

proof fn lemma_oversampled_three(a: LineSample, b: LineSample, c: LineSample, hold: nat)
    ensures
        oversampled(seq![a, b, c], hold) == held_sample(a, hold) + held_sample(b, hold)
            + held_sample(c, hold),
{
    assert(seq![a, b, c] =~= seq![a] + seq![b] + seq![c]);
    lemma_oversampled_concat(seq![a] + seq![b], seq![c], hold);
    lemma_oversampled_concat(seq![a], seq![b], hold);
    lemma_oversampled_one(a, hold);
    lemma_oversampled_one(b, hold);
    lemma_oversampled_one(c, hold);
}

proof fn lemma_oversampled_four(
    a: LineSample,
    b: LineSample,
    c: LineSample,
    d: LineSample,
    hold: nat,
)
    ensures
        oversampled(seq![a, b, c, d], hold) == held_sample(a, hold) + held_sample(b, hold)
            + held_sample(c, hold) + held_sample(d, hold),
{
    assert(seq![a, b, c, d] =~= seq![a, b, c] + seq![d]);
    lemma_oversampled_concat(seq![a, b, c], seq![d], hold);
    lemma_oversampled_three(a, b, c, hold);
    lemma_oversampled_one(d, hold);
}

/// The run with the polls of the wait in progress set to `polls_left`.
spec fn with_polls(run: CaptureRun, polls_left: nat) -> CaptureRun {
    CaptureRun { machine: CaptureState { polls_left, ..run.machine }, ..run }
}

/// A sample that shows the awaited level, and not the level that is
/// awaited after it, may be seen again and again: the first sight moves
/// the capture on, and every other spends one poll of the next wait.
proof fn lemma_held(run: CaptureRun, sample: LineSample, hold: nat)
    requires
        run.machine.wf(),
        !run.over(),
        run.machine.polls_left >= 1,
        run.machine.awaited(sample),
        1 <= hold <= run.machine.limit,
        !run.sample(sample).over() ==> !run.sample(sample).machine.awaited(sample),
        !run.sample(sample).over() ==> run.sample(sample).machine.polls_left
            == run.machine.limit,
    ensures
        run.feed(held_sample(sample, hold)) == if run.sample(sample).over() {
            run.sample(sample)
        } else {
            with_polls(run.sample(sample), (run.machine.limit - (hold - 1)) as nat)
        },
    decreases hold,
{
    let samples = held_sample(sample, hold);
    assert(samples.drop_last() =~= held_sample(sample, (hold - 1) as nat));
    assert(samples.last() == sample);
    if hold == 1 {
        assert(samples.drop_last() =~= Seq::<LineSample>::empty());
    } else {
        lemma_held(run, sample, (hold - 1) as nat);
    }
}

/// The capture is well-formed, takes frames of as many rows as `frame` has,
/// can poll at least once, and has delivered the first `done` rows of
/// `frame`, which all have the declared width.
spec fn progressed(run: CaptureRun, frame: Seq<Seq<u16>>, done: int) -> bool {
    &&& run.machine.wf()
    &&& run.machine.limit >= 1
    &&& run.machine.rows == frame.len()
    &&& run.machine.polls_left >= 1
    &&& run.error is None
    &&& 0 <= done <= frame.len()
    &&& run.rows == frame.take(done)
    &&& forall|r: int| 0 <= r < done ==> (#[trigger] frame[r]).len() == run.machine.width
}

/// The capture waits for row `row` to begin.
spec fn before_row(run: CaptureRun, frame: Seq<Seq<u16>>, row: int) -> bool {
    &&& progressed(run, frame, row)
    &&& row < frame.len()
    &&& run.machine.phase == CapturePhase::WaitLineStart
    &&& run.machine.edges == 1
    &&& run.machine.row == row
}

/// The capture has clocked `count` pixels of row `row`, has kept those that
/// fit the declared width, and waits for the next.
spec fn inside_row(run: CaptureRun, frame: Seq<Seq<u16>>, row: int, count: int) -> bool {
    &&& progressed(run, frame, row)
    &&& row < frame.len()
    &&& run.machine.phase == CapturePhase::SampleHighByte
    &&& run.machine.edges == 1
    &&& run.machine.row == row
    &&& run.machine.count == count
    &&& 0 <= count < frame[row].len() <= u32::MAX
    &&& run.machine.buffer == frame[row].take(
        if count < run.machine.width {
            count
        } else {
            run.machine.width as int
        },
    )
}

/// The capture has delivered `row` and waits for what follows it: the next
/// row, or nothing after the last.
spec fn after_row(run: CaptureRun, frame: Seq<Seq<u16>>, row: int) -> bool {
    if row + 1 < frame.len() {
        before_row(run, frame, row + 1)
    } else {
        &&& progressed(run, frame, row + 1)
        &&& run.machine.phase == CapturePhase::EndOfFrame
    }
}

/// Row `row` has ended: it was delivered if it has the declared width, and
/// the frame was given up if it has not.
spec fn ended_row(run: CaptureRun, frame: Seq<Seq<u16>>, row: int) -> bool {
    if frame[row].len() == run.machine.width {
        after_row(run, frame, row)
    } else {
        &&& run.error == Some(
            FrameError::Desync { row: row as u32, pixels: frame[row].len() as u32 },
        )
        &&& run.rows == frame.take(row)
    }
}

/// Samples change nothing of a capture's geometry.
proof fn lemma_geometry_stays(run: CaptureRun, signals: Seq<LineSample>)
    ensures
        run.feed(signals).machine.width == run.machine.width,
        run.feed(signals).machine.rows == run.machine.rows,
        run.feed(signals).machine.limit == run.machine.limit,
    decreases signals.len(),
{
    if signals.len() > 0 {
        lemma_geometry_stays(run, signals.drop_last());
    }
}

proof fn lemma_frame_pulse(machine: CaptureState, frame: Seq<Seq<u16>>, hold: nat)
    requires
        machine.wf(),
        1 <= hold <= machine.limit,
        machine.rows == frame.len(),
    ensures
        before_row(CaptureRun::begin(machine).feed(oversampled(frame_pulse(), hold)), frame, 0),
{
    let run = CaptureRun::begin(machine);
    let low = held_sample(idle_sample(), hold);
    let high = held_sample(frame_sample(), hold);
    lemma_oversampled_three(idle_sample(), frame_sample(), idle_sample(), hold);
    lemma_feed_concat(run, low + high, low);
    lemma_feed_concat(run, low, high);
    lemma_held(run, idle_sample(), hold);
    let first = run.feed(low);
    assert(first.machine.edges == 1);
    lemma_held(first, frame_sample(), hold);
    let second = first.feed(high);
    assert(second.machine.edges == 2);
    lemma_held(second, idle_sample(), hold);
    let third = second.feed(low);
    assert(third.machine.phase == CapturePhase::WaitLineStart);
    assert(third.rows =~= frame.take(0));
}

proof fn lemma_pixel(run: CaptureRun, frame: Seq<Seq<u16>>, row: int, count: int, hold: nat)
    requires
        inside_row(run, frame, row, count),
        1 <= hold <= run.machine.limit,
    ensures
        ({
            let after = run.feed(
                oversampled(
                    pixel_signal(frame[row][count], count + 1 < frame[row].len()),
                    hold,
                ),
            );
            if count + 1 < frame[row].len() {
                inside_row(after, frame, row, count + 1)
            } else {
                ended_row(after, frame, row)
            }
        }),
{
    let codes = frame[row];
    let code = codes[count];
    let more = count + 1 < codes.len();
    let width = run.machine.width as int;
    let a = row_sample(true, split_bytes(code).0);
    let b = row_sample(false, 0);
    let c = row_sample(true, split_bytes(code).1);
    let d = if more {
        row_sample(false, 0)
    } else {
        idle_sample()
    };
    assert(pixel_signal(code, more) =~= seq![a, b, c, d]);
    lemma_oversampled_four(a, b, c, d, hold);
    let ha = held_sample(a, hold);
    let hb = held_sample(b, hold);
    let hc = held_sample(c, hold);
    let hd = held_sample(d, hold);
    lemma_feed_concat(run, ha + hb + hc, hd);
    lemma_feed_concat(run, ha + hb, hc);
    lemma_feed_concat(run, ha, hb);
    lemma_join_split(0, 0, code);
    lemma_held(run, a, hold);
    let first = run.feed(ha);
    assert(first.machine.phase == CapturePhase::SampleLowByte && first.machine.edges == 0);
    lemma_held(first, b, hold);
    let second = first.feed(hb);
    assert(second.machine.phase == CapturePhase::SampleLowByte && second.machine.edges == 1);
    lemma_held(second, c, hold);
    let third = second.feed(hc);
    assert(third.machine.phase == CapturePhase::EndOfLine);
    assert(third.machine.count == count + 1);
    if count < width {
        assert(third.machine.buffer =~= codes.take(count + 1));
    } else {
        assert(third.machine.buffer =~= codes.take(width));
    }
    lemma_held(third, d, hold);
    let fourth = third.feed(hd);
    if more {
        assert(inside_row(fourth, frame, row, count + 1));
    } else if codes.len() == width {
        assert(codes.take(count + 1) =~= codes);
        assert(fourth.rows =~= frame.take(row + 1));
        assert forall|r: int| 0 <= r < row + 1 implies (#[trigger] frame[r]).len()
            == fourth.machine.width by {}
    }
}

proof fn lemma_pixels(run: CaptureRun, frame: Seq<Seq<u16>>, row: int, count: nat, hold: nat)
    requires
        before_row(run, frame, row),
        count < frame[row].len() <= u32::MAX,
        1 <= hold <= run.machine.limit,
    ensures
        inside_row(
            run.feed(
                oversampled(seq![row_sample(false, 0)] + pixels_signal(frame[row], count), hold),
            ),
            frame,
            row,
            count as int,
        ),
    decreases count,
{
    let start = seq![row_sample(false, 0)];
    if count == 0 {
        assert(start + pixels_signal(frame[row], 0) =~= start);
        lemma_oversampled_one(row_sample(false, 0), hold);
        lemma_held(run, row_sample(false, 0), hold);
        let first = run.feed(held_sample(row_sample(false, 0), hold));
        assert(first.machine.buffer =~= frame[row].take(0));
    } else {
        let before = (count - 1) as nat;
        lemma_pixels(run, frame, row, before, hold);
        let earlier = start + pixels_signal(frame[row], before);
        let pixel = pixel_signal(frame[row][count - 1], count < frame[row].len());
        assert(start + pixels_signal(frame[row], count) =~= earlier + pixel);
        lemma_oversampled_concat(earlier, pixel, hold);
        lemma_feed_concat(run, oversampled(earlier, hold), oversampled(pixel, hold));
        lemma_geometry_stays(run, oversampled(earlier, hold));
        lemma_pixel(run.feed(oversampled(earlier, hold)), frame, row, before as int, hold);
    }
}

proof fn lemma_row(run: CaptureRun, frame: Seq<Seq<u16>>, row: int, hold: nat)
    requires
        before_row(run, frame, row),
        1 <= frame[row].len() <= u32::MAX,
        1 <= hold <= run.machine.limit,
    ensures
        ended_row(run.feed(oversampled(row_signal(frame[row]), hold)), frame, row),
{
    let codes = frame[row];
    let last = (codes.len() - 1) as nat;
    let start = seq![row_sample(false, 0)];
    lemma_pixels(run, frame, row, last, hold);
    let earlier = start + pixels_signal(codes, last);
    let pixel = pixel_signal(codes[last as int], false);
    assert(row_signal(codes) =~= earlier + pixel);
    lemma_oversampled_concat(earlier, pixel, hold);
    lemma_feed_concat(run, oversampled(earlier, hold), oversampled(pixel, hold));
    lemma_geometry_stays(run, oversampled(earlier, hold));
    lemma_pixel(run.feed(oversampled(earlier, hold)), frame, row, last as int, hold);
}

/// The capture of the first `count` rows of a frame, where all of them but
/// the last are known to have the declared width.
proof fn lemma_rows(machine: CaptureState, frame: Seq<Seq<u16>>, count: nat, hold: nat)
    requires
        machine.wf(),
        1 <= hold <= machine.limit,
        machine.rows == frame.len(),
        1 <= count <= frame.len(),
        forall|r: int| 0 <= r < count - 1 ==> (#[trigger] frame[r]).len() == machine.width,
        1 <= frame[count - 1].len() <= u32::MAX,
    ensures
        ended_row(
            CaptureRun::begin(machine).feed(
                oversampled(frame_pulse() + rows_signal(frame, count), hold),
            ),
            frame,
            count - 1,
        ),
        CaptureRun::begin(machine).feed(
            oversampled(frame_pulse() + rows_signal(frame, count), hold),
        ).machine.width == machine.width,
    decreases count,
{
    let run = CaptureRun::begin(machine);
    let before = (count - 1) as nat;
    let earlier = frame_pulse() + rows_signal(frame, before);
    let row = row_signal(frame[count - 1]);
    assert(frame_pulse() + rows_signal(frame, count) =~= earlier + row);
    lemma_oversampled_concat(earlier, row, hold);
    lemma_feed_concat(run, oversampled(earlier, hold), oversampled(row, hold));
    lemma_geometry_stays(run, oversampled(earlier, hold));
    lemma_geometry_stays(run, oversampled(earlier + row, hold));
    if count == 1 {
        assert(earlier =~= frame_pulse());
        lemma_frame_pulse(machine, frame, hold);
    } else {
        lemma_rows(machine, frame, before, hold);
    }
    lemma_row(run.feed(oversampled(earlier, hold)), frame, count - 1, hold);
}

/// The samples of a frame are those of its first rows followed by those of
/// the rest.
proof fn lemma_rows_split(frame: Seq<Seq<u16>>, from: nat, to: nat)
    requires
        from <= to,
    ensures
        rows_signal(frame, to) == rows_signal(frame, from) + rows_between(frame, from, to),
    decreases to,
{
    if from == to {
        assert(rows_signal(frame, from) + Seq::<LineSample>::empty() =~= rows_signal(frame, from));
    } else {
        lemma_rows_split(frame, from, (to - 1) as nat);
        assert(rows_signal(frame, to) =~= rows_signal(frame, from) + rows_between(
            frame,
            from,
            to,
        ));
    }
}

/// A capture gives a frame back from the samples of a source that is polled
/// faster than its lines change: every row, in order, with every pixel code
/// in its place. Every level may be seen as often as a wait allows polls.
pub proof fn lemma_oversampled_frame_is_captured(
    machine: CaptureState,
    frame: Seq<Seq<u16>>,
    hold: nat,
)
    requires
        machine.wf(),
        1 <= hold <= machine.limit,
        machine.rows == frame.len(),
        forall|r: int| 0 <= r < frame.len() ==> (#[trigger] frame[r]).len() == machine.width,
    ensures
        CaptureRun::begin(machine).feed(oversampled(frame_signal(frame), hold)).result() == Ok::<
            Seq<Seq<u16>>,
            FrameError,
        >(frame),
        CaptureRun::begin(machine).feed(oversampled(frame_signal(frame), hold)).rows == frame,
{
    lemma_rows(machine, frame, frame.len(), hold);
    assert(frame.take(frame.len() as int) =~= frame);
}

/// A capture of the samples of a frame gives the frame back: every row, in
/// order, with every pixel code in its place. This holds for every frame of
/// the capture's geometry and every poll limit of at least one.
pub proof fn lemma_frame_is_captured(machine: CaptureState, frame: Seq<Seq<u16>>)
    requires
        machine.wf(),
        machine.limit >= 1,
        machine.rows == frame.len(),
        forall|r: int| 0 <= r < frame.len() ==> (#[trigger] frame[r]).len() == machine.width,
    ensures
        CaptureRun::begin(machine).feed(frame_signal(frame)).result() == Ok::<
            Seq<Seq<u16>>,
            FrameError,
        >(frame),
        CaptureRun::begin(machine).feed(frame_signal(frame)).rows == frame,
{
    lemma_oversampled_frame_is_captured(machine, frame, 1);
    lemma_oversampled_concat(frame_signal(frame), Seq::empty(), 1);
}

/// A capture of the samples of a frame whose row `bad` is the first that
/// has not the declared width gives the frame up at the end of that row,
/// with the row's index and the number of pixels that it did have. The
/// rows before it were delivered; the rows after it are not looked at.
/// This holds at every rate of polling that the poll limit allows.
pub proof fn lemma_wrong_row_is_desync(
    machine: CaptureState,
    frame: Seq<Seq<u16>>,
    bad: int,
    hold: nat,
)
    requires
        machine.wf(),
        1 <= hold <= machine.limit,
        machine.rows == frame.len(),
        0 <= bad < frame.len(),
        forall|r: int| 0 <= r < bad ==> (#[trigger] frame[r]).len() == machine.width,
        frame[bad].len() != machine.width,
        1 <= frame[bad].len() <= u32::MAX,
    ensures
        CaptureRun::begin(machine).feed(oversampled(frame_signal(frame), hold)).result() == Err::<
            Seq<Seq<u16>>,
            FrameError,
        >(FrameError::Desync { row: bad as u32, pixels: frame[bad].len() as u32 }),
        CaptureRun::begin(machine).feed(oversampled(frame_signal(frame), hold)).rows
            == frame.take(bad),
{
    let run = CaptureRun::begin(machine);
    let count = (bad + 1) as nat;
    let head = frame_pulse() + rows_signal(frame, count);
    let rest = rows_between(frame, count, frame.len());
    lemma_rows(machine, frame, count, hold);
    lemma_rows_split(frame, count, frame.len());
    assert(frame_signal(frame) =~= head + rest);
    lemma_oversampled_concat(head, rest, hold);
    let all = oversampled(frame_signal(frame), hold);
    let seen = oversampled(head, hold);
    assert(all.take(seen.len() as int) =~= seen);
    lemma_run_stays_over(run, all, seen.len() as int);
}

fn push_sample(
    signals: &mut Vec<LineSample>,
    frame_sync: bool,
    line_sync: bool,
    pixel_clock: bool,
    data: u8,
)
    ensures
        final(signals)@ == old(signals)@.push(
            LineSample { frame_sync, line_sync, pixel_clock, data },
        ),
{
    signals.push(LineSample { frame_sync, line_sync, pixel_clock, data });
}

/// Produces the samples that a sensor shows while it sends `frame`, four
/// for every pixel.
pub fn simulate_frame(frame: &Vec<Vec<u16>>) -> (signals: Vec<LineSample>)
    ensures
        signals@ == frame_signal(frame.deep_view()),
{
    let ghost rows = frame.deep_view();
    let mut signals: Vec<LineSample> = Vec::new();
    push_sample(&mut signals, false, false, false, 0);
    push_sample(&mut signals, true, false, false, 0);
    push_sample(&mut signals, false, false, false, 0);
    assert(signals@ =~= frame_pulse() + rows_signal(rows, 0));
    let mut r: usize = 0;
    while r < frame.len()
        invariant
            r <= frame.len(),
            rows == frame.deep_view(),
            signals@ == frame_pulse() + rows_signal(rows, r as nat),
        decreases frame.len() - r,
    {
        let codes = &frame[r];
        assert(rows[r as int] =~= codes@);
        let ghost before = signals@;
        push_sample(&mut signals, false, true, false, 0);
        assert(signals@ =~= before + (seq![row_sample(false, 0)] + pixels_signal(codes@, 0)));
        let mut k: usize = 0;
        while k < codes.len()
            invariant
                k <= codes.len(),
                signals@ == before + (seq![row_sample(false, 0)] + pixels_signal(
                    codes@,
                    k as nat,
                )),
            decreases codes.len() - k,
        {
            let bytes = big_endian(codes[k]);
            let more = k + 1 < codes.len();
            push_sample(&mut signals, false, true, true, bytes.0);
            push_sample(&mut signals, false, true, false, 0);
            push_sample(&mut signals, false, true, true, bytes.1);
            push_sample(&mut signals, false, more, false, 0);
            k += 1;
            assert(signals@ =~= before + (seq![row_sample(false, 0)] + pixels_signal(
                codes@,
                k as nat,
            )));
        }
        r += 1;
        assert(signals@ =~= frame_pulse() + rows_signal(rows, r as nat));
    }
    signals
}

/// Repeats every sample `hold` times, as a source shows them that is polled
/// `hold` times as fast as its lines change.
pub fn oversample(signals: &[LineSample], hold: usize) -> (held: Vec<LineSample>)
    ensures
        held@ == oversampled(signals@, hold as nat),
{
    let mut held: Vec<LineSample> = Vec::new();
    let mut i: usize = 0;
    assert(signals@.take(0) =~= Seq::<LineSample>::empty());
    while i < signals.len()
        invariant
            i <= signals.len(),
            held@ == oversampled(signals@.take(i as int), hold as nat),
        decreases signals.len() - i,
    {
        let ghost before = held@;
        let mut k: usize = 0;
        assert(held@ =~= before + held_sample(signals@[i as int], 0));
        while k < hold
            invariant
                k <= hold,
                i < signals.len(),
                held@ == before + held_sample(signals@[i as int], k as nat),
            decreases hold - k,
        {
            held.push(signals[i]);
            k += 1;
            assert(held@ =~= before + held_sample(signals@[i as int], k as nat));
        }
        assert(signals@.take(i + 1).drop_last() =~= signals@.take(i as int));
        i += 1;
    }
    assert(signals@.take(i as int) =~= signals@);
    held
}

} // verus!
