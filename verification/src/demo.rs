//! The standalone tracing demo, described as data.
//!
//! The demo opens a span, logs, performs a long "heavy computation" inside
//! a nested span, and logs again on the way out. Emitting spans and log
//! lines and sleeping are side effects performed by the program around this
//! library; the library fixes *what* is performed: the exact sequence of
//! steps, and the guarantee that span entries and exits are well nested.

use vstd::prelude::*;

verus! {

/// How long, in seconds, the demo's simulated computation blocks.
pub const HEAVY_COMPUTATION_SECS: u64 = 5;

/// One step of the demo: enter a named span, emit an informational log
/// line, block for a number of seconds, or exit the innermost span.
pub enum LogStep {
    EnterSpan(String),
    Info(String),
    SleepSecs(u64),
    ExitSpan,
}

/// By how much a step changes the span nesting depth.
pub open spec fn step_depth_change(step: LogStep) -> int {
    match step {
        LogStep::EnterSpan(_) => 1,
        LogStep::ExitSpan => -1,
        LogStep::Info(_) => 0,
        LogStep::SleepSecs(_) => 0,
    }
}

/// The span nesting depth after performing all of `steps`, starting from
/// depth zero.
pub open spec fn depth_after(steps: Seq<LogStep>) -> int
    decreases steps.len(),
{
    if steps.len() == 0 {
        0
    } else {
        depth_after(steps.drop_last()) + step_depth_change(steps.last())
    }
}

/// Span entries and exits balance: no step exits a span that was never
/// entered, and every entered span is exited by the end.
pub open spec fn well_nested(steps: Seq<LogStep>) -> bool {
    &&& depth_after(steps) == 0
    &&& forall|i: int| 0 <= i <= steps.len() ==> depth_after(#[trigger] steps.take(i)) >= 0
}

/// How many of the steps enter a span.
pub open spec fn count_span_entries(steps: Seq<LogStep>) -> int
    decreases steps.len(),
{
    if steps.len() == 0 {
        0
    } else {
        count_span_entries(steps.drop_last()) + (if steps.last() is EnterSpan {
            1int
        } else {
            0int
        })
    }
}

/// The step enters a span with the given name.
pub open spec fn is_enter(step: LogStep, name: Seq<char>) -> bool {
    step matches LogStep::EnterSpan(n) && n@ == name
}

/// The step logs the given message.
pub open spec fn is_info(step: LogStep, message: Seq<char>) -> bool {
    step matches LogStep::Info(m) && m@ == message
}

/// The step blocks for the given number of seconds.
pub open spec fn is_sleep(step: LogStep, secs: u64) -> bool {
    step matches LogStep::SleepSecs(s) && s == secs
}

/// The steps of the simulated computation: a span named
/// `heavy_computation` around a log line, a blocking delay, and a second
/// log line.
pub open spec fn is_heavy_computation_script(steps: Seq<LogStep>) -> bool {
    &&& steps.len() == 5
    &&& is_enter(steps[0], "heavy_computation"@)
    &&& is_info(steps[1], "Computation starts"@)
    &&& is_sleep(steps[2], HEAVY_COMPUTATION_SECS)
    &&& is_info(steps[3], "Computation ends"@)
    &&& steps[4] is ExitSpan
}

/// The steps of the whole demo: a span named `main` wrapping a startup log
/// line, the simulated computation, and a shutdown log line.
pub open spec fn is_demo_script(steps: Seq<LogStep>) -> bool {
    &&& steps.len() == 9
    &&& is_enter(steps[0], "main"@)
    &&& is_info(steps[1], "Server starts"@)
    &&& is_heavy_computation_script(steps.subrange(2, 7))
    &&& is_info(steps[7], "Shutdown server"@)
    &&& steps[8] is ExitSpan
}

/// Depth after a prefix grows by one step at a time.
proof fn lemma_depth_after_take_step(steps: Seq<LogStep>, i: int)
    requires
        1 <= i <= steps.len(),
    ensures
        depth_after(steps.take(i)) == depth_after(steps.take(i - 1)) + step_depth_change(
            steps[i - 1],
        ),
{
    assert(steps.take(i).drop_last() =~= steps.take(i - 1));
}

/// Span entries counted over a prefix grow by one step at a time.
proof fn lemma_count_take_step(steps: Seq<LogStep>, i: int)
    requires
        1 <= i <= steps.len(),
    ensures
        count_span_entries(steps.take(i)) == count_span_entries(steps.take(i - 1)) + (if steps[i
            - 1] is EnterSpan {
            1int
        } else {
            0int
        }),
{
    assert(steps.take(i).drop_last() =~= steps.take(i - 1));
}

/// The depth after a concatenation is the sum of the depths after its
/// parts.
pub proof fn lemma_depth_after_concat(a: Seq<LogStep>, b: Seq<LogStep>)
    ensures
        depth_after(a + b) == depth_after(a) + depth_after(b),
    decreases b.len(),
{
    if b.len() == 0 {
        assert(a + b =~= a);
    } else {
        assert((a + b).drop_last() =~= a + b.drop_last());
        lemma_depth_after_concat(a, b.drop_last());
    }
}

/// The steps of the simulated computation, in the order they are
/// performed. The span they open is closed again: the script is well
/// nested.
pub fn heavy_computation_steps() -> (script: Vec<LogStep>)
    ensures
        is_heavy_computation_script(script@),
        well_nested(script@),
{
    let mut script: Vec<LogStep> = Vec::new();
    script.push(LogStep::EnterSpan("heavy_computation".to_owned()));
    script.push(LogStep::Info("Computation starts".to_owned()));
    script.push(LogStep::SleepSecs(HEAVY_COMPUTATION_SECS));
    script.push(LogStep::Info("Computation ends".to_owned()));
    script.push(LogStep::ExitSpan);
    proof {
        let s = script@;
        assert(s.take(5) =~= s);
        assert(s.take(0) =~= Seq::<LogStep>::empty());
        lemma_depth_after_take_step(s, 1);
        lemma_depth_after_take_step(s, 2);
        lemma_depth_after_take_step(s, 3);
        lemma_depth_after_take_step(s, 4);
        lemma_depth_after_take_step(s, 5);
        assert(depth_after(s.take(1)) == 1);
        assert(depth_after(s.take(2)) == 1);
        assert(depth_after(s.take(3)) == 1);
        assert(depth_after(s.take(4)) == 1);
        assert(depth_after(s.take(5)) == 0);
    }
    script
}

/// The steps of the whole demo, in the order they are performed: the
/// startup and shutdown log lines inside a span named `main`, with the
/// simulated computation between them. Every span entered is exited, and
/// never before it is entered: the script is well nested.
pub fn demo_script() -> (script: Vec<LogStep>)
    ensures
        is_demo_script(script@),
        well_nested(script@),
{
    let mut script: Vec<LogStep> = Vec::new();
    script.push(LogStep::EnterSpan("main".to_owned()));
    script.push(LogStep::Info("Server starts".to_owned()));
    let ghost pre = script@;
    let mut inner = heavy_computation_steps();
    let ghost inner0 = inner@;
    script.append(&mut inner);
    script.push(LogStep::Info("Shutdown server".to_owned()));
    script.push(LogStep::ExitSpan);
    proof {
        let s = script@;
        assert(s.len() == 9);
        assert(s.subrange(2, 7) =~= inner0);
        assert(s.take(0) =~= Seq::<LogStep>::empty());
        lemma_depth_after_take_step(s, 1);
        lemma_depth_after_take_step(s, 2);
        assert(depth_after(s.take(2)) == 1);
        assert forall|i: int| 2 <= i <= 7 implies depth_after(#[trigger] s.take(i)) >= 1 by {
            assert(s.take(i) =~= s.take(2) + inner0.take(i - 2));
            lemma_depth_after_concat(s.take(2), inner0.take(i - 2));
        }
        assert(s.take(7) =~= s.take(2) + inner0);
        lemma_depth_after_concat(s.take(2), inner0);
        assert(depth_after(s.take(7)) == 1);
        lemma_depth_after_take_step(s, 8);
        lemma_depth_after_take_step(s, 9);
        assert(depth_after(s.take(8)) == 1);
        assert(depth_after(s.take(9)) == 0);
        assert(s.take(9) =~= s);
        assert forall|i: int| 0 <= i <= s.len() implies depth_after(#[trigger] s.take(i)) >= 0 by {
            if i < 2 {
                assert(depth_after(s.take(0)) == 0);
                assert(depth_after(s.take(1)) == 1);
            }
        }
    }
    script
}

/// The demo enters exactly two spans, and every span entered after the
/// first one is entered while the top-level span is still open: the
/// second span is nested under it.
pub proof fn lemma_demo_script_two_nested_spans(steps: Seq<LogStep>)
    requires
        is_demo_script(steps),
    ensures
        count_span_entries(steps) == 2,
        forall|i: int|
            0 < i < steps.len() && (#[trigger] steps[i]) is EnterSpan ==> depth_after(
                steps.take(i),
            ) == 1,
{
    let sub = steps.subrange(2, 7);
    assert(steps[2] == sub[0]);
    assert(steps[3] == sub[1]);
    assert(steps[4] == sub[2]);
    assert(steps[5] == sub[3]);
    assert(steps[6] == sub[4]);
    lemma_count_take_step(steps, 1);
    lemma_count_take_step(steps, 2);
    lemma_count_take_step(steps, 3);
    lemma_count_take_step(steps, 4);
    lemma_count_take_step(steps, 5);
    lemma_count_take_step(steps, 6);
    lemma_count_take_step(steps, 7);
    lemma_count_take_step(steps, 8);
    lemma_count_take_step(steps, 9);
    assert(count_span_entries(steps.take(9)) == 2);
    assert(steps.take(9) =~= steps);
    lemma_depth_after_take_step(steps, 1);
    lemma_depth_after_take_step(steps, 2);
    assert(depth_after(steps.take(2)) == 1);
}

} // verus!
