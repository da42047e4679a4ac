use traced_users::demo::{demo_script, heavy_computation_steps, LogStep, HEAVY_COMPUTATION_SECS};

#[test]
fn demo_script_sequence() {
    let steps = demo_script();
    assert_eq!(steps.len(), 9);
    assert!(matches!(&steps[0], LogStep::EnterSpan(n) if n == "main"));
    assert!(matches!(&steps[1], LogStep::Info(m) if m == "Server starts"));
    assert!(matches!(&steps[2], LogStep::EnterSpan(n) if n == "heavy_computation"));
    assert!(matches!(&steps[3], LogStep::Info(m) if m == "Computation starts"));
    assert!(matches!(&steps[4], LogStep::SleepSecs(s) if *s == HEAVY_COMPUTATION_SECS));
    assert!(matches!(&steps[5], LogStep::Info(m) if m == "Computation ends"));
    assert!(matches!(&steps[6], LogStep::ExitSpan));
    assert!(matches!(&steps[7], LogStep::Info(m) if m == "Shutdown server"));
    assert!(matches!(&steps[8], LogStep::ExitSpan));
}

#[test]
fn heavy_computation_sequence() {
    let steps = heavy_computation_steps();
    assert_eq!(steps.len(), 5);
    assert!(matches!(&steps[0], LogStep::EnterSpan(n) if n == "heavy_computation"));
    assert!(matches!(&steps[1], LogStep::Info(m) if m == "Computation starts"));
    assert!(matches!(&steps[2], LogStep::SleepSecs(s) if *s == 5));
    assert!(matches!(&steps[3], LogStep::Info(m) if m == "Computation ends"));
    assert!(matches!(&steps[4], LogStep::ExitSpan));
}

#[test]
fn demo_script_spans_are_well_nested() {
    let steps = demo_script();
    let mut depth: i64 = 0;
    let mut info_lines: usize = 0;
    let mut span_entries: usize = 0;
    for step in &steps {
        match step {
            LogStep::EnterSpan(_) => {
                span_entries += 1;
                if span_entries > 1 {
                    assert!(depth >= 1, "a later span is nested under the first");
                }
                depth += 1;
            }
            LogStep::ExitSpan => {
                depth -= 1;
                assert!(depth >= 0, "a span was exited before being entered");
            }
            LogStep::Info(_) => {
                info_lines += 1;
                assert!(depth >= 1, "every log line sits inside a span");
            }
            LogStep::SleepSecs(_) => {}
        }
    }
    assert_eq!(depth, 0, "every entered span is exited");
    assert_eq!(info_lines, 4);
    assert_eq!(span_entries, 2);
}

#[test]
fn demo_delay_is_multi_second() {
    assert!(HEAVY_COMPUTATION_SECS >= 2);
    assert_eq!(HEAVY_COMPUTATION_SECS, 5);
}
