use gpu_temp_reader::cycle::{resolve_load, resolve_model, step};
use gpu_temp_reader::query::{interpret_name_query, interpret_number_query, query_args};
use gpu_temp_reader::{
    Decimal, InputEvent, LoopEvent, LoopState, Metric, QueryError, QueryOutcome, Style,
};

fn finished_outcome(stdout: &str) -> QueryOutcome {
    QueryOutcome::Finished {
        success: true,
        status: "exit status: 0".to_string(),
        stdout: Ok(stdout.to_string()),
        stderr: String::new(),
    }
}

fn parsed(text: &str) -> Decimal {
    Decimal::parse(text).expect("the text should parse as a number")
}

#[test]
fn warning_style_above_threshold() {
    assert!(parsed("71").is_gt_seventy());
    assert!(parsed("70.1").is_gt_seventy());
    assert!(parsed("70.001").is_gt_seventy());
    assert!(parsed("100").is_gt_seventy());
    assert!(parsed("72").is_gt_seventy());
}

#[test]
fn plain_style_at_boundary() {
    assert!(!parsed("70").is_gt_seventy());
    assert!(!parsed("70.0").is_gt_seventy());
    assert!(!parsed("70.00").is_gt_seventy());
}

#[test]
fn plain_style_below_threshold() {
    assert!(!parsed("69.9").is_gt_seventy());
    assert!(!parsed("0").is_gt_seventy());
    assert!(!parsed("7").is_gt_seventy());
    assert!(!parsed("-80").is_gt_seventy());
}

#[test]
fn parse_canonicalizes() {
    assert_eq!(parsed("072.50").to_text(), "72.5");
    assert_eq!(parsed(" 7 \n").to_text(), "7");
    assert_eq!(parsed(".5").to_text(), "0.5");
    assert_eq!(parsed("5.").to_text(), "5");
    assert_eq!(parsed("000").to_text(), "0");
    assert_eq!(parsed("-0").to_text(), "-0");
    assert_eq!(parsed("-12.30").to_text(), "-12.3");
    assert_eq!(parsed("55").to_text(), "55");
    assert_eq!(parsed("3.000").to_text(), "3");
}

#[test]
fn parse_rejects_malformed_text() {
    assert!(Decimal::parse("").is_none());
    assert!(Decimal::parse("   ").is_none());
    assert!(Decimal::parse(".").is_none());
    assert!(Decimal::parse("-").is_none());
    assert!(Decimal::parse("-.").is_none());
    assert!(Decimal::parse("1.2.3").is_none());
    assert!(Decimal::parse("12a").is_none());
    assert!(Decimal::parse("inf").is_none());
    assert!(Decimal::parse("1e3").is_none());
    assert!(Decimal::parse("7 2").is_none());
}

#[test]
fn query_tool_arguments() {
    assert_eq!(
        query_args(Metric::Temperature),
        ("--query-gpu=temperature.gpu", "--format=csv,noheader,nounits")
    );
    assert_eq!(
        query_args(Metric::Utilization),
        ("--query-gpu=utilization.gpu", "--format=csv,noheader,nounits")
    );
    assert_eq!(
        query_args(Metric::Name),
        ("--query-gpu=name", "--format=csv,noheader")
    );
}

#[test]
fn number_query_success() {
    let r = interpret_number_query(Metric::Temperature, finished_outcome("72\n"));
    assert_eq!(r.unwrap().to_text(), "72");
}

#[test]
fn number_query_spawn_failure() {
    let r = interpret_number_query(
        Metric::Temperature,
        QueryOutcome::SpawnError { cause: "No such file or directory (os error 2)".to_string() },
    );
    let e = r.unwrap_err();
    assert_eq!(e.metric(), Metric::Temperature);
    assert_eq!(
        e.message(),
        "Failed to execute command: No such file or directory (os error 2)"
    );
}

#[test]
fn number_query_nonzero_exit() {
    let r = interpret_number_query(
        Metric::Utilization,
        QueryOutcome::Finished {
            success: false,
            status: "exit status: 1".to_string(),
            stdout: Ok(String::new()),
            stderr: "no devices were found".to_string(),
        },
    );
    let e = r.unwrap_err();
    assert_eq!(e.metric(), Metric::Utilization);
    assert_eq!(
        e.message(),
        "Command failed with status: exit status: 1, stderr: no devices were found"
    );
}

#[test]
fn number_query_decode_failure() {
    let r = interpret_number_query(
        Metric::Temperature,
        QueryOutcome::Finished {
            success: true,
            status: "exit status: 0".to_string(),
            stdout: Err("invalid utf-8 sequence of 1 bytes from index 0".to_string()),
            stderr: String::new(),
        },
    );
    let e = r.unwrap_err();
    assert_eq!(
        e.message(),
        "Failed to parse output: invalid utf-8 sequence of 1 bytes from index 0"
    );
}

#[test]
fn number_query_parse_failure() {
    let r = interpret_number_query(Metric::Temperature, finished_outcome("N/A\n"));
    let e = r.unwrap_err();
    assert!(matches!(e, QueryError::ParseFailed { metric: Metric::Temperature }));
    assert_eq!(e.message(), "Failed to parse temperature: invalid number");

    let r = interpret_number_query(Metric::Utilization, finished_outcome("N/A\n"));
    assert_eq!(
        r.unwrap_err().message(),
        "Failed to parse load: invalid number"
    );
}

#[test]
fn name_query_trims_output() {
    let r = interpret_name_query(finished_outcome("NVIDIA X\n"));
    assert_eq!(r.unwrap(), "NVIDIA X");
}

#[test]
fn name_query_spawn_failure() {
    let r = interpret_name_query(QueryOutcome::SpawnError { cause: "boom".to_string() });
    let e = r.unwrap_err();
    assert_eq!(e.metric(), Metric::Name);
    assert_eq!(e.message(), "Failed to execute command: boom");
}

#[test]
fn rendered_line_for_mock_outputs() {
    let temperature = interpret_number_query(Metric::Temperature, finished_outcome("72"))
        .unwrap();
    let state = step(
        LoopState::QueryTemperature,
        LoopEvent::Temperature { result: Ok(temperature) },
    );
    assert!(matches!(state, LoopState::QueryLoadModel { .. }));
    let load = interpret_number_query(Metric::Utilization, finished_outcome("55"));
    let model = interpret_name_query(finished_outcome("NVIDIA X"));
    let state = step(state, LoopEvent::LoadModel { load, model });
    match state {
        LoopState::ShowLine { line } => {
            assert_eq!(line.text(), "GPU: NVIDIA X Temperature: 72 °C, Load: 55%");
            assert_eq!(line.styled, "72");
            assert_eq!(line.style, Style::Warning);
        }
        other => panic!("expected a line to show, got {:?}", other),
    }
}

#[test]
fn temperature_failure_renders_error_and_skips_queries() {
    let result = interpret_number_query(
        Metric::Temperature,
        QueryOutcome::SpawnError { cause: "boom".to_string() },
    );
    let state = step(LoopState::QueryTemperature, LoopEvent::Temperature { result });
    match state {
        LoopState::ShowLine { line } => {
            assert_eq!(line.text(), "Error: Failed to execute command: boom");
            assert_eq!(line.style, Style::Plain);
            assert_eq!(line.styled, "");
        }
        other => panic!("expected the error line, not further queries, got {:?}", other),
    }
}

#[test]
fn load_failure_falls_back_to_zero() {
    let state = step(
        LoopState::QueryLoadModel { temperature: parsed("65") },
        LoopEvent::LoadModel {
            load: Err(QueryError::ParseFailed { metric: Metric::Utilization }),
            model: Ok("NVIDIA X".to_string()),
        },
    );
    match state {
        LoopState::ShowLine { line } => {
            assert_eq!(line.text(), "GPU: NVIDIA X Temperature: 65 °C, Load: 0%");
            assert_eq!(line.style, Style::Plain);
        }
        other => panic!("expected a line to show, got {:?}", other),
    }
}

#[test]
fn model_failure_falls_back_to_unknown() {
    let state = step(
        LoopState::QueryLoadModel { temperature: parsed("72") },
        LoopEvent::LoadModel {
            load: Ok(parsed("55")),
            model: Err(QueryError::SpawnFailed {
                metric: Metric::Name,
                cause: "boom".to_string(),
            }),
        },
    );
    match state {
        LoopState::ShowLine { line } => {
            assert_eq!(line.text(), "GPU: Unknown Temperature: 72 °C, Load: 55%");
            assert_eq!(line.style, Style::Warning);
        }
        other => panic!("expected a line to show, got {:?}", other),
    }
}

#[test]
fn resolve_fallback_values() {
    let zero = resolve_load(Err(QueryError::ParseFailed { metric: Metric::Utilization }));
    assert_eq!(zero.to_text(), "0");
    let kept = resolve_load(Ok(parsed("55")));
    assert_eq!(kept.to_text(), "55");
    let unknown = resolve_model(Err(QueryError::ParseFailed { metric: Metric::Name }));
    assert_eq!(unknown, "Unknown");
    let name = resolve_model(Ok("NVIDIA X".to_string()));
    assert_eq!(name, "NVIDIA X");
}

#[test]
fn drawn_line_leads_to_input_wait() {
    let line_state = step(
        LoopState::QueryTemperature,
        LoopEvent::Temperature {
            result: Err(QueryError::ParseFailed { metric: Metric::Temperature }),
        },
    );
    let state = step(line_state, LoopEvent::Drawn);
    assert!(matches!(state, LoopState::WaitInput));
}

#[test]
fn quit_key_finishes_within_the_cycle() {
    let state = step(
        LoopState::WaitInput,
        LoopEvent::Input { event: InputEvent::Key { ch: 'q' } },
    );
    assert!(matches!(state, LoopState::Finished));
}

#[test]
fn other_input_returns_to_polling() {
    let state = step(
        LoopState::WaitInput,
        LoopEvent::Input { event: InputEvent::Key { ch: 'x' } },
    );
    assert!(matches!(state, LoopState::QueryTemperature));
    let state = step(
        LoopState::WaitInput,
        LoopEvent::Input { event: InputEvent::TimedOut },
    );
    assert!(matches!(state, LoopState::QueryTemperature));
    let state = step(
        LoopState::WaitInput,
        LoopEvent::Input { event: InputEvent::Other },
    );
    assert!(matches!(state, LoopState::QueryTemperature));
}

#[test]
fn uppercase_q_does_not_quit() {
    let state = step(
        LoopState::WaitInput,
        LoopEvent::Input { event: InputEvent::Key { ch: 'Q' } },
    );
    assert!(matches!(state, LoopState::QueryTemperature));
}
