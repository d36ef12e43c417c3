use gpu_telemetry::processor::{tokenize, ExecutionError, Executor, Processor};

struct StubExecutor {
    stdout: Option<String>,
    stderr: Option<String>,
    fail: bool,
    calls: Vec<Vec<String>>,
}

impl StubExecutor {
    fn with_output(stdout: Option<&str>, stderr: Option<&str>) -> StubExecutor {
        StubExecutor {
            stdout: stdout.map(|s| s.to_string()),
            stderr: stderr.map(|s| s.to_string()),
            fail: false,
            calls: Vec::new(),
        }
    }

    fn failing() -> StubExecutor {
        StubExecutor { stdout: None, stderr: None, fail: true, calls: Vec::new() }
    }
}

impl Executor for StubExecutor {
    fn run(
        &mut self,
        argv: &Vec<String>,
    ) -> Result<(Option<String>, Option<String>), ExecutionError> {
        self.calls.push(argv.clone());
        if self.fail {
            Err(ExecutionError { message: "tool missing".to_string() })
        } else {
            Ok((self.stdout.clone(), self.stderr.clone()))
        }
    }
}

fn smi_processor() -> Processor {
    Processor::new("nvidia-smi", "--query-gpu=", None, " --format=csv,noheader -i ")
}

fn settings_processor() -> Processor {
    Processor::new("nvidia-settings", "-q=[gpu:", Some("]/"), " -t")
}

#[test]
fn query_style_call_stack_places_id_last() {
    let cs = smi_processor().build_call_stack(Some("GPU-0"), Some("temperature.gpu"));
    assert_eq!(cs, "nvidia-smi --query-gpu=temperature.gpu --format=csv,noheader -i GPU-0");
}

#[test]
fn settings_style_call_stack_places_id_after_prefix() {
    let cs = settings_processor().build_call_stack(Some("GPU-0"), Some("GPUCoreTemp"));
    assert_eq!(cs, "nvidia-settings -q=[gpu:GPU-0]/GPUCoreTemp -t");
}

#[test]
fn call_stack_with_absent_parts() {
    let cs = smi_processor().build_call_stack(None, Some("gpu_name"));
    assert_eq!(cs, "nvidia-smi --query-gpu=gpu_name --format=csv,noheader -i ");
}

#[test]
fn invocation_splits_on_single_spaces() {
    let argv = smi_processor().build_invocation(Some("GPU-0"), Some("utilization.gpu"));
    assert_eq!(
        argv,
        vec![
            "nvidia-smi".to_string(),
            "--query-gpu=utilization.gpu".to_string(),
            "--format=csv,noheader".to_string(),
            "-i".to_string(),
            "GPU-0".to_string(),
        ]
    );
}

#[test]
fn settings_invocation_is_three_tokens() {
    let argv = settings_processor().build_invocation(Some("GPU-0"), Some("GPUUtilization"));
    assert_eq!(
        argv,
        vec![
            "nvidia-settings".to_string(),
            "-q=[gpu:GPU-0]/GPUUtilization".to_string(),
            "-t".to_string(),
        ]
    );
}

#[test]
fn fragment_with_interior_space_splits_token_boundaries() {
    // Fragments carry no quoting: a space inside one produces separate
    // tokens, as the optirun backend relies on.
    let p = Processor::new(
        "optirun",
        "nvidia-smi --query-gpu=",
        None,
        " --format=csv,noheader -i ",
    );
    let argv = p.build_invocation(Some("GPU-0"), Some("gpu_name"));
    assert_eq!(
        argv,
        vec![
            "optirun".to_string(),
            "nvidia-smi".to_string(),
            "--query-gpu=gpu_name".to_string(),
            "--format=csv,noheader".to_string(),
            "-i".to_string(),
            "GPU-0".to_string(),
        ]
    );
}

#[test]
fn tokenize_keeps_empty_tokens_between_adjacent_spaces() {
    assert_eq!(tokenize("a  b"), vec!["a".to_string(), "".to_string(), "b".to_string()]);
    assert_eq!(tokenize("a "), vec!["a".to_string(), "".to_string()]);
    assert_eq!(tokenize(""), Vec::<String>::new());
}

#[test]
fn parse_splits_lines_and_drops_trailing_empty() {
    let p = smi_processor();
    assert_eq!(p.parse("a\nb\n"), vec!["a".to_string(), "b".to_string()]);
}

#[test]
fn parse_keeps_interior_empty_lines() {
    let p = smi_processor();
    assert_eq!(p.parse("a\n\nb"), vec!["a".to_string(), "".to_string(), "b".to_string()]);
}

#[test]
fn parse_strips_carriage_return_before_each_newline() {
    let p = smi_processor();
    assert_eq!(p.parse("a\r\nb\r\n"), vec!["a".to_string(), "b".to_string()]);
    assert_eq!(p.parse("a\r\nb"), vec!["a".to_string(), "b".to_string()]);
}

#[test]
fn parse_strips_only_one_carriage_return() {
    let p = smi_processor();
    assert_eq!(p.parse("a\r\r\n"), vec!["a\r".to_string()]);
}

#[test]
fn parse_keeps_a_carriage_return_without_a_newline() {
    let p = smi_processor();
    assert_eq!(p.parse("a\r"), vec!["a\r".to_string()]);
}

#[test]
fn parse_of_a_lone_crlf_is_one_empty_line() {
    let p = smi_processor();
    assert_eq!(p.parse("\r\n"), vec!["".to_string()]);
}

#[test]
fn parse_of_empty_input_is_empty() {
    let p = smi_processor();
    assert_eq!(p.parse(""), Vec::<String>::new());
}

#[test]
fn parse_without_trailing_newline() {
    let p = smi_processor();
    assert_eq!(p.parse("only"), vec!["only".to_string()]);
}

#[test]
fn empty_stdout_and_stderr_is_ok_none() {
    let mut exec = StubExecutor::with_output(None, None);
    let r = smi_processor().process(&mut exec, Some("GPU-0"), Some("gpu_name"));
    assert!(matches!(r, Ok(None)));
}

#[test]
fn stderr_alone_is_swallowed_as_ok_none() {
    let mut exec = StubExecutor::with_output(None, Some("no such device"));
    let r = smi_processor().process(&mut exec, Some("GPU-0"), Some("gpu_name"));
    assert!(matches!(r, Ok(None)));
}

#[test]
fn stdout_is_parsed_even_with_stderr_warning() {
    let mut exec = StubExecutor::with_output(Some("value\n"), Some("warning"));
    let r = smi_processor().process(&mut exec, Some("GPU-0"), Some("gpu_name"));
    assert_eq!(r.unwrap(), Some(vec!["value".to_string()]));
}

#[test]
fn stdout_alone_is_parsed() {
    let mut exec = StubExecutor::with_output(Some("a\nb\n"), None);
    let r = smi_processor().process(&mut exec, Some("GPU-0"), Some("gpu_name"));
    assert_eq!(r.unwrap(), Some(vec!["a".to_string(), "b".to_string()]));
}

#[test]
fn launch_failure_is_propagated() {
    let mut exec = StubExecutor::failing();
    let r = smi_processor().process(&mut exec, Some("GPU-0"), Some("gpu_name"));
    assert!(r.is_err());
}

#[test]
fn process_hands_the_tokenized_invocation_to_the_executor() {
    let mut exec = StubExecutor::with_output(None, None);
    let _ = smi_processor().process(&mut exec, Some("GPU-0"), Some("fan.speed"));
    assert_eq!(exec.calls.len(), 1);
    assert_eq!(
        exec.calls[0],
        vec![
            "nvidia-smi".to_string(),
            "--query-gpu=fan.speed".to_string(),
            "--format=csv,noheader".to_string(),
            "-i".to_string(),
            "GPU-0".to_string(),
        ]
    );
}

#[test]
fn default_processor_is_all_empty() {
    let p = Processor::default();
    assert_eq!(p.base_call, "");
    assert_eq!(p.start_call, "");
    assert!(p.middle_call.is_none());
    assert_eq!(p.end_call, "");
}
