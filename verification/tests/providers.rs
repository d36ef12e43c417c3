use gpu_telemetry::formatter::Formatter;
use gpu_telemetry::processor::{ExecutionError, Executor};
use gpu_telemetry::provider::{create_provider, Provider, ProviderError};

struct StubExecutor {
    stdout: Option<String>,
    stderr: Option<String>,
    fail: bool,
    calls: Vec<Vec<String>>,
}

impl StubExecutor {
    fn with_stdout(stdout: &str) -> StubExecutor {
        StubExecutor {
            stdout: Some(stdout.to_string()),
            stderr: None,
            fail: false,
            calls: Vec::new(),
        }
    }

    fn empty() -> StubExecutor {
        StubExecutor { stdout: None, stderr: None, fail: false, calls: Vec::new() }
    }

    fn failing() -> StubExecutor {
        StubExecutor { stdout: None, stderr: None, fail: true, calls: Vec::new() }
    }
}

impl Executor for StubExecutor {
    fn run(
        &mut self,
        argv: &Vec<String>,
    ) -> Result<(Option<String>, Option<String>), ExecutionError> {
        self.calls.push(argv.clone());
        if self.fail {
            Err(ExecutionError { message: "tool missing".to_string() })
        } else {
            Ok((self.stdout.clone(), self.stderr.clone()))
        }
    }
}

fn keys_of(p: &Provider) -> Vec<String> {
    p.properties.iter().map(|prop| prop.key.clone()).collect()
}

#[test]
fn smi_backend_catalog_keys() {
    for backend in [0, 2] {
        let p = create_provider(backend);
        assert_eq!(p.provider_type, backend);
        assert_eq!(
            keys_of(&p),
            vec![
                "gpu_name".to_string(),
                "utilization.gpu".to_string(),
                "temperature.gpu".to_string(),
                "memory.used".to_string(),
                "memory.total".to_string(),
                "utilization.memory".to_string(),
                "fan.speed".to_string(),
                "power.draw".to_string(),
            ]
        );
    }
}

#[test]
fn settings_backend_catalog_keys() {
    let p = create_provider(1);
    assert_eq!(p.provider_type, 1);
    assert_eq!(
        keys_of(&p),
        vec![
            "GPUUtilization.gpu".to_string(),
            "GPUCoreTemp".to_string(),
            "UsedDedicatedGPUMemory".to_string(),
            "TotalDedicatedGPUMemory".to_string(),
            "GPUUtilization.mem".to_string(),
        ]
    );
}

#[test]
fn optimus_backend_catalog_fragments() {
    let p = create_provider(3);
    assert_eq!(p.provider_type, 3);
    let first = &p.properties[0];
    assert_eq!(first.processor.base_call, "optirun");
    assert_eq!(first.processor.start_call, "nvidia-smi --query-gpu=");
    assert_eq!(first.processor.end_call, " --format=csv,noheader -i ");
    assert!(first.processor.middle_call.is_none());
}

#[test]
fn settings_backend_catalog_fragments() {
    let p = create_provider(1);
    let first = &p.properties[0];
    assert_eq!(first.processor.base_call, "nvidia-settings");
    assert_eq!(first.processor.start_call, "-q=[gpu:");
    assert_eq!(first.processor.middle_call.as_deref(), Some("]/"));
    assert_eq!(first.processor.end_call, " -t");
    assert!(matches!(first.formatter, Formatter::FieldPercentage { index: 0 }));
}

#[test]
fn out_of_range_backend_falls_back_to_default() {
    for backend in [-1, 4, 7] {
        let p = create_provider(backend);
        assert_eq!(p.provider_type, 0);
        assert_eq!(keys_of(&p)[0], "gpu_name");
        assert_eq!(p.uuid_processor.base_call, "nvidia-settings");
    }
}

#[test]
fn device_ids_are_the_parsed_stdout_lines_for_every_backend() {
    for backend in [0, 1, 2, 3, 7] {
        let p = create_provider(backend);
        let mut exec = StubExecutor::with_stdout("GPU-aaaa\nGPU-bbbb\n");
        let ids = p.get_gpu_uuids(&mut exec).unwrap();
        assert_eq!(ids, vec!["GPU-aaaa".to_string(), "GPU-bbbb".to_string()]);
    }
}

#[test]
fn device_enumeration_with_empty_output_is_empty() {
    let p = create_provider(0);
    let mut exec = StubExecutor::empty();
    assert_eq!(p.get_gpu_uuids(&mut exec).unwrap(), Vec::<String>::new());
}

#[test]
fn device_enumeration_failure_is_an_error() {
    let p = create_provider(0);
    let mut exec = StubExecutor::failing();
    assert!(matches!(p.get_gpu_uuids(&mut exec), Err(ProviderError::Exec(_))));
}

#[test]
fn default_backend_enumerates_through_nvidia_settings() {
    let p = create_provider(0);
    let mut exec = StubExecutor::empty();
    let _ = p.get_gpu_uuids(&mut exec);
    assert_eq!(
        exec.calls[0],
        vec![
            "nvidia-settings".to_string(),
            "-q".to_string(),
            "GpuUUID".to_string(),
            "-t".to_string(),
        ]
    );
}

#[test]
fn smi_backend_enumerates_through_nvidia_smi() {
    let p = create_provider(2);
    let mut exec = StubExecutor::empty();
    let _ = p.get_gpu_uuids(&mut exec);
    assert_eq!(
        exec.calls[0],
        vec![
            "nvidia-smi".to_string(),
            "--query-gpu=uuid".to_string(),
            "--format=csv,noheader".to_string(),
        ]
    );
}

#[test]
fn gpu_data_formats_the_looked_up_metric() {
    let p = create_provider(0);
    let mut exec = StubExecutor::with_stdout("42\n");
    let r = p.get_gpu_data(&mut exec, "GPU-aaaa", "utilization.gpu", &None);
    assert_eq!(r.unwrap(), "42 %");
}

#[test]
fn gpu_data_respects_temperature_params() {
    let p = create_provider(0);
    let mut exec = StubExecutor::with_stdout("70\n");
    let params = Some(vec![("tempformat".to_string(), "F".to_string())]);
    let r = p.get_gpu_data(&mut exec, "GPU-aaaa", "temperature.gpu", &params);
    assert_eq!(r.unwrap(), "158\u{00B0}F");
}

#[test]
fn gpu_data_unknown_key_is_reported() {
    let p = create_provider(0);
    let mut exec = StubExecutor::with_stdout("42\n");
    let r = p.get_gpu_data(&mut exec, "GPU-aaaa", "no.such.metric", &None);
    assert!(matches!(r, Err(ProviderError::UnknownKey)));
    assert!(exec.calls.is_empty());
}

#[test]
fn gpu_data_with_empty_output_fails_to_resolve() {
    let p = create_provider(0);
    let mut exec = StubExecutor::empty();
    let r = p.get_gpu_data(&mut exec, "GPU-aaaa", "utilization.gpu", &None);
    assert!(matches!(r, Err(ProviderError::ResolveFailed)));
}

#[test]
fn gpu_data_on_launch_failure_fails_to_resolve() {
    let p = create_provider(0);
    let mut exec = StubExecutor::failing();
    let r = p.get_gpu_data(&mut exec, "GPU-aaaa", "utilization.gpu", &None);
    assert!(matches!(r, Err(ProviderError::ResolveFailed)));
}

#[test]
fn gpu_data_builds_the_metric_invocation() {
    let p = create_provider(0);
    let mut exec = StubExecutor::with_stdout("42\n");
    let _ = p.get_gpu_data(&mut exec, "GPU-aaaa", "utilization.gpu", &None);
    assert_eq!(
        exec.calls[0],
        vec![
            "nvidia-smi".to_string(),
            "--query-gpu=utilization.gpu".to_string(),
            "--format=csv,noheader".to_string(),
            "-i".to_string(),
            "GPU-aaaa".to_string(),
        ]
    );
}

#[test]
fn settings_utilization_extracts_the_field() {
    let p = create_provider(1);
    let mut exec = StubExecutor::with_stdout("graphics=2, memory=1, video=0, PCIe=1\n");
    let gpu = p.get_gpu_data(&mut exec, "GPU-aaaa", "GPUUtilization.gpu", &None);
    assert_eq!(gpu.unwrap(), "2 %");
    let mut exec2 = StubExecutor::with_stdout("graphics=2, memory=1, video=0, PCIe=1\n");
    let mem = p.get_gpu_data(&mut exec2, "GPU-aaaa", "GPUUtilization.mem", &None);
    assert_eq!(mem.unwrap(), "1 %");
}
