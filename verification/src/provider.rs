//! Backend profiles: the fixed, compiled-in metric catalogs, one per
//! acquisition backend, with device enumeration and per-device metric
//! lookup.
//!
//! Four backends exist, requested by an integer id:
//! 0 — `nvidia-settings` for enumeration, `nvidia-smi` for metrics (the
//! default); 1 — `nvidia-settings` alone; 2 — `nvidia-smi` alone; 3 —
//! `optirun nvidia-smi`. An unknown or out-of-range id falls back to
//! backend 0, documented behaviour rather than an error.

use crate::formatter::{apply_spec, Formatter};
use crate::processor::{parse_lines, ExecutionError, Executor, Processor};
use vstd::prelude::*;
use vstd::string::*;

verus! {

/// The mathematical model of a [`Processor`]: its four fragments.
pub struct ProcessorModel {
    pub base_call: Seq<char>,
    pub start_call: Seq<char>,
    pub middle_call: Option<Seq<char>>,
    pub end_call: Seq<char>,
}

impl View for Processor {
    type V = ProcessorModel;

    open spec fn view(&self) -> ProcessorModel {
        ProcessorModel {
            base_call: self.base_call@,
            start_call: self.start_call@,
            middle_call: self.middle_call.deep_view(),
            end_call: self.end_call@,
        }
    }
}

impl DeepView for Processor {
    type V = ProcessorModel;

    open spec fn deep_view(&self) -> ProcessorModel {
        self.view()
    }
}

/// One named metric: a processor and a formatter bound under a metric key.
pub struct Property {
    pub key: String,
    pub processor: Processor,
    pub formatter: Formatter,
}

/// The mathematical model of a [`Property`].
pub struct PropertyModel {
    pub key: Seq<char>,
    pub processor: ProcessorModel,
    pub formatter: Formatter,
}

impl View for Property {
    type V = PropertyModel;

    open spec fn view(&self) -> PropertyModel {
        PropertyModel { key: self.key@, processor: self.processor@, formatter: self.formatter }
    }
}

impl DeepView for Property {
    type V = PropertyModel;

    open spec fn deep_view(&self) -> PropertyModel {
        self.view()
    }
}

impl Property {
    /// A property from its processor, formatter and metric key.
    pub fn new(processor: &Processor, formatter: &Formatter, key: &str) -> (p: Property)
        ensures
            p@.processor == processor@,
            p@.formatter == *formatter,
            p@.key == key@,
    {
        Property { key: key.to_owned(), processor: processor.clone(), formatter: *formatter }
    }
}

/// A backend profile: the normalized backend id it was built for, its fixed
/// ordered catalog of metric properties, and the device-enumeration
/// invocation.
pub struct Provider {
    pub provider_type: i32,
    pub properties: Vec<Property>,
    pub uuid_processor: Processor,
}

/// The mathematical model of a [`Provider`].
pub struct ProviderModel {
    pub provider_type: int,
    pub properties: Seq<PropertyModel>,
    pub uuid_processor: ProcessorModel,
}

impl View for Provider {
    type V = ProviderModel;

    open spec fn view(&self) -> ProviderModel {
        ProviderModel {
            provider_type: self.provider_type as int,
            properties: self.properties.deep_view(),
            uuid_processor: self.uuid_processor@,
        }
    }
}

// --- the fixed catalogs ------------------------------------------------------
/// The backend id actually used: ids 0 through 3 stand, anything else falls
/// back to 0.
pub open spec fn normalize_backend(t: int) -> int {
    if 0 <= t <= 3 {
        t
    } else {
        0
    }
}

/// The query-style processor model of the `nvidia-smi` backends.
pub open spec fn smi_processor_model() -> ProcessorModel {
    ProcessorModel {
        base_call: "nvidia-smi"@,
        start_call: "--query-gpu="@,
        middle_call: None,
        end_call: " --format=csv,noheader -i "@,
    }
}

/// The settings-style processor model of the `nvidia-settings` backend.
pub open spec fn settings_processor_model() -> ProcessorModel {
    ProcessorModel {
        base_call: "nvidia-settings"@,
        start_call: "-q=[gpu:"@,
        middle_call: Some("]/"@),
        end_call: " -t"@,
    }
}

/// The query-style processor model of the `optirun` backend.
pub open spec fn optimus_processor_model() -> ProcessorModel {
    ProcessorModel {
        base_call: "optirun"@,
        start_call: "nvidia-smi --query-gpu="@,
        middle_call: None,
        end_call: " --format=csv,noheader -i "@,
    }
}

/// The metric catalog shared by the `nvidia-smi` backends (ids 0 and 2).
pub open spec fn smi_catalog() -> Seq<PropertyModel> {
    seq![
        PropertyModel { key: "gpu_name"@, processor: smi_processor_model(), formatter: Formatter::Identity },
        PropertyModel { key: "utilization.gpu"@, processor: smi_processor_model(), formatter: Formatter::Percentage },
        PropertyModel { key: "temperature.gpu"@, processor: smi_processor_model(), formatter: Formatter::Temperature },
        PropertyModel { key: "memory.used"@, processor: smi_processor_model(), formatter: Formatter::MemorySize },
        PropertyModel { key: "memory.total"@, processor: smi_processor_model(), formatter: Formatter::MemorySize },
        PropertyModel { key: "utilization.memory"@, processor: smi_processor_model(), formatter: Formatter::Percentage },
        PropertyModel { key: "fan.speed"@, processor: smi_processor_model(), formatter: Formatter::Percentage },
        PropertyModel { key: "power.draw"@, processor: smi_processor_model(), formatter: Formatter::Power },
    ]
}

/// The metric catalog of the `nvidia-settings` backend (id 1). It defines
/// no fan-speed or power property and reports no device name.
pub open spec fn settings_catalog() -> Seq<PropertyModel> {
    seq![
        PropertyModel {
            key: "GPUUtilization.gpu"@,
            processor: settings_processor_model(),
            formatter: Formatter::FieldPercentage { index: 0 },
        },
        PropertyModel { key: "GPUCoreTemp"@, processor: settings_processor_model(), formatter: Formatter::Temperature },
        PropertyModel { key: "UsedDedicatedGPUMemory"@, processor: settings_processor_model(), formatter: Formatter::MemorySize },
        PropertyModel { key: "TotalDedicatedGPUMemory"@, processor: settings_processor_model(), formatter: Formatter::MemorySize },
        PropertyModel {
            key: "GPUUtilization.mem"@,
            processor: settings_processor_model(),
            formatter: Formatter::FieldPercentage { index: 1 },
        },
    ]
}

/// The metric catalog of the `optirun` backend (id 3).
pub open spec fn optimus_catalog() -> Seq<PropertyModel> {
    seq![
        PropertyModel { key: "gpu_name"@, processor: optimus_processor_model(), formatter: Formatter::Identity },
        PropertyModel { key: "utilization.gpu"@, processor: optimus_processor_model(), formatter: Formatter::Percentage },
        PropertyModel { key: "temperature.gpu"@, processor: optimus_processor_model(), formatter: Formatter::Temperature },
        PropertyModel { key: "memory.used"@, processor: optimus_processor_model(), formatter: Formatter::MemorySize },
        PropertyModel { key: "memory.total"@, processor: optimus_processor_model(), formatter: Formatter::MemorySize },
        PropertyModel { key: "utilization.memory"@, processor: optimus_processor_model(), formatter: Formatter::Percentage },
        PropertyModel { key: "fan.speed"@, processor: optimus_processor_model(), formatter: Formatter::Percentage },
        PropertyModel { key: "power.draw"@, processor: optimus_processor_model(), formatter: Formatter::Power },
    ]
}

/// The catalog a requested backend id maps to.
pub open spec fn catalog_spec(t: int) -> Seq<PropertyModel> {
    let n = normalize_backend(t);
    if n == 1 {
        settings_catalog()
    } else if n == 3 {
        optimus_catalog()
    } else {
        smi_catalog()
    }
}

/// The list-mode (device-enumeration) invocation of a requested backend id:
/// a fixed command with no per-device or per-metric parts. Backends 0 and 1
/// enumerate through `nvidia-settings`, 2 through `nvidia-smi`, 3 through
/// `optirun`.
pub open spec fn uuid_processor_spec(t: int) -> ProcessorModel {
    let n = normalize_backend(t);
    if n == 2 {
        ProcessorModel {
            base_call: "nvidia-smi"@,
            start_call: "--query-gpu=uuid --format=csv,noheader"@,
            middle_call: None,
            end_call: ""@,
        }
    } else if n == 3 {
        ProcessorModel {
            base_call: "optirun"@,
            start_call: "nvidia-smi --query-gpu=uuid --format=csv,noheader"@,
            middle_call: None,
            end_call: ""@,
        }
    } else {
        ProcessorModel {
            base_call: "nvidia-settings"@,
            start_call: "-q GpuUUID -t"@,
            middle_call: None,
            end_call: ""@,
        }
    }
}

/// The whole provider a requested backend id maps to.
pub open spec fn provider_spec(t: int) -> ProviderModel {
    ProviderModel {
        provider_type: normalize_backend(t),
        properties: catalog_spec(t),
        uuid_processor: uuid_processor_spec(t),
    }
}

/// A query-style property of the `nvidia-smi` backends.
fn smi_property(key: &str, formatter: Formatter) -> (p: Property)
    ensures
        p@ == (PropertyModel { key: key@, processor: smi_processor_model(), formatter }),
{
    Property::new(
        &Processor::new("nvidia-smi", "--query-gpu=", None, " --format=csv,noheader -i "),
        &formatter,
        key,
    )
}

/// A settings-style property of the `nvidia-settings` backend.
fn settings_property(key: &str, formatter: Formatter) -> (p: Property)
    ensures
        p@ == (PropertyModel { key: key@, processor: settings_processor_model(), formatter }),
{
    Property::new(&Processor::new("nvidia-settings", "-q=[gpu:", Some("]/"), " -t"), &formatter, key)
}

/// A query-style property of the `optirun` backend.
fn optimus_property(key: &str, formatter: Formatter) -> (p: Property)
    ensures
        p@ == (PropertyModel { key: key@, processor: optimus_processor_model(), formatter }),
{
    Property::new(
        &Processor::new("optirun", "nvidia-smi --query-gpu=", None, " --format=csv,noheader -i "),
        &formatter,
        key,
    )
}

/// The metric properties of the `nvidia-smi` backends.
fn smi_catalog_vec() -> (props: Vec<Property>)
    ensures
        props.deep_view() == smi_catalog(),
{
    let mut props: Vec<Property> = Vec::new();
    props.push(smi_property("gpu_name", Formatter::Identity));
    props.push(smi_property("utilization.gpu", Formatter::Percentage));
    props.push(smi_property("temperature.gpu", Formatter::Temperature));
    props.push(smi_property("memory.used", Formatter::MemorySize));
    props.push(smi_property("memory.total", Formatter::MemorySize));
    props.push(smi_property("utilization.memory", Formatter::Percentage));
    props.push(smi_property("fan.speed", Formatter::Percentage));
    props.push(smi_property("power.draw", Formatter::Power));
    proof {
        assert(props.deep_view() =~= smi_catalog());
    }
    props
}

/// The metric properties of the `nvidia-settings` backend.
fn settings_catalog_vec() -> (props: Vec<Property>)
    ensures
        props.deep_view() == settings_catalog(),
{
    let mut props: Vec<Property> = Vec::new();
    props.push(settings_property("GPUUtilization.gpu", Formatter::FieldPercentage { index: 0 }));
    props.push(settings_property("GPUCoreTemp", Formatter::Temperature));
    props.push(settings_property("UsedDedicatedGPUMemory", Formatter::MemorySize));
    props.push(settings_property("TotalDedicatedGPUMemory", Formatter::MemorySize));
    props.push(settings_property("GPUUtilization.mem", Formatter::FieldPercentage { index: 1 }));
    proof {
        assert(props.deep_view() =~= settings_catalog());
    }
    props
}

/// The metric properties of the `optirun` backend.
fn optimus_catalog_vec() -> (props: Vec<Property>)
    ensures
        props.deep_view() == optimus_catalog(),
{
    let mut props: Vec<Property> = Vec::new();
    props.push(optimus_property("gpu_name", Formatter::Identity));
    props.push(optimus_property("utilization.gpu", Formatter::Percentage));
    props.push(optimus_property("temperature.gpu", Formatter::Temperature));
    props.push(optimus_property("memory.used", Formatter::MemorySize));
    props.push(optimus_property("memory.total", Formatter::MemorySize));
    props.push(optimus_property("utilization.memory", Formatter::Percentage));
    props.push(optimus_property("fan.speed", Formatter::Percentage));
    props.push(optimus_property("power.draw", Formatter::Power));
    proof {
        assert(props.deep_view() =~= optimus_catalog());
    }
    props
}

/// Builds the provider for a requested backend id: its fixed catalog with
/// pinned command fragments and its device-enumeration invocation. An
/// unknown or out-of-range id yields backend 0's profile.
pub fn create_provider(provider_type: i32) -> (p: Provider)
    ensures
        p@ == provider_spec(provider_type as int),
{
    let normalized: i32 = if 0 <= provider_type && provider_type <= 3 {
        provider_type
    } else {
        0
    };
    if normalized == 1 {
        Provider {
            provider_type: normalized,
            properties: settings_catalog_vec(),
            uuid_processor: Processor::new("nvidia-settings", "-q GpuUUID -t", None, ""),
        }
    } else if normalized == 2 {
        Provider {
            provider_type: normalized,
            properties: smi_catalog_vec(),
            uuid_processor: Processor::new(
                "nvidia-smi",
                "--query-gpu=uuid --format=csv,noheader",
                None,
                "",
            ),
        }
    } else if normalized == 3 {
        Provider {
            provider_type: normalized,
            properties: optimus_catalog_vec(),
            uuid_processor: Processor::new(
                "optirun",
                "nvidia-smi --query-gpu=uuid --format=csv,noheader",
                None,
                "",
            ),
        }
    } else {
        Provider {
            provider_type: normalized,
            properties: smi_catalog_vec(),
            uuid_processor: Processor::new("nvidia-settings", "-q GpuUUID -t", None, ""),
        }
    }
}

// --- lookup and resolution ---------------------------------------------------
/// Errors of provider lookups.
#[derive(Debug)]
pub enum ProviderError {
    /// No property stands under the requested key.
    UnknownKey,
    /// The property resolved to nothing: execution failed, output was
    /// empty, or formatting failed.
    ResolveFailed,
    /// The device-enumeration process could not be executed.
    Exec(ExecutionError),
}

/// Index of the first property under `key`, if any.
pub open spec fn key_index(props: Seq<PropertyModel>, key: Seq<char>) -> Option<int>
    decreases props.len(),
{
    if props.len() == 0 {
        None
    } else if props[0].key == key {
        Some(0)
    } else {
        match key_index(props.skip(1), key) {
            Some(i) => Some(i + 1),
            None => None,
        }
    }
}

/// `key_index` points at the first property under `key`, and is `None`
/// exactly when no property carries it.
pub proof fn lemma_key_index_first(props: Seq<PropertyModel>, key: Seq<char>)
    ensures
        match key_index(props, key) {
            Some(i) => 0 <= i < props.len() && props[i].key == key && (forall|j: int|
                0 <= j < i ==> props[j].key != key),
            None => forall|j: int| 0 <= j < props.len() ==> props[j].key != key,
        },
    decreases props.len(),
{
    if props.len() > 0 && props[0].key != key {
        let tail = props.skip(1);
        lemma_key_index_first(tail, key);
        match key_index(tail, key) {
            Some(i) => {
                assert(props[i + 1] == tail[i]);
                assert forall|j: int| 0 <= j < i + 1 implies props[j].key != key by {
                    if j >= 1 {
                        assert(tail[j - 1].key != key);
                        assert(tail[j - 1] == props[j]);
                    }
                }
            },
            None => {
                assert forall|j: int| 0 <= j < props.len() implies props[j].key != key by {
                    if j >= 1 {
                        assert(tail[j - 1].key != key);
                        assert(tail[j - 1] == props[j]);
                    }
                }
            },
        }
    }
}

impl Property {
    /// Resolves this metric for the device `uuid`: executes the processor
    /// with this property's key and formats the parsed lines under
    /// `params`. Yields `None` when execution fails, output was empty, or
    /// formatting fails; a `Some` is always the formatter applied to the
    /// parsed lines of some captured stdout.
    pub fn resolve<E: Executor>(
        &self,
        executor: &mut E,
        uuid: &str,
        params: &Option<Vec<(String, String)>>,
    ) -> (r: Option<String>)
        ensures
            match r {
                Some(s) => exists|out: Seq<char>|
                    Some(s@) == apply_spec(self.formatter, parse_lines(out), params.deep_view()),
                None => true,
            },
    {
        match self.processor.process(executor, Some(uuid), Some(self.key.as_str())) {
            Err(_) => None,
            Ok(None) => None,
            Ok(Some(lines)) => {
                let formatted: Option<String> = self.formatter.apply(&lines, params);
                proof {
                    if let Some(s) = &formatted {
                        let out = choose|out: Seq<char>| lines.deep_view() == parse_lines(out);
                        assert(Some(s@) == apply_spec(
                            self.formatter,
                            parse_lines(out),
                            params.deep_view(),
                        ));
                    }
                }
                formatted
            },
        }
    }
}

impl Provider {
    /// Enumerates devices: runs this backend's list-mode invocation and
    /// returns the parsed identifiers, one per output line, in order —
    /// empty stdout enumerates no devices. The error is exactly a failure
    /// to execute the enumeration process.
    pub fn get_gpu_uuids<E: Executor>(&self, executor: &mut E) -> (r: Result<
        Vec<String>,
        ProviderError,
    >)
        ensures
            match r {
                Ok(ids) => exists|out: Seq<char>| ids.deep_view() == parse_lines(out),
                Err(e) => e is Exec,
            },
    {
        match self.uuid_processor.process(executor, None, None) {
            Err(e) => Err(ProviderError::Exec(e)),
            Ok(None) => {
                let ids: Vec<String> = Vec::new();
                proof {
                    assert(ids.deep_view() =~= parse_lines(Seq::<char>::empty()));
                }
                Ok(ids)
            },
            Ok(Some(lines)) => Ok(lines),
        }
    }

    /// Resolves the metric under `key` for the device `uuid`.
    /// `UnknownKey` exactly when no property of this backend carries `key`;
    /// `ResolveFailed` when the first property under `key` resolved to
    /// nothing; otherwise the formatted value of that property.
    pub fn get_gpu_data<E: Executor>(
        &self,
        executor: &mut E,
        uuid: &str,
        key: &str,
        params: &Option<Vec<(String, String)>>,
    ) -> (r: Result<String, ProviderError>)
        ensures
            (r matches Err(e) && e is UnknownKey) <==> key_index(self@.properties, key@) is None,
            match r {
                Ok(s) => {
                    let i = key_index(self@.properties, key@)->Some_0;
                    exists|out: Seq<char>|
                        Some(s@) == apply_spec(
                            self@.properties[i].formatter,
                            parse_lines(out),
                            params.deep_view(),
                        )
                },
                Err(e) => !(e is Exec),
            },
    {
        proof {
            lemma_key_index_first(self@.properties, key@);
        }
        let key_string: String = key.to_owned();
        let mut i: usize = 0;
        while i < self.properties.len()
            invariant
                i <= self.properties.len(),
                key_string@ == key@,
                forall|j: int| 0 <= j < i ==> self.properties.deep_view()[j].key != key@,
            decreases self.properties.len() - i,
        {
            let property: &Property = &self.properties[i];
            if property.key.eq(&key_string) {
                proof {
                    assert(self.properties.deep_view()[i as int].key == key@);
                    lemma_key_index_first(self@.properties, key@);
                    assert(key_index(self@.properties, key@) == Some(i as int));
                }
                return match property.resolve(executor, uuid, params) {
                    Some(s) => Ok(s),
                    None => Err(ProviderError::ResolveFailed),
                };
            }
            proof {
                assert(self.properties.deep_view()[i as int].key == self.properties@[
                    i as int
                ].key@);
            }
            i += 1;
        }
        proof {
            lemma_key_index_first(self@.properties, key@);
        }
        Err(ProviderError::UnknownKey)
    }
}

/// The metric key under which a backend reports the device display name
/// (the `nvidia-settings` backend has no such property; its name lookups
/// fail and callers fall back to the device id).
pub fn name_key() -> (r: String)
    ensures
        r@ == "gpu_name"@,
{
    "gpu_name".to_owned()
}

} // verus!
