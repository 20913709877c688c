use qwen3_asr_wgpu::backend::{has_gpu_adapter, Backend, EncoderBackend};
use qwen3_asr_wgpu::device::{candidates, has_part, rank, Api, DeviceInfo, DeviceSelector, DeviceType, SelectorError};
use qwen3_asr_wgpu::device_list::{
    buffer_size, list_names, list_targets, readback_size, select, vendor_label, BulkUpload, DeviceTarget, SelectError, UploadStep,
    STAGING_BUDGET,
};
use qwen3_asr_wgpu::error::AsrError;

fn info(name: &str, backend: Api, device_type: DeviceType) -> DeviceInfo {
    DeviceInfo {
        name: name.to_string(),
        backend,
        device_type,
        driver: "drv".to_string(),
        driver_info: "1.2".to_string(),
        max_binding_bytes: 2 << 30,
        max_workgroup_storage: 49152,
        subgroup: true,
        subgroup_min: 32,
        subgroup_max: 32,
        timestamps: true,
        vendor_id: 0x10DE,
        device_id: 7,
    }
}

fn machine() -> Vec<DeviceInfo> {
    vec![
        info("llvmpipe", Api::Vulkan, DeviceType::Cpu),
        info("Intel UHD", Api::Dx12, DeviceType::IntegratedGpu),
        info("NVIDIA GTX", Api::Dx12, DeviceType::DiscreteGpu),
        info("NVIDIA GTX", Api::Vulkan, DeviceType::DiscreteGpu),
    ]
}

#[test]
fn selectors_are_read() {
    assert!(matches!(DeviceSelector::parse("auto"), Ok(DeviceSelector::Auto)));
    assert!(matches!(DeviceSelector::parse(""), Ok(DeviceSelector::Auto)));
    assert!(matches!(DeviceSelector::parse("CPU"), Ok(DeviceSelector::Cpu)));
    assert!(matches!(DeviceSelector::parse("vulkan"), Ok(DeviceSelector::Runtime { api: Api::Vulkan, index: 0 })));
    assert!(matches!(DeviceSelector::parse("dx12:1"), Ok(DeviceSelector::Runtime { api: Api::Dx12, index: 1 })));
    assert!(matches!(DeviceSelector::parse("#3"), Ok(DeviceSelector::Index(3))));
    assert!(matches!(DeviceSelector::parse("nvidia"), Ok(DeviceSelector::Name(n)) if n == "nvidia"));
    assert!(matches!(DeviceSelector::parse("vulkan:x"), Err(SelectorError::RuntimeIndex)));
    assert!(matches!(DeviceSelector::parse("#x"), Err(SelectorError::DeviceIndex)));
    assert!(matches!(DeviceSelector::parse("geforce:abc"), Ok(DeviceSelector::Name(n)) if n == "geforce:abc"));
    assert!(matches!(DeviceSelector::parse("GeForce:1"), Ok(DeviceSelector::Name(n)) if n == "geforce:1"));
}

#[test]
fn selection_prefers_the_best_rank() {
    let m = machine();
    assert_eq!(rank(&m[3]), (0, 0));
    assert_eq!(rank(&m[1]), (1, 2));
    assert_eq!(candidates(&m, &DeviceSelector::Auto), vec![3, 2, 1, 0]);
    assert_eq!(select(&m, &DeviceSelector::Auto), Ok(3));
    assert_eq!(select(&m, &DeviceSelector::parse("dx12").unwrap()), Ok(2));
    assert_eq!(select(&m, &DeviceSelector::parse("dx12:1").unwrap()), Ok(1));
    assert_eq!(select(&m, &DeviceSelector::parse("#0").unwrap()), Ok(0));
    assert_eq!(select(&m, &DeviceSelector::parse("uhd").unwrap()), Ok(1));
}

#[test]
fn selection_errors() {
    let m = machine();
    assert_eq!(select(&m, &DeviceSelector::Cpu), Err(SelectError::HostBackend));
    assert_eq!(select(&Vec::new(), &DeviceSelector::Auto), Err(SelectError::NoAdapters));
    assert_eq!(select(&m, &DeviceSelector::Index(9)), Err(SelectError::NoSuchDevice { index: 9, adapters: 4 }));
    assert_eq!(select(&m, &DeviceSelector::parse("metal").unwrap()), Err(SelectError::NoMatch));
    let far = DeviceSelector::Runtime { api: Api::Vulkan, index: 5 };
    assert_eq!(select(&m, &far), Err(SelectError::NoSuchIndex { index: 5, devices: 2 }));
}

#[test]
fn a_listed_spec_selects_its_device() {
    let m = machine();
    let targets = list_targets(&m);
    assert_eq!(targets.len(), 4);
    for t in &targets {
        let sel = DeviceSelector::parse(&t.spec).unwrap();
        assert_eq!(select(&m, &sel), Ok(t.adapter));
    }
    let defaults: Vec<usize> = targets.iter().filter(|t| t.is_default).map(|t| t.adapter).collect();
    assert_eq!(defaults, vec![3]);
    assert_eq!(targets[0].spec, "vulkan:0");
    assert_eq!(
        targets[0].describe(),
        "* vulkan:0  NVIDIA GTX (NVIDIA, dGPU, driver drv) binding 2048 MiB, subgroup 32"
    );
    assert!(has_gpu_adapter(&targets));
    let mut card = info("NVIDIA P104-100", Api::Vulkan, DeviceType::DiscreteGpu);
    card.driver = "572.75".to_string();
    card.max_binding_bytes = 2047 << 20;
    let t = DeviceTarget { spec: "vulkan:0".to_string(), adapter: 0, info: card, is_default: false };
    assert_eq!(
        t.describe(),
        "vulkan:0  NVIDIA P104-100 (NVIDIA, dGPU, driver 572.75) binding 2047 MiB, subgroup 32"
    );
    let named = |spec: &str| DeviceTarget { spec: spec.to_string(), ..t.clone() }.describe();
    assert!(named("gl:0").starts_with("gl:0      NVIDIA"));
    assert!(named("dx12:0").starts_with("dx12:0    NVIDIA"));
    assert!(named("webgpu:123").starts_with("webgpu:123 NVIDIA"));
}

#[test]
fn devices_in_words() {
    let mut d = info("NVIDIA GTX", Api::Vulkan, DeviceType::DiscreteGpu);
    assert_eq!(
        d.describe(),
        "NVIDIA GTX (Vulkan, DiscreteGpu) | drv 1.2 | wg workgroup storage 49152 B, binding 2048 MiB, subgroup 32"
    );
    assert_eq!(
        d.describe_device(),
        "NVIDIA GTX (Vulkan, DiscreteGpu) | drv 1.2 | wg workgroup storage 49152 B, maxStorageBufferBindingSize 2048 MiB"
    );
    d.subgroup_max = 64;
    assert!(d.describe().ends_with("subgroup 32..64"));
    assert_eq!(vendor_label(0x1022), "AMD");
    assert_eq!(vendor_label(1), "other");
    assert!(list_names(&machine()).contains("Intel UHD"));
    assert!(has_part("abcabd", "abd"));
    assert!(!has_part("ab", "abc"));
}

#[test]
fn defaults() {
    assert_eq!(Backend::default(), Backend::Auto);
    assert_eq!(Backend::best(), Backend::default());
    assert_eq!(DeviceSelector::default(), DeviceSelector::Auto);
}

#[test]
fn the_default_survives_another_order() {
    let m = machine();
    let default = list_targets(&m).into_iter().find(|t| t.is_default).unwrap();
    for order in [[3usize, 2, 1, 0], [1, 3, 0, 2], [2, 0, 3, 1]] {
        let again: Vec<DeviceInfo> = order.iter().map(|i| m[*i].clone()).collect();
        let picked = select(&again, &DeviceSelector::Auto).unwrap();
        assert_eq!(order[picked], default.adapter);
    }
}

#[test]
fn backends_resolve() {
    let targets = list_targets(&machine());
    let none = list_targets(&vec![info("llvmpipe", Api::Vulkan, DeviceType::Cpu)]);
    assert_eq!(Backend::best(), Backend::Auto);
    assert_eq!(Backend::Gpu.tag(), "gpu");
    assert!(matches!(Backend::Gpu.resolve(&targets), Ok((DeviceSelector::Auto, EncoderBackend::Gpu))));
    assert!(matches!(Backend::Cpu.resolve(&none), Ok((DeviceSelector::Cpu, EncoderBackend::Cpu))));
    assert!(matches!(Backend::Auto.resolve(&none), Ok((DeviceSelector::Auto, EncoderBackend::Gpu))));
    match Backend::Gpu.resolve(&none) {
        Err(e @ AsrError::ModelLoad(_)) => assert!(e.message().starts_with("Model load failed: no GPU adapter")),
        _ => panic!("no GPU was accepted"),
    }
    assert_eq!(AsrError::InvalidOptions("x".to_string()).message(), "Invalid options: x");
    assert_eq!(AsrError::Inference("x".to_string()).message(), "Inference failed: x");
    assert_eq!(AsrError::AudioDecode("x".to_string()).message(), "Audio decode failed: x");
}

#[test]
fn buffers_are_padded() {
    assert_eq!(buffer_size(0), 16);
    assert_eq!(buffer_size(16), 16);
    assert_eq!(buffer_size(17), 32);
    assert_eq!(readback_size(1), 4);
    assert_eq!(readback_size(5), 8);
}

#[test]
fn uploads_stay_within_the_budget() {
    let mut up = BulkUpload::new();
    assert!(!up.finish());
    let a = up.upload(100);
    assert_eq!(a, vec![UploadStep::Write { offset: 0, len: 100 }]);
    assert!(up.finish());
    let budget = STAGING_BUDGET as usize;
    let b = up.upload(budget + 10);
    let mut pending = 100usize;
    let mut at = 0usize;
    for s in b {
        match s {
            UploadStep::Flush => pending = 0,
            UploadStep::Write { offset, len } => {
                assert_eq!(offset, at);
                at += len;
                pending += len;
                assert!(pending <= budget);
            }
        }
    }
    assert_eq!(at, budget + 10);
}
