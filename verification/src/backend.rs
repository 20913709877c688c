//! Where a model is run.
use vstd::prelude::*;

use crate::device::{DeviceSelector, DeviceType};
use crate::device_list::DeviceTarget;
use crate::error::AsrError;
use crate::text::lit;

verus! {

/// A compute backend.
#[derive(Clone, Copy, Debug, PartialEq, Eq, Structural)]
pub enum Backend {
    Auto,
    Cpu,
    Gpu,
}

/// Where the audio tower runs.
#[derive(Clone, Copy, Debug, PartialEq, Eq, Structural)]
pub enum EncoderBackend {
    Cpu,
    Gpu,
}

/// Why [`Backend::Gpu`] is refused.
pub open spec fn no_gpu() -> Seq<char> {
    "no GPU adapter: wgpu sees no device that is not itself a CPU implementation — use Backend::Cpu, or Backend::Auto to fall back"@
}

/// Some target is no software device.
pub open spec fn sees_gpu(targets: Seq<DeviceTarget>) -> bool {
    exists|i: int| 0 <= i < targets.len() && !((#[trigger] targets[i]).info.device_type is Cpu)
}

/// Whether some target is no software device.
pub fn has_gpu_adapter(targets: &Vec<DeviceTarget>) -> (r: bool)
    ensures
        r == sees_gpu(targets@),
{
    for i in 0..targets.len()
        invariant
            forall|k: int| 0 <= k < i ==> (#[trigger] targets@[k]).info.device_type is Cpu,
    {
        match targets[i].info.device_type {
            DeviceType::Cpu => {},
            _ => {
                return true;
            },
        }
    }
    false
}

impl Default for Backend {
    /// The default backend: whatever is best.
    fn default() -> (r: Backend)
        ensures
            r is Auto,
    {
        Backend::Auto
    }
}

impl Backend {
    /// The best backend there is: the default one.
    pub fn best() -> (r: Backend)
        ensures
            r == Backend::Auto,
    {
        Backend::default()
    }

    /// A short label.
    pub fn tag(&self) -> (r: &'static str)
        ensures
            r@ == match *self {
                Backend::Auto => "auto"@,
                Backend::Cpu => "cpu"@,
                Backend::Gpu => "gpu"@,
            },
    {
        match *self {
            Backend::Auto => "auto",
            Backend::Cpu => "cpu",
            Backend::Gpu => "gpu",
        }
    }

    /// The device and the place of the audio tower: the host for both, or the
    /// default device for both. An explicit GPU is refused where there is none.
    pub fn resolve(&self, targets: &Vec<DeviceTarget>) -> (r: Result<(DeviceSelector, EncoderBackend), AsrError>)
        ensures
            match *self {
                Backend::Cpu => r is Ok && r->Ok_0.0 is Cpu && r->Ok_0.1 is Cpu,
                Backend::Auto => r is Ok && r->Ok_0.0 is Auto && r->Ok_0.1 is Gpu,
                Backend::Gpu => if sees_gpu(targets@) {
                    r is Ok && r->Ok_0.0 is Auto && r->Ok_0.1 is Gpu
                } else {
                    r is Err && r->Err_0 is ModelLoad && r->Err_0->ModelLoad_0@ == no_gpu()
                },
            },
    {
        match *self {
            Backend::Auto => Ok((DeviceSelector::Auto, EncoderBackend::Gpu)),
            Backend::Cpu => Ok((DeviceSelector::Cpu, EncoderBackend::Cpu)),
            Backend::Gpu => {
                if !has_gpu_adapter(targets) {
                    return Err(
                        AsrError::ModelLoad(
                            lit(
                                "no GPU adapter: wgpu sees no device that is not itself a CPU implementation — use Backend::Cpu, or Backend::Auto to fall back",
                            ),
                        ),
                    );
                }
                Ok((DeviceSelector::Auto, EncoderBackend::Gpu))
            },
        }
    }
}

} // verus!
