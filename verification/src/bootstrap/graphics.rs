//! The video memory assumed when the adapter does not report it.
use vstd::prelude::*;

verus! {

/// The graphics API an adapter is driven through.
#[derive(Debug, Clone, Copy, PartialEq, Eq, Structural)]
pub enum GpuBackend {
    Vulkan,
    Dx12,
    Metal,
    Gl,
    BrowserWebGpu,
    Other,
}

/// The kind of adapter.
#[derive(Debug, Clone, Copy, PartialEq, Eq, Structural)]
pub enum GpuDeviceType {
    DiscreteGpu,
    IntegratedGpu,
    Other,
}

/// The video memory assumed for an adapter, in MB: on native APIs 2048 for a discrete
/// GPU, 1024 for an integrated one, 512 otherwise; on OpenGL 2048 for a discrete GPU and
/// 512 otherwise; 256 in a browser; 512 elsewhere.
pub open spec fn assumed_vram_mb(backend: GpuBackend, device_type: GpuDeviceType) -> usize {
    match backend {
        GpuBackend::Vulkan | GpuBackend::Dx12 | GpuBackend::Metal => match device_type {
            GpuDeviceType::DiscreteGpu => 2048usize,
            GpuDeviceType::IntegratedGpu => 1024,
            GpuDeviceType::Other => 512,
        },
        GpuBackend::Gl => if device_type == GpuDeviceType::DiscreteGpu {
            2048usize
        } else {
            512
        },
        GpuBackend::BrowserWebGpu => 256usize,
        GpuBackend::Other => 512usize,
    }
}

/// Video memory, in MB, assumed for an adapter that does not report it.
pub fn fallback_vram_capacity_mb(backend: GpuBackend, device_type: GpuDeviceType) -> (r: usize)
    ensures
        r == assumed_vram_mb(backend, device_type),
{
    match backend {
        GpuBackend::Vulkan | GpuBackend::Dx12 | GpuBackend::Metal => match device_type {
            GpuDeviceType::DiscreteGpu => 2048,
            GpuDeviceType::IntegratedGpu => 1024,
            GpuDeviceType::Other => 512,
        },
        GpuBackend::Gl => {
            if device_type == GpuDeviceType::DiscreteGpu {
                2048
            } else {
                512
            }
        },
        GpuBackend::BrowserWebGpu => 256,
        GpuBackend::Other => 512,
    }
}

/// Video memory, in MB: the budget the system reports where it reports one (DXGI on
/// Windows), else the assumed capacity of the adapter.
pub fn detect_vram_capacity_mb(
    reported_budget_mb: Option<usize>,
    backend: GpuBackend,
    device_type: GpuDeviceType,
) -> (r: usize)
    ensures
        r == match reported_budget_mb {
            Some(b) => b,
            None => assumed_vram_mb(backend, device_type),
        },
{
    match reported_budget_mb {
        Some(b) => b,
        None => fallback_vram_capacity_mb(backend, device_type),
    }
}

} // verus!
