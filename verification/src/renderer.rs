//! The configuration of renderer processes and the states a process goes
//! through.

use vstd::prelude::*;

verus! {

/// Renderer process configuration
#[derive(Debug, Clone)]
pub struct RendererConfig {
    /// Enable site isolation
    pub site_isolation_enabled: bool,
    /// Maximum number of renderer processes
    pub max_processes: usize,
    /// Memory limit per process (in MB)
    pub memory_limit_mb: usize,
    /// Enable hardware acceleration
    pub hardware_acceleration: bool,
    /// Enable JavaScript JIT compilation
    pub js_jit_enabled: bool,
    /// Enable WebAssembly
    pub wasm_enabled: bool,
    /// Enable WebGL
    pub webgl_enabled: bool,
    /// Enable WebGPU
    pub webgpu_enabled: bool,
}

impl Default for RendererConfig {
    /// Site isolation on with at most ten processes of 512 MB each, every
    /// feature enabled but WebGPU.
    fn default() -> (r: Self)
        ensures
            r.site_isolation_enabled,
            r.max_processes == 10,
            r.memory_limit_mb == 512,
            r.hardware_acceleration,
            r.js_jit_enabled,
            r.wasm_enabled,
            r.webgl_enabled,
            !r.webgpu_enabled,
    {
        RendererConfig {
            site_isolation_enabled: true,
            max_processes: 10,
            memory_limit_mb: 512,
            hardware_acceleration: true,
            js_jit_enabled: true,
            wasm_enabled: true,
            webgl_enabled: true,
            webgpu_enabled: false,
        }
    }
}

/// Renderer process state
#[derive(Debug, Clone)]
pub enum RendererState {
    /// Process is starting up
    Starting,
    /// Process is ready to handle requests
    Ready,
    /// Process is busy rendering
    Rendering,
    /// Process is shutting down
    ShuttingDown,
    /// Process has crashed
    Crashed(String),
}

} // verus!
