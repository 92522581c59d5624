//! Narrowly targeted WebKitGTK workaround applied before the desktop webview starts.
use vstd::prelude::*;

verus! {

pub struct GraphicsWorkaroundService;

impl GraphicsWorkaroundService {
    /// DMA-BUF rendering is disabled only on Linux hosts with the NVIDIA driver loaded, and
    /// never when the user configured the setting themselves.
    pub fn should_disable_dmabuf(is_linux: bool, has_nvidia: bool, is_user_configured: bool) -> (r:
        bool)
        ensures
            r == (is_linux && has_nvidia && !is_user_configured),
    {
        is_linux && has_nvidia && !is_user_configured
    }
}

} // verus!
