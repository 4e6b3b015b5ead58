//! Execution-runtime selection: which backing runtime runs shell-level
//! work for the agent. Only the native runtime exists today.

use vstd::prelude::*;

use crate::strings::{str_eq, trim_spec, trim_str};
use vstd::string::StrSliceExecFns;

verus! {

/// An execution runtime's surface.
pub trait RuntimeAdapter {
    fn name(&self) -> (n: &'static str);

    fn has_shell_access(&self) -> (b: bool);
}

/// The native runtime: commands run directly on the host.
pub struct NativeRuntime {}

impl NativeRuntime {
    pub fn new() -> (r: NativeRuntime) {
        NativeRuntime {  }
    }
}

impl RuntimeAdapter for NativeRuntime {
    fn name(&self) -> (n: &'static str)
        ensures
            n@ == "native"@,
    {
        "native"
    }

    fn has_shell_access(&self) -> (b: bool)
        ensures
            b,
    {
        true
    }
}

/// Why a runtime kind was refused.
#[derive(Clone, Debug)]
pub enum RuntimeError {
    /// Recognised but not yet available.
    NotImplemented { kind: String },
    /// The configured kind is blank.
    EmptyKind,
    /// No runtime of this name exists.
    Unknown { kind: String },
}

impl RuntimeError {
    /// A diagnostic line for the user.
    pub fn message(&self) -> (m: String) {
        match self {
            RuntimeError::NotImplemented { kind } => crate::strings::concat_str(
                kind.as_str(),
                " 运行时尚未实现。请使用 runtime.kind='native'。",
            ),
            RuntimeError::EmptyKind => "runtime.kind 不能为空。支持的值: native".to_owned(),
            RuntimeError::Unknown { kind } => crate::strings::concat_str(
                crate::strings::concat_str("未知的运行时类型「", kind.as_str()).as_str(),
                "」。支持的值: native",
            ),
        }
    }
}

/// Factory: create the right runtime from the configured kind.
///
/// Only `"native"` is available; `"docker"` and `"cloudflare"` are
/// recognised but not implemented, a blank kind and any other name are
/// refused.
pub fn create_runtime(kind: &str) -> (r: Result<NativeRuntime, RuntimeError>)
    ensures
        ({
            let k = kind@;
            match r {
                Ok(_) => k == "native"@,
                Err(e) => k != "native"@ && match e {
                    RuntimeError::NotImplemented { kind: n } => (k == "docker"@ || k
                        == "cloudflare"@) && n@ == k,
                    RuntimeError::EmptyKind => k != "docker"@ && k != "cloudflare"@ && trim_spec(
                        k,
                    ).len() == 0,
                    RuntimeError::Unknown { kind: n } => k != "docker"@ && k != "cloudflare"@
                        && trim_spec(k).len() != 0 && n@ == k,
                },
            }
        }),
{
    if str_eq(kind, "native") {
        Ok(NativeRuntime::new())
    } else if str_eq(kind, "docker") || str_eq(kind, "cloudflare") {
        Err(RuntimeError::NotImplemented { kind: kind.to_owned() })
    } else {
        let trimmed = trim_str(kind);
        if trimmed.as_str().unicode_len() == 0 {
            Err(RuntimeError::EmptyKind)
        } else {
            Err(RuntimeError::Unknown { kind: kind.to_owned() })
        }
    }
}

} // verus!
