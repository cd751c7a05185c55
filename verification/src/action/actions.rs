//! Well-known action verbs.
//!
//! Actions are namespaced strings so any agent can introduce its own verbs
//! without a breaking change. These constants cover the common cases and map
//! directly onto the action categories an agent runtime already distinguishes
//! (shell, filesystem, delegation, remote execution, durable memory).

use vstd::prelude::*;

verus! {

/// Execute a shell command.
pub const EXEC: &'static str = "exec";

/// Read a file or directory.
pub const FS_READ: &'static str = "fs.read";

/// Create or overwrite a file.
pub const FS_WRITE: &'static str = "fs.write";

/// Modify an existing file in place.
pub const FS_EDIT: &'static str = "fs.edit";

/// Hand work to another agent or tool.
pub const AGENT_DELEGATE: &'static str = "agent.delegate";

/// Execute something on a remote host.
pub const NET_REMOTE: &'static str = "net.remote";

/// Persist a durable fact to long-term memory.
pub const MEMORY_REMEMBER: &'static str = "memory.remember";

} // verus!
