use std::path::PathBuf;

use anyhow::Result;
use cloudreve_sync::drive::utils::{SHCNE_ATTRIBUTES, notify_shell_change};

#[test]
fn linux_notify_shell_change_is_noop_for_missing_path() -> Result<()> {
    let missing = PathBuf::from("/tmp/cloudreve-sync-test-missing-path");
    notify_shell_change(&missing, SHCNE_ATTRIBUTES)?;
    Ok(())
}
