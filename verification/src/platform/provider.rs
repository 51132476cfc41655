use vstd::prelude::*;

verus! {

/// Configuration for initializing a sync provider.
#[derive(Debug, Clone)]
pub struct ProviderConfig {
    pub sync_path: String,
    pub display_name: String,
    pub icon_path: Option<String>,
    /// Opaque provider ID string.
    pub provider_id: String,
    pub instance_url: String,
    pub user_id: String,
    pub remote_path: String,
    pub recycle_bin_uri: String,
}

/// Options for updating a placeholder.
#[derive(Debug, Clone, Copy, Default)]
pub struct UpdateOptions {
    pub dehydrate: bool,
    pub mark_no_children: bool,
}

} // verus!
