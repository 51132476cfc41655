//! The decisions of the Windows cloud-filter provider that need no system
//! call: which sync root a drive registers under, and how a file's
//! placeholder information reads as a platform-neutral state.  Registering,
//! connecting and the shell calls run outside the library.

use vstd::prelude::*;
use crate::cfapi::filter::ticket::FetchData;
use crate::cfapi::metadata::Metadata;
use crate::cfapi::placeholder::{LocalFileInfo, PinState};
use crate::cfapi::placeholder_file::PlaceholderFile;
use crate::platform::error::PlatformError;
use crate::platform::types::{FileMetadataPlatform, PlaceholderEntry};
use nt_time::FileTime;
use crate::cfapi::utility::WriteAt;
use crate::platform::linux::cache_impl::{hex_char, hex_digit};
use crate::platform::provider::ProviderConfig;
use crate::platform::types::{HydrationWriter, LocalFileState};

verus! {

/// What `url::Url::parse` and then `Url::host_str` give for a text: the
/// parse error's message, or else the URL's host if it has one.
pub uninterp spec fn url_host_of(s: Seq<char>) -> Result<Option<Seq<char>>, Seq<char>>;

/// The digest that `sha2::Sha256::digest` computes of some bytes.
pub uninterp spec fn sha256_of(data: Seq<u8>) -> Seq<u8>;

/// A host lookup's outcome, its texts taken as character sequences.
pub open spec fn host_outcome(r: Result<Option<String>, String>) -> Result<Option<Seq<char>>, Seq<char>> {
    match r {
        Ok(Some(h)) => Ok(Some(h@)),
        Ok(None) => Ok(None),
        Err(e) => Err(e@),
    }
}

/// `url::Url::parse`, then `Url::host_str` on the parsed URL; a parse error
/// comes back as its `Display` text.  Claimed: the outcome is a function of
/// the text alone.
#[verifier::external_body]
fn url_host(s: &str) -> (r: Result<Option<String>, String>)
    ensures
        host_outcome(r) == url_host_of(s@),
{
    match url::Url::parse(s) {
        Ok(u) => Ok(u.host_str().map(|h| h.to_owned())),
        Err(e) => Err(e.to_string()),
    }
}

/// `sha2::Sha256::digest`: the SHA-256 digest of some bytes, which is 32
/// bytes long.
#[verifier::external_body]
fn sha256(data: &[u8]) -> (r: Vec<u8>)
    ensures
        r@ == sha256_of(data@),
        r@.len() == 32,
{
    <sha2::Sha256 as sha2::Digest>::digest(data).to_vec()
}

/// Bytes written in lower-case hexadecimal, two digits a byte, high digit
/// first (what `{:x}` prints of a digest).
pub open spec fn hex_lower(s: Seq<u8>) -> Seq<char> {
    Seq::new(
        2 * s.len(),
        |i: int|
            if i % 2 == 0 {
                hex_char((s[i / 2] / 16) as nat)
            } else {
                hex_char((s[i / 2] % 16) as nat)
            },
    )
}

/// The first `n` bytes in lower-case hexadecimal.
fn hex_prefix(bytes: &Vec<u8>, n: usize) -> (r: String)
    requires
        n <= bytes.len(),
    ensures
        r@ == hex_lower(bytes@).take(2 * n),
{
    let mut out = String::new();
    let mut i: usize = 0;
    while i < n
        invariant
            i <= n,
            n <= bytes.len(),
            out@ == hex_lower(bytes@).take(2 * i),
        decreases n - i,
    {
        let b = bytes[i];
        let hi = (b / 16) as u64;
        let lo = (b % 16) as u64;
        out.append(hex_digit(hi));
        out.append(hex_digit(lo));
        proof {
            let h = hex_lower(bytes@);
            assert((2 * i) / 2 == i);
            assert((2 * i + 1) / 2 == i);
            assert((2 * i) % 2 == 0);
            assert((2 * i + 1) % 2 == 1);
            assert(h[2 * i] == hex_char(hi as nat));
            assert(h[2 * i + 1] == hex_char(lo as nat));
            assert(h.take(2 * (i + 1)) =~= h.take(2 * i).push(h[2 * i]).push(h[2 * i + 1]));
        }
        i += 1;
    }
    out
}

/// The provider name a new sync root gets: "cloudreve" and the first 16
/// hexadecimal digits of the SHA-256 digest of the instance's host and then
/// the sync path (as UTF-8).  Fails with the URL's parse error, or when the
/// URL has no host.
pub open spec fn sync_root_provider_name(instance_url: Seq<char>, sync_path: Seq<char>) -> Result<Seq<char>, Seq<char>> {
    match url_host_of(instance_url) {
        Err(e) => Err(e),
        Ok(None) => Err("Invalid URL: no host found"@),
        Ok(Some(host)) => Ok(
            "cloudreve"@ + hex_lower(sha256_of(vstd::utf8::encode_utf8(host) + vstd::utf8::encode_utf8(sync_path))).take(16),
        ),
    }
}

/// Computes the provider name of a new sync root (see
/// `sync_root_provider_name`).
pub fn provider_name_for(instance_url: &str, sync_path: &str) -> (r: Result<String, String>)
    ensures
        match r {
            Ok(n) => sync_root_provider_name(instance_url@, sync_path@) == Ok::<Seq<char>, Seq<char>>(n@),
            Err(e) => sync_root_provider_name(instance_url@, sync_path@) == Err::<Seq<char>, Seq<char>>(e@),
        },
{
    let host = match url_host(instance_url) {
        Err(e) => return Err(e),
        Ok(None) => return Err("Invalid URL: no host found".to_owned()),
        Ok(Some(h)) => h,
    };
    let mut data: Vec<u8> = Vec::new();
    let hb = host.as_str().as_bytes();
    let pb = sync_path.as_bytes();
    let mut i: usize = 0;
    while i < hb.len()
        invariant
            i <= hb.len(),
            data@ == hb@.take(i as int),
        decreases hb.len() - i,
    {
        data.push(hb[i]);
        assert(hb@.take(i + 1) =~= hb@.take(i as int).push(hb@[i as int]));
        i += 1;
    }
    let mut j: usize = 0;
    while j < pb.len()
        invariant
            j <= pb.len(),
            data@ == hb@ + pb@.take(j as int),
        decreases pb.len() - j,
    {
        data.push(pb[j]);
        assert(hb@ + pb@.take(j + 1) =~= (hb@ + pb@.take(j as int)).push(pb@[j as int]));
        j += 1;
    }
    assert(hb@.take(hb@.len() as int) =~= hb@);
    assert(pb@.take(pb@.len() as int) =~= pb@);
    let digest = sha256(data.as_slice());
    let digits = hex_prefix(&digest, 8);
    let mut name = "cloudreve".to_owned();
    name.append(digits.as_str());
    Ok(name)
}

/// How a drive's sync root is identified: by the identity it was stored
/// under, or as a new identity to build from a provider name and the
/// account (together with the current user's security id).
#[derive(Debug, Clone, PartialEq, Eq)]
pub enum SyncRootId {
    Stored(String),
    New { provider_name: String, account_name: String },
}

/// The sync root a configuration names: the stored provider id when there
/// is one, else a new identity under `sync_root_provider_name` for the
/// configured user.
pub open spec fn resolves_to(config: ProviderConfig, r: Result<SyncRootId, String>) -> bool {
    if config.provider_id@.len() > 0 {
        r matches Ok(SyncRootId::Stored(s)) && s@ == config.provider_id@
    } else {
        match sync_root_provider_name(config.instance_url@, config.sync_path@) {
            Ok(n) => r matches Ok(SyncRootId::New { provider_name, account_name })
                && provider_name@ == n && account_name@ == config.user_id@,
            Err(e) => r matches Err(m) && m@ == e,
        }
    }
}

/// The Windows cloud-filter provider's own state: whether it holds a
/// connection, and the sync root it started with.
pub struct WindowsSyncProvider {
    connected: bool,
    sync_root_id: Option<SyncRootId>,
}

impl WindowsSyncProvider {
    pub closed spec fn is_connected(&self) -> bool {
        self.connected
    }

    pub closed spec fn started_root(&self) -> Option<SyncRootId> {
        self.sync_root_id
    }

    /// A provider that is neither started nor connected.
    pub fn new() -> (r: Self)
        ensures
            !r.is_connected(),
            r.started_root() is None,
    {
        WindowsSyncProvider { connected: false, sync_root_id: None }
    }

    /// The sync root a configuration names (see `resolves_to`).
    pub fn resolve_sync_root_id(config: &ProviderConfig) -> (r: Result<SyncRootId, String>)
        ensures
            resolves_to(*config, r),
    {
        if !config.provider_id.as_str().is_empty() {
            Ok(SyncRootId::Stored(config.provider_id.clone()))
        } else {
            match provider_name_for(config.instance_url.as_str(), config.sync_path.as_str()) {
                Ok(n) => Ok(SyncRootId::New { provider_name: n, account_name: config.user_id.clone() }),
                Err(e) => Err(e),
            }
        }
    }
}

/// How placeholder information reads as a platform-neutral file state.
pub open spec fn state_of_info(info: LocalFileInfo, placeholder: bool, partial: bool, populated: bool, in_sync: bool, pin: PinState) -> LocalFileState {
    LocalFileState {
        exists: info.exists,
        is_directory: info.is_directory,
        is_placeholder: placeholder,
        is_hydrated: !partial,
        is_folder_populated: populated,
        in_sync: in_sync,
        is_pinned: pin == PinState::Pinned,
        is_unpinned: pin == PinState::Unpinned,
        size: info.file_size,
    }
}

/// The platform-neutral state of a file from its placeholder information:
/// hydrated unless partially on disk, pinned or unpinned by its pin state.
pub fn local_file_info_to_state(info: &LocalFileInfo) -> (r: LocalFileState)
    ensures
        r == state_of_info(*info, false, false, info.exists && info.is_directory, false, PinState::Unspecified),
{
    let pin = info.pinned();
    LocalFileState {
        exists: info.exists,
        is_directory: info.is_directory,
        is_placeholder: info.is_placeholder(),
        is_hydrated: !info.partial_on_disk(),
        is_folder_populated: info.is_folder_populated(),
        in_sync: info.in_sync(),
        is_pinned: pin == PinState::Pinned,
        is_unpinned: pin == PinState::Unpinned,
        size: info.file_size,
    }
}

/// The Unix times, in seconds, that a file time can hold: from
/// 1601-01-01 00:00:00 UTC to the year 60056.
pub open spec fn file_time_representable(secs: i64) -> bool {
    -11_644_473_600 <= secs && secs <= 1_833_029_933_770
}

/// The text of the range error for a Unix time a file time cannot hold.
pub open spec fn file_time_range_error(secs: i64) -> Seq<char> {
    if secs > 1_833_029_933_770 {
        "file time is after `+60056-05-28 05:36:10.955161500 UTC`"@
    } else {
        "file time is before `1601-01-01 00:00:00 UTC`"@
    }
}

/// `nt_time::FileTime::from_unix_time_secs`: a file time for every Unix
/// time it can hold, the range error's text for the others.
#[verifier::external_body]
fn file_time_from_unix(secs: i64) -> (r: Result<FileTime, String>)
    ensures
        r is Ok <==> file_time_representable(secs),
        r is Err ==> r->Err_0@ == file_time_range_error(secs),
{
    FileTime::from_unix_time_secs(secs).map_err(|e| e.to_string())
}

/// How converting placeholder metadata fails: on the creation time first,
/// then on the modification time, each out of a file time's range.
pub open spec fn metadata_conversion_error(meta: FileMetadataPlatform) -> Option<Seq<char>> {
    if !file_time_representable(meta.created_at) {
        Some("invalid created_at timestamp: "@ + file_time_range_error(meta.created_at))
    } else if !file_time_representable(meta.modified_at) {
        Some("invalid modified_at timestamp: "@ + file_time_range_error(meta.modified_at))
    } else {
        None
    }
}

/// The cloud-filter metadata of a placeholder: its kind, size, and times
/// as file times.  Fails when a time is out of a file time's range.
pub fn metadata_to_cfapi(meta: &FileMetadataPlatform) -> (r: Result<Metadata, PlatformError>)
    ensures
        match metadata_conversion_error(*meta) {
            None => r is Ok,
            Some(m) => r matches Err(PlatformError::Failed(e)) && e@ == m,
        },
{
    let created = match file_time_from_unix(meta.created_at) {
        Ok(t) => t,
        Err(e) => {
            let mut m = "invalid created_at timestamp: ".to_owned();
            m.append(e.as_str());
            proof { reveal_strlit("invalid created_at timestamp: "); }
            return Err(PlatformError::Failed(m));
        },
    };
    let modified = match file_time_from_unix(meta.modified_at) {
        Ok(t) => t,
        Err(e) => {
            let mut m = "invalid modified_at timestamp: ".to_owned();
            m.append(e.as_str());
            proof { reveal_strlit("invalid modified_at timestamp: "); }
            return Err(PlatformError::Failed(m));
        },
    };
    let base = if meta.is_directory { Metadata::directory() } else { Metadata::file() };
    Ok(base.size(meta.size).changed(modified).written(modified).created(created))
}

/// The cloud-filter placeholder to create for an entry: named by the
/// entry, with its metadata and its etag as the placeholder's blob,
/// overwriting what is there, and marked in sync if the entry asks it.
/// Fails as `metadata_to_cfapi` does.
pub fn entry_to_cfapi_placeholder(entry: &PlaceholderEntry) -> (r: Result<PlaceholderFile, PlatformError>)
    ensures
        match metadata_conversion_error(entry.metadata) {
            None => r is Ok && r->Ok_0.relative_path() == entry.relative_name@,
            Some(m) => r matches Err(PlatformError::Failed(e)) && e@ == m,
        },
{
    let metadata = match metadata_to_cfapi(&entry.metadata) {
        Ok(m) => m,
        Err(e) => return Err(e),
    };
    let blob = vstd::slice::slice_to_vec(entry.etag.as_str().as_bytes());
    let mut pf = PlaceholderFile::new(entry.relative_name.as_str()).metadata(metadata).overwrite().blob(blob);
    if entry.mark_in_sync {
        pf = pf.mark_in_sync();
    }
    Ok(pf)
}

/// `anyhow::Error::msg` of a message and the I/O error's debug text after
/// it.  Nothing is claimed of the error made.
#[verifier::external_body]
fn fetch_failure(message: &str, e: std::io::Error) -> anyhow::Error {
    anyhow::Error::msg(format!("{}{:?}", message, e))
}

/// The cloud filter's data-fetch request, written to as a hydration target.
pub struct WindowsHydrationWriter(pub FetchData);

impl HydrationWriter for WindowsHydrationWriter {
    /// Writes through to the fetch request; it accepts every write.
    fn write_at(&self, buf: &[u8], offset: u64) -> (r: Result<(), anyhow::Error>)
        ensures
            r is Ok,
    {
        match self.0.write_at(buf, offset) {
            Ok(()) => Ok(()),
            Err(e) => Err(fetch_failure("cfapi write_at failed: ", e)),
        }
    }

    /// Reports progress to the fetch request; it accepts every report.
    fn report_progress(&self, total: u64, completed: u64) -> (r: Result<(), anyhow::Error>)
        ensures
            r is Ok,
    {
        match self.0.report_progress(total, completed) {
            Ok(()) => Ok(()),
            Err(e) => Err(fetch_failure("cfapi report_progress failed: ", e)),
        }
    }
}

/// A file's reported state follows its placeholder information: it exists
/// and has the kind and size found on disk, is hydrated exactly when it is
/// not partially on disk, and is pinned or unpinned (never both) by its pin
/// state.
pub proof fn law_state_follows_placeholder_info(info: LocalFileInfo, placeholder: bool, partial: bool, populated: bool, in_sync: bool, pin: PinState)
    ensures
        ({
            let s = state_of_info(info, placeholder, partial, populated, in_sync, pin);
            &&& s.exists == info.exists && s.is_directory == info.is_directory && s.size == info.file_size
            &&& s.is_hydrated != partial
            &&& s.is_placeholder == placeholder && s.in_sync == in_sync && s.is_folder_populated == populated
            &&& s.is_pinned == (pin is Pinned)
            &&& s.is_unpinned == (pin is Unpinned)
            &&& !(s.is_pinned && s.is_unpinned)
        }),
{
}

/// Placeholder metadata converts exactly when both its creation and its
/// modification time lie in the range a file time holds; the error names
/// the first time out of range.
pub proof fn law_metadata_converts_within_file_time_range(meta: FileMetadataPlatform)
    ensures
        metadata_conversion_error(meta) is None == (
            -11_644_473_600 <= meta.created_at <= 1_833_029_933_770
            && -11_644_473_600 <= meta.modified_at <= 1_833_029_933_770),
        !(-11_644_473_600 <= meta.created_at <= 1_833_029_933_770) ==>
            metadata_conversion_error(meta) == Some("invalid created_at timestamp: "@ + file_time_range_error(meta.created_at)),
        meta.created_at > 1_833_029_933_770 ==> file_time_range_error(meta.created_at) == "file time is after `+60056-05-28 05:36:10.955161500 UTC`"@,
        meta.created_at < -11_644_473_600 ==> file_time_range_error(meta.created_at) == "file time is before `1601-01-01 00:00:00 UTC`"@,
{
}

/// A configuration with a stored provider id resolves to that id; one
/// without resolves to a new sync root for the configured user, or fails
/// as computing its provider name does.
pub proof fn law_sync_root_prefers_stored_id(config: ProviderConfig, r: Result<SyncRootId, String>)
    requires
        resolves_to(config, r),
    ensures
        config.provider_id@.len() > 0 ==> (r matches Ok(SyncRootId::Stored(s)) && s@ == config.provider_id@),
        config.provider_id@.len() == 0 ==> (r is Ok == sync_root_provider_name(config.instance_url@, config.sync_path@) is Ok),
        config.provider_id@.len() == 0 && r is Ok ==> (r matches Ok(SyncRootId::New { provider_name, account_name })
            && account_name@ == config.user_id@),
{
}

} // verus!
