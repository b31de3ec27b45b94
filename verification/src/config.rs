use vstd::prelude::*;

verus! {

/// Limits and locations for stored files.
pub struct FilesConfig {
    /// Largest upload an anonymous visitor may make, in kibibytes.
    pub max_size_kb_anon: u64,
    /// Largest upload a registered user may make, in kibibytes.
    pub max_size_kb_users: u64,
    pub max_storage_per_user: u64,
    pub max_storage: u64,
    pub storage_dir: String,
    /// How long an uploaded file is kept, in days.
    pub default_expiration_days: u64,
    pub delete_old_files: bool,
}

/// Account policy switches.
pub struct AccountsConfig {
    /// Whether visitors without an account may upload.
    pub allow_anon: bool,
    /// Whether new accounts may be registered.
    pub allow_registration: bool,
}

/// Service-level settings; paths and addresses are carried as plain strings.
pub struct ServiceConfig {
    pub secret: String,
    pub rate_limit_window_ms: u64,
    pub rate_limit_max_uploads: u64,
    pub db_sqlite: String,
    pub bind: String,
    pub base_url: String,
    pub data_dir: String,
    /// Minutes between two reclamation passes.
    pub clear_interval: u16,
}

pub struct Config {
    pub files: FilesConfig,
    pub accounts: AccountsConfig,
    pub service: ServiceConfig,
}

impl Config {
    /// The larger of the two per-class upload limits.
    pub open spec fn spec_largest_upload_kb(&self) -> u64 {
        if self.files.max_size_kb_anon < self.files.max_size_kb_users {
            self.files.max_size_kb_users
        } else {
            self.files.max_size_kb_anon
        }
    }

    /// Largest upload any class of user may make, in bytes.
    pub fn largest_possible_upload(&self) -> (r: usize)
        requires
            1024 * self.spec_largest_upload_kb() <= usize::MAX,
        ensures
            r == 1024 * self.spec_largest_upload_kb(),
    {
        let kb: u64 = if self.files.max_size_kb_anon < self.files.max_size_kb_users {
            self.files.max_size_kb_users
        } else {
            self.files.max_size_kb_anon
        };
        1024 * (kb as usize)
    }

    /// Upload limit in bytes for one request: anonymous visitors get the
    /// anonymous limit, logged-in users the user limit.
    pub fn max_upload_size(&self, logged_in: bool) -> (r: u64)
        requires
            1024 * self.files.max_size_kb_anon <= u64::MAX,
            1024 * self.files.max_size_kb_users <= u64::MAX,
        ensures
            logged_in ==> r == 1024 * self.files.max_size_kb_users,
            !logged_in ==> r == 1024 * self.files.max_size_kb_anon,
    {
        if logged_in {
            self.files.max_size_kb_users * 1024
        } else {
            self.files.max_size_kb_anon * 1024
        }
    }

    /// Whether an upload may proceed at all: visitors without an account
    /// need the anonymous-upload switch.
    pub fn upload_permitted(&self, logged_in: bool) -> (r: bool)
        ensures
            r == (logged_in || self.accounts.allow_anon),
    {
        logged_in || self.accounts.allow_anon
    }

    /// How long an uploaded file is kept, in seconds.
    pub fn expiration_offset_seconds(&self) -> (r: u64)
        requires
            86400 * self.files.default_expiration_days <= u64::MAX,
        ensures
            r == 86400 * self.files.default_expiration_days,
    {
        self.files.default_expiration_days * 86400
    }

    /// Seconds between two reclamation passes.
    pub fn garbage_collection_duration(&self) -> (r: u64)
        ensures
            r == 60 * self.service.clear_interval,
    {
        60 * (self.service.clear_interval as u64)
    }
}

} // verus!
