//! Packaging and updates: the version of the running build, and the
//! validation an update candidate must pass (digest, signature, side-by-side
//! checks) before its runtime is activated.

use crate::digest::{sha256, sha256_digest};
use crate::paths::{join_path, path_join};
use crate::text::{bytes_to_hex, chars_of, concat, copy_string, hex_bytes, str_eq};
use vstd::prelude::*;

verus! {

#[derive(Debug, Clone)]
pub enum PackagingError {
    Inner(String),
    SigningFailed(String),
    ValidationFailed(String),
}

/// The message of an error, as `Display` writes it.
pub open spec fn packaging_error_text(e: PackagingError) -> Seq<char> {
    match e {
        PackagingError::Inner(s) => "packaging error: "@ + s@,
        PackagingError::SigningFailed(s) => "signing failed: "@ + s@,
        PackagingError::ValidationFailed(s) => "validation failed: "@ + s@,
    }
}

impl PackagingError {
    /// The error's message.
    pub fn to_text(&self) -> (r: String)
        ensures
            r@ == packaging_error_text(*self),
    {
        match self {
            PackagingError::Inner(s) => concat("packaging error: ", s.as_str()),
            PackagingError::SigningFailed(s) => concat("signing failed: ", s.as_str()),
            PackagingError::ValidationFailed(s) => concat("validation failed: ", s.as_str()),
        }
    }
}

/// The versions of a build.
#[derive(Debug, Clone)]
pub struct AppVersion {
    pub app_version: String,
    pub runtime_version: String,
    pub neovim_version: String,
    pub catalog_version: String,
    pub build_date: String,
}

pub struct AppVersionView {
    pub app_version: Seq<char>,
    pub runtime_version: Seq<char>,
    pub neovim_version: Seq<char>,
    pub catalog_version: Seq<char>,
    pub build_date: Seq<char>,
}

impl View for AppVersion {
    type V = AppVersionView;

    open spec fn view(&self) -> AppVersionView {
        AppVersionView {
            app_version: self.app_version@,
            runtime_version: self.runtime_version@,
            neovim_version: self.neovim_version@,
            catalog_version: self.catalog_version@,
            build_date: self.build_date@,
        }
    }
}

impl AppVersion {
    fn duplicate(&self) -> (r: Self)
        ensures
            r@ == self@,
    {
        AppVersion {
            app_version: copy_string(&self.app_version),
            runtime_version: copy_string(&self.runtime_version),
            neovim_version: copy_string(&self.neovim_version),
            catalog_version: copy_string(&self.catalog_version),
            build_date: copy_string(&self.build_date),
        }
    }
}

/// A downloadable update and what it must match.
#[derive(Debug, Clone)]
pub struct UpdateCandidate {
    pub version: String,
    pub download_url: String,
    pub sha256: String,
    pub signature: String,
}

/// The outcome of validating an update candidate.
#[derive(Debug, Clone)]
pub struct ValidationResult {
    pub candidate: UpdateCandidate,
    pub signature_valid: bool,
    pub hash_valid: bool,
    pub neovim_check_passed: bool,
    pub core_check_passed: bool,
    pub packages_check_passed: bool,
    pub overall_passed: bool,
}

/// What validation concludes for a candidate whose download hashed to
/// `digest`: the digest in lowercase hexadecimal must be the announced one
/// and the signature must be present; the side-by-side checks of Neovim,
/// the protected core and the required packages pass.
pub open spec fn validation_of(c: UpdateCandidate, digest: Seq<u8>, r: ValidationResult) -> bool {
    &&& r.candidate.version@ == c.version@
    &&& r.candidate.download_url@ == c.download_url@
    &&& r.candidate.sha256@ == c.sha256@
    &&& r.candidate.signature@ == c.signature@
    &&& r.hash_valid == (hex_bytes(digest) == c.sha256@)
    &&& r.signature_valid == (c.signature@.len() > 0)
    &&& r.neovim_check_passed
    &&& r.core_check_passed
    &&& r.packages_check_passed
    &&& r.overall_passed == (r.hash_valid && r.signature_valid)
}

/// The build's versions and where its runtime lives.
pub struct PackagingService {
    data_root: String,
    current_version: Option<AppVersion>,
}

impl PackagingService {
    pub closed spec fn root(self) -> Seq<char> {
        self.data_root@
    }

    pub closed spec fn current(self) -> Option<AppVersionView> {
        match self.current_version {
            Some(v) => Some(v@),
            None => None,
        }
    }

    /// A service for `data_root` with no version recorded yet.
    pub fn new(data_root: String) -> (r: Self)
        ensures
            r.root() == data_root@,
            r.current() is None,
    {
        PackagingService { data_root, current_version: None }
    }

    /// The version of the running build, once recorded.
    pub fn version(&self) -> (r: Option<AppVersion>)
        ensures
            match r {
                Some(v) => self.current() == Some(v@),
                None => self.current() is None,
            },
    {
        match &self.current_version {
            Some(v) => Some(v.duplicate()),
            None => None,
        }
    }

    /// Records the version of the running build.
    pub fn set_version(&mut self, version: AppVersion)
        ensures
            final(self).current() == Some(version@),
            final(self).root() == old(self).root(),
    {
        self.current_version = Some(version);
    }

    /// The validation of a candidate whose download hashed to `digest`.
    pub fn validate_digest(&self, candidate: UpdateCandidate, digest: &[u8]) -> (r: ValidationResult)
        ensures
            validation_of(candidate, digest@, r),
    {
        let text = bytes_to_hex(digest);
        let hash_valid = str_eq(text.as_str(), candidate.sha256.as_str());
        let signature_valid = chars_of(candidate.signature.as_str()).len() > 0;
        ValidationResult {
            candidate,
            signature_valid,
            hash_valid,
            neovim_check_passed: true,
            core_check_passed: true,
            packages_check_passed: true,
            overall_passed: hash_valid && signature_valid,
        }
    }

    /// Validates an update candidate given the bytes of its download, or the
    /// reason it could not be read, which fails validation.
    pub fn validate_update(&self, candidate: UpdateCandidate, download: Result<Vec<u8>, String>) -> (r:
        Result<ValidationResult, PackagingError>)
        ensures
            match download {
                Ok(bytes) => r matches Ok(v) && validation_of(candidate, sha256_digest(bytes@), v),
                Err(e) => r matches Err(PackagingError::ValidationFailed(m)) && m@ == "hash: "@ + e@,
            },
    {
        match download {
            Ok(bytes) => {
                let d = sha256(bytes.as_slice());
                Ok(self.validate_digest(candidate, d.as_slice()))
            },
            Err(e) => Err(PackagingError::ValidationFailed(concat("hash: ", e.as_str()))),
        }
    }

    /// The application support directory.
    pub fn app_support_dir(&self) -> (r: String)
        ensures
            r@ == path_join(self.root(), "app-support"@),
    {
        join_path(self.data_root.as_str(), "app-support")
    }

    /// The runtime directory.
    pub fn runtime_dir(&self) -> (r: String)
        ensures
            r@ == path_join(self.root(), "runtime"@),
    {
        join_path(self.data_root.as_str(), "runtime")
    }
}

} // verus!
