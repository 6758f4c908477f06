//! Daemon-owned user settings for scratch storage and context scope.
//!
//! The store holds the settings in memory; reading and writing the JSON file
//! is the caller's part.

use vstd::prelude::*;

use crate::text::{owned, str_eq};

verus! {

/// Where new scratch artifacts should be written.
#[derive(Debug, Clone, Copy, PartialEq, Eq, Structural)]
pub enum ScratchStorageMode {
    /// Durable storage under the runtime directory.
    Runtime,
    /// Ephemeral storage under the operating system temp directory.
    Temp,
}

/// Why a settings value was refused.
#[derive(Debug, Clone, PartialEq, Eq)]
pub enum SettingsError {
    /// Not a scratch storage mode.
    UnsupportedMode(String),
    /// Not a read scope.
    UnsupportedScope(String),
}

impl SettingsError {
    /// The message shown to a user for this error.
    pub fn message(&self) -> (r: String)
        ensures
            r@ == (match self {
                SettingsError::UnsupportedMode(v) => "unsupported scratch storage mode: "@ + v@,
                SettingsError::UnsupportedScope(v) => "unsupported read scope: "@ + v@,
            }),
    {
        match self {
            SettingsError::UnsupportedMode(v) => {
                let mut m = owned("unsupported scratch storage mode: ");
                m.push_str(v.as_str());
                m
            },
            SettingsError::UnsupportedScope(v) => {
                let mut m = owned("unsupported read scope: ");
                m.push_str(v.as_str());
                m
            },
        }
    }
}

/// The wire-format label of a storage mode.
pub open spec fn mode_label(m: ScratchStorageMode) -> Seq<char> {
    match m {
        ScratchStorageMode::Runtime => "runtime"@,
        ScratchStorageMode::Temp => "temp"@,
    }
}

impl ScratchStorageMode {
    /// Return the stable wire-format label for this mode.
    pub fn as_str(self) -> (r: &'static str)
        ensures
            r@ == mode_label(self),
    {
        match self {
            ScratchStorageMode::Runtime => "runtime",
            ScratchStorageMode::Temp => "temp",
        }
    }

    /// The mode a wire-format label names.
    pub fn parse(value: &str) -> (r: Result<Self, SettingsError>)
        ensures
            (match r {
                Ok(m) => mode_label(m) == value@,
                Err(e) => {
                    &&& forall|m: ScratchStorageMode| mode_label(m) != value@
                    &&& e matches SettingsError::UnsupportedMode(v) && v@ == value@
                },
            }),
    {
        proof {
            reveal_strlit("runtime");
            reveal_strlit("temp");
        }
        if str_eq(value, "runtime") {
            Ok(ScratchStorageMode::Runtime)
        } else if str_eq(value, "temp") {
            Ok(ScratchStorageMode::Temp)
        } else {
            Err(SettingsError::UnsupportedMode(owned(value)))
        }
    }
}

impl Default for ScratchStorageMode {
    fn default() -> (r: Self)
        ensures
            r == ScratchStorageMode::Runtime,
    {
        ScratchStorageMode::Runtime
    }
}

impl std::str::FromStr for ScratchStorageMode {
    type Err = SettingsError;

    fn from_str(value: &str) -> (r: Result<Self, SettingsError>)
        ensures
            (match r {
                Ok(m) => mode_label(m) == value@,
                Err(e) => {
                    &&& forall|m: ScratchStorageMode| mode_label(m) != value@
                    &&& e matches SettingsError::UnsupportedMode(v) && v@ == value@
                },
            }),
    {
        ScratchStorageMode::parse(value)
    }
}

/// How much project context Codex may receive by default.
#[derive(Debug, Clone, Copy, PartialEq, Eq, Structural)]
pub enum ReadScope {
    /// Only the current file/selection plus explicitly requested context.
    CurrentContext,
}

/// The wire-format label of a read scope.
pub open spec fn scope_label(s: ReadScope) -> Seq<char> {
    match s {
        ReadScope::CurrentContext => "current_context"@,
    }
}

impl ReadScope {
    /// Return the stable wire-format label for this scope.
    pub fn as_str(self) -> (r: &'static str)
        ensures
            r@ == scope_label(self),
    {
        match self {
            ReadScope::CurrentContext => "current_context",
        }
    }

    /// The scope a wire-format label names.
    pub fn parse(value: &str) -> (r: Result<Self, SettingsError>)
        ensures
            (match r {
                Ok(s) => scope_label(s) == value@,
                Err(e) => {
                    &&& forall|s: ReadScope| scope_label(s) != value@
                    &&& e matches SettingsError::UnsupportedScope(v) && v@ == value@
                },
            }),
    {
        if str_eq(value, "current_context") {
            Ok(ReadScope::CurrentContext)
        } else {
            Err(SettingsError::UnsupportedScope(owned(value)))
        }
    }
}

impl Default for ReadScope {
    fn default() -> (r: Self)
        ensures
            r == ReadScope::CurrentContext,
    {
        ReadScope::CurrentContext
    }
}

impl std::str::FromStr for ReadScope {
    type Err = SettingsError;

    fn from_str(value: &str) -> (r: Result<Self, SettingsError>)
        ensures
            (match r {
                Ok(s) => scope_label(s) == value@,
                Err(e) => {
                    &&& forall|s: ReadScope| scope_label(s) != value@
                    &&& e matches SettingsError::UnsupportedScope(v) && v@ == value@
                },
            }),
    {
        ReadScope::parse(value)
    }
}

/// Persisted daemon settings.
#[derive(Debug, Clone, Copy, PartialEq, Eq, Structural)]
pub struct HarnessSettings {
    /// Scratch storage location mode.
    pub scratch_storage_mode: ScratchStorageMode,
    /// Default context sharing scope.
    pub read_scope: ReadScope,
}

/// The settings used when none have been saved.
pub open spec fn default_settings() -> HarnessSettings {
    HarnessSettings {
        scratch_storage_mode: ScratchStorageMode::Runtime,
        read_scope: ReadScope::CurrentContext,
    }
}

impl Default for HarnessSettings {
    fn default() -> (r: Self)
        ensures
            r == default_settings(),
    {
        HarnessSettings {
            scratch_storage_mode: ScratchStorageMode::Runtime,
            read_scope: ReadScope::CurrentContext,
        }
    }
}

/// Parameters for updating daemon settings.
#[derive(Debug, Clone, Copy, PartialEq, Eq, Structural)]
pub struct SettingsUpdateParams {
    /// Optional replacement scratch storage mode.
    pub scratch_storage_mode: Option<ScratchStorageMode>,
    /// Optional replacement read scope.
    pub read_scope: Option<ReadScope>,
}

impl Default for SettingsUpdateParams {
    fn default() -> (r: Self)
        ensures
            r.scratch_storage_mode is None,
            r.read_scope is None,
    {
        SettingsUpdateParams { scratch_storage_mode: None, read_scope: None }
    }
}

/// Result returned by settings methods.
#[derive(Debug, Clone, Copy, PartialEq, Eq, Structural)]
pub struct SettingsResult {
    /// Current settings after reading or updating.
    pub settings: HarnessSettings,
}

/// Settings with each given replacement applied.
pub open spec fn updated(s: HarnessSettings, p: SettingsUpdateParams) -> HarnessSettings {
    HarnessSettings {
        scratch_storage_mode: match p.scratch_storage_mode {
            Some(m) => m,
            None => s.scratch_storage_mode,
        },
        read_scope: match p.read_scope {
            Some(r) => r,
            None => s.read_scope,
        },
    }
}

/// JSON-backed settings store, held in memory.
#[derive(Debug, Clone)]
pub struct SettingsStore {
    path: String,
    settings: HarnessSettings,
}

impl SettingsStore {
    /// The settings the store holds.
    pub closed spec fn spec_settings(&self) -> HarnessSettings {
        self.settings
    }

    /// The path of the file that persists the settings.
    pub closed spec fn spec_path(&self) -> Seq<char> {
        self.path@
    }

    /// Create a settings store at the supplied runtime path, holding the
    /// defaults until saved settings are supplied.
    pub fn new(path: String) -> (s: Self)
        ensures
            s.spec_settings() == default_settings(),
            s.spec_path() == path@,
    {
        SettingsStore { path, settings: HarnessSettings::default() }
    }

    /// A store holding settings read from `path`.
    pub fn with_settings(path: String, settings: HarnessSettings) -> (s: Self)
        ensures
            s.spec_settings() == settings,
            s.spec_path() == path@,
    {
        SettingsStore { path, settings }
    }

    /// The path of the file that persists the settings.
    pub fn path(&self) -> (r: &str)
        ensures
            r@ == self.spec_path(),
    {
        self.path.as_str()
    }

    /// The current settings.
    pub fn load(&self) -> (r: HarnessSettings)
        ensures
            r == self.spec_settings(),
    {
        self.settings
    }

    /// Return current settings in result shape.
    pub fn get(&self) -> (r: SettingsResult)
        ensures
            r.settings == self.spec_settings(),
    {
        SettingsResult { settings: self.settings }
    }

    /// Apply partial settings updates.
    pub fn update(&mut self, params: &SettingsUpdateParams) -> (r: SettingsResult)
        ensures
            final(self).spec_settings() == updated(old(self).spec_settings(), *params),
            r.settings == final(self).spec_settings(),
            final(self).spec_path() == old(self).spec_path(),
    {
        if let Some(mode) = params.scratch_storage_mode {
            self.settings.scratch_storage_mode = mode;
        }
        if let Some(scope) = params.read_scope {
            self.settings.read_scope = scope;
        }
        SettingsResult { settings: self.settings }
    }
}

/// Store path for settings under the runtime directory.
pub fn store_path(runtime_dir: &str) -> (r: String)
    ensures
        r@ == crate::paths::join_path(runtime_dir@, "settings.json"@),
{
    crate::paths::join(runtime_dir, "settings.json")
}

/// An update reads back: after it, getting the settings gives each given
/// value and keeps each one not given; updating again with the same values
/// changes nothing; an empty update changes nothing.
pub proof fn law_update_reads_back(s: HarnessSettings, p: SettingsUpdateParams)
    ensures
        p.scratch_storage_mode matches Some(m) ==> updated(s, p).scratch_storage_mode == m,
        p.scratch_storage_mode is None ==> updated(s, p).scratch_storage_mode == s.scratch_storage_mode,
        p.read_scope matches Some(r) ==> updated(s, p).read_scope == r,
        p.read_scope is None ==> updated(s, p).read_scope == s.read_scope,
        updated(updated(s, p), p) == updated(s, p),
        updated(s, SettingsUpdateParams { scratch_storage_mode: None, read_scope: None }) == s,
{
}

/// The two storage modes have different labels.
pub proof fn law_labels_distinct()
    ensures
        mode_label(ScratchStorageMode::Runtime) != mode_label(ScratchStorageMode::Temp),
{
    reveal_strlit("runtime");
    reveal_strlit("temp");
    assert(mode_label(ScratchStorageMode::Runtime).len() != mode_label(ScratchStorageMode::Temp).len());
}

} // verus!
