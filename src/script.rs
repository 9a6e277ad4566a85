use vstd::prelude::*;
use vstd::string::StringExecFns;
use crate::installer::{
    can_update_spec, compute_can_update, opt_view, InstallResult, Installer, InstallerInfo,
};

verus! {

/// What `str::trim` returns for a string.
pub uninterp spec fn trimmed(s: Seq<char>) -> Seq<char>;

/// What `str::to_lowercase` returns for a string.
pub uninterp spec fn lowered(s: Seq<char>) -> Seq<char>;

/// What `Path::join` gives, as text, for a base directory and a relative path.
pub uninterp spec fn joined_path(base: Seq<char>, name: Seq<char>) -> Seq<char>;

/// Relies on `str::trim`: leading and trailing whitespace removed.
#[verifier::external_body]
fn trim_text(s: &str) -> (r: String)
    ensures
        r@ == trimmed(s@),
{
    s.trim().to_string()
}

/// Relies on `str::to_lowercase`: the lowercase mapping of every character.
#[verifier::external_body]
fn lowercase_text(s: &str) -> (r: String)
    ensures
        r@ == lowered(s@),
{
    s.to_lowercase()
}

/// Relies on `Path::join`: `name` resolved against the directory `base`.
#[verifier::external_body]
fn join_path(base: &str, name: &str) -> (r: String)
    ensures
        r@ == joined_path(base@, name@),
{
    std::path::Path::new(base).join(name).to_string_lossy().into_owned()
}

/// Script references of a descriptor, each relative to the descriptor's directory.
#[derive(Debug, Clone)]
pub struct ScriptPaths {
    pub install: Option<String>,
    pub update: Option<String>,
    pub uninstall: Option<String>,
    pub check: Option<String>,
    pub version: Option<String>,
    pub latest_version: Option<String>,
}

/// A descriptor: metadata and script bindings of one installer.
#[derive(Debug, Clone)]
pub struct ScriptInstallerConfig {
    pub id: String,
    pub name: String,
    pub description: String,
    pub category: String,
    pub dependencies: Vec<String>,
    pub scripts: ScriptPaths,
}

/// A capability of a descriptor-driven installer that runs a script.
#[derive(Debug, Clone, Copy, PartialEq, Eq, Structural)]
pub enum ScriptAction {
    Install,
    Update,
    Uninstall,
    Check,
    Version,
    LatestVersion,
}

impl ScriptPaths {
    /// The script reference bound to a capability.
    pub open spec fn reference(self, action: ScriptAction) -> Option<String> {
        match action {
            ScriptAction::Install => self.install,
            ScriptAction::Update => self.update,
            ScriptAction::Uninstall => self.uninstall,
            ScriptAction::Check => self.check,
            ScriptAction::Version => self.version,
            ScriptAction::LatestVersion => self.latest_version,
        }
    }

    /// The script reference bound to a capability.
    pub fn get(&self, action: ScriptAction) -> (r: &Option<String>)
        ensures
            *r == self.reference(action),
    {
        match action {
            ScriptAction::Install => &self.install,
            ScriptAction::Update => &self.update,
            ScriptAction::Uninstall => &self.uninstall,
            ScriptAction::Check => &self.check,
            ScriptAction::Version => &self.version,
            ScriptAction::LatestVersion => &self.latest_version,
        }
    }
}

/// Whether a trimmed, case-folded check output reports the software as installed.
pub open spec fn installed_marker(folded: Seq<char>) -> bool {
    folded == "1"@ || folded == "true"@ || folded == "installed"@
}

/// Text put before the trimmed output of a successful mutating script.
pub open spec fn success_prefix(action: ScriptAction) -> Seq<char> {
    match action {
        ScriptAction::Install => "Installation finished: "@,
        ScriptAction::Update => "Update finished: "@,
        ScriptAction::Uninstall => "Removal finished: "@,
        _ => "Finished: "@,
    }
}

/// Text put before the error of a failed mutating script.
pub open spec fn failure_prefix(action: ScriptAction) -> Seq<char> {
    match action {
        ScriptAction::Install => "Installation error: "@,
        ScriptAction::Update => "Update error: "@,
        ScriptAction::Uninstall => "Removal error: "@,
        _ => "Error: "@,
    }
}

fn success_prefix_text(action: ScriptAction) -> (r: String)
    ensures
        r@ == success_prefix(action),
{
    match action {
        ScriptAction::Install => "Installation finished: ".to_owned(),
        ScriptAction::Update => "Update finished: ".to_owned(),
        ScriptAction::Uninstall => "Removal finished: ".to_owned(),
        _ => "Finished: ".to_owned(),
    }
}

fn failure_prefix_text(action: ScriptAction) -> (r: String)
    ensures
        r@ == failure_prefix(action),
{
    match action {
        ScriptAction::Install => "Installation error: ".to_owned(),
        ScriptAction::Update => "Update error: ".to_owned(),
        ScriptAction::Uninstall => "Removal error: ".to_owned(),
        _ => "Error: ".to_owned(),
    }
}

/// The message of a script run that was asked for but cannot be found.
pub open spec fn script_missing_message() -> Seq<char> {
    "script not found"@
}

/// Error of a script run whose script is unsupported or absent on disk.
pub fn script_missing() -> (r: String)
    ensures
        r@ == script_missing_message(),
{
    "script not found".to_owned()
}

/// A copy of a list of texts.
pub fn copy_texts(v: &Vec<String>) -> (r: Vec<String>)
    ensures
        r.deep_view() == v.deep_view(),
{
    let mut r: Vec<String> = Vec::new();
    let mut i: usize = 0;
    while i < v.len()
        invariant
            i <= v@.len(),
            r@.len() == i,
            forall|k: int| 0 <= k < i ==> #[trigger] r@[k]@ == v@[k]@,
        decreases v.len() - i,
    {
        r.push(v[i].clone());
        i = i + 1;
    }
    assert(r.deep_view() =~= v.deep_view());
    r
}

/// Whether a trimmed, case-folded check output reports the software as installed.
pub fn is_installed_marker(folded: &String) -> (r: bool)
    ensures
        r == installed_marker(folded@),
{
    *folded == "1".to_owned() || *folded == "true".to_owned() || *folded == "installed".to_owned()
}

/// A descriptor-driven installer: a descriptor bound to the directory it was read from.
#[derive(Debug, Clone)]
pub struct ScriptInstaller {
    pub config: ScriptInstallerConfig,
    pub base_path: String,
}

impl ScriptInstaller {
    pub fn new(config: ScriptInstallerConfig, base_path: String) -> (r: Self)
        ensures
            r.config == config,
            r.base_path == base_path,
    {
        ScriptInstaller { config, base_path }
    }

    /// The path a script reference resolves to, or none for an empty reference.
    pub open spec fn resolved(self, name: Seq<char>) -> Option<Seq<char>> {
        if name.len() == 0 {
            None
        } else {
            Some(joined_path(self.base_path@, name))
        }
    }

    /// The path of the script bound to a capability: none when the
    /// reference is absent or empty.
    pub open spec fn script_for_spec(self, action: ScriptAction) -> Option<Seq<char>> {
        match self.config.scripts.reference(action) {
            Some(name) => self.resolved(name@),
            None => None,
        }
    }

    /// Resolves a script reference against the installer's directory.
    /// Whether the file exists is for the caller to find out.
    pub fn script_path(&self, script_name: &str) -> (r: Option<String>)
        ensures
            opt_view(r) == self.resolved(script_name@),
    {
        if script_name.is_empty() {
            None
        } else {
            Some(join_path(self.base_path.as_str(), script_name))
        }
    }

    /// The script to run for a capability, if the descriptor binds one.
    pub fn script_for(&self, action: ScriptAction) -> (r: Option<String>)
        ensures
            opt_view(r) == self.script_for_spec(action),
    {
        match self.config.scripts.get(action) {
            Some(name) => self.script_path(name.as_str()),
            None => None,
        }
    }

    /// Installed state, from the outcome of running the check script.
    pub open spec fn check_installed_spec(self, run: Result<String, String>) -> bool {
        self.config.scripts.check.is_some() && run is Ok && installed_marker(
            lowered(trimmed(run->Ok_0@)),
        )
    }

    /// Installed state from the outcome of the check script; false when the
    /// descriptor binds no check script, whatever the outcome.
    pub fn check_installed(&self, run: &Result<String, String>) -> (r: bool)
        ensures
            r == self.check_installed_spec(*run),
            self.config.scripts.check.is_none() ==> !r,
    {
        if self.config.scripts.check.is_none() {
            return false;
        }
        match run {
            Ok(out) => {
                let t = trim_text(out.as_str());
                let folded = lowercase_text(t.as_str());
                is_installed_marker(&folded)
            },
            Err(_) => false,
        }
    }

    /// A version, from the outcome of running a version script.
    pub open spec fn version_spec(self, action: ScriptAction, run: Result<String, String>) -> Option<
        Seq<char>,
    > {
        if self.config.scripts.reference(action).is_some() && run is Ok {
            Some(trimmed(run->Ok_0@))
        } else {
            None
        }
    }

    fn version_from(&self, action: ScriptAction, run: &Result<String, String>) -> (r: Option<
        String,
    >)
        ensures
            opt_view(r) == self.version_spec(action, *run),
    {
        if self.config.scripts.get(action).is_none() {
            return None;
        }
        match run {
            Ok(out) => Some(trim_text(out.as_str())),
            Err(_) => None,
        }
    }

    /// The installed version, from the outcome of the version script.
    pub fn get_current_version(&self, run: &Result<String, String>) -> (r: Option<String>)
        ensures
            opt_view(r) == self.version_spec(ScriptAction::Version, *run),
    {
        self.version_from(ScriptAction::Version, run)
    }

    /// The latest available version, from the outcome of the latest-version script.
    pub fn get_latest_version(&self, run: &Result<String, String>) -> (r: Option<String>)
        ensures
            opt_view(r) == self.version_spec(ScriptAction::LatestVersion, *run),
    {
        self.version_from(ScriptAction::LatestVersion, run)
    }

    /// The outcome of a mutating operation, from the outcome of its script.
    pub fn operation_result(action: ScriptAction, run: &Result<String, String>) -> (r: Result<
        InstallResult,
        String,
    >)
        ensures
            run is Ok ==> r is Ok && r->Ok_0.success && r->Ok_0.message@ == success_prefix(action)
                + trimmed(run->Ok_0@),
            run is Err ==> r is Err && r->Err_0@ == failure_prefix(action) + run->Err_0@,
    {
        match run {
            Ok(out) => {
                let t = trim_text(out.as_str());
                let message = success_prefix_text(action).concat(t.as_str());
                Ok(InstallResult { success: true, message })
            },
            Err(e) => Err(failure_prefix_text(action).concat(e.as_str())),
        }
    }

    /// The projection of this installer, from its installed state and the
    /// versions its scripts reported. The current version is kept only for
    /// an installed installer.
    pub fn get_info(&self, installed: bool, current: Option<String>, latest: Option<String>) -> (r:
        InstallerInfo)
        ensures
            r.id@ == self.config.id@,
            r.name@ == self.config.name@,
            r.description@ == self.config.description@,
            r.category@ == self.config.category@,
            r.installed == installed,
            opt_view(r.current_version) == (if installed {
                opt_view(current)
            } else {
                None
            }),
            opt_view(r.latest_version) == opt_view(latest),
            r.dependencies.deep_view() == self.config.dependencies.deep_view(),
            r.can_update == can_update_spec(
                installed,
                opt_view(r.current_version),
                opt_view(r.latest_version),
            ),
    {
        let current_version = if installed {
            current
        } else {
            None
        };
        let can_update = compute_can_update(installed, &current_version, &latest);
        InstallerInfo {
            id: self.config.id.clone(),
            name: self.config.name.clone(),
            description: self.config.description.clone(),
            category: self.config.category.clone(),
            installed,
            current_version,
            latest_version: latest,
            can_update,
            dependencies: copy_texts(&self.config.dependencies),
        }
    }
}

impl Installer for ScriptInstaller {
    open spec fn id_view(&self) -> Seq<char> {
        self.config.id@
    }

    open spec fn name_view(&self) -> Seq<char> {
        self.config.name@
    }

    open spec fn description_view(&self) -> Seq<char> {
        self.config.description@
    }

    open spec fn category_view(&self) -> Seq<char> {
        self.config.category@
    }

    open spec fn dependencies_view(&self) -> Seq<Seq<char>> {
        self.config.dependencies.deep_view()
    }

    fn id(&self) -> (r: &str) {
        self.config.id.as_str()
    }

    fn name(&self) -> (r: &str) {
        self.config.name.as_str()
    }

    fn description(&self) -> (r: &str) {
        self.config.description.as_str()
    }

    fn category(&self) -> (r: &str) {
        self.config.category.as_str()
    }

    fn dependencies(&self) -> (r: Vec<String>) {
        copy_texts(&self.config.dependencies)
    }
}

} // verus!
