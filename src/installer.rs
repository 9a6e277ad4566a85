use vstd::prelude::*;

verus! {

/// The view of an optional string.
pub open spec fn opt_view(o: Option<String>) -> Option<Seq<char>> {
    match o {
        Some(s) => Some(s@),
        None => None,
    }
}

/// An installer can be updated when it is installed, both versions are known
/// and they differ as strings.
pub open spec fn can_update_spec(
    installed: bool,
    current: Option<Seq<char>>,
    latest: Option<Seq<char>>,
) -> bool {
    installed && current.is_some() && latest.is_some() && current.unwrap() != latest.unwrap()
}

/// Read-only projection of an installer, computed fresh on each request.
#[derive(Debug, Clone)]
pub struct InstallerInfo {
    pub id: String,
    pub name: String,
    pub description: String,
    pub category: String,
    pub installed: bool,
    pub current_version: Option<String>,
    pub latest_version: Option<String>,
    pub can_update: bool,
    pub dependencies: Vec<String>,
}

/// Outcome of a mutating operation that ran to completion.
#[derive(Debug, Clone)]
pub struct InstallResult {
    pub success: bool,
    pub message: String,
}

/// State of one item of a batch.
#[derive(Debug, Clone, Copy, PartialEq, Eq, Structural)]
pub enum InstallStatus {
    Pending,
    Installing,
    Completed,
    Failed,
}

/// Progress of one item of a batch.
#[derive(Debug, Clone)]
pub struct InstallProgress {
    pub id: String,
    pub status: InstallStatus,
    pub progress: u8,
    pub message: String,
}

/// A request to install several installers one after another.
#[derive(Debug, Clone)]
pub struct BatchInstallRequest {
    pub ids: Vec<String>,
}

/// Final report of a batch.
#[derive(Debug, Clone)]
pub struct BatchInstallResponse {
    pub total: usize,
    pub completed: usize,
    pub failed: usize,
    pub progress: Vec<InstallProgress>,
}

/// Whether an installer can be updated, from its installed state and versions.
pub fn compute_can_update(
    installed: bool,
    current: &Option<String>,
    latest: &Option<String>,
) -> (r: bool)
    ensures
        r == can_update_spec(installed, opt_view(*current), opt_view(*latest)),
{
    match (current, latest) {
        (Some(c), Some(l)) => installed && !(*c == *l),
        _ => false,
    }
}

/// Identity and metadata shared by every kind of installer.
pub trait Installer {
    spec fn id_view(&self) -> Seq<char>;

    spec fn name_view(&self) -> Seq<char>;

    spec fn description_view(&self) -> Seq<char>;

    spec fn category_view(&self) -> Seq<char>;

    spec fn dependencies_view(&self) -> Seq<Seq<char>>;

    fn id(&self) -> (r: &str)
        ensures
            r@ == self.id_view(),
    ;

    fn name(&self) -> (r: &str)
        ensures
            r@ == self.name_view(),
    ;

    fn description(&self) -> (r: &str)
        ensures
            r@ == self.description_view(),
    ;

    fn category(&self) -> (r: &str)
        ensures
            r@ == self.category_view(),
    ;

    fn dependencies(&self) -> (r: Vec<String>)
        ensures
            r.deep_view() == self.dependencies_view(),
    ;
}

} // verus!
