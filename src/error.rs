use vstd::prelude::*;

verus! {

/// Why one reconciliation of a policy resource failed.
///
/// Every failure is retried after the same fixed delay; the variant only
/// serves as a label for observability.
#[derive(Debug, PartialEq, Eq)]
pub enum ControllerError {
    /// The resource carries no name.
    OpaBundleHasNoName,
    /// A directory or an entry file of the staging tree could not be written.
    OpaBundleDir { detail: String },
    /// No namespace to watch was configured.
    MissingWatchNamespace,
    /// The staging archive could not be created at `path`.
    CreateBundle { detail: String, path: String },
    /// The staging archive could not be finished.
    CreateBundleTar { detail: String },
    /// The staging tree could not be appended to the staging archive.
    AppendToBundleTar { detail: String },
    /// The staging archive could not be moved to the serving location `path`.
    PublishBundle { detail: String, path: String },
}

/// The label of each kind of failure: the name of its variant.
pub open spec fn category_name(e: ControllerError) -> Seq<char> {
    match e {
        ControllerError::OpaBundleHasNoName => "OpaBundleHasNoName"@,
        ControllerError::OpaBundleDir { .. } => "OpaBundleDir"@,
        ControllerError::MissingWatchNamespace => "MissingWatchNamespace"@,
        ControllerError::CreateBundle { .. } => "CreateBundle"@,
        ControllerError::CreateBundleTar { .. } => "CreateBundleTar"@,
        ControllerError::AppendToBundleTar { .. } => "AppendToBundleTar"@,
        ControllerError::PublishBundle { .. } => "PublishBundle"@,
    }
}

impl ControllerError {
    /// The label under which this failure is counted.
    pub fn category(&self) -> (r: &'static str)
        ensures
            r@ == category_name(*self),
    {
        match self {
            ControllerError::OpaBundleHasNoName => "OpaBundleHasNoName",
            ControllerError::OpaBundleDir { .. } => "OpaBundleDir",
            ControllerError::MissingWatchNamespace => "MissingWatchNamespace",
            ControllerError::CreateBundle { .. } => "CreateBundle",
            ControllerError::CreateBundleTar { .. } => "CreateBundleTar",
            ControllerError::AppendToBundleTar { .. } => "AppendToBundleTar",
            ControllerError::PublishBundle { .. } => "PublishBundle",
        }
    }
}

} // verus!
