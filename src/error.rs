use vstd::prelude::*;

verus! {

/// Every failure the library reports.
#[derive(Debug, PartialEq, Eq)]
pub enum ProjectManError {
    /// The configuration is missing, malformed, or a key or value is refused.
    Config(String),
    /// The version-control tool could not be run, or reported a failure.
    Git(String),
    /// No record of that name is in the registry.
    RepositoryNotFound(String),
    /// The workspace, or its registry, has not been initialized.
    WorkspaceNotFound,
    /// A repository reference could not be understood.
    InvalidUrl(String),
    /// A file could not be read or written.
    Io(String),
    /// The persisted registry could not be decoded.
    Yaml(String),
    /// The persisted configuration could not be decoded.
    Toml(String),
    /// A record of that name is already in the registry.
    DuplicateName(String),
    /// Another record already resolves to that directory.
    PathCollision(String),
}

/// An error as plain values.
pub enum ErrorView {
    Config(Seq<char>),
    Git(Seq<char>),
    RepositoryNotFound(Seq<char>),
    WorkspaceNotFound,
    InvalidUrl(Seq<char>),
    Io(Seq<char>),
    Yaml(Seq<char>),
    Toml(Seq<char>),
    DuplicateName(Seq<char>),
    PathCollision(Seq<char>),
}

impl View for ProjectManError {
    type V = ErrorView;

    open spec fn view(&self) -> ErrorView {
        match self {
            ProjectManError::Config(m) => ErrorView::Config(m@),
            ProjectManError::Git(m) => ErrorView::Git(m@),
            ProjectManError::RepositoryNotFound(m) => ErrorView::RepositoryNotFound(m@),
            ProjectManError::WorkspaceNotFound => ErrorView::WorkspaceNotFound,
            ProjectManError::InvalidUrl(m) => ErrorView::InvalidUrl(m@),
            ProjectManError::Io(m) => ErrorView::Io(m@),
            ProjectManError::Yaml(m) => ErrorView::Yaml(m@),
            ProjectManError::Toml(m) => ErrorView::Toml(m@),
            ProjectManError::DuplicateName(m) => ErrorView::DuplicateName(m@),
            ProjectManError::PathCollision(m) => ErrorView::PathCollision(m@),
        }
    }
}

} // verus!
