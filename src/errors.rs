use vstd::prelude::*;

verus! {

/// The kinds of failure the library and its collaborators report.
#[derive(Clone, Copy, Debug, PartialEq, Eq, Structural)]
pub enum ErrorKind {
    ConfigMissing,
    NamespaceNotFound,
    RemoteAuth,
    RemotePermission,
    RemoteNotFound,
    RemoteAlreadyExists,
    RemoteUnavailable,
    /// A remote status without a more specific kind.
    RemoteOther,
    ClusterAuth,
    ClusterPermission,
    ClusterNotFound,
    ClusterOther,
    ValueNotUtf8,
    CachePersistenceError,
}

/// gRPC status codes of the remote store that have a kind of their own.
pub const GRPC_NOT_FOUND: i32 = 5;
pub const GRPC_ALREADY_EXISTS: i32 = 6;
pub const GRPC_PERMISSION_DENIED: i32 = 7;
pub const GRPC_UNAVAILABLE: i32 = 14;
pub const GRPC_UNAUTHENTICATED: i32 = 16;

/// HTTP statuses of the cluster API that have a kind of their own.
pub const HTTP_UNAUTHORIZED: u16 = 401;
pub const HTTP_FORBIDDEN: u16 = 403;
pub const HTTP_NOT_FOUND: u16 = 404;

pub open spec fn remote_kind_spec(code: i32) -> ErrorKind {
    if code == GRPC_UNAUTHENTICATED {
        ErrorKind::RemoteAuth
    } else if code == GRPC_PERMISSION_DENIED {
        ErrorKind::RemotePermission
    } else if code == GRPC_NOT_FOUND {
        ErrorKind::RemoteNotFound
    } else if code == GRPC_ALREADY_EXISTS {
        ErrorKind::RemoteAlreadyExists
    } else if code == GRPC_UNAVAILABLE {
        ErrorKind::RemoteUnavailable
    } else {
        ErrorKind::RemoteOther
    }
}

pub open spec fn cluster_kind_spec(status: u16) -> ErrorKind {
    if status == HTTP_UNAUTHORIZED {
        ErrorKind::ClusterAuth
    } else if status == HTTP_FORBIDDEN {
        ErrorKind::ClusterPermission
    } else if status == HTTP_NOT_FOUND {
        ErrorKind::ClusterNotFound
    } else {
        ErrorKind::ClusterOther
    }
}

/// Translates a status code of the remote store into a kind.
pub fn remote_error_kind(code: i32) -> (r: ErrorKind)
    ensures
        r == remote_kind_spec(code),
{
    if code == GRPC_UNAUTHENTICATED {
        ErrorKind::RemoteAuth
    } else if code == GRPC_PERMISSION_DENIED {
        ErrorKind::RemotePermission
    } else if code == GRPC_NOT_FOUND {
        ErrorKind::RemoteNotFound
    } else if code == GRPC_ALREADY_EXISTS {
        ErrorKind::RemoteAlreadyExists
    } else if code == GRPC_UNAVAILABLE {
        ErrorKind::RemoteUnavailable
    } else {
        ErrorKind::RemoteOther
    }
}

/// Translates an HTTP status of the cluster API into a kind.
pub fn cluster_error_kind(status: u16) -> (r: ErrorKind)
    ensures
        r == cluster_kind_spec(status),
{
    if status == HTTP_UNAUTHORIZED {
        ErrorKind::ClusterAuth
    } else if status == HTTP_FORBIDDEN {
        ErrorKind::ClusterPermission
    } else if status == HTTP_NOT_FOUND {
        ErrorKind::ClusterNotFound
    } else {
        ErrorKind::ClusterOther
    }
}

impl ErrorKind {
    /// What the user is told, with guidance on what to do next.
    pub fn guidance(&self) -> (r: &'static str) {
        match self {
            ErrorKind::ConfigMissing => "No configuration found. Run 'ksecret init --project <PROJECT_ID>' to initialize.",
            ErrorKind::NamespaceNotFound => "Namespace does not exist in the target cluster.",
            ErrorKind::RemoteAuth => "Authentication failed.\nRun 'gcloud auth application-default login' to authenticate your local environment.",
            ErrorKind::RemotePermission => "Permission denied.\nEnsure your account has the 'Secret Manager Secret Accessor' (roles/secretmanager.secretAccessor) role for this project.",
            ErrorKind::RemoteNotFound => "Resource not found.\nCheck if the GCP project ID is correct and the secret exists.",
            ErrorKind::RemoteAlreadyExists => "Resource already exists.\nYou are trying to create a secret that is already present.",
            ErrorKind::RemoteUnavailable => "Service unavailable.\nGoogle Cloud Secret Manager might be experiencing issues or you have connectivity problems.",
            ErrorKind::RemoteOther => "Google Cloud Error.",
            ErrorKind::ClusterAuth => "Kubernetes Authentication failed.\nCheck your kubeconfig credentials.",
            ErrorKind::ClusterPermission => "Kubernetes Permission denied.\nYou don't have permission to perform this action in the namespace.",
            ErrorKind::ClusterNotFound => "Kubernetes Resource not found.",
            ErrorKind::ClusterOther => "Kubernetes API Error.",
            ErrorKind::ValueNotUtf8 => "Secret data is not valid UTF-8.",
            ErrorKind::CachePersistenceError => "Failed to read or write the cache file.",
        }
    }
}

} // verus!
