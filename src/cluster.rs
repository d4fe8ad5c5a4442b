use vstd::prelude::*;
use crate::errors::{cluster_error_kind, cluster_kind_spec, ErrorKind, HTTP_NOT_FOUND};

verus! {

/// How the cluster answered a request.
#[derive(Clone, Copy, Debug, PartialEq, Eq, Structural)]
pub enum ClusterReply {
    Success,
    /// The API refused the request with this HTTP status.
    Status(u16),
    /// The request failed before the API answered.
    Unreachable,
}

/// What a failed request means, when absence is not what was asked about.
pub open spec fn failure_kind(reply: ClusterReply) -> ErrorKind {
    match reply {
        ClusterReply::Status(s) => cluster_kind_spec(s),
        _ => ErrorKind::ClusterOther,
    }
}

fn reply_kind(reply: ClusterReply) -> (r: ErrorKind)
    ensures
        r == failure_kind(reply),
{
    match reply {
        ClusterReply::Status(s) => cluster_error_kind(s),
        _ => ErrorKind::ClusterOther,
    }
}

/// Whether the namespace exists, from the answer to reading it: found, or not found;
/// any other answer is an error.
pub fn namespace_found(reply: ClusterReply) -> (r: Result<bool, ErrorKind>)
    ensures
        match reply {
            ClusterReply::Success => r == Ok::<bool, ErrorKind>(true),
            ClusterReply::Status(s) => if s == HTTP_NOT_FOUND {
                r == Ok::<bool, ErrorKind>(false)
            } else {
                r == Err::<bool, ErrorKind>(cluster_kind_spec(s))
            },
            ClusterReply::Unreachable => r == Err::<bool, ErrorKind>(ErrorKind::ClusterOther),
        },
{
    match reply {
        ClusterReply::Success => Ok(true),
        ClusterReply::Status(s) => {
            if s == HTTP_NOT_FOUND {
                Ok(false)
            } else {
                Err(reply_kind(reply))
            }
        },
        ClusterReply::Unreachable => Err(ErrorKind::ClusterOther),
    }
}

/// Whether an apply may go on to create the secret after deleting the old one: a secret
/// that was not there is fine, any other failure stops the apply.
pub fn delete_cleared(reply: ClusterReply) -> (r: Result<(), ErrorKind>)
    ensures
        r is Ok <==> (reply is Success || reply == ClusterReply::Status(HTTP_NOT_FOUND)),
        r matches Err(k) ==> k == failure_kind(reply),
{
    match reply {
        ClusterReply::Success => Ok(()),
        ClusterReply::Status(s) => {
            if s == HTTP_NOT_FOUND {
                Ok(())
            } else {
                Err(reply_kind(reply))
            }
        },
        ClusterReply::Unreachable => Err(ErrorKind::ClusterOther),
    }
}

} // verus!
