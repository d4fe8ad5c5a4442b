use ksecret::cluster::{delete_cleared, namespace_found, ClusterReply};
use ksecret::errors::ErrorKind;

#[test]
fn namespace_lookup_answers() {
    assert_eq!(namespace_found(ClusterReply::Success), Ok(true));
    assert_eq!(namespace_found(ClusterReply::Status(404)), Ok(false));
    assert_eq!(namespace_found(ClusterReply::Status(403)), Err(ErrorKind::ClusterPermission));
    assert_eq!(namespace_found(ClusterReply::Unreachable), Err(ErrorKind::ClusterOther));
}

#[test]
fn delete_tolerates_absence_only() {
    assert_eq!(delete_cleared(ClusterReply::Success), Ok(()));
    assert_eq!(delete_cleared(ClusterReply::Status(404)), Ok(()));
    assert_eq!(delete_cleared(ClusterReply::Status(401)), Err(ErrorKind::ClusterAuth));
    assert_eq!(delete_cleared(ClusterReply::Status(500)), Err(ErrorKind::ClusterOther));
    assert_eq!(delete_cleared(ClusterReply::Unreachable), Err(ErrorKind::ClusterOther));
}
