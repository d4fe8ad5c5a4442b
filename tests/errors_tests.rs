use ksecret::payload::decode_payload;
use ksecret::errors::{cluster_error_kind, remote_error_kind, ErrorKind};

#[test]
fn remote_codes_map_to_kinds() {
    assert_eq!(remote_error_kind(16), ErrorKind::RemoteAuth);
    assert_eq!(remote_error_kind(7), ErrorKind::RemotePermission);
    assert_eq!(remote_error_kind(5), ErrorKind::RemoteNotFound);
    assert_eq!(remote_error_kind(6), ErrorKind::RemoteAlreadyExists);
    assert_eq!(remote_error_kind(14), ErrorKind::RemoteUnavailable);
    assert_eq!(remote_error_kind(2), ErrorKind::RemoteOther);
}

#[test]
fn cluster_statuses_map_to_kinds() {
    assert_eq!(cluster_error_kind(401), ErrorKind::ClusterAuth);
    assert_eq!(cluster_error_kind(403), ErrorKind::ClusterPermission);
    assert_eq!(cluster_error_kind(404), ErrorKind::ClusterNotFound);
    assert_eq!(cluster_error_kind(500), ErrorKind::ClusterOther);
}

#[test]
fn guidance_names_the_remedy() {
    assert!(ErrorKind::RemoteAuth.guidance().contains("gcloud auth application-default login"));
    assert!(ErrorKind::ConfigMissing.guidance().contains("ksecret init"));
}

#[test]
fn payload_must_be_utf8() {
    assert_eq!(decode_payload(b"hunter2".to_vec()), Ok("hunter2".to_string()));
    assert_eq!(decode_payload("é".as_bytes().to_vec()), Ok("é".to_string()));
    assert_eq!(decode_payload(vec![0xff, 0x41]), Err(ErrorKind::ValueNotUtf8));
    assert_eq!(decode_payload(Vec::new()), Ok(String::new()));
}
