use byo_tools::{
    auth_url, blob_url, manifest_url, BlobFetch, CallKind, FetchAction, FetchReply, FetchStage,
    ImageReference, LayerDescriptor, Manifest, RunError,
};

fn manifest(digests: &[&str]) -> Manifest {
    Manifest { layers: digests.iter().map(|d| LayerDescriptor { digest: d.to_string() }).collect() }
}

fn call_of(a: FetchAction) -> (CallKind, String, Option<String>) {
    match a {
        FetchAction::Call(c) => (c.kind, c.url, c.token),
        other => panic!("expected a request, got {:?}", other),
    }
}

#[test]
fn registry_urls() {
    assert_eq!(
        auth_url("busybox"),
        "https://auth.docker.io/token?service=registry.docker.io&scope=repository:library/busybox:pull"
    );
    assert_eq!(manifest_url("busybox", "latest"), "https://registry.hub.docker.com/v2/library/busybox/manifests/latest");
    assert_eq!(blob_url("busybox", "sha256:a"), "https://registry.hub.docker.com/v2/library/busybox/blobs/sha256:a");
}

#[test]
fn image_reference_default_tag() {
    let r = ImageReference::new("busybox".to_string(), None);
    assert_eq!(r.tag, "latest");
    let r = ImageReference::new("alpine".to_string(), Some("3.19".to_string()));
    assert_eq!(r.name, "alpine");
    assert_eq!(r.tag, "3.19");
}

#[test]
fn fetch_order_token_manifest_then_blobs_in_manifest_order() {
    let (mut f, a) = BlobFetch::start("busybox", "latest");
    assert_eq!(call_of(a), (CallKind::Token, auth_url("busybox"), None));
    let a = f.step(FetchReply::Token("tok".to_string()));
    assert_eq!(call_of(a), (CallKind::Manifest, manifest_url("busybox", "latest"), Some("tok".to_string())));
    let a = f.step(FetchReply::Manifest(manifest(&["sha256:a", "sha256:b"])));
    assert_eq!(call_of(a), (CallKind::Blob, blob_url("busybox", "sha256:a"), Some("tok".to_string())));
    let a = f.step(FetchReply::Blob(vec![1]));
    assert_eq!(call_of(a), (CallKind::Blob, blob_url("busybox", "sha256:b"), Some("tok".to_string())));
    let a = f.step(FetchReply::Blob(vec![2]));
    assert!(matches!(a, FetchAction::Finished));
    assert_eq!(f.stage, FetchStage::Done);
    assert_eq!(f.blobs, vec![vec![1], vec![2]]);
    assert_eq!(f.issued.len(), 4);
    assert!(matches!(f.step(FetchReply::Blob(vec![3])), FetchAction::Finished));
    assert_eq!(f.issued.len(), 4);
}

#[test]
fn fetch_of_empty_manifest_finishes() {
    let (mut f, _) = BlobFetch::start("scratch", "latest");
    f.step(FetchReply::Token("t".to_string()));
    assert!(matches!(f.step(FetchReply::Manifest(manifest(&[]))), FetchAction::Finished));
    assert_eq!(f.issued.len(), 2);
    assert!(f.blobs.is_empty());
}

#[test]
fn fetch_stops_at_token_failure() {
    let (mut f, _) = BlobFetch::start("busybox", "latest");
    assert!(matches!(f.step(FetchReply::Error), FetchAction::Abort(RunError::Auth)));
    assert_eq!(f.stage, FetchStage::Failed);
    assert!(!matches!(f.step(FetchReply::Token("t".to_string())), FetchAction::Call(_)));
    assert_eq!(f.issued.len(), 1);
}

#[test]
fn fetch_of_missing_image_stops_at_manifest() {
    let (mut f, _) = BlobFetch::start("no-such-image", "latest");
    f.step(FetchReply::Token("t".to_string()));
    assert!(matches!(f.step(FetchReply::Error), FetchAction::Abort(RunError::Manifest)));
    assert_eq!(f.issued.len(), 2);
    assert!(f.issued.iter().all(|c| c.kind != CallKind::Blob));
}

#[test]
fn fetch_stops_at_blob_failure() {
    let (mut f, _) = BlobFetch::start("busybox", "latest");
    f.step(FetchReply::Token("t".to_string()));
    f.step(FetchReply::Manifest(manifest(&["sha256:a", "sha256:b", "sha256:c"])));
    f.step(FetchReply::Blob(vec![1]));
    assert!(matches!(f.step(FetchReply::Error), FetchAction::Abort(RunError::Blob)));
    assert_eq!(f.issued.len(), 4);
    assert_eq!(f.blobs.len(), 1);
}

#[test]
fn fetch_answer_of_wrong_kind_fails() {
    let (mut f, _) = BlobFetch::start("busybox", "latest");
    assert!(matches!(f.step(FetchReply::Blob(vec![])), FetchAction::Abort(RunError::Auth)));
}
