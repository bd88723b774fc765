use falconeri::uri::{output_uri, parse_gs_url, parse_s3_url, storage_backend_for, StorageBackend};

#[test]
fn gs_url_parsing() {
    assert_eq!(parse_gs_url("gs://bucket").unwrap(), ("bucket", ""));
    assert_eq!(parse_gs_url("gs://bucket/").unwrap(), ("bucket", ""));
    assert_eq!(parse_gs_url("gs://bucket/path").unwrap(), ("bucket", "path"));
    assert_eq!(parse_gs_url("gs://bucket/path/").unwrap(), ("bucket", "path/"));
    assert!(parse_gs_url("s3://foo/").is_err());
}

#[test]
fn url_parsing() {
    assert_eq!(parse_s3_url("s3://top-level").unwrap(), ("top-level", ""));
    assert_eq!(parse_s3_url("s3://top-level/").unwrap(), ("top-level", ""));
    assert_eq!(
        parse_s3_url("s3://top-level/path").unwrap(),
        ("top-level", "path")
    );
    assert_eq!(
        parse_s3_url("s3://top-level/path/").unwrap(),
        ("top-level", "path/")
    );
    assert!(parse_s3_url("gs://foo/").is_err());
}

#[test]
fn url_parsing_edge_cases() {
    assert!(parse_s3_url("s3://").is_err());
    assert!(parse_s3_url("s3:///key").is_err());
    assert!(parse_s3_url("s3:/").is_err());
    assert!(parse_s3_url("").is_err());
    assert!(parse_s3_url("s3://b/line\nbreak").is_err());
    assert_eq!(parse_s3_url("s3://b/a/b/c").unwrap(), ("b", "a/b/c"));
    assert_eq!(parse_gs_url("gs://b//x").unwrap(), ("b", "/x"));
}

#[test]
fn output_uris() {
    assert_eq!(output_uri("gs://bucket/out/", "a/b.txt"), "gs://bucket/out/a/b.txt");
    assert_eq!(output_uri("gs://bucket/out", "b.txt"), "gs://bucket/out/b.txt");
    assert_eq!(output_uri("", "b"), "/b");
}

#[test]
fn storage_backends() {
    assert_eq!(storage_backend_for("gs://b/k"), Ok(StorageBackend::GoogleCloudStorage));
    assert_eq!(storage_backend_for("s3://b/"), Ok(StorageBackend::S3));
    assert!(storage_backend_for("file:///tmp").is_err());
    assert!(storage_backend_for("gs:/").is_err());
}
