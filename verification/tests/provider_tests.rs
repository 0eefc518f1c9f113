use hdfs_provider::options::StorageOptions;
use hdfs_provider::path::ObjectPath;
use hdfs_provider::provider::HdfsStoreProvider;
use hdfs_provider::store::ObjectStoreParams;
use hdfs_provider::uri::Uri;

#[test]
fn test_hdfs_store_path() {
    let provider = HdfsStoreProvider;

    let url = Uri::parse("hdfs://hdfs-server/path/to/file").unwrap();
    let path = provider.extract_path(&url).unwrap();
    let expected_path = ObjectPath::parse("/path/to/file").unwrap();
    assert_eq!(path, expected_path);
}

#[test]
fn uri_parse_splits_scheme_authority_path() {
    let u = Uri::parse("hdfs://hdfs-server/path/to/file").unwrap();
    assert_eq!(u.scheme, "hdfs");
    assert_eq!(u.authority, "hdfs-server");
    assert_eq!(u.path, "/path/to/file");
    assert_eq!(u.authority_string(), "hdfs://hdfs-server");
}

#[test]
fn uri_parse_keeps_nested_scheme_in_path() {
    let u = Uri::parse("hdfs://host/hdfs://real-host/path").unwrap();
    assert_eq!(u.scheme, "hdfs");
    assert_eq!(u.authority, "host");
    assert_eq!(u.path, "/hdfs://real-host/path");
}

#[test]
fn uri_parse_rejects_other_shapes() {
    assert!(Uri::parse("no-scheme-here").unwrap_err().is_invalid_input());
    assert!(Uri::parse("").unwrap_err().is_invalid_input());
    assert!(Uri::parse("://host/path").unwrap_err().is_invalid_input());
    assert!(Uri::parse("hdfs:/host/path").unwrap_err().is_invalid_input());
}

#[test]
fn extract_path_round_trip() {
    let provider = HdfsStoreProvider;
    let u = Uri::parse("hdfs://host/a/b/c").unwrap();
    assert_eq!(provider.extract_path(&u).unwrap().as_str(), "/a/b/c");

    let f = Uri::parse("file:///tmp/x").unwrap();
    assert_eq!(provider.extract_path(&f).unwrap().as_str(), "/tmp/x");
}

#[test]
fn extract_path_canonicalizes() {
    let provider = HdfsStoreProvider;
    let u = Uri::parse("hdfs://host//a///b/").unwrap();
    assert_eq!(provider.extract_path(&u).unwrap().as_str(), "/a/b");

    let empty = Uri::parse("hdfs://host").unwrap();
    assert_eq!(provider.extract_path(&empty).unwrap().as_str(), "/");
}

#[test]
fn uri_parse_stops_path_at_query_and_fragment() {
    let q = Uri::parse("hdfs://host/a?b=c").unwrap();
    assert_eq!(q.authority, "host");
    assert_eq!(q.path, "/a");

    let f = Uri::parse("hdfs://host/a/b#frag").unwrap();
    assert_eq!(f.path, "/a/b");

    let bare = Uri::parse("hdfs://host?x=1").unwrap();
    assert_eq!(bare.authority, "host");
    assert_eq!(bare.path, "");

    let provider = HdfsStoreProvider;
    assert_eq!(provider.extract_path(&q).unwrap().as_str(), "/a");
}

#[test]
fn object_path_rejects_relative_segments() {
    for bad in ["/a/../b", "/a/./b", "/.", "/..", "/a/..", "a/../b"] {
        let e = ObjectPath::parse(bad).unwrap_err();
        assert!(e.is_invalid_input());
        assert!(e.message().contains("relative segment"));
        assert!(e.message().contains(bad));
    }
    assert_eq!(ObjectPath::parse("/.hidden").unwrap().as_str(), "/.hidden");
    assert_eq!(ObjectPath::parse("/a..b/c.").unwrap().as_str(), "/a..b/c.");

    let provider = HdfsStoreProvider;
    let u = Uri::parse("hdfs://host/a/../b").unwrap();
    assert!(provider.extract_path(&u).unwrap_err().is_invalid_input());
}

#[test]
fn object_path_keeps_valid_escapes_and_rejects_bad_ones() {
    assert_eq!(ObjectPath::parse("/x%2Fy").unwrap().as_str(), "/x%2Fy");
    let e = ObjectPath::parse("/bad%2").unwrap_err();
    assert!(e.is_invalid_input());
    assert!(e.message().contains("bad percent escape"));
    assert!(ObjectPath::parse("/bad%GG").unwrap_err().is_invalid_input());
}

#[test]
fn storage_options_insert_overwrites_and_remove_drops() {
    let mut opts = StorageOptions::new();
    opts.insert("k".to_string(), "v1".to_string());
    opts.insert("k".to_string(), "v2".to_string());
    assert_eq!(opts.get(&"k".to_string()), Some(&"v2".to_string()));
    opts.remove(&"k".to_string());
    assert_eq!(opts.get(&"k".to_string()), None);
}

#[test]
fn authority_overwrites_stale_cluster_address() {
    let provider = HdfsStoreProvider;
    let mut caller = StorageOptions::new();
    caller.insert("name_node".to_string(), "hdfs://stale-host:1".to_string());
    caller.insert("other".to_string(), "kept".to_string());
    caller.insert("download_retry_count".to_string(), "7".to_string());

    let uri = Uri::parse("hdfs://real-host:9000/data").unwrap();
    let backend = provider.build_backend_options(&caller, &uri);

    assert_eq!(
        backend.get(&"name_node".to_string()),
        Some(&"hdfs://real-host:9000".to_string())
    );
    assert_eq!(backend.get(&"other".to_string()), Some(&"kept".to_string()));
    assert_eq!(backend.get(&"download_retry_count".to_string()), None);
}

#[test]
fn retry_count_defaults_to_three() {
    let opts = StorageOptions::new();
    assert_eq!(opts.download_retry_count().unwrap(), 3);
}

#[test]
fn retry_count_uses_explicit_value() {
    let mut opts = StorageOptions::new();
    opts.insert("download_retry_count".to_string(), "5".to_string());
    assert_eq!(opts.download_retry_count().unwrap(), 5);
}

#[test]
fn retry_count_rejects_non_numeric() {
    let mut opts = StorageOptions::new();
    opts.insert("download_retry_count".to_string(), "many".to_string());
    let e = opts.download_retry_count().unwrap_err();
    assert!(e.is_invalid_input());
    assert!(e.message().contains("many"));

    let mut huge = StorageOptions::new();
    huge.insert(
        "download_retry_count".to_string(),
        "99999999999999999999999".to_string(),
    );
    assert!(huge.download_retry_count().unwrap_err().is_invalid_input());
}

#[test]
fn new_store_rejects_non_numeric_retry_count() {
    let provider = HdfsStoreProvider;
    let mut opts = StorageOptions::new();
    opts.insert("download_retry_count".to_string(), "soon".to_string());
    let params = ObjectStoreParams {
        block_size: None,
        storage_options: Some(opts),
        use_constant_size_upload_parts: false,
    };
    let uri = Uri::parse("hdfs://127.0.0.1:9000/data").unwrap();
    let e = provider.new_store(&uri, &params).unwrap_err();
    assert!(e.is_invalid_input());
    assert!(e.message().contains("soon"));
}

#[test]
fn new_store_rejects_bad_path_escape() {
    let provider = HdfsStoreProvider;
    let params = ObjectStoreParams::default();
    let uri = Uri::parse("hdfs://127.0.0.1:9000/bad%zz").unwrap();
    let e = provider.new_store(&uri, &params).unwrap_err();
    assert!(e.is_invalid_input());
    assert!(e.message().contains("bad percent escape"));
    assert!(e.message().contains("/bad%zz"));

    let dotted = Uri::parse("hdfs://127.0.0.1:9000/a/../b").unwrap();
    let d = provider.new_store(&dotted, &ObjectStoreParams::default()).unwrap_err();
    assert!(d.is_invalid_input());
    assert!(d.message().contains("relative segment"));
}

#[test]
fn new_store_configures_the_store() {
    let provider = HdfsStoreProvider;
    let params = ObjectStoreParams {
        block_size: Some(1024),
        storage_options: None,
        use_constant_size_upload_parts: true,
    };
    let uri = Uri::parse("hdfs://127.0.0.1:9000/warehouse").unwrap();
    let store = provider.new_store(&uri, &params).unwrap();
    assert_eq!(store.base_path.as_str(), "/warehouse");
    assert_eq!(store.block_size, Some(1024));
    assert!(store.use_constant_size_upload_parts);
    assert_eq!(store.io_parallelism, 64);
    assert_eq!(store.download_retry_count, 3);

    let mut w = store.create_writer();
    let parts = w.write(&[7u8; 2500]).unwrap();
    assert_eq!(parts.len(), 2);
    assert_eq!(parts[0].len(), 1024);
    assert_eq!(parts[1].len(), 1024);
    let last = w.shutdown().unwrap();
    assert_eq!(last.len(), 452);
}

#[test]
fn backend_error_kind_is_reportable() {
    let e = hdfs_provider::error::StoreError::Backend {
        message: "connection reset".to_string(),
    };
    assert!(e.is_backend());
    assert!(!e.is_invalid_input());
    assert_eq!(e.message(), "connection reset");
}
