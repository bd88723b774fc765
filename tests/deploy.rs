use falconeri::connect_via::ConnectVia;
use falconeri::db::database_url;
use falconeri::deploy::{default_config, deploy_config, Opt};

fn no_options(development: bool) -> Opt {
    Opt {
        dry_run: false,
        skip_secrets: false,
        development,
        storage_class_name: None,
        postgres_version: "14".to_string(),
        postgres_storage: None,
        postgres_memory: None,
        postgres_cpu: None,
        falconerid_replicas: None,
        falconerid_memory: None,
        falconerid_cpu: None,
        falconerid_log_level: None,
        with_minio: None,
        minio_storage: None,
        minio_memory: None,
        minio_cpu: None,
        image: None,
    }
}

#[test]
fn default_configs() {
    let dev = default_config(true, "2.0.0");
    assert_eq!(dev.env, "development");
    assert_eq!(dev.postgres_storage, "100Mi");
    assert_eq!(dev.falconerid_pool_size, 4);
    assert!(dev.enable_minio);
    assert!(dev.use_local_image);
    assert_eq!(dev.image, "ghcr.io/dbcrossbar/falconeri:2.0.0");
    let prod = default_config(false, "2.0.0");
    assert_eq!(prod.env, "production");
    assert_eq!(prod.falconerid_replicas, 2);
    assert_eq!(prod.falconerid_pool_size, 32);
    assert_eq!(prod.falconerid_log_level, "warn");
    assert!(!prod.enable_minio);
    assert_eq!(prod.postgres_version, "14");
}

#[test]
fn options_override_defaults() {
    let mut opt = no_options(false);
    opt.falconerid_replicas = Some(5);
    opt.with_minio = Some(true);
    opt.image = Some("example/falconeri:v1".to_string());
    opt.postgres_cpu = Some("2".to_string());
    opt.postgres_version = "16".to_string();
    let c = deploy_config(&opt, "2.0.0");
    assert_eq!(c.falconerid_replicas, 5);
    assert!(c.enable_minio);
    assert_eq!(c.image, "example/falconeri:v1");
    assert_eq!(c.postgres_cpu, "2");
    assert_eq!(c.postgres_memory, "1Gi");
    assert_eq!(c.postgres_version, "16");
    let d = deploy_config(&no_options(true), "2.0.0");
    assert_eq!(d.falconerid_replicas, 1);
    assert!(d.enable_minio);
}

#[test]
fn database_urls() {
    assert_eq!(
        database_url(ConnectVia::Cluster, None, "pw", None),
        "postgres://postgres:pw@falconeri-postgres:5432/"
    );
    assert_eq!(
        database_url(ConnectVia::Proxy, None, "pw", None),
        "postgres://postgres:pw@localhost:5432/"
    );
    assert_eq!(
        database_url(ConnectVia::Proxy, None, "pw", Some("db.example".to_string())),
        "postgres://postgres:pw@db.example:5432/"
    );
    assert_eq!(
        database_url(ConnectVia::Cluster, Some("postgres://x/".to_string()), "pw", None),
        "postgres://x/"
    );
}
