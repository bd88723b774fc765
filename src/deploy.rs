//! The per-environment settings from which the cluster manifests are
//! rendered, and how command-line options override them.

use vstd::prelude::*;

verus! {

/// The PostgreSQL version deployed unless another is asked for.
pub const POSTGRES_VERSION: &'static str = "14";

/// The repository of the published container image.
pub const IMAGE_REPOSITORY: &'static str = "ghcr.io/dbcrossbar/falconeri:";

/// Per-environment configuration.
#[derive(Debug)]
pub struct Config {
    /// The name of the environment: `development` or `production`.
    pub env: String,
    /// The storage class of the PostgreSQL volume; the cluster's default if
    /// unset.
    pub storage_class_name: Option<String>,
    /// The version of PostgreSQL to deploy.
    pub postgres_version: String,
    /// The amount of disk to allocate for PostgreSQL.
    pub postgres_storage: String,
    /// The amount of RAM to request for PostgreSQL.
    pub postgres_memory: String,
    /// The number of CPUs to request for PostgreSQL.
    pub postgres_cpu: String,
    /// The number of copies of the controller to run.
    pub falconerid_replicas: u16,
    /// The amount of RAM to request for the controller.
    pub falconerid_memory: String,
    /// The number of CPUs to request for the controller.
    pub falconerid_cpu: String,
    /// The log filter passed to the controller.
    pub falconerid_log_level: String,
    /// The database connection pool size of the controller.
    pub falconerid_pool_size: u16,
    /// Should the image come from the local cluster's Docker daemon?
    pub use_local_image: bool,
    /// The version being deployed.
    pub version: String,
    /// Whether to deploy MinIO for local S3-compatible storage.
    pub enable_minio: bool,
    /// The amount of disk to allocate for MinIO.
    pub minio_storage: String,
    /// The amount of RAM to request for MinIO.
    pub minio_memory: String,
    /// The number of CPUs to request for MinIO.
    pub minio_cpu: String,
    /// The full container image reference.
    pub image: String,
}

/// What the deploy command line may override.
#[derive(Debug)]
pub struct Opt {
    /// Just print out the manifest without deploying it.
    pub dry_run: bool,
    /// Don't include secrets in the manifest.
    pub skip_secrets: bool,
    /// Deploy a development server.
    pub development: bool,
    /// The storage class name for the PostgreSQL volume.
    pub storage_class_name: Option<String>,
    /// The version of PostgreSQL to deploy.
    pub postgres_version: String,
    /// The amount of disk to allocate for PostgreSQL.
    pub postgres_storage: Option<String>,
    /// The amount of RAM to request for PostgreSQL.
    pub postgres_memory: Option<String>,
    /// The number of CPUs to request for PostgreSQL.
    pub postgres_cpu: Option<String>,
    /// The number of copies of the controller to run.
    pub falconerid_replicas: Option<u16>,
    /// The amount of RAM to request for the controller.
    pub falconerid_memory: Option<String>,
    /// The number of CPUs to request for the controller.
    pub falconerid_cpu: Option<String>,
    /// The log filter for the controller.
    pub falconerid_log_level: Option<String>,
    /// Deploy MinIO; by default only in development.
    pub with_minio: Option<bool>,
    /// The amount of disk to allocate for MinIO.
    pub minio_storage: Option<String>,
    /// The amount of RAM to request for MinIO.
    pub minio_memory: Option<String>,
    /// The number of CPUs to request for MinIO.
    pub minio_cpu: Option<String>,
    /// A custom container image.
    pub image: Option<String>,
}

/// The default deployment configuration of version `version`, for a
/// development cluster or for production.
pub fn default_config(development: bool, version: &str) -> (r: Config)
    ensures
        r.storage_class_name is None,
        r.postgres_version@ == POSTGRES_VERSION@,
        r.version@ == version@,
        r.image@ == IMAGE_REPOSITORY@ + version@,
        r.use_local_image == development,
        r.enable_minio == development,
        development ==> {
            &&& r.env@ == "development"@
            &&& r.postgres_storage@ == "100Mi"@
            &&& r.postgres_memory@ == "256Mi"@
            &&& r.postgres_cpu@ == "100m"@
            &&& r.falconerid_replicas == 1
            &&& r.falconerid_memory@ == "256Mi"@
            &&& r.falconerid_cpu@ == "100m"@
            &&& r.falconerid_log_level@ == "falconeri_common=debug,falconerid=debug,warn"@
            &&& r.falconerid_pool_size == 4
            &&& r.minio_storage@ == "256Mi"@
            &&& r.minio_memory@ == "256Mi"@
            &&& r.minio_cpu@ == "100m"@
        },
        !development ==> {
            &&& r.env@ == "production"@
            &&& r.postgres_storage@ == "10Gi"@
            &&& r.postgres_memory@ == "1Gi"@
            &&& r.postgres_cpu@ == "500m"@
            &&& r.falconerid_replicas == 2
            &&& r.falconerid_memory@ == "256Mi"@
            &&& r.falconerid_cpu@ == "450m"@
            &&& r.falconerid_log_level@ == "warn"@
            &&& r.falconerid_pool_size == 32
            &&& r.minio_storage@ == "10Gi"@
            &&& r.minio_memory@ == "512Mi"@
            &&& r.minio_cpu@ == "250m"@
        },
{
    let image = IMAGE_REPOSITORY.to_string().concat(version);
    if development {
        Config {
            env: "development".to_string(),
            storage_class_name: None,
            postgres_version: POSTGRES_VERSION.to_string(),
            postgres_storage: "100Mi".to_string(),
            postgres_memory: "256Mi".to_string(),
            postgres_cpu: "100m".to_string(),
            falconerid_replicas: 1,
            falconerid_memory: "256Mi".to_string(),
            falconerid_cpu: "100m".to_string(),
            falconerid_log_level: "falconeri_common=debug,falconerid=debug,warn".to_string(),
            falconerid_pool_size: 4,
            use_local_image: true,
            version: version.to_string(),
            enable_minio: true,
            minio_storage: "256Mi".to_string(),
            minio_memory: "256Mi".to_string(),
            minio_cpu: "100m".to_string(),
            image,
        }
    } else {
        Config {
            env: "production".to_string(),
            storage_class_name: None,
            postgres_version: POSTGRES_VERSION.to_string(),
            postgres_storage: "10Gi".to_string(),
            postgres_memory: "1Gi".to_string(),
            postgres_cpu: "500m".to_string(),
            falconerid_replicas: 2,
            falconerid_memory: "256Mi".to_string(),
            falconerid_cpu: "450m".to_string(),
            falconerid_log_level: "warn".to_string(),
            falconerid_pool_size: 32,
            use_local_image: false,
            version: version.to_string(),
            enable_minio: false,
            minio_storage: "10Gi".to_string(),
            minio_memory: "512Mi".to_string(),
            minio_cpu: "250m".to_string(),
            image,
        }
    }
}

/// `value` if it is set, else `fallback`.
fn or_keep(value: &Option<String>, fallback: String) -> (r: String)
    ensures
        r == (match value {
            Some(v) => *v,
            None => fallback,
        }),
{
    match value {
        Some(v) => v.clone(),
        None => fallback,
    }
}

/// The configuration to deploy: the defaults for the chosen environment,
/// with each option that is set taking the place of its default.
pub fn deploy_config(opt: &Opt, version: &str) -> (r: Config)
    ensures
        ({
            let d = opt.development;
            &&& r.env@ == (if d { "development"@ } else { "production"@ })
            &&& r.storage_class_name == opt.storage_class_name
            &&& r.postgres_version == opt.postgres_version
            &&& r.falconerid_replicas == (match opt.falconerid_replicas {
                Some(n) => n,
                None => if d { 1u16 } else { 2u16 },
            })
            &&& r.enable_minio == (match opt.with_minio {
                Some(b) => b,
                None => d,
            })
            &&& r.postgres_storage@ == (match opt.postgres_storage {
                Some(v) => v@,
                None => if d { "100Mi"@ } else { "10Gi"@ },
            })
            &&& r.postgres_memory@ == (match opt.postgres_memory {
                Some(v) => v@,
                None => if d { "256Mi"@ } else { "1Gi"@ },
            })
            &&& r.postgres_cpu@ == (match opt.postgres_cpu {
                Some(v) => v@,
                None => if d { "100m"@ } else { "500m"@ },
            })
            &&& r.falconerid_memory@ == (match opt.falconerid_memory {
                Some(v) => v@,
                None => if d { "256Mi"@ } else { "256Mi"@ },
            })
            &&& r.falconerid_cpu@ == (match opt.falconerid_cpu {
                Some(v) => v@,
                None => if d { "100m"@ } else { "450m"@ },
            })
            &&& r.falconerid_log_level@ == (match opt.falconerid_log_level {
                Some(v) => v@,
                None => if d { "falconeri_common=debug,falconerid=debug,warn"@ } else { "warn"@ },
            })
            &&& r.minio_storage@ == (match opt.minio_storage {
                Some(v) => v@,
                None => if d { "256Mi"@ } else { "10Gi"@ },
            })
            &&& r.minio_memory@ == (match opt.minio_memory {
                Some(v) => v@,
                None => if d { "256Mi"@ } else { "512Mi"@ },
            })
            &&& r.minio_cpu@ == (match opt.minio_cpu {
                Some(v) => v@,
                None => if d { "100m"@ } else { "250m"@ },
            })
            &&& (match opt.image {
                Some(i) => r.image@ == i@,
                None => r.image@ == IMAGE_REPOSITORY@ + version@,
            })
            &&& r.falconerid_pool_size == (if d { 4u16 } else { 32u16 })
            &&& r.use_local_image == d
            &&& r.version@ == version@
        }),
{
    let c = default_config(opt.development, version);
    let storage_class_name = crate::models::copy_opt_string(&opt.storage_class_name);
    let falconerid_replicas = match opt.falconerid_replicas {
        Some(n) => n,
        None => c.falconerid_replicas,
    };
    let enable_minio = match opt.with_minio {
        Some(b) => b,
        None => c.enable_minio,
    };
    Config {
        env: c.env,
        storage_class_name,
        postgres_version: opt.postgres_version.clone(),
        postgres_storage: or_keep(&opt.postgres_storage, c.postgres_storage),
        postgres_memory: or_keep(&opt.postgres_memory, c.postgres_memory),
        postgres_cpu: or_keep(&opt.postgres_cpu, c.postgres_cpu),
        falconerid_replicas,
        falconerid_memory: or_keep(&opt.falconerid_memory, c.falconerid_memory),
        falconerid_cpu: or_keep(&opt.falconerid_cpu, c.falconerid_cpu),
        falconerid_log_level: or_keep(&opt.falconerid_log_level, c.falconerid_log_level),
        falconerid_pool_size: c.falconerid_pool_size,
        use_local_image: c.use_local_image,
        version: c.version,
        enable_minio,
        minio_storage: or_keep(&opt.minio_storage, c.minio_storage),
        minio_memory: or_keep(&opt.minio_memory, c.minio_memory),
        minio_cpu: or_keep(&opt.minio_cpu, c.minio_cpu),
        image: or_keep(&opt.image, c.image),
    }
}

} // verus!
