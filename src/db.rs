//! Where the database is.

use vstd::prelude::*;

use crate::connect_via::ConnectVia;

verus! {

/// The host that proxied connections go to unless another is named.
pub const DEFAULT_PROXY_HOST: &'static str = "localhost";

/// The database host inside the cluster.
pub const CLUSTER_DB_HOST: &'static str = "falconeri-postgres";

/// The URL of the PostgreSQL database reached as user `postgres` with
/// `password` at `host`, on the default port.
pub open spec fn postgres_url(password: Seq<char>, host: Seq<char>) -> Seq<char> {
    "postgres://postgres:"@ + password + "@"@ + host + ":5432/"@
}

/// The database URL: `override_url` where one is given (for testing outside
/// a cluster); otherwise the cluster's database, reached through the proxy
/// host (`localhost` by default) or by its service name inside the cluster.
pub fn database_url(
    via: ConnectVia,
    override_url: Option<String>,
    password: &str,
    proxy_host: Option<String>,
) -> (r: String)
    ensures
        match override_url {
            Some(u) => r == u,
            None => r@ == postgres_url(
                password@,
                match via {
                    ConnectVia::Proxy => match proxy_host {
                        Some(h) => h@,
                        None => DEFAULT_PROXY_HOST@,
                    },
                    ConnectVia::Cluster => CLUSTER_DB_HOST@,
                },
            ),
        },
{
    match override_url {
        Some(u) => u,
        None => {
            let host = match via {
                ConnectVia::Proxy => match proxy_host {
                    Some(h) => h,
                    None => DEFAULT_PROXY_HOST.to_string(),
                },
                ConnectVia::Cluster => CLUSTER_DB_HOST.to_string(),
            };
            let url = "postgres://postgres:".to_string().concat(password).concat("@").concat(
                host.as_str(),
            ).concat(":5432/");
            url
        },
    }
}

} // verus!
