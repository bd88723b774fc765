//! Object-store URIs: `gs://bucket/key` and `s3://bucket/key`.

use vstd::prelude::*;

verus! {

/// The scheme prefix of Google Cloud Storage URIs.
pub const GS_SCHEME: &'static str = "gs://";

/// The scheme prefix of S3 URIs.
pub const S3_SCHEME: &'static str = "s3://";

/// A URI that does not have the form `<scheme>bucket` or
/// `<scheme>bucket/key`.
#[derive(Debug, Clone, Copy, PartialEq, Eq)]
pub struct InvalidUrl;

/// Is `url` the scheme `scheme` followed by the bucket `bucket` and then
/// either nothing (with an empty `key`) or `/` and `key`? A bucket is not
/// empty and holds no `/`; a key holds no line break.
pub open spec fn splits_as(url: Seq<char>, scheme: Seq<char>, bucket: Seq<char>, key: Seq<char>) -> bool {
    &&& bucket.len() > 0
    &&& forall|i: int| 0 <= i < bucket.len() ==> bucket[i] != '/'
    &&& forall|i: int| 0 <= i < key.len() ==> key[i] != '\n'
    &&& (url == scheme + bucket && key.len() == 0) || url == scheme + bucket + seq!['/'] + key
}

/// The object stores that URIs can name.
#[derive(Debug, Clone, Copy, PartialEq, Eq, Structural)]
pub enum StorageBackend {
    /// Google Cloud Storage, for `gs://` URIs.
    GoogleCloudStorage,
    /// S3 or an S3-compatible store, for `s3://` URIs.
    S3,
}

/// Does `s` begin with `prefix`?
pub open spec fn has_prefix(s: Seq<char>, prefix: Seq<char>) -> bool {
    s.len() >= prefix.len() && s.subrange(0, prefix.len() as int) == prefix
}

/// Does `s` begin with `prefix`?
pub fn starts_with(s: &str, prefix: &str) -> (r: bool)
    ensures
        r == has_prefix(s@, prefix@),
{
    let n = s.unicode_len();
    let m = prefix.unicode_len();
    if n < m {
        return false;
    }
    let mut i: usize = 0;
    while i < m
        invariant
            i <= m <= n,
            m == prefix@.len(),
            n == s@.len(),
            forall|q: int| 0 <= q < i ==> s@[q] == prefix@[q],
        decreases m - i,
    {
        if s.get_char(i) != prefix.get_char(i) {
            assert(s@.subrange(0, m as int)[i as int] != prefix@[i as int]);
            return false;
        }
        i = i + 1;
    }
    assert(s@.subrange(0, m as int) =~= prefix@);
    true
}

/// The object store that `uri` names, by its scheme.
pub fn storage_backend_for(uri: &str) -> (r: Result<StorageBackend, InvalidUrl>)
    ensures
        r == (if has_prefix(uri@, GS_SCHEME@) {
            Ok::<StorageBackend, InvalidUrl>(StorageBackend::GoogleCloudStorage)
        } else if has_prefix(uri@, S3_SCHEME@) {
            Ok(StorageBackend::S3)
        } else {
            Err(InvalidUrl)
        }),
{
    if starts_with(uri, GS_SCHEME) {
        Ok(StorageBackend::GoogleCloudStorage)
    } else if starts_with(uri, S3_SCHEME) {
        Ok(StorageBackend::S3)
    } else {
        Err(InvalidUrl)
    }
}

/// Split `url` into its bucket and key, given its scheme prefix `scheme`.
pub fn parse_bucket_url<'a>(url: &'a str, scheme: &str) -> (r: Result<(&'a str, &'a str), InvalidUrl>)
    ensures
        match r {
            Ok((bucket, key)) => splits_as(url@, scheme@, bucket@, key@),
            Err(_) => forall|b: Seq<char>, k: Seq<char>| !#[trigger] splits_as(url@, scheme@, b, k),
        },
{
    let n = url.unicode_len();
    let m = scheme.unicode_len();
    if n < m {
        proof {
            assert forall|b: Seq<char>, k: Seq<char>| !#[trigger] splits_as(url@, scheme@, b, k) by {
                if splits_as(url@, scheme@, b, k) {
                    assert((scheme@ + b).len() >= m);
                }
            }
        }
        return Err(InvalidUrl);
    }
    let mut i: usize = 0;
    while i < m
        invariant
            i <= m,
            m == scheme@.len(),
            n == url@.len(),
            m <= n,
            forall|q: int| 0 <= q < i ==> url@[q] == scheme@[q],
        decreases m - i,
    {
        if url.get_char(i) != scheme.get_char(i) {
            proof {
                assert forall|b: Seq<char>, k: Seq<char>| !#[trigger] splits_as(url@, scheme@, b, k) by {
                    if splits_as(url@, scheme@, b, k) {
                        if url@ == scheme@ + b {
                            assert(url@[i as int] == (scheme@ + b)[i as int]);
                        } else {
                            assert(url@[i as int] == (scheme@ + b + seq!['/'] + k)[i as int]);
                        }
                    }
                }
            }
            return Err(InvalidUrl);
        }
        i = i + 1;
    }
    assert(url@.subrange(0, m as int) =~= scheme@);
    // The bucket runs up to the first `/`.
    let mut e: usize = m;
    while e < n
        invariant
            m <= e <= n,
            n == url@.len(),
            forall|q: int| m <= q < e ==> url@[q] != '/',
        ensures
            m <= e <= n,
            forall|q: int| m <= q < e ==> url@[q] != '/',
            e < n ==> url@[e as int] == '/',
        decreases n - e,
    {
        if url.get_char(e) == '/' {
            break;
        }
        e = e + 1;
    }
    if e == m {
        proof {
            assert forall|b: Seq<char>, k: Seq<char>| !#[trigger] splits_as(url@, scheme@, b, k) by {
                if splits_as(url@, scheme@, b, k) {
                    if url@ == scheme@ + b {
                        assert(url@[m as int] == b[0]);
                    } else {
                        assert(url@[m as int] == (scheme@ + b + seq!['/'] + k)[m as int]);
                        assert((scheme@ + b + seq!['/'] + k)[m as int] == b[0]);
                    }
                }
            }
        }
        return Err(InvalidUrl);
    }
    let bucket = url.substring_char(m, e);
    if e == n {
        proof {
            assert(url@ =~= scheme@ + bucket@);
        }
        return Ok((bucket, url.substring_char(n, n)));
    }
    let key = url.substring_char(e + 1, n);
    let mut q: usize = e + 1;
    while q < n
        invariant
            e + 1 <= q <= n,
            n == url@.len(),
            m == scheme@.len(),
            m < e < n,
            url@.subrange(0, m as int) == scheme@,
            url@[e as int] == '/',
            forall|t: int| m <= t < e ==> url@[t] != '/',
            forall|t: int| e + 1 <= t < q ==> url@[t] != '\n',
        decreases n - q,
    {
        if url.get_char(q) == '\n' {
            proof {
                assert forall|b: Seq<char>, k: Seq<char>| !#[trigger] splits_as(url@, scheme@, b, k) by {
                    if splits_as(url@, scheme@, b, k) {
                        let lb = b.len() as int;
                        if url@ == scheme@ + b {
                            assert(url@[e as int] == (scheme@ + b)[e as int]);
                            assert(b[e - m] == '/');
                        } else {
                            let full = scheme@ + b + seq!['/'] + k;
                            if m + lb < e {
                                assert(url@[m + lb] == full[m + lb]);
                            } else if m + lb > e {
                                assert(url@[e as int] == full[e as int]);
                                assert(full[e as int] == b[e - m]);
                            } else {
                                assert(url@[q as int] == full[q as int]);
                                assert(full[q as int] == k[q - m - lb - 1]);
                            }
                        }
                    }
                }
            }
            return Err(InvalidUrl);
        }
        q = q + 1;
    }
    proof {
        assert(url@ =~= scheme@ + bucket@ + seq!['/'] + key@);
    }
    Ok((bucket, key))
}

/// Split a `gs://` URI into its bucket and key.
pub fn parse_gs_url(url: &str) -> (r: Result<(&str, &str), InvalidUrl>)
    ensures
        match r {
            Ok((bucket, key)) => splits_as(url@, GS_SCHEME@, bucket@, key@),
            Err(_) => forall|b: Seq<char>, k: Seq<char>| !#[trigger] splits_as(url@, GS_SCHEME@, b, k),
        },
{
    parse_bucket_url(url, GS_SCHEME)
}

/// Split an `s3://` URI into its bucket and key.
pub fn parse_s3_url(url: &str) -> (r: Result<(&str, &str), InvalidUrl>)
    ensures
        match r {
            Ok((bucket, key)) => splits_as(url@, S3_SCHEME@, bucket@, key@),
            Err(_) => forall|b: Seq<char>, k: Seq<char>| !#[trigger] splits_as(url@, S3_SCHEME@, b, k),
        },
{
    parse_bucket_url(url, S3_SCHEME)
}

/// The URI to which the output file at `rel_path` under the output directory
/// is uploaded: the egress URI, with a `/` added if it lacks one, then the
/// relative path.
pub open spec fn output_uri_spec(egress_uri: Seq<char>, rel_path: Seq<char>) -> Seq<char> {
    if egress_uri.len() > 0 && egress_uri.last() == '/' {
        egress_uri + rel_path
    } else {
        egress_uri + seq!['/'] + rel_path
    }
}

/// The URI to which the output file at `rel_path` is uploaded.
pub fn output_uri(egress_uri: &str, rel_path: &str) -> (r: String)
    ensures
        r@ == output_uri_spec(egress_uri@, rel_path@),
{
    let mut uri = egress_uri.to_string();
    let n = egress_uri.unicode_len();
    if n == 0 || egress_uri.get_char(n - 1) != '/' {
        uri.append("/");
        proof {
            reveal_strlit("/");
        }
    }
    uri.append(rel_path);
    uri
}

} // verus!
