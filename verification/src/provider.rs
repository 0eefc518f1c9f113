use vstd::prelude::*;
use vstd::string::*;

use crate::error::StoreError;
use crate::operator::{backend_error_text, build_operator};
use crate::options::{
    invalid_retry_message, retry_count_key, retry_count_spec, DEFAULT_DOWNLOAD_RETRY_COUNT,
    StorageOptions,
};
use crate::path::{
    canonical, dot_segment_message, invalid_path_message, path_ok, path_reject_message, ObjectPath,
};
use crate::store::{ObjectStore, ObjectStoreParams, DEFAULT_CLOUD_IO_PARALLELISM};
use crate::uri::{cluster_address, Uri};

verus! {

/// The reserved backend option that carries the cluster address.
pub open spec fn name_node_key() -> Seq<char> {
    "name_node"@
}

/// The options a URI and a caller bag map to: the retry-count option is
/// taken out for the provider's own use, the cluster address derived
/// from the URI is put in — overwriting any caller value under that
/// key — and every other binding passes through unchanged.
pub open spec fn mapped_options(
    m: Map<Seq<char>, Seq<char>>,
    scheme: Seq<char>,
    authority: Seq<char>,
) -> Map<Seq<char>, Seq<char>> {
    m.remove(retry_count_key()).insert(name_node_key(), cluster_address(scheme, authority))
}

/// The message reported when the backend cannot construct a handle: a
/// fixed prefix, then the backend's own description verbatim.
pub open spec fn operator_failure_message(backend_text: Seq<char>) -> Seq<char> {
    "failed to create HDFS native operator: "@ + backend_text
}

/// The three ways store opening rejects an input carry messages that
/// can never be mistaken for one another, whatever raw values they
/// name.
proof fn lemma_reject_messages_distinct(x: Seq<char>, y: Seq<char>, z: Seq<char>)
    ensures
        invalid_retry_message(x) != invalid_path_message(y),
        invalid_retry_message(x) != dot_segment_message(y),
        invalid_retry_message(x) != operator_failure_message(z),
        invalid_path_message(y) != operator_failure_message(z),
        dot_segment_message(y) != operator_failure_message(z),
{
    reveal_strlit("invalid download_retry_count value '");
    reveal_strlit("invalid path '");
    reveal_strlit("failed to create HDFS native operator: ");
    assert(invalid_retry_message(x)[8] == 'd');
    assert(invalid_path_message(y)[8] == 'p');
    assert(dot_segment_message(y)[8] == 'p');
    assert(invalid_retry_message(x)[0] == 'i');
    assert(invalid_path_message(y)[0] == 'i');
    assert(dot_segment_message(y)[0] == 'i');
    assert(operator_failure_message(z)[0] == 'f');
}

/// The caller options a parameter bag denotes: empty when absent.
pub open spec fn params_options(params: &ObjectStoreParams) -> Map<Seq<char>, Seq<char>> {
    match params.storage_options {
        Some(o) => o@,
        None => Map::empty(),
    }
}

/// Authority derivation overwrites: whatever cluster address the caller
/// bag held — stale or absent — the mapped options carry exactly the
/// one derived from the URI.
pub proof fn lemma_authority_overwrite(
    m: Map<Seq<char>, Seq<char>>,
    scheme: Seq<char>,
    authority: Seq<char>,
)
    ensures
        mapped_options(m, scheme, authority).contains_key(name_node_key()),
        mapped_options(m, scheme, authority)[name_node_key()] == cluster_address(
            scheme,
            authority,
        ),
        forall|k: Seq<char>|
            k != name_node_key() && k != retry_count_key() ==> (mapped_options(
                m,
                scheme,
                authority,
            ).contains_key(k) <==> m.contains_key(k)) && (m.contains_key(k)
                ==> mapped_options(m, scheme, authority)[k] == m[k]),
{
}

/// Retry count derivation: absent means the documented default, a
/// numeric value means itself, and anything else is no retry count at
/// all — never a silently clamped one.
pub proof fn lemma_retry_count(m: Map<Seq<char>, Seq<char>>)
    ensures
        !m.contains_key(retry_count_key()) ==> retry_count_spec(m) == Some(
            DEFAULT_DOWNLOAD_RETRY_COUNT as int,
        ),
        m.contains_key(retry_count_key()) && crate::options::all_digits(m[retry_count_key()])
            && crate::options::dec_val(m[retry_count_key()]) <= u64::MAX as int
            ==> retry_count_spec(m) == Some(crate::options::dec_val(m[retry_count_key()])),
        m.contains_key(retry_count_key()) && !crate::options::all_digits(m[retry_count_key()])
            ==> retry_count_spec(m) is None,
{
}

/// The store provider for `hdfs://` URIs: it maps caller options to
/// backend options, normalizes the base URI's path, builds the backend
/// handle, and hands back a configured store.
#[derive(Debug, Clone)]
pub struct HdfsStoreProvider;

impl HdfsStoreProvider {
    /// Normalizes a URI into the canonical absolute path the backend
    /// understands: the URI's path component, its nonempty segments
    /// kept in order. A file-style URI carries the absolute file path
    /// as its path component, so it normalizes the same way. Fails
    /// with `InvalidInput` exactly when the path component holds a
    /// malformed percent escape or a `"."` or `".."` segment.
    pub fn extract_path(&self, uri: &Uri) -> (r: Result<ObjectPath, StoreError>)
        ensures
            r is Ok <==> path_ok(uri.path@),
            r matches Ok(p) ==> p@ == canonical(uri.path@) && p.wf(),
            r matches Err(e) ==> e is InvalidInput && e.text() == path_reject_message(uri.path@),
    {
        ObjectPath::parse(uri.path.as_str())
    }

    /// Maps the caller's options into the backend's: the derived
    /// cluster address always wins over any caller value under the
    /// reserved key, the retry-count option is taken out, and every
    /// other binding passes through unchanged.
    pub fn build_backend_options(&self, existing: &StorageOptions, uri: &Uri) -> (r:
        StorageOptions)
        requires
            existing.wf(),
        ensures
            r.wf(),
            r@ == mapped_options(existing@, uri.scheme@, uri.authority@),
    {
        let mut backend = existing.duplicate();
        let retry_key = String::from_str("download_retry_count");
        backend.remove(&retry_key);
        backend.insert(String::from_str("name_node"), uri.authority_string());
        backend
    }

    /// Opens a store for the given base URI. The retry count is derived
    /// first — an unparsable value is an `InvalidInput` error naming the
    /// offending raw value — then the base path is normalized — a
    /// rejected path is an `InvalidInput` error naming the offending
    /// text — then the backend handle is built from the mapped options;
    /// a backend construction failure is an `InvalidInput` error
    /// carrying the backend's own description. On success the store
    /// wraps the handle, the canonical base path, the caller's tuning
    /// knobs, the fixed I/O parallelism, the derived retry count, and
    /// the caller's original options.
    pub fn new_store(&self, base_path: &Uri, params: &ObjectStoreParams) -> (r: Result<
        ObjectStore,
        StoreError,
    >)
        requires
            params.wf(),
        ensures
            (r matches Err(e) && e.text() == invalid_retry_message(
                params_options(params)[retry_count_key()],
            )) <==> retry_count_spec(params_options(params)) is None,
            (r matches Err(e) && e.text() == path_reject_message(base_path.path@)) <==> (
            retry_count_spec(params_options(params)) is Some && !path_ok(base_path.path@)),
            r matches Err(e) ==> e is InvalidInput,
            r matches Ok(s) ==> {
                &&& retry_count_spec(params_options(params)) matches Some(v)
                    && s.download_retry_count as int == v
                &&& path_ok(base_path.path@)
                &&& s.base_path@ == canonical(base_path.path@)
                &&& s.block_size == params.block_size
                &&& s.use_constant_size_upload_parts == params.use_constant_size_upload_parts
                &&& s.io_parallelism == DEFAULT_CLOUD_IO_PARALLELISM
                &&& s.storage_options@ == params_options(params)
                &&& s.wf()
            },
    {
        let storage_options = match &params.storage_options {
            Some(o) => o.duplicate(),
            None => StorageOptions::new(),
        };
        let download_retry_count = match storage_options.download_retry_count() {
            Ok(v) => v,
            Err(e) => {
                proof {
                    lemma_reject_messages_distinct(
                        params_options(params)[retry_count_key()],
                        base_path.path@,
                        Seq::<char>::empty(),
                    );
                }
                return Err(e);
            },
        };
        let base = match self.extract_path(base_path) {
            Ok(p) => p,
            Err(e) => {
                proof {
                    lemma_reject_messages_distinct(
                        params_options(params)[retry_count_key()],
                        base_path.path@,
                        Seq::<char>::empty(),
                    );
                }
                return Err(e);
            },
        };
        let backend_options = self.build_backend_options(&storage_options, base_path);
        let operator = match build_operator(backend_options.entries()) {
            Ok(op) => op,
            Err(e) => {
                let backend_text = backend_error_text(&e);
                let message = String::from_str("failed to create HDFS native operator: ").concat(
                    backend_text.as_str(),
                );
                proof {
                    assert(message@ == operator_failure_message(backend_text@));
                    lemma_reject_messages_distinct(
                        params_options(params)[retry_count_key()],
                        base_path.path@,
                        backend_text@,
                    );
                }
                return Err(StoreError::InvalidInput { message });
            },
        };
        Ok(
            ObjectStore {
                operator,
                base_path: base,
                block_size: params.block_size,
                use_constant_size_upload_parts: params.use_constant_size_upload_parts,
                io_parallelism: DEFAULT_CLOUD_IO_PARALLELISM,
                download_retry_count,
                storage_options,
            },
        )
    }
}

} // verus!
