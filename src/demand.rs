//! Where the control node keeps its learned model demand.
use vstd::prelude::*;
use crate::cache::{cache_root_of, store_path, CacheError, JsonStore};

verus! {

/// Location of the cached demand state.
pub struct DemandStore {
    pub store: JsonStore,
}

impl DemandStore {
    /// The store `cortex-model-demand` under the cache root of `home`.
    pub fn new(home: Option<&str>) -> (r: Result<Self, CacheError>)
        ensures
            home is None <==> r is Err,
            home matches Some(h) ==> r matches Ok(d) && d.store.spec_path() == store_path(
                cache_root_of(h@),
                "cortex-model-demand"@,
            ),
    {
        match JsonStore::new(home, "cortex-model-demand") {
            Ok(store) => Ok(DemandStore { store }),
            Err(e) => Err(e),
        }
    }
}

} // verus!
