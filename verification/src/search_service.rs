use vstd::prelude::*;

verus! {

/// Why a search failed.
#[derive(Debug, Clone, PartialEq, Eq)]
pub enum SearchError {
    /// No metastore is known for the index.
    IndexDoesNotExist { index_id: String },
    /// The search itself failed.
    InternalError(String),
}

/// The place of the first entry for `index_id` at or after `from`, or the
/// number of entries if there is none.
pub open spec fn route<M>(router: Seq<(String, M)>, index_id: Seq<char>, from: int) -> int
    decreases router.len() - from,
{
    if from < 0 || from >= router.len() {
        router.len() as int
    } else if router[from].0@ == index_id {
        from
    } else {
        route(router, index_id, from + 1)
    }
}

/// The search service: for each index the metastore that knows it, and the
/// resolver of the storage that holds its splits.
pub struct SearchServiceImpl<M, S> {
    metastore_router: Vec<(String, M)>,
    storage_resolver: S,
}

impl<M, S> SearchServiceImpl<M, S> {
    /// The metastores, by index.
    pub closed spec fn router(&self) -> Seq<(String, M)> {
        self.metastore_router@
    }

    /// The storage resolver.
    pub closed spec fn resolver(&self) -> S {
        self.storage_resolver
    }

    /// Create search service
    pub fn new(metastore_router: Vec<(String, M)>, storage_resolver: S) -> (service: Self)
        ensures
            service.router() == metastore_router@,
            service.resolver() == storage_resolver,
    {
        SearchServiceImpl { metastore_router, storage_resolver }
    }

    /// The storage resolver.
    pub fn storage_resolver(&self) -> (resolver: &S)
        ensures
            *resolver == self.resolver(),
    {
        &self.storage_resolver
    }

    /// The metastore that knows an index: the first that was given for it.
    /// An index for which none was given does not exist.
    pub fn metastore(&self, index_id: &str) -> (metastore: Result<&M, SearchError>)
        ensures
            match metastore {
                Ok(found) => route(self.router(), index_id@, 0) < self.router().len() && *found
                    == self.router()[route(self.router(), index_id@, 0)].1,
                Err(error) => {
                    &&& route(self.router(), index_id@, 0) == self.router().len()
                    &&& error matches SearchError::IndexDoesNotExist { index_id: missing }
                    &&& missing@ == index_id@
                },
            },
    {
        let wanted = index_id.to_owned();
        let mut place: usize = 0;
        while place < self.metastore_router.len()
            invariant
                place <= self.metastore_router@.len(),
                wanted@ == index_id@,
                route(self.router(), index_id@, place as int) == route(
                    self.router(),
                    index_id@,
                    0,
                ),
            decreases self.metastore_router@.len() - place,
        {
            if self.metastore_router[place].0 == wanted {
                return Ok(&self.metastore_router[place].1);
            }
            place += 1;
        }
        Err(SearchError::IndexDoesNotExist { index_id: wanted })
    }

    /// Root search: finds the metastore of the index and hands the request,
    /// the metastore and the storage resolver to `search`, whose result is
    /// the result. For an index without metastore the search is not made.
    pub fn root_search<Q, R, F: FnOnce(&Q, &M, &S) -> Result<R, SearchError>>(
        &self,
        index_id: &str,
        search_request: &Q,
        search: F,
    ) -> (found: Result<R, SearchError>)
        requires
            forall|metastore: &M| search.requires((search_request, metastore, &self.resolver())),
        ensures
            if route(self.router(), index_id@, 0) < self.router().len() {
                search.ensures(
                    (
                        search_request,
                        &self.router()[route(self.router(), index_id@, 0)].1,
                        &self.resolver(),
                    ),
                    found,
                )
            } else {
                &&& found matches Err(SearchError::IndexDoesNotExist { index_id: missing })
                &&& missing@ == index_id@
            },
    {
        match self.metastore(index_id) {
            Ok(metastore) => search(search_request, metastore, &self.storage_resolver),
            Err(error) => Err(error),
        }
    }
}

} // verus!
