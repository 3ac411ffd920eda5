use actor_runtime::search_service::{SearchError, SearchServiceImpl};

fn service() -> SearchServiceImpl<u32, &'static str> {
    SearchServiceImpl::new(
        vec![
            ("wikipedia".to_string(), 1),
            ("logs".to_string(), 2),
            ("wikipedia".to_string(), 3),
        ],
        "resolver",
    )
}

#[test]
fn root_search_goes_to_the_metastore_of_the_index() {
    let service = service();
    assert_eq!(service.metastore("logs"), Ok(&2));
    assert_eq!(service.metastore("wikipedia"), Ok(&1));
    assert_eq!(*service.storage_resolver(), "resolver");
    let found = service.root_search("logs", &"query", |request, metastore, resolver| {
        Ok(format!("{request} on {metastore} with {resolver}"))
    });
    assert_eq!(found, Ok("query on 2 with resolver".to_string()));
    let failed: Result<u8, SearchError> = service.root_search("logs", &"query", |_, _, _| {
        Err(SearchError::InternalError("leaf search error".to_string()))
    });
    assert_eq!(
        failed,
        Err(SearchError::InternalError("leaf search error".to_string()))
    );
}

#[test]
fn root_search_of_an_unknown_index_fails() {
    let service = service();
    assert_eq!(
        service.metastore("missing"),
        Err(SearchError::IndexDoesNotExist {
            index_id: "missing".to_string()
        })
    );
    let searched = std::cell::Cell::new(false);
    let found: Result<u8, SearchError> = service.root_search("missing", &"query", |_, _, _| {
        searched.set(true);
        Ok(0)
    });
    assert_eq!(
        found,
        Err(SearchError::IndexDoesNotExist {
            index_id: "missing".to_string()
        })
    );
    assert!(!searched.get());
    let empty: SearchServiceImpl<u32, ()> = SearchServiceImpl::new(Vec::new(), ());
    assert!(empty.metastore("").is_err());
}
