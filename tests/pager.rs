use meta_ads_scraper::client::request::{Params, SearchType};
use meta_ads_scraper::client::{Error as ClientError, Pager, Step};
use meta_ads_scraper::json::Json;
use meta_ads_scraper::model::{Cursors, Paging, Response, ResponseError, ResponseSuccess, ErrorType};
use meta_ads_scraper::version::GraphApiVersion;

fn params(after: Option<&str>) -> Params {
    Params::new(
        "TOKEN",
        true,
        GraphApiVersion::new(24, 0),
        "shoes",
        &["DE".to_string()],
        SearchType::KeywordUnordered,
        after,
    )
}

fn page(next: Option<String>) -> Response<Json> {
    Response::Success(ResponseSuccess {
        data: vec![Json::Null],
        paging: next.map(|next| Paging { cursors: Cursors { after: "c".to_string() }, next }),
    })
}

#[test]
fn single_page_without_paging_takes_one_request() {
    let (mut pager, first) = Pager::<Json>::start(&params(None));
    assert_eq!(first.url, params(None).build_request(None).url);
    assert!(matches!(pager.on_response(page(None)), Ok(Step::Done)));
    assert_eq!(pager.into_responses().len(), 1);
}

#[test]
fn chain_of_pages_follows_each_next_url() {
    let (mut pager, _first) = Pager::<Json>::start(&params(None));
    let mut requests = 1;
    for n in 1..=3 {
        let cursor = format!("C{n}");
        let next = params(Some(&cursor)).build_request(None).url;
        match pager.on_response(page(Some(next))) {
            Ok(Step::Fetch(request)) => {
                assert_eq!(request.url, params(Some(&cursor)).build_request(None).url);
                requests += 1;
            }
            _ => panic!("expected another page"),
        }
    }
    assert!(matches!(pager.on_response(page(None)), Ok(Step::Done)));
    assert_eq!(requests, 4);
    assert_eq!(pager.into_responses().len(), 4);
}

#[test]
fn failure_page_ends_the_search_and_is_kept() {
    let (mut pager, _first) = Pager::<Json>::start(&params(None));
    let failure = Response::Failure {
        error: ResponseError {
            message: "m".to_string(),
            error_type: ErrorType::OAuthException,
            code: 190,
            fbtrace_id: "t".to_string(),
        },
    };
    assert!(matches!(pager.on_response(failure), Ok(Step::Done)));
    assert_eq!(pager.responses.len(), 1);
}

#[test]
fn empty_next_url_ends_the_search() {
    let (mut pager, _first) = Pager::<Json>::start(&params(None));
    assert!(matches!(pager.on_response(page(Some(String::new()))), Ok(Step::Done)));
}

#[test]
fn foreign_next_url_is_an_error() {
    let (mut pager, _first) = Pager::<Json>::start(&params(None));
    let next = "https://example.com/next".to_string();
    match pager.on_response(page(Some(next.clone()))) {
        Err(ClientError::UnexpectedPaginationUrl(url)) => assert_eq!(url, next),
        _ => panic!("expected an error"),
    }
}
