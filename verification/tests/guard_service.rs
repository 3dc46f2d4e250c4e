use guard_combinator::{
    ErrorKind, EvaluationOutcome, ExtractionError, Guard, GuardService, GuardServiceExt,
    GuardServiceResponse, GuardTree, Projection, Projector, Step,
};
use http::request::Parts;
use http::{HeaderValue, Request};

#[derive(Clone, Debug, PartialEq)]
pub struct ArbitraryData {
    data: String,
}

impl Guard for ArbitraryData {
    fn check_guard(&self, expected: &Self) -> bool {
        *self == *expected
    }
}

/// Gives the subtree under it a state of its own, whatever the state around it.
struct Own(ArbitraryData);

impl Projection<ArbitraryData> for Own {
    fn project(&self, _state: &ArbitraryData) -> ArbitraryData {
        self.0.clone()
    }
}

/// Reads the header that the state names.
fn from_request_parts(parts: &mut Parts, state: &ArbitraryData) -> Result<ArbitraryData, ExtractionError> {
    let value = parts
        .headers
        .get(state.data.clone())
        .ok_or(ExtractionError::from_status(500, "error".into()))?;
    let text = value.to_str().map_err(|_| ExtractionError::from_status(500, "error".into()))?;
    Ok(ArbitraryData { data: text.to_string() })
}

fn call(service: &GuardService<ArbitraryData, ArbitraryData>, parts: Parts) -> GuardServiceResponse<Parts> {
    let mut parts = parts;
    let mut evaluation = service.begin();
    loop {
        let extracted = from_request_parts(&mut parts, evaluation.state());
        match evaluation.resume(extracted, parts) {
            Step::Extract(next, handed) => {
                evaluation = next;
                parts = handed;
            }
            Step::Done(response) => return response,
        }
    }
}

fn guard(state: &ArbitraryData, expected: &ArbitraryData) -> GuardService<ArbitraryData, ArbitraryData> {
    GuardService::new(state.clone(), expected.clone(), "err")
}

fn leaf(expected: &ArbitraryData) -> GuardTree<ArbitraryData, ArbitraryData> {
    GuardTree::leaf(expected.clone(), "err")
}

fn own(state: &ArbitraryData) -> Projector<ArbitraryData> {
    Projector::new(Own(state.clone()))
}

#[test]
fn test_guard_service_ok() {
    let (mut parts, _) = Request::new(()).into_parts();
    parts.headers.insert("data", HeaderValue::from_static("other_data"));
    assert_eq!(
        call(
            &GuardService::new(
                ArbitraryData { data: "data".into() },
                ArbitraryData { data: "other_data".into() },
                "err"
            ),
            parts
        )
        .0,
        EvaluationOutcome::Allowed
    );
}

#[test]
fn test_guard_service_not_from_request_parts_error() {
    let (mut parts, _) = Request::new(()).into_parts();
    parts.headers.insert("BIG-UH-OH", HeaderValue::from_static("other_data"));
    let result = call(
        &GuardService::new(
            ArbitraryData { data: "data".into() },
            ArbitraryData { data: "other_data".into() },
            "err",
        ),
        parts,
    );
    match result.0 {
        EvaluationOutcome::ExtractionFailed(error) => {
            assert_eq!(error.kind, ErrorKind::Server);
            assert_eq!(error.kind.status(), 500);
            assert_eq!(error.detail, "error");
        }
        other => panic!("extraction was to fail, got {:?}", other),
    }
}

#[test]
fn test_guard_service_expected_failed() {
    let (mut parts, _) = Request::new(()).into_parts();
    parts.headers.insert("data", HeaderValue::from_static("other_data"));
    assert_eq!(
        call(
            &GuardService::new(
                ArbitraryData { data: "data".into() },
                ArbitraryData { data: "NOT OTHER DATA MY BAD".into() },
                "err"
            ),
            parts
        )
        .0,
        EvaluationOutcome::Denied(Some("err".into()))
    );
}

#[test]
fn test_and() {
    let (mut parts, _) = Request::new(()).into_parts();
    parts.headers.insert("data", HeaderValue::from_static("data"));
    parts.headers.insert("other_data", HeaderValue::from_static("other_data"));
    let data = ArbitraryData { data: "data".into() };
    let other_data = ArbitraryData { data: "data".into() };
    assert!(call(
        &guard(&data, &data).and_with_projection(own(&other_data), leaf(&other_data)),
        parts
    )
    .0
    .is_allowed())
}

#[test]
fn test_or() {
    let (mut parts, _) = Request::new(()).into_parts();
    parts.headers.insert("data", HeaderValue::from_static("data"));
    parts.headers.insert("other_data", HeaderValue::from_static("NUH UH BRUH NUHHHHH"));
    let data = ArbitraryData { data: "data".into() };
    let other_data = ArbitraryData { data: "data".into() };
    assert!(call(
        &guard(&data, &data).or_with_projection(own(&other_data), leaf(&other_data)),
        parts
    )
    .0
    .is_allowed())
}

#[test]
fn test_and_deep() {
    let (mut parts, _) = Request::new(()).into_parts();
    parts.headers.insert("data", HeaderValue::from_static("data"));
    let data = ArbitraryData { data: "data".into() };
    let pair = || leaf(&data).and(leaf(&data));
    let four = || pair().and(pair());
    assert!(call(
        &GuardService::with_tree(data.clone(), four().and(four())),
        parts
    )
    .0
    .is_allowed())
}

fn greeting(value: &'static str) -> Parts {
    let (mut parts, _) = Request::new(()).into_parts();
    parts.headers.insert("greeting", HeaderValue::from_static(value));
    parts
}

#[test]
fn a_header_that_equals_the_expected_value_allows() {
    let service = GuardService::new(
        ArbitraryData { data: "greeting".into() },
        ArbitraryData { data: "Hello World.".into() },
        "not greeted",
    );
    assert_eq!(call(&service, greeting("Hello World.")).0, EvaluationOutcome::Allowed);
}

#[test]
fn a_header_that_differs_from_the_expected_value_denies() {
    let service = GuardService::new(
        ArbitraryData { data: "greeting".into() },
        ArbitraryData { data: "Hello World.".into() },
        "not greeted",
    );
    assert_eq!(
        call(&service, greeting("Goodbye.")).0,
        EvaluationOutcome::Denied(Some("not greeted".into()))
    );
}

#[test]
fn the_metadata_come_back_with_the_outcome() {
    let service = GuardService::new(
        ArbitraryData { data: "greeting".into() },
        ArbitraryData { data: "Hello World.".into() },
        "not greeted",
    );
    let response = call(&service, greeting("Hello World."));
    assert_eq!(response.1.headers.get("greeting").unwrap(), "Hello World.");
}
