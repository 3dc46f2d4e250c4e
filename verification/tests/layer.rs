use guard_combinator::{
    settle, Disposition, ExtractionError, Guard, GuardLayer, GuardService, GuardServiceExt,
    GuardServiceWrapper, GuardTree, Projection, Projector, Step,
};
use http::request::Parts;
use http::{Request, StatusCode};

#[derive(Clone, Debug, PartialEq)]
pub struct ArbitraryData {
    data: String,
}

impl Guard for ArbitraryData {
    fn check_guard(&self, expected: &Self) -> bool {
        *self == *expected
    }
}

/// Gives the subtree under it a state of its own, whatever the state around it.
struct Own(ArbitraryData);

impl Projection<ArbitraryData> for Own {
    fn project(&self, _state: &ArbitraryData) -> ArbitraryData {
        self.0.clone()
    }
}

/// Reads the header that the state names.
fn from_request_parts(parts: &mut Parts, state: &ArbitraryData) -> Result<ArbitraryData, ExtractionError> {
    let value = parts
        .headers
        .get(state.data.clone())
        .ok_or(ExtractionError::from_status(500, "error".into()))?;
    let text = value.to_str().map_err(|_| ExtractionError::from_status(500, "error".into()))?;
    Ok(ArbitraryData { data: text.to_string() })
}

/// What a mounted service answers: the status and the body.
type Answer = (StatusCode, String);

/// Anything that answers a request: the protected handler, or a wrapper around one.
trait Serve {
    fn serve(&self, request: Request<()>) -> Answer;
}

/// The handler of every route in these tests.
#[derive(Clone)]
struct Ok200;

impl Serve for Ok200 {
    fn serve(&self, _request: Request<()>) -> Answer {
        (StatusCode::OK, String::new())
    }
}

/// A middleware that does nothing to the request.
#[derive(Clone)]
struct Passing<S>(S);

impl<S: Serve> Serve for Passing<S> {
    fn serve(&self, request: Request<()>) -> Answer {
        self.0.serve(request)
    }
}

impl<S: Serve> Serve for GuardServiceWrapper<S, ArbitraryData, ArbitraryData> {
    fn serve(&self, request: Request<()>) -> Answer {
        let (mut parts, body) = request.into_parts();
        let mut evaluation = self.begin();
        let response = loop {
            let extracted = from_request_parts(&mut parts, evaluation.state());
            match evaluation.resume(extracted, parts) {
                Step::Extract(next, handed) => {
                    evaluation = next;
                    parts = handed;
                }
                Step::Done(response) => break response,
            }
        };
        match settle(response) {
            Disposition::Forward(parts) => self.inner().serve(Request::from_parts(parts, body)),
            Disposition::ShortCircuit(rejection) => {
                (StatusCode::from_u16(rejection.status).unwrap(), rejection.body)
            }
        }
    }
}

fn oneshot<S: Serve>(app: S, request: Request<()>) -> Answer {
    app.serve(request)
}

fn leaf(expected: &ArbitraryData) -> GuardTree<ArbitraryData, ArbitraryData> {
    GuardTree::leaf(expected.clone(), "err")
}

fn own(state: &ArbitraryData) -> Projector<ArbitraryData> {
    Projector::new(Own(state.clone()))
}

#[test]
fn test_layer() {
    let req = Request::builder().header("data", "data").body(()).unwrap();

    let data = ArbitraryData { data: "data".into() };
    let app = GuardLayer::with(GuardService::new(data.clone(), data.clone(), "err")).layer(Ok200);
    let resp = oneshot(app, req);
    assert_eq!(resp.0, StatusCode::OK)
}

#[test]
fn test_layer_or_ok() {
    let req = Request::builder()
        .header("data", "data")
        .header("not_data", "wazzup i'm a criminal")
        .body(())
        .unwrap();

    let data = ArbitraryData { data: "data".into() };
    let app = GuardLayer::with(
        GuardService::new(data.clone(), data.clone(), "err")
            .or_with_projection(own(&ArbitraryData { data: "not_data".into() }), leaf(&data)),
    )
    .layer(Ok200);
    let resp = oneshot(app, req);
    assert_eq!(resp.0, StatusCode::OK)
}

#[test]
fn test_layer_or_not_ok() {
    let req = Request::builder()
        .header("data", "wazzup i'm a criminal")
        .header("not_data", "wazzup i'm a criminal")
        .body(())
        .unwrap();

    let data = ArbitraryData { data: "data".into() };
    let app = GuardLayer::with(
        GuardService::new(data.clone(), data.clone(), "err")
            .or_with_projection(own(&ArbitraryData { data: "not_data".into() }), leaf(&data)),
    )
    .layer(Ok200);
    let resp = oneshot(app, req);
    assert_eq!(resp.0, StatusCode::UNAUTHORIZED)
}

#[test]
fn test_layer_and_ok() {
    let req = Request::builder()
        .header("data", "data")
        .header("not_data", "not_data")
        .body(())
        .unwrap();

    let data = ArbitraryData { data: "data".into() };
    let definitely_still_data = ArbitraryData { data: "not_data".into() };
    let app = GuardLayer::with(
        GuardService::new(data.clone(), data.clone(), "err")
            .and_with_projection(own(&definitely_still_data), leaf(&definitely_still_data)),
    )
    .layer(Ok200);
    let resp = oneshot(app, req);
    assert_eq!(resp.0, StatusCode::OK)
}

#[test]
fn test_layer_and_not_ok() {
    let req = Request::builder()
        .header("data", "data")
        .header("not_data", "GRRR I SO HACK U")
        .body(())
        .unwrap();

    let data = ArbitraryData { data: "data".into() };
    let definitely_still_data = ArbitraryData { data: "not_data".into() };
    let app = GuardLayer::with(
        GuardService::new(data.clone(), data.clone(), "err")
            .and_with_projection(own(&definitely_still_data), leaf(&definitely_still_data)),
    )
    .layer(Ok200);
    let resp = oneshot(app, req);
    assert_eq!(resp.0, StatusCode::UNAUTHORIZED)
}

#[test]
fn test_deep_layer_ok() {
    let req = Request::builder()
        .header("1", "1")
        .header("2", "2")
        .header("3", "3")
        .header("4", "4")
        .header("5", "5")
        .header("6", "6")
        .header("7", "8")
        .body(())
        .unwrap();

    let one = ArbitraryData { data: "1".into() };
    let two = ArbitraryData { data: "2".into() };
    let three = ArbitraryData { data: "3".into() };
    let four = ArbitraryData { data: "4".into() };
    let five = ArbitraryData { data: "5".into() };
    let six = ArbitraryData { data: "6".into() };
    let seven = ArbitraryData { data: "7".into() };
    let bad = ArbitraryData { data: "bad".into() };

    let app = GuardLayer::with(
        GuardService::new(one.clone(), one.clone(), "err")
            .and_with_projection(
                own(&two),
                leaf(&bad).or_with_projection(
                    own(&three),
                    leaf(&bad).or_with_projection(own(&four), leaf(&four)),
                ),
            )
            .and_with_projection(own(&five), leaf(&five))
            .and_with_projection(own(&six), leaf(&six))
            .or_with_projection(own(&seven), leaf(&bad)),
    )
    .layer(Ok200);
    let resp = oneshot(app, req);
    assert_eq!(resp.0, StatusCode::OK)
}

#[test]
fn test_into_layer() {
    let req = Request::builder().header("data", "data").body(()).unwrap();

    let data = ArbitraryData { data: "data".into() };
    let app = GuardService::new(data.clone(), data.clone(), "err").into_layer().layer(Ok200);
    let resp = oneshot(app, req);
    assert_eq!(resp.0, StatusCode::OK)
}

#[test]
fn test_happy_with_layered_polls() {
    let guarded = GuardLayer::with(GuardService::new(
        ArbitraryData { data: "x".into() },
        ArbitraryData { data: "x".into() },
        "err",
    ))
    .layer(Passing(Ok200));
    let app = Passing(guarded);
    let response = oneshot(app, Request::builder().header("x", "x").uri("/").body(()).unwrap());

    assert_eq!(response.0, StatusCode::OK);
}

#[test]
fn a_layer_shares_its_service_with_every_handler() {
    let data = ArbitraryData { data: "data".into() };
    let layer = GuardLayer::with(GuardService::new(data.clone(), data.clone(), "err"));
    let first = layer.layer(Ok200);
    let second = layer.clone().layer(Passing(Ok200));
    let third = first.clone();
    assert!(std::ptr::eq(first.guard_service(), second.guard_service()));
    assert!(std::ptr::eq(first.guard_service(), third.guard_service()));
    assert!(std::ptr::eq(first.guard_service(), &*first.shared_guard()));
    assert_eq!(first.guard_service().state(), &data);

    let allowed = Request::builder().header("data", "data").body(()).unwrap();
    let denied = Request::builder().header("data", "nope").body(()).unwrap();
    assert_eq!(oneshot(second, allowed), (StatusCode::OK, String::new()));
    assert_eq!(oneshot(third, denied), (StatusCode::UNAUTHORIZED, "err".to_string()));
}

#[test]
fn the_outer_of_two_layers_decides_first() {
    let hello = ArbitraryData { data: "Hello World.".into() };
    let should_fail = ArbitraryData { data: "Should fail.".into() };
    let header = ArbitraryData { data: "greeting".into() };

    let inner = GuardLayer::with(GuardService::new(header.clone(), hello.clone(), "inner")).layer(Ok200);
    let outer = GuardLayer::with(GuardService::new(header.clone(), should_fail, "outer")).layer(inner.clone());

    let request = Request::builder().header("greeting", "Hello World.").body(()).unwrap();
    assert_eq!(oneshot(outer, request), (StatusCode::UNAUTHORIZED, "outer".to_string()));

    let request = Request::builder().header("greeting", "Hello World.").body(()).unwrap();
    assert_eq!(oneshot(inner, request), (StatusCode::OK, String::new()));
}
