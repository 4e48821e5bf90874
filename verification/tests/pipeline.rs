use windmill::literal::route;
use windmill::step;
use windmill::Action;
use windmill::ContentType;
use windmill::Dispatch;
use windmill::Error;
use windmill::Event;
use windmill::Method;
use windmill::Response;
use windmill::Router;
use windmill::State;

struct Exchange {
    length_indicator: Option<&'static str>,
    body: &'static [u8],
    contexts: Vec<Result<(), Error>>,
    handler: fn(Option<String>) -> Result<String, Error>,
}

struct Outcome {
    response: Response,
    states: Vec<State>,
    extractions: Vec<usize>,
    body_reads: usize,
    decodes: usize,
    handler_calls: usize,
    handler_saw: Option<Option<String>>,
    responses: usize,
}

// Plays the part of the server: performs each action the pipeline asks for
// and reports what came of it.
fn serve(exchange: Exchange, matched: bool) -> Outcome {
    let mut outcome = Outcome {
        response: Response { status: 0, content_type: None, body: vec![] },
        states: vec![State::Unmatched],
        extractions: vec![],
        body_reads: 0,
        decodes: 0,
        handler_calls: 0,
        handler_saw: None,
        responses: 0,
    };
    let mut state = State::Unmatched;
    let mut buffer: Vec<u8> = vec![];
    let mut decoded: Option<String> = None;
    let mut event = if matched {
        Event::Matched {
            contexts: exchange.contexts.len(),
            length_indicator: exchange.length_indicator.map(|v| v.to_string()),
        }
    } else {
        Event::Unrouted
    };
    loop {
        let (then, action) = step(state, event).expect("the server only reports what was asked");
        state = then;
        outcome.states.push(then);
        event = match action {
            Action::ExtractContext { index } => {
                outcome.extractions.push(index);
                match &exchange.contexts[index] {
                    Ok(()) => Event::ContextReady,
                    Err(error) => Event::ContextFailed(Error {
                        code: error.code,
                        msg: error.msg.clone(),
                    }),
                }
            }
            Action::ReadBody => {
                outcome.body_reads += 1;
                buffer = exchange.body.to_vec();
                Event::BodyRead
            }
            Action::DecodeBody => {
                outcome.decodes += 1;
                match serde_json::from_slice::<String>(&buffer) {
                    Ok(value) => {
                        decoded = Some(value);
                        Event::Decoded
                    }
                    Err(error) => Event::DecodeFailed(error.to_string()),
                }
            }
            Action::InvokeHandler { default_body } => {
                outcome.handler_calls += 1;
                let body = if default_body { None } else { decoded.take() };
                outcome.handler_saw = Some(body.clone());
                match (exchange.handler)(body) {
                    Ok(value) => Event::Returned(
                        serde_json::to_vec(&value).map_err(|error| error.to_string()),
                    ),
                    Err(error) => Event::Failed(error),
                }
            }
            Action::Send(response) => {
                outcome.response = response;
                outcome.responses += 1;
                Event::Sent
            }
            Action::Finish => return outcome,
        };
    }
}

fn echo(body: Option<String>) -> Result<String, Error> {
    Ok(body.unwrap_or_else(|| "nothing".to_string()))
}

fn refuse(_: Option<String>) -> Result<String, Error> {
    Err(Error { code: 401, msg: "Unauthorized".to_string() })
}

#[test]
fn request_with_body_runs_every_stage_in_order() {
    let outcome = serve(
        Exchange {
            length_indicator: Some("7"),
            body: b"\"hello\"",
            contexts: vec![Ok(()), Ok(())],
            handler: echo,
        },
        true,
    );
    assert_eq!(
        outcome.states,
        vec![
            State::Unmatched,
            State::ContextPending { next: 0, total: 2, body_expected: true },
            State::ContextPending { next: 1, total: 2, body_expected: true },
            State::BodyPending,
            State::Decoding,
            State::HandlerRunning,
            State::Success,
            State::Responded,
        ]
    );
    assert_eq!(outcome.extractions, vec![0, 1]);
    assert_eq!(outcome.body_reads, 1);
    assert_eq!(outcome.decodes, 1);
    assert_eq!(outcome.handler_calls, 1);
    assert_eq!(outcome.handler_saw, Some(Some("hello".to_string())));
    assert_eq!(outcome.response.status, 200);
    assert_eq!(outcome.response.content_type, Some(ContentType::Json));
    assert_eq!(outcome.response.body, b"\"hello\"".to_vec());
}

#[test]
fn zero_length_skips_read_and_decode() {
    let outcome = serve(
        Exchange {
            length_indicator: Some("0"),
            body: b"ignored",
            contexts: vec![Ok(())],
            handler: echo,
        },
        true,
    );
    assert_eq!(
        outcome.states,
        vec![
            State::Unmatched,
            State::ContextPending { next: 0, total: 1, body_expected: false },
            State::HandlerRunning,
            State::Success,
            State::Responded,
        ]
    );
    assert_eq!(outcome.body_reads, 0);
    assert_eq!(outcome.decodes, 0);
    assert_eq!(outcome.handler_calls, 1);
    assert_eq!(outcome.handler_saw, Some(None));
    assert_eq!(outcome.response.status, 200);
    assert_eq!(outcome.response.body, b"\"nothing\"".to_vec());
}

#[test]
fn malformed_body_is_a_bad_request_and_the_handler_rests() {
    let outcome = serve(
        Exchange {
            length_indicator: Some("5"),
            body: b"{oops",
            contexts: vec![],
            handler: echo,
        },
        true,
    );
    assert_eq!(
        outcome.states,
        vec![
            State::Unmatched,
            State::BodyPending,
            State::Decoding,
            State::Failure,
            State::Responded,
        ]
    );
    assert_eq!(outcome.body_reads, 1);
    assert_eq!(outcome.handler_calls, 0);
    assert_eq!(outcome.response.status, 400);
    let diagnostic = serde_json::from_slice::<String>(b"{oops").unwrap_err().to_string();
    assert_eq!(outcome.response.body, serde_json::to_vec(&diagnostic).unwrap());
}

#[test]
fn handler_error_is_passed_on_verbatim() {
    let outcome = serve(
        Exchange { length_indicator: Some("0"), body: b"", contexts: vec![], handler: refuse },
        true,
    );
    assert_eq!(
        outcome.states,
        vec![State::Unmatched, State::HandlerRunning, State::Failure, State::Responded]
    );
    assert_eq!(outcome.handler_calls, 1);
    assert_eq!(outcome.response.status, 401);
    assert_eq!(outcome.response.body, b"\"Unauthorized\"".to_vec());
}

#[test]
fn failed_context_stops_before_body_and_handler() {
    let outcome = serve(
        Exchange {
            length_indicator: Some("7"),
            body: b"\"hello\"",
            contexts: vec![
                Ok(()),
                Err(Error { code: 400, msg: "authorization required".to_string() }),
                Ok(()),
            ],
            handler: echo,
        },
        true,
    );
    assert_eq!(
        outcome.states,
        vec![
            State::Unmatched,
            State::ContextPending { next: 0, total: 3, body_expected: true },
            State::ContextPending { next: 1, total: 3, body_expected: true },
            State::Failure,
            State::Responded,
        ]
    );
    assert_eq!(outcome.extractions, vec![0, 1]);
    assert_eq!(outcome.body_reads, 0);
    assert_eq!(outcome.decodes, 0);
    assert_eq!(outcome.handler_calls, 0);
    assert_eq!(outcome.response.status, 400);
    assert_eq!(outcome.response.body, b"\"authorization required\"".to_vec());
}

#[test]
fn missing_length_indicator_means_the_body_is_read() {
    let outcome = serve(
        Exchange { length_indicator: None, body: b"\"x\"", contexts: vec![], handler: echo },
        true,
    );
    assert_eq!(outcome.body_reads, 1);
    assert_eq!(outcome.decodes, 1);
    assert_eq!(outcome.handler_saw, Some(Some("x".to_string())));
}

#[test]
fn unrouted_request_is_answered_with_not_found() {
    for body in [&b""[..], &b"{\"any\":\"thing\"}"[..], &b"\xff\xfe"[..]] {
        let outcome = serve(
            Exchange {
                length_indicator: Some("15"),
                body: Box::leak(body.to_vec().into_boxed_slice()),
                contexts: vec![Ok(())],
                handler: echo,
            },
            false,
        );
        assert_eq!(outcome.states, vec![State::Unmatched, State::Failure, State::Responded]);
        assert_eq!(outcome.response, windmill::not_found());
        assert!(outcome.extractions.is_empty());
        assert_eq!(outcome.body_reads, 0);
        assert_eq!(outcome.handler_calls, 0);
    }
}

#[test]
fn events_out_of_turn_are_refused() {
    assert!(step(State::Unmatched, Event::Sent).is_none());
    assert!(step(State::Unmatched, Event::BodyRead).is_none());
    assert!(step(State::BodyPending, Event::Decoded).is_none());
    assert!(step(State::Decoding, Event::BodyRead).is_none());
    assert!(step(State::HandlerRunning, Event::ContextReady).is_none());
    assert!(step(State::Success, Event::Returned(Ok(vec![]))).is_none());
    assert!(step(State::Failure, Event::Unrouted).is_none());
    let pending = State::ContextPending { next: 0, total: 1, body_expected: true };
    assert!(step(pending, Event::BodyRead).is_none());
    assert!(step(pending, Event::Matched { contexts: 1, length_indicator: None }).is_none());
}

#[test]
fn nothing_follows_the_response() {
    let events = || {
        vec![
            Event::Matched { contexts: 0, length_indicator: None },
            Event::Unrouted,
            Event::ContextReady,
            Event::ContextFailed(Error { code: 500, msg: String::new() }),
            Event::BodyRead,
            Event::Decoded,
            Event::DecodeFailed(String::new()),
            Event::Returned(Ok(vec![])),
            Event::Failed(Error { code: 500, msg: String::new() }),
            Event::Sent,
        ]
    };
    assert_eq!(events().len(), 10);
    for event in events() {
        assert!(step(State::Responded, event).is_none());
    }
}

#[test]
fn unencodable_result_is_an_internal_error() {
    let (state, action) = step(
        State::HandlerRunning,
        Event::Returned(Err("key must be a string".to_string())),
    )
    .unwrap();
    assert_eq!(state, State::Failure);
    match action {
        Action::Send(response) => {
            assert_eq!(response.status, 500);
            assert_eq!(response.body, b"\"key must be a string\"".to_vec());
        }
        other => panic!("expected a response, got {:?}", other),
    }
}

#[test]
fn lookup_and_pipeline_together() {
    let mut router = Router::new();
    router.add(Method::Post, route("/\"echo\"/times").unwrap(), echo as fn(Option<String>) -> Result<String, Error>);
    let (matched, handler) = match router.lookup(Method::Post, "/echo/3") {
        Dispatch::Invoke { handler, params, .. } => {
            assert_eq!(params.get("times").map(|v| v.as_str()), Some("3"));
            (true, *handler)
        }
        Dispatch::Respond(_) => (false, refuse as fn(Option<String>) -> Result<String, Error>),
    };
    let outcome = serve(
        Exchange { length_indicator: Some("4"), body: b"\"hi\"", contexts: vec![], handler },
        matched,
    );
    assert_eq!(outcome.response.status, 200);
    assert_eq!(outcome.response.body, b"\"hi\"".to_vec());
}

#[test]
fn every_request_gets_exactly_one_response() {
    let exchanges = vec![
        (Exchange { length_indicator: Some("0"), body: b"", contexts: vec![], handler: echo }, true),
        (Exchange { length_indicator: Some("3"), body: b"\"x\"", contexts: vec![], handler: echo }, true),
        (Exchange { length_indicator: Some("3"), body: b"nah", contexts: vec![], handler: echo }, true),
        (Exchange { length_indicator: None, body: b"", contexts: vec![Ok(())], handler: refuse }, true),
        (
            Exchange {
                length_indicator: Some("0"),
                body: b"",
                contexts: vec![Err(Error { code: 401, msg: "Unauthorized".to_string() })],
                handler: echo,
            },
            true,
        ),
        (Exchange { length_indicator: Some("0"), body: b"", contexts: vec![], handler: echo }, false),
    ];
    for (exchange, matched) in exchanges {
        let outcome = serve(exchange, matched);
        assert_eq!(outcome.responses, 1);
        assert_eq!(outcome.states.last(), Some(&State::Responded));
        let mut seen = outcome.states.clone();
        seen.dedup();
        assert_eq!(seen.len(), outcome.states.len());
    }
}
