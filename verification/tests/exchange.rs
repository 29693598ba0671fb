use default_client::exchange::{
    delivered_body, log_path, next, Delivery, Event, Outcome, Stage,
};
use default_client::log::{REQUEST_LOG_PATH, RESPONSE_LOG_PATH};
use default_client::logging::{http_logging_enabled, set_http_logging_enabled, HttpLogging};

/// The stages that events lead through from the start.
fn course(events: &[Event]) -> Vec<Stage> {
    let mut stage = Stage::Build;
    let mut stages = vec![stage];
    for event in events {
        stage = next(stage, *event).unwrap();
        stages.push(stage);
    }
    stages
}

#[test]
fn logging_is_off_until_it_is_turned_on() {
    let mut logging = HttpLogging::new();
    assert!(!http_logging_enabled(&logging));
    set_http_logging_enabled(&mut logging, true);
    assert!(http_logging_enabled(&logging));
    set_http_logging_enabled(&mut logging, false);
    assert!(!http_logging_enabled(&logging));
}

#[test]
fn silent_exchange() {
    assert_eq!(
        course(&[
            Event::Built { logging: false },
            Event::Responded { logging: false },
        ]),
        vec![
            Stage::Build,
            Stage::Execute,
            Stage::Done(Outcome::Response(Delivery::Streamed)),
        ]
    );
    assert_eq!(
        course(&[
            Event::Built { logging: false },
            Event::ExecuteFailed { logging: false },
        ]),
        vec![Stage::Build, Stage::Execute, Stage::Done(Outcome::Error)]
    );
}

#[test]
fn logged_exchange_whatever_is_written() {
    for written in [true, false] {
        assert_eq!(
            course(&[
                Event::Built { logging: true },
                Event::RequestLogged { written },
                Event::Responded { logging: true },
                Event::BodyCollected { complete: true },
                Event::ResponseLogged { written },
            ]),
            vec![
                Stage::Build,
                Stage::LogRequest,
                Stage::Execute,
                Stage::CollectBody,
                Stage::LogResponse,
                Stage::Done(Outcome::Response(Delivery::Buffered)),
            ]
        );
        assert_eq!(
            course(&[
                Event::Built { logging: true },
                Event::RequestLogged { written },
                Event::ExecuteFailed { logging: true },
                Event::FailureLogged { written },
            ]),
            vec![
                Stage::Build,
                Stage::LogRequest,
                Stage::Execute,
                Stage::LogFailure,
                Stage::Done(Outcome::Error),
            ]
        );
    }
}

#[test]
fn broken_body_is_not_logged_and_not_an_error() {
    assert_eq!(
        course(&[
            Event::Built { logging: false },
            Event::Responded { logging: true },
            Event::BodyCollected { complete: false },
        ])[3],
        Stage::Done(Outcome::Response(Delivery::Emptied))
    );
}

#[test]
fn refused_request_is_not_executed() {
    assert_eq!(
        course(&[Event::BuildRefused]),
        vec![Stage::Build, Stage::Done(Outcome::Error)]
    );
}

#[test]
fn event_out_of_place_leads_nowhere() {
    assert_eq!(next(Stage::Build, Event::Responded { logging: true }), None);
    assert_eq!(next(Stage::Execute, Event::Built { logging: true }), None);
    assert_eq!(
        next(Stage::LogResponse, Event::RequestLogged { written: true }),
        None
    );
    assert_eq!(
        next(Stage::Done(Outcome::Error), Event::BuildRefused),
        None
    );
}

#[test]
fn stages_write_to_their_logs() {
    assert_eq!(log_path(Stage::LogRequest), Some(REQUEST_LOG_PATH));
    assert_eq!(log_path(Stage::LogResponse), Some(RESPONSE_LOG_PATH));
    assert_eq!(log_path(Stage::LogFailure), Some(RESPONSE_LOG_PATH));
    assert_eq!(log_path(Stage::Execute), None);
    assert_eq!(log_path(Stage::CollectBody), None);
    assert_eq!(log_path(Stage::Done(Outcome::Error)), None);
}

#[test]
fn logged_body_is_handed_back() {
    assert_eq!(delivered_body(Delivery::Streamed, Vec::new()), None);
    assert_eq!(
        delivered_body(Delivery::Buffered, b"octets".to_vec()),
        Some(b"octets".to_vec())
    );
    assert_eq!(
        delivered_body(Delivery::Emptied, b"half".to_vec()),
        Some(Vec::new())
    );
}

/// What the caller reads at the end of a course, of a response with this body.
fn read_at_the_end(events: &[Event], body: &[u8]) -> Option<Vec<u8>> {
    match course(events).last() {
        Some(Stage::Done(Outcome::Response(delivery))) => {
            Some(delivered_body(*delivery, body.to_vec()).unwrap_or(body.to_vec()))
        }
        _ => None,
    }
}

#[test]
fn caller_reads_the_same_with_and_without_logs() {
    let silent = [
        Event::Built { logging: false },
        Event::Responded { logging: false },
    ];
    let logged = [
        Event::Built { logging: true },
        Event::RequestLogged { written: true },
        Event::Responded { logging: true },
        Event::BodyCollected { complete: true },
        Event::ResponseLogged { written: false },
    ];
    assert_eq!(read_at_the_end(&silent, b"octets"), Some(b"octets".to_vec()));
    assert_eq!(read_at_the_end(&logged, b"octets"), Some(b"octets".to_vec()));
}

#[test]
fn caller_gets_the_error_with_and_without_logs() {
    let silent = [
        Event::Built { logging: false },
        Event::ExecuteFailed { logging: false },
    ];
    let logged = [
        Event::Built { logging: true },
        Event::RequestLogged { written: false },
        Event::ExecuteFailed { logging: true },
        Event::FailureLogged { written: true },
    ];
    assert_eq!(course(&silent).last(), Some(&Stage::Done(Outcome::Error)));
    assert_eq!(course(&logged).last(), Some(&Stage::Done(Outcome::Error)));
}
