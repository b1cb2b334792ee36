use dioxus_query::captured::Captured;
use dioxus_query::query::QueryCapability;
use dioxus_query::requests::{drop_requests, put_request, shortest};
use dioxus_query::result::QueryState;
use dioxus_query::time::{Clock, Moment, Span};

#[derive(Clone, PartialEq, Eq, Hash)]
struct GetUser {
    client: Captured<u32>,
}

impl QueryCapability for GetUser {
    type Ok = String;
    type Err = ();
    type Keys = usize;
    type Run<'a> = std::future::Ready<Result<String, ()>>;

    fn run<'a>(&'a self, _keys: &'a usize) -> Self::Run<'a> {
        std::future::ready(Ok("Marc".to_string()))
    }
}

#[test]
fn captured_values_compare_equal() {
    assert!(Captured(1) == Captured(2));
    assert!(GetUser { client: Captured(1) } == GetUser { client: Captured(7) });
    assert_eq!(*Captured(5), 5);
    assert!(GetUser { client: Captured(1) }.matches(&3));
}

#[test]
fn set_loading_keeps_the_value() {
    let mut state: QueryState<u32, ()> = QueryState::Settled(Ok(4));
    state.set_loading();
    assert!(matches!(state, QueryState::Loading(Some(4))));
    let mut failed: QueryState<u32, ()> = QueryState::Settled(Err(()));
    failed.set_loading();
    assert!(matches!(failed, QueryState::Loading(None)));
}

#[test]
fn spans_count_nanoseconds() {
    assert_eq!(Span::from_secs(2).as_nanos(), 2_000_000_000);
    assert_eq!(Span::from_millis(3).as_nanos(), 3_000_000);
    assert!(Span::never().is_never());
    assert_eq!(Span::never().as_secs(), u64::MAX);
    assert_eq!(Span::never().subsec_nanos(), 999_999_999);
    assert_eq!(Span::from_nanos(3_000_000_007).as_secs(), 3);
    assert_eq!(Span::from_nanos(3_000_000_007).subsec_nanos(), 7);
    assert_eq!(Span::from_secs(2).shorter(Span::from_secs(5)), Span::from_secs(2));
    assert_eq!(Span::from_secs(9).shorter(Span::from_secs(5)), Span::from_secs(5));
    assert_eq!(Moment::at(3).elapsed_until(Moment::at(10)), Span::from_nanos(7));
    assert_eq!(Moment::at(5).elapsed_until(Moment::at(3)), Span::zero());
    let clock = Clock::start();
    let first = clock.now();
    let second = clock.now();
    assert!(second.nanos >= first.nanos);
}

#[test]
fn task_ids_start_over() {
    assert_eq!(dioxus_query::lookup::next_token(4), 5);
    assert_eq!(dioxus_query::lookup::next_token(u64::MAX), 0);
}

#[test]
fn requests_keep_one_wish_per_consumer() {
    let mut requests: Vec<(u64, Span)> = Vec::new();
    assert_eq!(shortest(&requests), None);
    put_request(&mut requests, 1, Span::from_secs(5));
    put_request(&mut requests, 2, Span::from_secs(2));
    put_request(&mut requests, 3, Span::never());
    assert_eq!(requests, vec![(1, Span::from_secs(5)), (2, Span::from_secs(2))]);
    assert_eq!(shortest(&requests), Some(Span::from_secs(2)));
    put_request(&mut requests, 2, Span::from_secs(8));
    assert_eq!(requests, vec![(1, Span::from_secs(5)), (2, Span::from_secs(8))]);
    assert_eq!(shortest(&requests), Some(Span::from_secs(5)));
    put_request(&mut requests, 1, Span::never());
    assert_eq!(shortest(&requests), Some(Span::from_secs(8)));
    drop_requests(&mut requests, 2);
    drop_requests(&mut requests, 7);
    assert!(requests.is_empty());
}
