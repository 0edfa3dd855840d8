use service_stream::error::{from_code, Error};
use service_stream::stream::{Async, CallbackContext, ServiceStream};
use std::cell::Cell;

type Stream = ServiceStream<String, u32>;

fn started() -> Stream {
    match Stream::new(|_ctx: &CallbackContext<String>| Ok::<u8, i32>(1), |n: u8| Some(n as u32 + 10)) {
        Ok(s) => s,
        Err(e) => panic!("start failed: {:?}", e),
    }
}

fn ok_item(s: &str) -> Result<Async<Option<String>>, Error> {
    Ok(Async::Ready(Some(s.to_string())))
}

#[test]
fn zero_code_is_success() {
    assert_eq!(from_code(0), Ok(()));
}

#[test]
fn nonzero_code_keeps_code() {
    assert_eq!(from_code(-65537), Err(Error::NativeCallback(-65537)));
    assert_eq!(from_code(7), Err(Error::NativeCallback(7)));
}

#[test]
fn single_successful_item() {
    let mut s = started();
    assert_eq!(s.poll(Ok(())), Ok(Async::NotReady));
    s.context_mut().run_callback(0, || Ok("A".to_string()));
    assert_eq!(s.poll(Ok(())), ok_item("A"));
    assert_eq!(s.poll(Ok(())), Ok(Async::NotReady));
}

#[test]
fn error_interleaved_with_success() {
    let mut s = started();
    s.context_mut().run_callback(0, || Ok("A".to_string()));
    s.context_mut().run_callback(-65537, || Ok("unused".to_string()));
    s.context_mut().run_callback(0, || Ok("B".to_string()));
    assert_eq!(s.poll(Ok(())), ok_item("A"));
    assert_eq!(s.poll(Ok(())), Err(Error::NativeCallback(-65537)));
    assert_eq!(s.poll(Ok(())), ok_item("B"));
    assert_eq!(s.poll(Ok(())), Ok(Async::NotReady));
}

#[test]
fn starter_failure() {
    let bound = Cell::new(false);
    let r = Stream::new(
        |_ctx: &CallbackContext<String>| Err::<u8, i32>(-65540),
        |n: u8| {
            bound.set(true);
            Some(n as u32)
        },
    );
    assert!(matches!(r, Err(Error::StartFailure(-65540))));
    assert!(!bound.get());
}

#[test]
fn bind_gets_started_handle() {
    let r = Stream::new(|_ctx: &CallbackContext<String>| Ok::<u8, i32>(3), |n: u8| Some(n as u32 * 100));
    let mut s = r.ok().unwrap();
    assert_eq!(*s.service(), 300);
    assert!(!s.terminated());
    assert_eq!(s.poll(Ok(())), Ok(Async::NotReady));
}

#[test]
fn cancellation_during_burst() {
    let mut s = started();
    s.context_mut().run_callback(0, || Ok("A".to_string()));
    s.context_mut().run_callback(0, || Ok("B".to_string()));
    s.context_mut().run_callback(0, || Ok("C".to_string()));
    assert_eq!(s.poll(Ok(())), ok_item("A"));
    let (service, mut ctx) = s.close();
    assert_eq!(service, 11);
    let ran = Cell::new(false);
    ctx.run_callback(0, || {
        ran.set(true);
        Ok("late".to_string())
    });
    assert!(!ran.get());
    assert_eq!(ctx.take(), Some(Ok("B".to_string())));
    assert_eq!(ctx.take(), Some(Ok("C".to_string())));
    assert_eq!(ctx.take(), None);
}

#[test]
fn reactor_registration_failure() {
    let r = Stream::new(|_ctx: &CallbackContext<String>| Ok::<u8, i32>(1), |_n: u8| None);
    assert!(matches!(r, Err(Error::Reactor)));
}

#[test]
fn decoder_failure() {
    let mut s = started();
    s.context_mut().run_callback(0, || Err(Error::Decode));
    s.context_mut().run_callback(0, || Ok("D".to_string()));
    assert_eq!(s.poll(Ok(())), Err(Error::Decode));
    assert_eq!(s.poll(Ok(())), ok_item("D"));
}

#[test]
fn items_keep_delivery_order() {
    let mut s = started();
    let names = ["e1", "e2", "e3", "e4", "e5"];
    s.context_mut().run_callback(0, || Ok("e0".to_string()));
    assert_eq!(s.poll(Ok(())), ok_item("e0"));
    for n in names.iter() {
        s.context_mut().run_callback(0, || Ok(n.to_string()));
    }
    for n in names.iter() {
        assert_eq!(s.poll(Ok(())), ok_item(n));
    }
    assert_eq!(s.poll(Ok(())), Ok(Async::NotReady));
}

#[test]
fn idle_stream_is_not_ready() {
    let mut s = started();
    for _ in 0..3 {
        assert_eq!(s.poll(Ok(())), Ok(Async::NotReady));
    }
}

#[test]
fn reactor_error_terminates() {
    let mut s = started();
    s.context_mut().run_callback(0, || Ok("A".to_string()));
    assert_eq!(s.poll(Err(Error::Reactor)), Err(Error::Reactor));
    for _ in 0..4 {
        assert_eq!(s.poll(Ok(())), Ok(Async::Ready(None)));
    }
    s.context_mut().run_callback(0, || Ok("B".to_string()));
    assert_eq!(s.poll(Err(Error::Reactor)), Ok(Async::Ready(None)));
}

#[test]
fn disarmed_context_ignores_errors_too() {
    let mut ctx: CallbackContext<String> = CallbackContext::new();
    ctx.deliver(Ok("x".to_string()));
    ctx.disarm();
    ctx.run_callback(-1, || Ok("y".to_string()));
    ctx.deliver(Err(Error::Decode));
    assert_eq!(ctx.take(), Some(Ok("x".to_string())));
    assert_eq!(ctx.take(), None);
}
