use yuma::callbacks::{Callbacks, YumaCallback};
use yuma::error::YumaError;

#[test]
fn run_invokes_in_fifo_order_and_empties_the_queue() {
    let (tx, rx) = std::sync::mpsc::channel::<&'static str>();

    let mut queue = Callbacks::new();
    let mk = |tag: &'static str| {
        let tx = tx.clone();
        move || {
            let _ = tx.send(tag);
            Ok(())
        }
    };
    queue.add(String::from("A"), mk("A"));
    queue.add(String::from("B"), mk("B"));
    queue.add(String::from("C"), mk("C"));
    assert_eq!(queue.len(), 3);

    assert!(queue.run().is_ok());
    assert_eq!(rx.try_recv(), Ok("A"));
    assert_eq!(rx.try_recv(), Ok("B"));
    assert_eq!(rx.try_recv(), Ok("C"));
    assert!(rx.try_recv().is_err());
    assert_eq!(queue.len(), 0);

    // A second run finds nothing left to do.
    assert!(queue.run().is_ok());
    assert!(rx.try_recv().is_err());
}

#[test]
fn first_failure_stops_the_run_and_discards_the_rest() {
    let (tx, rx) = std::sync::mpsc::channel::<&'static str>();

    let mut queue = Callbacks::new();
    let mk = |tag: &'static str, fail: bool| {
        let tx = tx.clone();
        move || {
            let _ = tx.send(tag);
            if fail {
                Err(YumaError::Unknown)
            } else {
                Ok(())
            }
        }
    };
    queue.add(String::from("ok"), mk("ok", false));
    queue.add(String::from("bad"), mk("bad", true));
    queue.add(String::from("after"), mk("after", false));

    assert_eq!(queue.run(), Err(YumaError::Unknown));
    assert_eq!(rx.try_recv(), Ok("ok"));
    assert_eq!(rx.try_recv(), Ok("bad"));
    // The action after the failure was discarded by the drain, not kept.
    assert!(rx.try_recv().is_err());
    assert_eq!(queue.len(), 0);
}

#[test]
fn wait_and_abort_are_quiet_today() {
    let mut queue: Callbacks<fn() -> Result<(), YumaError>> = Callbacks::new();
    assert!(queue.wait().is_ok());
    queue.abort();
    assert_eq!(queue.len(), 0);
}

#[test]
fn wrapped_callback_runs_once_on_call() {
    let (tx, rx) = std::sync::mpsc::channel::<u32>();
    let cb = YumaCallback::new(move || {
        let _ = tx.send(7);
        Ok(())
    });
    assert!(cb.call().is_ok());
    assert_eq!(rx.try_recv(), Ok(7));
    assert!(rx.try_recv().is_err());
}
