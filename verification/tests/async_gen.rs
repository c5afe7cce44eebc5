use std::future::Future;
use std::pin::Pin;
use std::task::{Context, Poll};

use worst::interpreter::async_gen::{Ctx, Generator, GeneratorError};

/// Not ready the first time it is polled, ready the second time.
struct WaitOnce {
    ready: bool,
}

impl Future for WaitOnce {
    type Output = ();
    fn poll(self: Pin<&mut Self>, _cx: &mut Context<'_>) -> Poll<()> {
        if self.ready {
            Poll::Ready(())
        } else {
            self.get_mut().ready = true;
            Poll::Pending
        }
    }
}

/// Hand `v` to the generator, then wait once so that it can be taken.
fn yield_<T>(ctx: &Ctx<T>, v: T) -> WaitOnce {
    if let Err(GeneratorError::ResumedWithoutTaking) = ctx.put(v) {
        panic!("Generator resumed without taking value");
    }
    WaitOnce { ready: false }
}

#[test]
fn empty() {
    let mut g = Generator::new(|_ctx: Ctx<usize>| async move { });
    while let Some(_x) = g.next().unwrap() {
        panic!("not empty");
    }
}

#[test]
fn counter() {
    let mut i = 0;
    let mut g = Generator::new(|ctx: Ctx<i32>| async move {
        for i in 0..10 {
            yield_(&ctx, i).await;
        }
    });
    while let Some(x) = g.next().unwrap() {
        assert_eq!(x, i);
        i = i + 1;
    }
    assert_eq!(i, 10);
    assert!(matches!(g.next(), Ok(None)));
    assert!(matches!(g.next(), Ok(None)));
}

#[test]
fn generator_waiting_without_a_value_is_an_error() {
    let mut g = Generator::new(|_ctx: Ctx<i32>| async move {
        WaitOnce { ready: false }.await;
    });
    assert!(matches!(g.next(), Err(GeneratorError::AwaitedWithoutYield)));
}

#[test]
fn generator_finishing_with_a_value_is_an_error() {
    let mut g = Generator::new(|ctx: Ctx<i32>| async move {
        let _ = ctx.put(1);
    });
    assert!(matches!(g.next(), Err(GeneratorError::FinishedEarly)));
}
