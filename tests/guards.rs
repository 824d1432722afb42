use std::cell::Cell;
use std::future::Future;
use std::pin::Pin;
use std::task::{Context, Poll};

use futures::executor::block_on;
use futures::future::{join, join_all};
use futures_locks::Mutex;

use plugin_chain::payload::Payload;
use plugin_chain::pipeline::{Outcome, Pipeline, PipelineError, Step, UnitKind};

/// Gives the executor one chance to run other tasks.
struct YieldNow(bool);

impl Future for YieldNow {
    type Output = ();

    fn poll(mut self: Pin<&mut Self>, cx: &mut Context<'_>) -> Poll<()> {
        if self.0 {
            Poll::Ready(())
        } else {
            self.0 = true;
            cx.waker().wake_by_ref();
            Poll::Pending
        }
    }
}

/// Private state of a counting unit.
struct Counter {
    count: usize,
}

/// Runs a pipeline whose every unit is the one behind `guard`: each step
/// acquires the guard, executes, and releases it when the scope ends.
async fn process_guarded<F, Fut>(
    pipeline: &Pipeline,
    guard: &Mutex<Counter>,
    text: String,
    unit: F,
) -> Result<String, PipelineError>
where
    F: Fn(usize) -> Fut,
    Fut: Future<Output = ()>,
{
    let mut run = pipeline.start(text);
    loop {
        match pipeline.next_step(run) {
            Step::Done(t) => return Ok(t),
            Step::Execute { index, input } => {
                let outcome = {
                    let mut state = guard.lock().await;
                    unit(index).await;
                    state.count += 1;
                    Outcome::Completed(Payload::Plain(format!("{}{}", input.into_text(), state.count)))
                };
                run = pipeline.advance(index, outcome)?;
            }
        }
    }
}

#[test]
fn concurrent_runs_lose_no_update() {
    let runs: usize = 8;
    let pipeline = Pipeline::new(vec![UnitKind::Plain]);
    let guard = Mutex::new(Counter { count: 0 });
    let inside = Cell::new(0usize);
    let overlaps = Cell::new(0usize);
    let unit = |_index: usize| {
        let inside = &inside;
        let overlaps = &overlaps;
        async move {
            inside.set(inside.get() + 1);
            if inside.get() > 1 {
                overlaps.set(overlaps.get() + 1);
            }
            YieldNow(false).await;
            YieldNow(false).await;
            inside.set(inside.get() - 1);
        }
    };
    let calls = (0..runs).map(|_| process_guarded(&pipeline, &guard, String::new(), unit));
    let results = block_on(join_all(calls));
    assert_eq!(results.len(), runs);
    for r in results {
        assert!(r.is_ok());
    }
    assert_eq!(overlaps.get(), 0);
    assert_eq!(block_on(guard.lock()).count, runs);
}

#[test]
fn separate_guards_do_not_block_each_other() {
    let first = Pipeline::new(vec![UnitKind::Plain]);
    let second = Pipeline::new(vec![UnitKind::Plain]);
    let first_guard = Mutex::new(Counter { count: 0 });
    let second_guard = Mutex::new(Counter { count: 0 });
    let second_done = Cell::new(false);
    let seen_while_holding = Cell::new(false);
    let holder = |_index: usize| {
        let second_done = &second_done;
        let seen = &seen_while_holding;
        async move {
            let mut waited: usize = 0;
            while !second_done.get() && waited < 100 {
                YieldNow(false).await;
                waited += 1;
            }
            seen.set(second_done.get());
        }
    };
    let quick = |_index: usize| {
        let second_done = &second_done;
        async move {
            second_done.set(true);
        }
    };
    let (a, b) = block_on(join(
        process_guarded(&first, &first_guard, String::new(), holder),
        process_guarded(&second, &second_guard, String::new(), quick),
    ));
    assert_eq!(a.unwrap(), "1");
    assert_eq!(b.unwrap(), "1");
    assert!(seen_while_holding.get());
}
