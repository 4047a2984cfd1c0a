use std::future::Future;
use std::pin::Pin;
use std::task::{Context, Poll};
use tokio::time::{sleep, Duration};
use ustunet::util::{Progress, Selected, Selector};

type Boxed<T> = Pin<Box<dyn Future<Output = T>>>;

struct SelectorFuture<'a, A, B, C, D> {
    select: &'a mut Selector<Boxed<A>, Boxed<B>, Boxed<C>, Boxed<D>>,
}

impl<A, B, C, D> Future for SelectorFuture<'_, A, B, C, D> {
    type Output = Selected<A, B, C, D>;

    fn poll(mut self: Pin<&mut Self>, cx: &mut Context<'_>) -> Poll<Self::Output> {
        let waker = cx.waker();
        match self.select.select(
            |f| attempt(f, &mut Context::from_waker(waker)),
            |f| attempt(f, &mut Context::from_waker(waker)),
            |f| attempt(f, &mut Context::from_waker(waker)),
            |f| attempt(f, &mut Context::from_waker(waker)),
        ) {
            Some(selected) => Poll::Ready(selected),
            None => Poll::Pending,
        }
    }
}

fn attempt<T>(mut f: Boxed<T>, cx: &mut Context<'_>) -> Progress<Boxed<T>, T> {
    match f.as_mut().poll(cx) {
        Poll::Ready(x) => Progress::Ready(x),
        Poll::Pending => Progress::Pending(f),
    }
}

fn select<A, B, C, D>(
    select: &mut Selector<Boxed<A>, Boxed<B>, Boxed<C>, Boxed<D>>,
) -> SelectorFuture<'_, A, B, C, D> {
    SelectorFuture { select }
}

async fn fut2(u: u8) -> String {
    sleep(Duration::from_millis(1)).await;
    format!("u{}", u + 1)
}

async fn run_testss() {
    let future1 = async {
        sleep(Duration::from_millis(3)).await;
        "a"
    };
    let future2 = fut2(34);
    let future3 = async {
        sleep(Duration::from_millis(3)).await;
        "a"
    };
    let mut s: Selector<Boxed<&str>, Boxed<String>, Boxed<&str>, Boxed<i32>> = Selector::new();
    s.insert_a(Box::pin(future1));
    s.insert_b(Box::pin(future2));
    s.insert_c(Box::pin(future3));
    s.insert_d(Box::pin(async {
        sleep(Duration::from_millis(9)).await;
        1
    }));
    {
        let f = select(&mut s);
        let o = f.await;
        match o {
            Selected::A(x) => panic!("Output is {:?}", x),
            Selected::B(n) => assert_eq!("u35", n),
            Selected::C(_) => {}
            Selected::D(_) => {}
        }
    }
    {
        let f = select(&mut s);
        let o = f.await;
        match o {
            Selected::A(x) => assert_eq!("a", x),
            Selected::B(n) => panic!("Output is {:?}", n),
            Selected::C(_) => {}
            _ => {}
        }
    }
    let future3 = fut2(75);
    s.insert_b(Box::pin(future3));
    let _o = select(&mut s).await;
    let _o = select(&mut s).await;
}

#[test]
fn testss() {
    tokio::runtime::Builder::new_current_thread()
        .enable_time()
        .build()
        .unwrap()
        .block_on(run_testss());
}

fn ready(n: u32) -> Progress<u32, u32> {
    Progress::Ready(n * 10)
}

fn pending(n: u32) -> Progress<u32, u32> {
    Progress::Pending(n + 1)
}

#[test]
fn a_new_selector_is_empty() {
    let mut s: Selector<u32, u32, u32, u32> = Selector::new();
    assert!(s.b().is_none());
    assert!(s.select(ready, ready, ready, ready).is_none());
}

#[test]
fn the_first_slot_that_is_over_wins() {
    let mut s: Selector<u32, u32, u32, u32> = Selector::new();
    s.insert_a(1);
    s.insert_b(2);
    s.insert_c(3);
    s.insert_d(4);
    assert_eq!(*s.b(), Some(2));
    assert!(matches!(s.select(ready, ready, ready, ready), Some(Selected::A(10))));
    assert!(matches!(s.select(ready, ready, ready, ready), Some(Selected::B(20))));
    assert!(s.b().is_none());
    assert!(matches!(s.select(ready, ready, ready, ready), Some(Selected::C(30))));
    assert!(matches!(s.select(ready, ready, ready, ready), Some(Selected::D(40))));
    assert!(s.select(ready, ready, ready, ready).is_none());
}

#[test]
fn slots_after_the_winner_are_not_touched() {
    let mut s: Selector<u32, u32, u32, u32> = Selector::new();
    s.insert_a(1);
    s.insert_b(2);
    s.insert_c(3);
    s.insert_d(4);
    // The first two go on, the third is over.
    assert!(matches!(s.select(pending, pending, ready, ready), Some(Selected::C(30))));
    assert_eq!(*s.b(), Some(3));
    assert!(matches!(s.select(ready, ready, ready, ready), Some(Selected::A(20))));
    assert!(matches!(s.select(ready, ready, ready, ready), Some(Selected::B(30))));
    assert!(matches!(s.select(ready, ready, ready, ready), Some(Selected::D(40))));
}

#[test]
fn unfinished_operations_stay() {
    let mut s: Selector<u32, u32, u32, u32> = Selector::new();
    s.insert_b(2);
    assert!(s.select(pending, pending, pending, pending).is_none());
    assert!(s.select(pending, pending, pending, pending).is_none());
    assert_eq!(*s.b(), Some(4));
}

#[test]
fn an_emptied_slot_can_be_filled_again() {
    let mut s: Selector<u32, u32, u32, u32> = Selector::new();
    s.insert_b(2);
    assert!(matches!(s.select(ready, ready, ready, ready), Some(Selected::B(20))));
    s.insert_b(5);
    assert!(matches!(s.select(ready, ready, ready, ready), Some(Selected::B(50))));
}
