use bitcoin_rpc_web::rpc_limiter::RpcLimiter;

#[test]
fn limiter_admits_exactly_its_maximum() {
    let mut limiter = RpcLimiter::new(3);
    let first = limiter.try_acquire();
    let second = limiter.try_acquire();
    let third = limiter.try_acquire();
    assert!(first.is_some() && second.is_some() && third.is_some());
    assert_eq!(limiter.current(), 3);
    assert!(limiter.try_acquire().is_none());
    assert!(limiter.try_acquire().is_none());
    assert_eq!(limiter.current(), 3);

    limiter.release(second.unwrap());
    assert_eq!(limiter.current(), 2);
    let again = limiter.try_acquire();
    assert!(again.is_some());
    assert!(limiter.try_acquire().is_none());

    limiter.release(first.unwrap());
    limiter.release(third.unwrap());
    limiter.release(again.unwrap());
    assert_eq!(limiter.current(), 0);
}

#[test]
fn limiter_with_no_room_turns_everything_away() {
    let mut limiter = RpcLimiter::new(0);
    assert!(limiter.try_acquire().is_none());
    assert_eq!(limiter.current(), 0);
}

#[test]
fn a_permit_of_another_limiter_cannot_push_the_count_below_zero() {
    let mut busy = RpcLimiter::new(1);
    let mut idle = RpcLimiter::new(1);
    let permit = busy.try_acquire().unwrap();
    idle.release(permit);
    assert_eq!(idle.current(), 0);
    assert!(idle.try_acquire().is_some());
}
