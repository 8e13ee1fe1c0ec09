use reqwest_ratelimit::{all, CountingRateLimiter, NoopRateLimiter, RateLimiter};

fn fake_transport(req: &str) -> Result<String, String> {
    if req.starts_with("GET ") {
        Ok(format!("200 OK for {}", req))
    } else {
        Err(format!("400 Bad Request for {}", req))
    }
}

#[test]
fn noop_wrapper_matches_no_wrapper() {
    let direct = fake_transport("GET /index.html");
    let mut mw = all(NoopRateLimiter::new());
    let wrapped = mw.handle(
        String::from("GET /index.html"),
        0u32,
        |req: String, _extensions: u32| fake_transport(&req),
    );
    assert_eq!(wrapped, direct);
    assert_eq!(wrapped, Ok(String::from("200 OK for GET /index.html")));
}

#[test]
fn request_and_metadata_forwarded_unchanged() {
    let mut mw = all(NoopRateLimiter::new());
    let result = mw.handle(
        String::from("GET /echo"),
        77u64,
        |req: String, extensions: u64| -> Result<(String, u64), String> { Ok((req, extensions)) },
    );
    assert_eq!(result, Ok((String::from("GET /echo"), 77u64)));
}

#[test]
fn success_passes_through_unchanged() {
    let mut mw = all(NoopRateLimiter::new());
    let result = mw.handle(5u32, (), |req: u32, _extensions: ()| -> Result<u32, String> {
        Ok(req * 2)
    });
    assert_eq!(result, Ok(10u32));
}

#[test]
fn error_passes_through_unchanged() {
    let mut mw = all(NoopRateLimiter::new());
    let result = mw.handle(
        String::from("PUT /forbidden"),
        0u8,
        |req: String, _extensions: u8| fake_transport(&req),
    );
    assert_eq!(
        result,
        Err(String::from("400 Bad Request for PUT /forbidden"))
    );
}

#[test]
fn one_permit_per_request() {
    let mut mw = all(CountingRateLimiter::new());
    assert_eq!(mw.limiter().count(), 0);
    let result = mw.handle(1u32, (), |req: u32, _extensions: ()| -> Result<u32, ()> {
        Ok(req)
    });
    assert_eq!(result, Ok(1u32));
    assert_eq!(mw.limiter().count(), 1);
}

#[test]
fn five_requests_acquire_five_permits() {
    let mut mw = all(CountingRateLimiter::new());
    for i in 0..5u32 {
        let result = mw.handle(i, (), |req: u32, _extensions: ()| -> Result<u32, ()> {
            Ok(req)
        });
        assert_eq!(result, Ok(i));
    }
    assert_eq!(mw.limiter().count(), 5);
}

#[test]
fn failed_requests_still_acquire_one_permit_each() {
    let mut mw = all(CountingRateLimiter::new());
    for _ in 0..3 {
        let result = mw.handle((), (), |_req: (), _extensions: ()| -> Result<(), u8> {
            Err(7u8)
        });
        assert_eq!(result, Err(7u8));
    }
    assert_eq!(mw.limiter().count(), 3);
}

#[test]
fn batch_of_five_acquires_five_permits() {
    let mut mw = all(CountingRateLimiter::new());
    let requests = vec![(1u32, ()), (2u32, ()), (3u32, ()), (4u32, ()), (5u32, ())];
    let results = mw.handle_all(requests, |req: u32, _extensions: ()| -> Result<u32, ()> {
        Ok(req * 10)
    });
    assert_eq!(
        results,
        vec![Ok(10u32), Ok(20u32), Ok(30u32), Ok(40u32), Ok(50u32)]
    );
    assert_eq!(mw.limiter().count(), 5);
}

#[test]
fn empty_batch_acquires_no_permits() {
    let mut mw = all(CountingRateLimiter::new());
    let requests: Vec<(u32, ())> = Vec::new();
    let results = mw.handle_all(requests, |req: u32, _extensions: ()| -> Result<u32, ()> {
        Ok(req)
    });
    assert!(results.is_empty());
    assert_eq!(mw.limiter().count(), 0);
}

#[test]
fn counting_limiter_counts_direct_acquisitions() {
    let mut limiter = CountingRateLimiter::new();
    assert_eq!(limiter.count(), 0);
    limiter.acquire_permit();
    limiter.acquire_permit();
    assert_eq!(limiter.count(), 2);
}
