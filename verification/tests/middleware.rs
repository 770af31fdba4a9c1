use axeon::error::ServerError;
use axeon::http::response::Response;
use axeon::middleware::compression::{
    choose_encoding, CompressionConfig, CompressionMiddleware, Encoding,
};
use axeon::middleware::security::{
    Cors, CorsConfig, RateLimitConfig, RateLimiter, SecurityConfig, SecurityHeaders,
};
use axeon::string_map::StringMap;

fn pairs(map: &StringMap) -> Vec<(String, String)> {
    (0..map.len()).map(|i| (map.key_at(i).clone(), map.value_at(i).clone())).collect()
}

fn owned(items: &[(&str, &str)]) -> Vec<(String, String)> {
    items.iter().map(|(k, v)| (k.to_string(), v.to_string())).collect()
}

#[test]
fn default_security_headers() {
    let middleware = SecurityHeaders::new(SecurityConfig::default());
    let mut response = Response::new(200);
    middleware.apply(&mut response);
    assert_eq!(
        pairs(&response.headers),
        owned(&[
            ("Strict-Transport-Security", "max-age=31536000"),
            ("X-XSS-Protection", "1; mode=block"),
            ("X-Content-Type-Options", "nosniff"),
            ("X-Frame-Options", "DENY"),
        ])
    );
}

#[test]
fn security_headers_follow_the_configuration() {
    let config = SecurityConfig {
        hsts: false,
        xss_protection: false,
        content_type_options: true,
        frame_options: None,
        content_security_policy: Some("default-src 'self'".to_string()),
    };
    let mut response = Response::text("x");
    SecurityHeaders::new(config).apply(&mut response);
    assert_eq!(
        pairs(&response.headers),
        owned(&[
            ("Content-Type", "text/plain"),
            ("X-Content-Type-Options", "nosniff"),
            ("Content-Security-Policy", "default-src 'self'"),
        ])
    );
    assert_eq!(response.body, "x");
}

#[test]
fn rate_limiter_defaults() {
    let config = RateLimitConfig::default();
    assert_eq!(config.requests_per_minute, 60);
    assert_eq!(config.burst_size, 10);
}

#[test]
fn rate_limiter_allows_a_new_client() {
    let limiter = RateLimiter::new(RateLimitConfig { requests_per_minute: 0, burst_size: 0 });
    let (allowed, history) = limiter.is_allowed(None, 1000);
    assert!(allowed);
    assert_eq!(history, vec![1000]);
    let (again, history) = limiter.is_allowed(Some(history), 1001);
    assert!(!again);
    assert_eq!(history, vec![1000]);
}

#[test]
fn rate_limiter_refuses_a_burst() {
    let limiter = RateLimiter::new(RateLimitConfig { requests_per_minute: 60, burst_size: 3 });
    let mut history = None;
    for now in [100_000u64, 100_001, 100_002] {
        let (allowed, times) = limiter.is_allowed(history, now);
        assert!(allowed);
        history = Some(times);
    }
    let (allowed, times) = limiter.is_allowed(history, 100_003);
    assert!(!allowed);
    assert_eq!(times, vec![100_000, 100_001, 100_002]);
    let (later, times) = limiter.is_allowed(Some(times), 160_001);
    assert!(later);
    assert_eq!(times, vec![100_002, 160_001]);
}

#[test]
fn rate_limiter_counts_the_last_minute_only() {
    let limiter = RateLimiter::new(RateLimitConfig { requests_per_minute: 2, burst_size: 10 });
    let (allowed, times) = limiter.is_allowed(Some(vec![0, 10, 59_999, 60_000]), 120_000);
    assert!(allowed);
    assert_eq!(times, vec![120_000]);
    let (full, times) = limiter.is_allowed(Some(vec![70_000, 80_000]), 120_000);
    assert!(!full);
    assert_eq!(times, vec![70_000, 80_000]);
}

#[test]
fn rate_limiter_names_the_client() {
    let mut headers = StringMap::new();
    assert_eq!(RateLimiter::client(&headers), "unknown");
    headers.insert("x-real-ip".to_string(), "10.0.0.2".to_string());
    assert_eq!(RateLimiter::client(&headers), "10.0.0.2");
    headers.insert("x-forwarded-for".to_string(), "10.0.0.1".to_string());
    assert_eq!(RateLimiter::client(&headers), "10.0.0.1");
}

#[test]
fn cors_preflight_with_defaults() {
    let cors = Cors::new(CorsConfig::default());
    let response = cors.preflight(Some("https://a.example"));
    assert_eq!(response.status, 204);
    assert_eq!(response.body, "");
    assert_eq!(
        pairs(&response.headers),
        owned(&[
            ("Access-Control-Allow-Origin", "https://a.example"),
            ("Access-Control-Allow-Methods", "GET, POST, PUT, DELETE, OPTIONS"),
            ("Access-Control-Allow-Headers", "Content-Type, Authorization"),
            ("Access-Control-Max-Age", "86400"),
        ])
    );
    let anonymous = cors.preflight(None);
    assert_eq!(anonymous.headers.len(), 3);
    assert!(anonymous.headers.get("Access-Control-Allow-Origin").is_none());
}

#[test]
fn cors_lists_its_origins() {
    let config = CorsConfig {
        allow_origins: vec!["https://a.example".to_string()],
        allow_methods: vec!["GET".to_string()],
        allow_headers: vec![],
        allow_credentials: true,
        max_age: None,
    };
    let cors = Cors::new(config);
    let refused = cors.preflight(Some("https://b.example"));
    assert_eq!(
        pairs(&refused.headers),
        owned(&[
            ("Access-Control-Allow-Methods", "GET"),
            ("Access-Control-Allow-Headers", ""),
            ("Access-Control-Allow-Credentials", "true"),
        ])
    );
    let mut response = Response::text("x");
    cors.decorate(&mut response, Some("https://a.example"));
    assert_eq!(
        pairs(&response.headers),
        owned(&[
            ("Content-Type", "text/plain"),
            ("Access-Control-Allow-Origin", "https://a.example"),
            ("Access-Control-Allow-Credentials", "true"),
        ])
    );
    let mut other = Response::new(200);
    cors.decorate(&mut other, Some("https://b.example"));
    assert_eq!(pairs(&other.headers), owned(&[("Access-Control-Allow-Credentials", "true")]));
}

#[test]
fn compression_skips_small_and_listed_content() {
    let config = CompressionConfig::default();
    assert_eq!(config.level, 6);
    assert_eq!(config.min_size, 1024);
    assert!(!config.should_compress(Some("text/html"), 1023));
    assert!(config.should_compress(Some("text/html"), 1024));
    assert!(config.should_compress(None, 5000));
    assert!(!config.should_compress(Some("image/png"), 5000));
    assert!(!config.should_compress(Some("video/mp4"), 5000));
    assert!(!config.should_compress(Some("audio/ogg"), 5000));
    assert!(!config.should_compress(Some("application/pdf"), 5000));
    assert!(!config.should_compress(Some("application/zip"), 5000));
    assert!(config.should_compress(Some("application/json"), 5000));
}

#[test]
fn encoding_prefers_gzip() {
    assert_eq!(choose_encoding("deflate, gzip"), Some(Encoding::Gzip));
    assert_eq!(choose_encoding("deflate"), Some(Encoding::Deflate));
    assert_eq!(choose_encoding("br"), None);
    assert_eq!(choose_encoding(""), None);
}

#[test]
fn compression_leaves_unmarked_responses() {
    let middleware = CompressionMiddleware::new(CompressionConfig::default());
    let mut response = Response::text(&"a".repeat(4000));
    assert!(middleware.compress(&mut response).is_ok());
    assert_eq!(response.body.len(), 4000);
    assert_eq!(response.headers.len(), 1);
}

#[test]
fn compression_encodes_the_body() {
    let config = CompressionConfig { level: 6, min_size: 10, skip_types: vec![] };
    let middleware = CompressionMiddleware::new(config);
    let mut response = Response::text(&"a".repeat(4000));
    response.header("accept-encoding", "GZIP, deflate");
    let outcome: Result<(), ServerError> = middleware.compress(&mut response);
    assert!(outcome.is_ok());
    assert_eq!(response.headers.get("Content-Encoding").map(|s| s.as_str()), Some("gzip"));
    assert_eq!(response.headers.get("Vary").map(|s| s.as_str()), Some("Accept-Encoding"));
    let length: usize = response.headers.get("Content-Length").unwrap().parse().unwrap();
    assert!(length > 18 && length < 4000);
    assert_ne!(response.body, "a".repeat(4000));
    assert!(response.body.starts_with('\u{1f}'));
}

#[test]
fn compression_skips_short_bodies() {
    let config = CompressionConfig { level: 6, min_size: 100, skip_types: vec![] };
    let middleware = CompressionMiddleware::new(config);
    let mut response = Response::text("short");
    response.header("accept-encoding", "gzip");
    assert!(middleware.compress(&mut response).is_ok());
    assert_eq!(response.body, "short");
    assert!(response.headers.get("Content-Encoding").is_none());
}

#[test]
fn compression_falls_back_to_deflate() {
    let config = CompressionConfig { level: 9, min_size: 10, skip_types: vec![] };
    let middleware = CompressionMiddleware::new(config);
    let mut response = Response::text(&"abc".repeat(1000));
    response.header("accept-encoding", "deflate, br");
    assert!(middleware.compress(&mut response).is_ok());
    assert_eq!(response.headers.get("Content-Encoding").map(|s| s.as_str()), Some("deflate"));
    let length: usize = response.headers.get("Content-Length").unwrap().parse().unwrap();
    assert!(length > 0 && length < 3000);
    assert_ne!(response.body, "abc".repeat(1000));
}

#[test]
fn compression_skips_listed_types() {
    let middleware = CompressionMiddleware::new(CompressionConfig::default());
    let mut response = Response::new(200);
    response.header("content-type", "image/png").header("accept-encoding", "gzip");
    response.body(&"a".repeat(4000));
    assert!(middleware.compress(&mut response).is_ok());
    assert_eq!(response.body.len(), 4000);
    assert!(response.headers.get("Content-Encoding").is_none());
}
