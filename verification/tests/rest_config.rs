use rust_zero::rest::config::RestConf;
use rust_zero::rest::engine::Engine;

#[test]
fn defaults_should_work() {
    let c = RestConf::default();
    assert_eq!(c.host, "0.0.0.0");
    assert!(c.port > 0);
    assert_eq!(c.max_connections, 10_000);
    assert_eq!(c.max_bytes, 1_048_576);
    assert_eq!(c.timeout, 3_000);
    assert_eq!(c.cpu_threshold, 900);
    assert!(c.middlewares.trace);
    assert!(c.middlewares.gunzip);
}

#[test]
fn new_should_store_conf() {
    let conf = RestConf::default();
    let engine = Engine::new(conf.clone());
    assert_eq!(engine.conf.host, conf.host);
    assert_eq!(engine.conf.port, conf.port);
}
