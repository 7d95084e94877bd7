use meowth::config::{parse_config, Cfg, StatsdCfg, YamlValue};
use meowth::consumer::{MetricType, Msg};
use meowth::models::{LogEntry, Timestamp};

fn entry(host: Option<&str>, ty: Option<&str>) -> LogEntry {
    LogEntry {
        process: 12,
        channel: "app".to_string(),
        func_name: "handler".to_string(),
        args: vec!["1".to_string()],
        filename: "app.py".to_string(),
        module: "app".to_string(),
        host: host.map(|h| h.to_string()),
        message: "hello".to_string(),
        lineno: 42,
        time: Timestamp { secs: 1_500_000_000, nanos: 7 },
        level: 20,
        ty: ty.map(|t| t.to_string()),
        ts: None,
    }
}

#[test]
fn message_wraps_payload() {
    assert_eq!(Msg::new("{\"a\":1}").payload, "{\"a\":1}");
    assert_ne!(MetricType::Gauge, MetricType::Counter);
}

#[test]
fn defaults_fill_only_missing_fields() {
    let mut e = entry(None, None);
    e.fill_defaults("test", Some("box".to_string()));
    assert_eq!(e.ty.as_deref(), Some("test"));
    assert_eq!(e.host.as_deref(), Some("box"));
    assert_eq!(e.ts, Some(Timestamp { secs: 1_500_000_000, nanos: 7 }));

    let mut e = entry(Some("origin"), Some("custom"));
    e.fill_defaults("test", Some("box".to_string()));
    assert_eq!(e.ty.as_deref(), Some("custom"));
    assert_eq!(e.host.as_deref(), Some("origin"));
    assert_eq!(e.message, "hello");
}

#[test]
fn enrich_keeps_given_host() {
    let mut e = entry(Some("origin"), None);
    e.enrich("test");
    assert_eq!(e.host.as_deref(), Some("origin"));
    assert_eq!(e.ty.as_deref(), Some("test"));
    assert_eq!(e.ts, Some(e.time));
}

#[test]
fn display_names_message_function_and_line() {
    assert_eq!(entry(None, None).to_display_string(), "Msg: 'hello' @ handler line: 42");
}

const README_CONFIG: &str = "---
statsd:
  address: 127.0.0.1:8125
  prefix: \"logs\"
zeromq:
  address: tcp://127.0.0.1:50020
  bind: true
elastic_search:
  address:
    - http://localhost:9200
  prefix: logs
  bulk_size: 10
  type: test
";

#[test]
fn readme_config_is_read() {
    let cfg = parse_config(README_CONFIG).expect("valid configuration");
    assert_eq!(cfg.statsd.address, "127.0.0.1:8125");
    assert_eq!(cfg.statsd.prefix, "logs");
    let zmq = cfg.zmq.expect("zeromq section");
    assert_eq!(zmq.address, "tcp://127.0.0.1:50020");
    assert!(zmq.bind);
    assert!(cfg.tcp.is_none());
    assert_eq!(cfg.es.address, vec!["http://localhost:9200".to_string()]);
    assert_eq!(cfg.es.prefix, "logs");
    assert_eq!(cfg.es.bulk_size, 10);
    assert_eq!(cfg.es.ty, "test");
}

#[test]
fn missing_field_or_bad_yaml_gives_none() {
    let no_type = README_CONFIG.replace("  type: test\n", "");
    assert!(parse_config(&no_type).is_none());
    assert!(parse_config("statsd: [unclosed").is_none());
    assert!(parse_config("").is_none());
    let bad_bind = README_CONFIG.replace("bind: true", "bind: yes please");
    assert!(parse_config(&bad_bind).is_none());
}

#[test]
fn tcp_section_is_read_when_present() {
    let text = format!("{}tcp:\n  address: 0.0.0.0:5000\n", README_CONFIG);
    let cfg = parse_config(&text).expect("valid configuration");
    assert_eq!(cfg.tcp.expect("tcp section").address, "0.0.0.0:5000");
}

fn s(v: &str) -> YamlValue {
    YamlValue::String(v.to_string())
}

#[test]
fn sections_load_from_hand_built_documents() {
    let statsd = YamlValue::Hash(vec![(s("address"), s("host:1")), (s("prefix"), s("p"))]);
    let c = StatsdCfg::load(&statsd);
    assert_eq!(c.address, "host:1");
    assert_eq!(c.prefix, "p");
    assert!(StatsdCfg::try_load(&YamlValue::Null).is_none());

    let es = YamlValue::Hash(vec![
        (s("address"), YamlValue::Array(vec![s("http://a:9200"), s("http://b:9200")])),
        (s("prefix"), s("logs")),
        (s("bulk_size"), YamlValue::Integer(3)),
        (s("type"), s("t")),
    ]);
    let doc = YamlValue::Hash(vec![(s("statsd"), statsd), (s("elastic_search"), es)]);
    let cfg = Cfg::load(&doc);
    assert!(cfg.zmq.is_none());
    assert!(cfg.tcp.is_none());
    assert_eq!(cfg.es.address.len(), 2);
    assert_eq!(cfg.es.bulk_size, 3);

    let with_null_zmq = match doc {
        YamlValue::Hash(mut entries) => {
            entries.push((s("zeromq"), YamlValue::Null));
            YamlValue::Hash(entries)
        }
        _ => unreachable!(),
    };
    assert!(Cfg::try_load(&with_null_zmq).is_none());
}
