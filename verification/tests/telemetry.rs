use theway_daemon::observability::status::{ObservabilityStatus, ObservabilityStatusSnapshot};
use theway_daemon::observability::{
    activity_counts, ends_in_error, is_metrics_request, measurement_attributes, response_head,
    trace_attributes, Attribute, AttributeValue, Counted, MetricContext, ObservationContext,
    ObservationWorker, OperationDetail, OperationFinished, OperationKind, OperationOutcome,
    OperationStarted, RuntimeMeasurements, TelemetryConfig, TelemetryEnv,
};

fn env() -> TelemetryEnv {
    TelemetryEnv {
        otlp_endpoint: None,
        otlp_traces_endpoint: None,
        otlp_metrics_endpoint: None,
        metrics_addr: None,
        queue_capacity: None,
    }
}

fn nothing() -> RuntimeMeasurements {
    RuntimeMeasurements {
        input_tokens: 0,
        output_tokens: 0,
        cache_read_tokens: 0,
        cache_write_tokens: 0,
        characters: 0,
        turns: 0,
        tool_calls: 0,
    }
}

fn started(id: u64, parent_id: Option<u64>, operation: &str, detail: OperationDetail) -> OperationStarted {
    OperationStarted {
        id,
        parent_id,
        operation: operation.to_string(),
        detail,
        context: ObservationContext {
            session_id: Some("s".to_string()),
            run_id: None,
            job_id: None,
            node_id: Some("n".to_string()),
            turn_id: Some(3),
        },
    }
}

fn request() -> OperationDetail {
    OperationDetail::LlmRequest { provider: "p".to_string(), model: "m".to_string() }
}

fn finish(id: u64, kind: OperationKind, measurements: RuntimeMeasurements) -> OperationFinished {
    OperationFinished {
        id,
        operation: "llm_request".to_string(),
        kind,
        outcome: OperationOutcome::Failed,
        outcome_label: "failed".to_string(),
        error_category: Some("timeout".to_string()),
        measurements,
    }
}

fn shown(v: Vec<Attribute>) -> Vec<(String, String)> {
    v.into_iter()
        .map(|a| {
            let value = match a.value {
                AttributeValue::Int(n) => n.to_string(),
                AttributeValue::Text(s) => s,
            };
            (a.key.to_string(), value)
        })
        .collect()
}

fn counted(v: Vec<Counted>) -> Vec<(String, u64)> {
    v.into_iter().map(|c| (c.labels.join("/"), c.amount)).collect()
}

fn pair<T>(a: &str, b: T) -> (String, T) {
    (a.to_string(), b)
}

#[test]
fn export_is_configured_by_the_environment() {
    let c = TelemetryConfig::from_env(&env());
    assert_eq!((c.otlp_enabled, c.metrics_addr, c.queue_capacity), (false, None, 4_096));
    let mut e = env();
    e.otlp_endpoint = Some("  ".to_string());
    e.otlp_metrics_endpoint = Some("http://x".to_string());
    e.metrics_addr = Some(Ok("127.0.0.1:9".to_string()));
    e.queue_capacity = Some("16".to_string());
    let c = TelemetryConfig::from_env(&e);
    assert!(c.otlp_enabled);
    assert_eq!((c.metrics_addr.as_deref(), c.queue_capacity), (Some("127.0.0.1:9"), 16));
    for bad in ["0", "many", "-1", ""] {
        let mut e = env();
        e.queue_capacity = Some(bad.to_string());
        e.metrics_addr = Some(Err("bad address".to_string()));
        let c = TelemetryConfig::from_env(&e);
        assert_eq!((c.metrics_addr, c.queue_capacity), (None, 4_096));
    }
}

#[test]
fn traces_carry_attributes() {
    assert_eq!(
        shown(trace_attributes(&started(7, Some(2), "llm_request", request()))),
        vec![
            pair("theway.operation.id", "7".to_string()),
            pair("theway.operation.kind", "llm_request".to_string()),
            pair("theway.operation.parent_id", "2".to_string()),
            pair("theway.session.id", "s".to_string()),
            pair("theway.node.id", "n".to_string()),
            pair("theway.turn.id", "3".to_string()),
            pair("gen_ai.provider.name", "p".to_string()),
            pair("gen_ai.request.model", "m".to_string()),
        ]
    );
    let mut m = nothing();
    m.output_tokens = 4;
    m.tool_calls = 1;
    assert_eq!(
        shown(measurement_attributes(m)),
        vec![
            pair("gen_ai.usage.output_tokens", "4".to_string()),
            pair("theway.tool_calls", "1".to_string()),
        ]
    );
    assert!(measurement_attributes(nothing()).is_empty());
    assert!(ends_in_error(OperationOutcome::TimedOut));
    assert!(ends_in_error(OperationOutcome::Abandoned));
    assert!(!ends_in_error(OperationOutcome::Cancelled));
    assert!(!ends_in_error(OperationOutcome::Succeeded));
}

#[test]
fn operations_are_counted() {
    let mut w = ObservationWorker::new();
    assert!(!w.started(&started(1, None, "turn", OperationDetail::Turn { index: 0 })));
    assert!(w.started(&started(2, Some(1), "llm_request", request())));
    assert!(!w.started(&started(3, Some(9), "agent_run", OperationDetail::AgentRun)));
    let mut m = nothing();
    m.input_tokens = 5;
    m.cache_write_tokens = 6;
    m.turns = 1;
    let effects = w.finished(&finish(2, OperationKind::LlmRequest, m));
    assert!(effects.was_active);
    assert_eq!(effects.labels, vec!["llm_request".to_string(), "failed".to_string(), "timeout".to_string()]);
    assert_eq!(counted(effects.activity), vec![pair("llm_request/turns", 1)]);
    assert_eq!(counted(effects.tokens), vec![pair("p/m/input", 5), pair("p/m/cache_write", 6)]);
    let again = w.finished(&finish(2, OperationKind::LlmRequest, m));
    assert!(!again.was_active);
    assert_eq!(counted(again.tokens), vec![pair("unknown/unknown/input", 5), pair("unknown/unknown/cache_write", 6)]);
    assert!(w.finished(&finish(1, OperationKind::Turn, m)).tokens.is_empty());
    assert_eq!(w.active.len(), 1);
    assert_eq!(counted(activity_counts("turn", m)), vec![pair("turn/turns", 1)]);
    assert_eq!(MetricContext::from_detail(&OperationDetail::DagRun).provider, None);
}

#[test]
fn unfinished_operations_are_told_of_once() {
    let mut w = ObservationWorker::new();
    w.started(&started(1, None, "turn", OperationDetail::Turn { index: 0 }));
    w.started(&started(2, Some(1), "llm_request", request()));
    w.finished(&finish(1, OperationKind::Turn, nothing()));
    let left = w.abandoned();
    assert_eq!(left.len(), 1);
    assert_eq!(left[0].id, 2);
    assert_eq!(left[0].labels, ["llm_request", "abandoned", "runtime"].map(String::from).to_vec());
    assert!(w.active.is_empty());
    assert!(w.abandoned().is_empty());
}

#[test]
fn metrics_are_served() {
    assert!(is_metrics_request(&b"GET /metrics HTTP/1.1\r\n".to_vec()));
    assert!(!is_metrics_request(&b"GET /metricsx HTTP/1.1\r\n".to_vec()));
    assert!(!is_metrics_request(&b"GET /".to_vec()));
    assert_eq!(
        response_head(true, "text/plain; version=0.0.4", 12),
        "HTTP/1.1 200 OK\r\nContent-Type: text/plain; version=0.0.4\r\nContent-Length: 12\r\nConnection: close\r\n\r\n"
    );
    assert_eq!(
        response_head(false, "x", 0),
        "HTTP/1.1 404 Not Found\r\nContent-Type: text/plain; charset=utf-8\r\nContent-Length: 0\r\nConnection: close\r\n\r\n"
    );
}

#[test]
fn export_health_changes_once() {
    let mut s = ObservabilityStatus::new();
    assert!(!s.record_success());
    assert!(s.record_failure("down"));
    assert!(!s.record_failure("down"));
    assert!(s.record_failure("slow"));
    let shown = s.snapshot();
    assert_eq!((shown.degraded, shown.message.as_str(), s.revision), (true, "slow", 2));
    assert!(s.report_export_result("OTLP trace export failed", &Err("reset".to_string())));
    assert_eq!(s.state.message, "OTLP trace export failed: reset");
    assert!(s.report_export_result("OTLP trace export failed", &Ok(())));
    assert_eq!((s.state.degraded, s.state.message.as_str(), s.revision), (false, "", 4));
    assert!(!ObservabilityStatusSnapshot::default().degraded);
}
