use pyren::error::{ErrorKind, Wording};
use pyren::network::{
    default_route_interface, enable_smart_queuing, next_qdisc, qdisc_kind, queuing_error,
    requested_mode, target_interface, Attempt, Call, NetworkMode, NetworkModule, QdiscFailure,
};
use serde_json::Value;

/// Words for refusals, as a host would choose them.
fn words() -> Wording {
    Wording {
        invalid_params: "bad request: ".to_string(),
        unknown_method: "no such method: ".to_string(),
        unsupported: "not supported".to_string(),
        not_capable: "not possible: ".to_string(),
        permission_denied: "needs elevated privileges: ".to_string(),
        busy: "busy: ".to_string(),
        io: "I/O: ".to_string(),
        failed: String::new(),
        internal: "internal: ".to_string(),
    }
}

/// Tries the disciplines in turn; `tc` answers for each.
fn try_with(tc: impl Fn(&str) -> Attempt) -> (Result<&'static str, QdiscFailure>, Vec<String>) {
    let mut attempts = Vec::new();
    let mut tried = Vec::new();
    while let Some(kind) = next_qdisc(&attempts) {
        tried.push(kind.to_string());
        attempts.push(tc(kind));
    }
    (enable_smart_queuing(&attempts), tried)
}

fn refused(said: &str) -> Attempt {
    Attempt::Refused(said.to_string())
}

#[test]
fn every_attempt_refused_with_eperm_is_permission_denied() {
    let (result, _) = try_with(|_| refused("RTNETLINK answers: Operation not permitted\n"));
    assert_eq!(result, Err(QdiscFailure::PermissionDenied));
}

#[test]
fn an_unknown_qdisc_kind_is_not_capable_not_permission_denied() {
    let (result, _) = try_with(|_| refused("Error: Specified qdisc kind is unknown.\n"));
    match result {
        Err(QdiscFailure::NotCapable(detail)) => {
            assert!(detail.contains("cake") && detail.contains("fq_codel"), "got: {detail}");
        }
        other => panic!("expected NotCapable, got {other:?}"),
    }
}

#[test]
fn cake_succeeding_never_tries_fq_codel() {
    let (result, tried) = try_with(|_| Attempt::Took);
    assert_eq!(result, Ok("cake"));
    assert_eq!(tried, ["cake"]);
}

#[test]
fn cake_unavailable_falls_back_to_fq_codel() {
    let (result, tried) = try_with(|kind| {
        if kind == "cake" {
            refused("Error: Specified qdisc kind is unknown.\n")
        } else {
            Attempt::Took
        }
    });
    assert_eq!(result, Ok("fq_codel"));
    assert_eq!(tried, ["cake", "fq_codel"]);
}

#[test]
fn one_refusal_of_another_kind_is_not_a_matter_of_permission() {
    let (result, _) = try_with(|kind| {
        if kind == "cake" {
            Attempt::NotRun("tc: not found".to_string())
        } else {
            refused("RTNETLINK answers: Operation not permitted")
        }
    });
    assert!(matches!(result, Err(QdiscFailure::NotCapable(_))), "got: {result:?}");
}

const ROUTE_TABLE: &str = "\
Iface\tDestination\tGateway\tFlags\tRefCnt\tUse\tMetric\tMask\tMTU\tWindow\tIRTT
wlan0\t00000000\t0102A8C0\t0003\t0\t0\t600\t00000000\t0\t0\t0
docker0\t000011AC\t00000000\t0001\t0\t0\t0\t0000FFFF\t0\t0\t0
enp3s0\t00000000\t0102A8C0\t0003\t0\t0\t100\t00000000\t0\t0\t0
";

#[test]
fn default_route_picks_the_lowest_metric_gateway_route() {
    assert_eq!(default_route_interface(ROUTE_TABLE), Some("enp3s0".to_string()));
}

#[test]
fn non_default_and_gatewayless_routes_are_ignored() {
    let table = "Iface\tDestination\tGateway\tFlags\tRefCnt\tUse\tMetric\tMask\tMTU\tWindow\tIRTT\n\
                 lo\t0000007F\t00000000\t0001\t0\t0\t0\t000000FF\t0\t0\t0\n";
    assert_eq!(default_route_interface(table), None);
}

#[test]
fn empty_route_table_is_no_interface() {
    assert_eq!(default_route_interface(""), None);
}

#[test]
fn of_two_routes_with_one_metric_the_first_is_taken() {
    let table = "h\na 00000000 1 0003 0 0 5 0\nb 00000000 1 0003 0 0 5 0\n";
    assert_eq!(default_route_interface(table), Some("a".to_string()));
    let down = "h\na 00000000 1 0002 0 0 5 0\nb 00000000 1 0001 0 0 5 0\n";
    assert_eq!(default_route_interface(down), None);
    assert_eq!(default_route_interface("h\na 00000000 1 zz 0 0 5 0\n"), None);
}

#[test]
fn qdisc_kind_reads_the_first_word_after_qdisc() {
    assert_eq!(
        qdisc_kind("qdisc cake 8003: root refcnt 2 bandwidth unlimited\n"),
        Some("cake".to_string())
    );
    assert_eq!(
        qdisc_kind("qdisc fq_codel 0: root refcnt 2 limit 10240p\n"),
        Some("fq_codel".to_string())
    );
}

#[test]
fn qdisc_kind_of_empty_output_is_none() {
    assert_eq!(qdisc_kind(""), None);
    assert_eq!(qdisc_kind("class htb 1:1\n"), None);
}

#[test]
fn mode_parses_both_names_and_rejects_the_rest() {
    assert_eq!(NetworkMode::parse("off"), Some(NetworkMode::Off));
    assert_eq!(NetworkMode::parse("AUTO"), Some(NetworkMode::Auto));
    assert_eq!(NetworkMode::parse("custom"), None);
    for mode in [NetworkMode::Off, NetworkMode::Auto] {
        assert_eq!(NetworkMode::parse(mode.as_str()), Some(mode));
    }
}

fn with_mode(mode: &str) -> Value {
    let mut map = serde_json::Map::new();
    map.insert("mode".to_string(), Value::from(mode));
    Value::Object(map)
}

#[test]
fn set_mode_without_the_param_is_invalid_params() {
    let module = NetworkModule::new();
    let err = module.route("setMode", &Value::Object(serde_json::Map::new())).unwrap_err();
    assert_eq!(err.kind(), ErrorKind::InvalidParams);
    assert_eq!(requested_mode(None).unwrap_err().kind(), ErrorKind::InvalidParams);
}

#[test]
fn set_mode_with_an_unknown_name_is_invalid_params() {
    let module = NetworkModule::new();
    let err = module.route("setMode", &with_mode("custom")).unwrap_err();
    assert_eq!(err.kind(), ErrorKind::InvalidParams);
    assert!(err.to_text(&words()).contains("custom"));
    let call = module.route("setMode", &with_mode("auto")).unwrap();
    assert_eq!(call, Call::SetMode(NetworkMode::Auto));
}

#[test]
fn unknown_method_is_reported_by_name() {
    let module = NetworkModule::new();
    let err = module.route("frobnicate", &Value::Null).unwrap_err();
    assert_eq!(err.kind(), ErrorKind::UnknownMethod);
    assert_eq!(module.route("getStatus", &Value::Null).unwrap(), Call::GetStatus);
}

#[test]
fn a_refused_change_leaves_the_mode_where_it_was() {
    let mut module = NetworkModule::new();
    let nope = vec![refused("no"), refused("no")];
    let err = module.set_mode(NetworkMode::Auto, "wlan0", &nope).unwrap_err();
    assert_eq!(err.kind(), ErrorKind::NotCapable);
    assert_eq!(module.mode, NetworkMode::Off);

    let root = vec![refused("Operation not permitted"), refused("Operation not permitted")];
    let err = module.set_mode(NetworkMode::Auto, "wlan0", &root).unwrap_err();
    assert_eq!(err.kind(), ErrorKind::PermissionDenied);
    assert_eq!(err.to_text(&words()), "changing the qdisc on wlan0 needs root");

    module.set_mode(NetworkMode::Auto, "wlan0", &vec![Attempt::Took]).unwrap();
    assert_eq!(module.mode, NetworkMode::Auto);
    module.set_mode(NetworkMode::Off, "wlan0", &vec![]).unwrap();
    assert_eq!(module.mode, NetworkMode::Off);

    let said = queuing_error(&QdiscFailure::NotCapable("old kernel".to_string()), "wlan0");
    assert_eq!(said.to_text(&words()), "this kernel refused smart queuing: old kernel");
}

#[test]
fn the_status_shows_the_link_and_its_discipline() {
    let module = NetworkModule::new();
    let shown = Some("qdisc cake 8003: root\n".to_string());
    let status = module.status(true, ROUTE_TABLE, shown.clone());
    assert!(status.supported);
    assert_eq!(status.interface.as_deref(), Some("enp3s0"));
    assert_eq!(status.mode, "off");
    assert_eq!(status.active_qdisc.as_deref(), Some("cake"));
    assert!(!module.status(false, ROUTE_TABLE, None).supported);
    let unplugged = module.status(true, "", shown);
    assert!(!unplugged.supported && unplugged.active_qdisc.is_none());

    assert_eq!(target_interface(ROUTE_TABLE).unwrap(), "enp3s0");
    assert_eq!(target_interface("").unwrap_err().kind(), ErrorKind::NotCapable);
}
