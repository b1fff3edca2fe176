use tokio_chat::cli::{
    load_args_refusal, parse_load_args, parse_pathology_args, parse_scaling_args,
    pathology_args_refusal, scaling_args_refusal, ArgError,
};

fn argv(xs: &[&str]) -> Vec<String> {
    let mut v = vec!["prog".to_string()];
    v.extend(xs.iter().map(|x| x.to_string()));
    v
}

#[test]
fn load_defaults() {
    let a = parse_load_args(&argv(&[]));
    assert_eq!(a.addr, "127.0.0.1:8080");
    assert_eq!(a.clients, 50);
    assert_eq!(a.duration_secs, 15);
    assert_eq!(a.warmup_secs, 3);
    assert!(a.rate_per_client.is_none());
    assert_eq!(a.slow_count, 0);
    assert_eq!(a.label, "run");
    assert!(load_args_refusal(&Vec::new()).is_none());
    assert_eq!(parse_load_args(&Vec::new()).clients, 50);
}

#[test]
fn load_flags_override_in_order() {
    let a = parse_load_args(&argv(&[
        "--addr", "10.0.0.1:9000", "--clients", "100", "--duration-secs", "20", "--warmup-secs",
        "5", "--rate-per-client", "0.1", "--slow-count", "2", "--label", "mutex,N=100",
        "--clients", "7",
    ]));
    assert_eq!(a.addr, "10.0.0.1:9000");
    assert_eq!(a.clients, 7);
    assert_eq!(a.duration_secs, 20);
    assert_eq!(a.warmup_secs, 5);
    assert_eq!(a.rate_per_client.as_deref(), Some("0.1"));
    assert_eq!(a.slow_count, 2);
    assert_eq!(a.label, "mutex,N=100");
}

#[test]
fn refusals() {
    match load_args_refusal(&argv(&["--bogus", "1"])) {
        Some(ArgError::Unknown { arg }) => assert_eq!(arg, "--bogus"),
        _ => panic!("expected unknown"),
    }
    match load_args_refusal(&argv(&["--clients"])) {
        Some(ArgError::MissingValue { flag }) => assert_eq!(flag, "--clients"),
        _ => panic!("expected missing value"),
    }
    match load_args_refusal(&argv(&["--clients", "many", "--bogus"])) {
        Some(ArgError::BadNumber { flag, value }) => {
            assert_eq!(flag, "--clients");
            assert_eq!(value, "many");
        }
        _ => panic!("expected bad number"),
    }
    match scaling_args_refusal(&argv(&["--secs", "-1"])) {
        Some(ArgError::BadNumber { .. }) => {}
        _ => panic!("expected bad number"),
    }
    match pathology_args_refusal(&argv(&["--variant"])) {
        Some(ArgError::MissingValue { flag }) => assert_eq!(flag, "--variant"),
        _ => panic!("expected missing value"),
    }
}

#[test]
fn scaling_args() {
    let a = parse_scaling_args(&argv(&[]));
    assert_eq!((a.secs, a.trials), (2, 5));
    let a = parse_scaling_args(&argv(&["--secs", "1", "--trials", "3"]));
    assert_eq!((a.secs, a.trials), (1, 3));
}

#[test]
fn pathology_args() {
    let a = parse_pathology_args(&argv(&[]));
    assert_eq!(a.variant, "both");
    assert_eq!((a.publishers, a.subscribers, a.slow_count), (8, 200, 1));
    assert_eq!((a.slow_delay_ms, a.pub_rate_hz, a.duration_secs), (10, 200, 10));
    let a = parse_pathology_args(&argv(&[
        "--variant", "mutex", "--publishers", "2", "--subscribers", "3", "--slow-count", "0",
        "--slow-delay-ms", "4", "--pub-rate-hz", "5", "--duration-secs", "6",
    ]));
    assert_eq!(a.variant, "mutex");
    assert_eq!((a.publishers, a.subscribers, a.slow_count), (2, 3, 0));
    assert_eq!((a.slow_delay_ms, a.pub_rate_hz, a.duration_secs), (4, 5, 6));
}

#[test]
fn accepted_command_lines_have_no_refusal() {
    assert!(load_args_refusal(&argv(&["--clients", "3", "--label", "x"])).is_none());
    assert!(scaling_args_refusal(&argv(&["--trials", "1"])).is_none());
    assert!(pathology_args_refusal(&argv(&["--variant", "anything"])).is_none());
    match pathology_args_refusal(&argv(&["--publishers", "x"])) {
        Some(ArgError::BadNumber { flag, value }) => {
            assert_eq!(flag, "--publishers");
            assert_eq!(value, "x");
        }
        _ => panic!("expected bad number"),
    }
    match scaling_args_refusal(&argv(&["--threads", "1"])) {
        Some(ArgError::Unknown { arg }) => assert_eq!(arg, "--threads"),
        _ => panic!("expected unknown"),
    }
}
