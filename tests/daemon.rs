use blocknet_core::api::{
    api_url, bearer_value, call_result, cookie_token, parse_method, status_url, ApiError,
    HttpMethod,
};
use blocknet_core::launch::{
    binary_name, daemon_args, lacks_exec_bits, provision_args, provision_input, with_exec_bits,
    zone_marker_path, Platform,
};
use blocknet_core::supervisor::{
    needs_block_check, probe_token, readiness, spawn_failure, ChildStatus, CookieRead,
    DaemonError, IoOperation, Supervisor,
};

fn failed_exit() -> ChildStatus {
    ChildStatus::Exited { success: false, status: "exit status: 1".to_string() }
}

#[test]
fn running_child_is_kept() {
    let mut s: Supervisor<u32> = Supervisor::new();
    assert!(!s.is_running());
    let (r, back) = s.finish_start(7, ChildStatus::Running, false);
    assert_eq!(r, Ok(()));
    assert_eq!(back, None);
    assert!(s.is_running());
    let (r, back) = s.finish_start(8, ChildStatus::Running, false);
    assert_eq!(r, Ok(()));
    assert_eq!(back, Some(7));
    assert_eq!(s.stop(), Some(8));
    assert!(!s.is_running());
    assert_eq!(s.stop(), None);
}

#[test]
fn stop_then_readiness_is_false() {
    let mut s: Supervisor<u32> = Supervisor::new();
    let (r, _) = s.finish_start(1, ChildStatus::Running, false);
    assert!(r.is_ok());
    assert_eq!(s.stop(), Some(1));
    let gone = readiness(&CookieRead::Absent, false);
    assert!(!gone.ready && !gone.remove_cookie);
    let stale = readiness(&CookieRead::Text("tok".to_string()), false);
    assert!(!stale.ready && stale.remove_cookie);
}

#[test]
fn failed_exit_when_blocked_is_security_blocked() {
    let mut s: Supervisor<u32> = Supervisor::new();
    assert!(needs_block_check(&failed_exit()));
    let (r, back) = s.finish_start(3, failed_exit(), true);
    assert_eq!(r, Err(DaemonError::SecurityBlocked));
    assert_eq!(back, Some(3));
    assert!(!s.is_running());
}

#[test]
fn failed_exit_when_not_blocked_reports_status() {
    let mut s: Supervisor<u32> = Supervisor::new();
    let (r, back) = s.finish_start(3, failed_exit(), false);
    assert_eq!(r, Err(DaemonError::ExitedEarly("exit status: 1".to_string())));
    assert_eq!(back, Some(3));
    assert!(!s.is_running());
}

#[test]
fn clean_exit_and_unknown_status() {
    let mut s: Supervisor<u32> = Supervisor::new();
    let ok = ChildStatus::Exited { success: true, status: "exit status: 0".to_string() };
    assert!(!needs_block_check(&ok));
    assert!(!needs_block_check(&ChildStatus::Running));
    let (r, back) = s.finish_start(4, ok, true);
    assert_eq!(r, Ok(()));
    assert_eq!(back, Some(4));
    assert!(!s.is_running());
    let (r, _) = s.finish_start(5, ChildStatus::Unknown("gone".to_string()), false);
    assert_eq!(
        r,
        Err(DaemonError::Io { operation: IoOperation::StatusCheck, cause: "gone".to_string() })
    );
}

#[test]
fn spawn_failures() {
    assert_eq!(spawn_failure(true, "denied".to_string()), DaemonError::SecurityBlocked);
    assert_eq!(
        spawn_failure(false, "denied".to_string()),
        DaemonError::Io { operation: IoOperation::Spawn, cause: "denied".to_string() }
    );
}

#[test]
fn invalid_cookie_and_unreachable_api() {
    let cookie = CookieRead::Text("  bogus-token\n".to_string());
    assert_eq!(probe_token(&cookie), Some("bogus-token".to_string()));
    let r = readiness(&cookie, false);
    assert!(!r.ready);
    assert!(r.remove_cookie);
}

#[test]
fn readiness_cases() {
    assert_eq!(probe_token(&CookieRead::Absent), None);
    assert_eq!(probe_token(&CookieRead::Unreadable), Some(String::new()));
    let r = readiness(&CookieRead::Text("t".to_string()), true);
    assert!(r.ready && !r.remove_cookie);
    let r = readiness(&CookieRead::Absent, true);
    assert!(!r.ready && !r.remove_cookie);
}

#[test]
fn launch_contract() {
    assert_eq!(binary_name(Platform::MacOs), "blocknet-aarch64-apple-darwin");
    assert_eq!(binary_name(Platform::Linux), "blocknet-amd64-linux");
    assert_eq!(binary_name(Platform::Windows), "blocknet-amd64-windows.exe");
    assert_eq!(
        daemon_args("/d", "/w.dat"),
        vec!["--daemon", "--api", "127.0.0.1:8332", "--data", "/d", "--wallet", "/w.dat"]
    );
    assert_eq!(provision_args("/w.dat", "/d"), vec!["--wallet", "/w.dat", "--data", "/d"]);
    assert_eq!(provision_input("pw"), "pw\npw\n");
    assert_eq!(zone_marker_path("C:\\b.exe"), "C:\\b.exe:Zone.Identifier");
}

#[test]
fn exec_bits() {
    assert!(lacks_exec_bits(0o644));
    assert!(!lacks_exec_bits(0o744));
    assert_eq!(with_exec_bits(0o644), 0o755);
    assert_eq!(with_exec_bits(0o600), 0o755);
    assert_eq!(with_exec_bits(0o100644), 0o100755);
}

#[test]
fn api_requests() {
    assert_eq!(parse_method("POST"), HttpMethod::Post);
    assert_eq!(parse_method("PUT"), HttpMethod::Put);
    assert_eq!(parse_method("DELETE"), HttpMethod::Delete);
    assert_eq!(parse_method("GET"), HttpMethod::Get);
    assert_eq!(parse_method("post"), HttpMethod::Get);
    assert_eq!(api_url("/api/wallet"), "http://127.0.0.1:8332/api/wallet");
    assert_eq!(status_url(), "http://127.0.0.1:8332/api/status");
    assert_eq!(bearer_value("abc"), "Bearer abc");
    assert_eq!(cookie_token(" abc \n"), "abc");
    assert_eq!(call_result(true, "{}".to_string()), Ok("{}".to_string()));
    assert_eq!(
        call_result(false, "bad".to_string()),
        Err(ApiError::RequestFailed("bad".to_string()))
    );
}
