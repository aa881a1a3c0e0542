use doit::types::{AppSettings, SyncSnapshot};
use doit::webdav::{
    auth_header, chain_text, check_config, choose_authoritative, classify_transport, download_request,
    download_status, join_url, local_stamp, propfind_request, status_result, test_connection_start,
    test_connection_step, transfer_from, upload_request, upload_result, ProbeStage, ProbeStep,
    RequestSpec, TransferState, TransportOutcome,
};

fn headers(r: &RequestSpec) -> Vec<(String, String)> {
    r.headers.clone()
}

fn snap(stamp: &str) -> SyncSnapshot {
    SyncSnapshot { version: 1, exported_at: stamp.to_string(), todos: Vec::new(), settings: AppSettings::default() }
}

#[test]
fn basic_auth_header() {
    assert_eq!(auth_header("user", "pass"), "Basic dXNlcjpwYXNz");
    assert_eq!(auth_header("", ""), "Basic Og==");
    assert_eq!(auth_header("用户", "p"), "Basic 55So5oi3OnA=");
    assert_eq!(auth_header("Aladdin", "open sesame"), "Basic QWxhZGRpbjpvcGVuIHNlc2FtZQ==");
    assert_eq!(auth_header("a", "bc"), "Basic YTpiYw==");
}

#[test]
fn urls_keep_one_slash() {
    assert_eq!(join_url("https://x/dav///", "doit-snapshot.json"), "https://x/dav/doit-snapshot.json");
    assert_eq!(join_url("https://x/dav", "f.json"), "https://x/dav/f.json");
    assert_eq!(join_url("", "f"), "/f");
}

#[test]
fn blank_address_is_refused() {
    assert_eq!(check_config("  \t", "u", "p"), Err("请先配置 WebDAV 地址".to_string()));
    assert_eq!(check_config("https://x", "", ""), Ok(()));
}

#[test]
fn error_chains_are_joined() {
    let msgs = vec!["a".to_string(), "b".to_string(), "c".to_string()];
    assert_eq!(chain_text(&msgs), "a\n  ↳ b\n  ↳ c");
    assert_eq!(chain_text(&vec!["only".to_string()]), "only");
}

#[test]
fn transport_errors_get_hints() {
    let cert = vec!["error sending request".to_string(), "invalid peer certificate: UnknownIssuer".to_string()];
    assert_eq!(
        classify_transport(&cert),
        "服务器证书不受信任（可能是自签名或内网证书）\n原始信息：\nerror sending request\n  ↳ invalid peer certificate: UnknownIssuer"
    );
    let dns = vec!["Failed to lookup address information".to_string()];
    assert!(classify_transport(&dns).starts_with("域名解析失败，请确认该地址当前可访问\n原始信息：\n"));
    let timeout = vec!["operation timed out".to_string()];
    assert!(classify_transport(&timeout).starts_with("连接超时或被重置"));
    let refused = vec!["Connection refused (os error 111)".to_string()];
    assert!(classify_transport(&refused).starts_with("连接被拒绝"));
    let proxy = vec!["Proxy CONNECT aborted".to_string()];
    assert!(classify_transport(&proxy).starts_with("代理连接出错"));
    let tls = vec!["TLS handshake eof".to_string()];
    assert!(classify_transport(&tls).starts_with("TLS 握手失败"));
    let other = vec!["oops".to_string()];
    assert_eq!(classify_transport(&other), "网络不可达或请求被中断，请检查地址、网络与防火墙\n原始信息：\noops");
}

#[test]
fn probe_statuses() {
    assert_eq!(status_result("连接", 204), Ok("连接：服务器可达（HTTP 204）".to_string()));
    assert_eq!(status_result("连接", 405), Ok("连接：服务器可达（HTTP 405）".to_string()));
    assert_eq!(status_result("连接", 401), Err("连接：认证失败，请检查用户名或密码（HTTP 401）".to_string()));
    assert_eq!(status_result("连接", 403), Err("连接：认证失败，请检查用户名或密码（HTTP 403）".to_string()));
    assert_eq!(status_result("连接", 500), Err("连接失败（HTTP 500）".to_string()));
    for s in [100u16, 199, 200, 299, 300, 404, 405, 500] {
        assert_eq!(status_result("x", s).is_ok(), (200..=299).contains(&s) || s == 405);
    }
}

#[test]
fn propfind_probe_request() {
    let r = propfind_request("https://x/dav", "user", "pass");
    assert_eq!(r.method, "PROPFIND");
    assert_eq!(r.url, "https://x/dav");
    assert_eq!(
        headers(&r),
        vec![
            ("Authorization".to_string(), "Basic dXNlcjpwYXNz".to_string()),
            ("Depth".to_string(), "0".to_string()),
        ]
    );
    assert_eq!(r.body, None);
}

#[test]
fn connection_test_starts_with_options() {
    match test_connection_start("  ", "u", "p") {
        ProbeStep::Finish(Err(m)) => assert_eq!(m, "请先配置 WebDAV 地址"),
        other => panic!("unexpected {:?}", other),
    }
    match test_connection_start(" https://x/dav ", "user", "pass") {
        ProbeStep::Send(ProbeStage::Options, req) => {
            assert_eq!(req.method, "OPTIONS");
            assert_eq!(req.url, "https://x/dav");
            assert_eq!(headers(&req), vec![("Authorization".to_string(), "Basic dXNlcjpwYXNz".to_string())]);
        },
        other => panic!("unexpected {:?}", other),
    }
}

#[test]
fn connection_test_steps() {
    let url = " https://x/dav ";
    match test_connection_step(ProbeStage::Options, TransportOutcome::Status(200), url, "u", "p") {
        ProbeStep::Send(ProbeStage::Propfind, req) => {
            assert_eq!(req.method, "PROPFIND");
            assert_eq!(req.url, "https://x/dav");
        },
        other => panic!("unexpected {:?}", other),
    }
    match test_connection_step(ProbeStage::Options, TransportOutcome::Failed(vec!["x".into()]), url, "u", "p") {
        ProbeStep::Send(ProbeStage::FallbackPropfind, _) => {},
        other => panic!("unexpected {:?}", other),
    }
    match test_connection_step(ProbeStage::FallbackPropfind, TransportOutcome::Status(404), url, "u", "p") {
        ProbeStep::Send(ProbeStage::Propfind, _) => {},
        other => panic!("unexpected {:?}", other),
    }
    match test_connection_step(ProbeStage::FallbackPropfind, TransportOutcome::Failed(vec!["oops".into()]), url, "u", "p") {
        ProbeStep::Finish(Err(m)) => assert_eq!(m, "连接失败：网络不可达或请求被中断，请检查地址、网络与防火墙\n原始信息：\noops"),
        other => panic!("unexpected {:?}", other),
    }
    match test_connection_step(ProbeStage::Propfind, TransportOutcome::Status(207), url, "u", "p") {
        ProbeStep::Finish(Ok(m)) => assert_eq!(m, "连接正常，凭据有效（HTTP 207）"),
        other => panic!("unexpected {:?}", other),
    }
    match test_connection_step(ProbeStage::Propfind, TransportOutcome::Status(405), url, "u", "p") {
        ProbeStep::Finish(Ok(m)) => assert_eq!(m, "服务器可达，但该服务不支持目录探测（HTTP 405）；可在云备份中直接上传试试"),
        other => panic!("unexpected {:?}", other),
    }
    match test_connection_step(ProbeStage::Propfind, TransportOutcome::Status(401), url, "u", "p") {
        ProbeStep::Finish(Err(m)) => assert_eq!(m, "连接：认证失败，请检查用户名或密码（HTTP 401）"),
        other => panic!("unexpected {:?}", other),
    }
    match test_connection_step(ProbeStage::Propfind, TransportOutcome::Status(302), url, "u", "p") {
        ProbeStep::Finish(Err(m)) => assert_eq!(m, "连接失败（HTTP 302）"),
        other => panic!("unexpected {:?}", other),
    }
}

#[test]
fn upload_requests_and_results() {
    assert_eq!(upload_request("", "u", "p", "{}".into()).unwrap_err(), "请先配置 WebDAV 地址");
    let r = upload_request("https://x/dav/", "user", "pass", "{\"a\":1}".into()).unwrap();
    assert_eq!(r.method, "PUT");
    assert_eq!(r.url, "https://x/dav/doit-snapshot.json");
    assert_eq!(
        headers(&r),
        vec![
            ("Authorization".to_string(), "Basic dXNlcjpwYXNz".to_string()),
            ("Content-Type".to_string(), "application/json".to_string()),
        ]
    );
    assert_eq!(r.body.as_deref(), Some("{\"a\":1}"));
    assert_eq!(upload_result(TransportOutcome::Status(201)), Ok("上传成功（HTTP 201）".to_string()));
    assert_eq!(
        upload_result(TransportOutcome::Status(403)),
        Err("上传失败：认证失败，请检查用户名或密码（HTTP 403）".to_string())
    );
    assert_eq!(upload_result(TransportOutcome::Status(507)), Err("上传失败（HTTP 507）".to_string()));
    assert_eq!(
        upload_result(TransportOutcome::Failed(vec!["oops".into()])),
        Err("上传失败：网络不可达或请求被中断，请检查地址、网络与防火墙\n原始信息：\noops".to_string())
    );
}

#[test]
fn download_requests_and_statuses() {
    assert!(download_request(" ", "u", "p").is_err());
    let r = download_request("https://x/dav", "user", "pass").unwrap();
    assert_eq!(r.method, "GET");
    assert_eq!(r.url, "https://x/dav/doit-snapshot.json");
    assert_eq!(headers(&r), vec![("Authorization".to_string(), "Basic dXNlcjpwYXNz".to_string())]);
    assert_eq!(r.body, None);
    assert_eq!(download_status(TransportOutcome::Status(200)), Ok(true));
    assert_eq!(download_status(TransportOutcome::Status(404)), Ok(false));
    assert_eq!(download_status(TransportOutcome::Status(500)), Err("下载失败（HTTP 500）".to_string()));
    assert!(download_status(TransportOutcome::Failed(vec!["x".into()])).unwrap_err().starts_with("下载失败：网络不可达"));
}

#[test]
fn newest_snapshot_wins() {
    let local = snap("local");
    let remote = snap("2024-05-01T10:00:00");
    assert_eq!(choose_authoritative("2024-05-02T00:00:00", local.clone(), remote.clone()).exported_at, "local");
    assert_eq!(choose_authoritative("2024-05-01T09:00:00", local.clone(), remote.clone()).exported_at, "2024-05-01T10:00:00");
    assert_eq!(choose_authoritative("2024-05-01T10:00:00", local.clone(), remote.clone()).exported_at, "2024-05-01T10:00:00");
    assert_eq!(choose_authoritative("", local, remote).exported_at, "2024-05-01T10:00:00");
}

#[test]
fn transfer_states() {
    assert_eq!(transfer_from(Ok("fine".into())), TransferState::Done("fine".into()));
    assert_eq!(transfer_from(Err("bad".into())), TransferState::Failed("bad".into()));
    assert_ne!(TransferState::Idle, TransferState::Busy);
    let stamp = local_stamp();
    assert_eq!(stamp.len(), 19);
}

#[test]
fn certificate_failures_offer_trust() {
    let m = match test_connection_step(
        ProbeStage::Propfind,
        TransportOutcome::Failed(vec!["error sending request".into(), "invalid peer certificate: BadSignature".into()]),
        "https://nas",
        "u",
        "p",
    ) {
        ProbeStep::Finish(Err(m)) => m,
        other => panic!("unexpected {:?}", other),
    };
    assert!(m.starts_with("连接失败：服务器证书不受信任"));
    assert!(doit::settings::is_cert_error(&TransferState::Failed(m)));
}

#[test]
fn connection_test_sends_at_most_three_requests() {
    for statuses in [[None, None, None], [Some(200), Some(200), None], [None, Some(401), Some(200)]] {
        let mut step = test_connection_start("https://nas", "u", "p");
        let mut sent = 0;
        loop {
            match step {
                ProbeStep::Finish(_) => break,
                ProbeStep::Send(stage, _) => {
                    let outcome = match statuses[sent] {
                        Some(s) => TransportOutcome::Status(s),
                        None => TransportOutcome::Failed(vec!["down".into()]),
                    };
                    sent += 1;
                    step = test_connection_step(stage, outcome, "https://nas", "u", "p");
                },
            }
        }
        assert!(sent <= 3);
    }
}
