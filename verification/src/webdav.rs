//! The WebDAV sync protocol: request descriptions, the decisions taken on
//! each response, and the user-facing messages they produce.

use vstd::prelude::*;
use crate::text::{
    dec, has_sub, join_seq, lowercase, strip_end_char, text_lt, trim_seq, views, contains_str,
    is_blank, join_strings, push_decimal, push_str, str_lt, string_of, to_lowercase, trim,
    trim_end_char,
};
use crate::types::{SyncSnapshot, SYNC_FILE};
use crate::dates::{now_iso, is_datetime_text};

verus! {

/// The digit of the standard base64 alphabet for the six-bit value `v`:
/// `A`-`Z`, `a`-`z`, `0`-`9`, `+`, `/`.
pub open spec fn b64_digit(v: int) -> char {
    if v < 26 {
        ('A' as int + v) as char
    } else if v < 52 {
        ('a' as int + (v - 26)) as char
    } else if v < 62 {
        ('0' as int + (v - 52)) as char
    } else if v == 62 {
        '+'
    } else {
        '/'
    }
}

/// Standard base64 with `=` padding of the bytes `b`: each group of three
/// bytes becomes four digits of six bits each; a last group of one or two
/// bytes is filled up with zero bits and padded with `=` to four.
pub open spec fn base64_of(b: Seq<u8>) -> Seq<char>
    decreases b.len(),
{
    if b.len() == 0 {
        Seq::empty()
    } else if b.len() == 1 {
        seq![b64_digit(b[0] as int / 4), b64_digit((b[0] as int % 4) * 16), '=', '=']
    } else if b.len() == 2 {
        seq![
            b64_digit(b[0] as int / 4),
            b64_digit((b[0] as int % 4) * 16 + b[1] as int / 16),
            b64_digit((b[1] as int % 16) * 4),
            '=',
        ]
    } else {
        seq![
            b64_digit(b[0] as int / 4),
            b64_digit((b[0] as int % 4) * 16 + b[1] as int / 16),
            b64_digit((b[1] as int % 16) * 4 + b[2] as int / 64),
            b64_digit(b[2] as int % 64),
        ] + base64_of(b.skip(3))
    }
}

/// Standard base64 (with padding) of the UTF-8 bytes of a text.
pub open spec fn base64_standard(s: Seq<char>) -> Seq<char> {
    base64_of(vstd::utf8::encode_utf8(s))
}

/// Standard base64 (with padding) of the UTF-8 bytes of `s`
/// (`base64::engine::general_purpose::STANDARD.encode`, whose alphabet is
/// the standard one and whose configuration pads with `=`).
#[verifier::external_body]
fn base64_encode(s: &str) -> (r: String)
    ensures
        r@ == base64_standard(s@),
{
    base64::Engine::encode(&base64::engine::general_purpose::STANDARD, s)
}

/// The Basic Authorization header value for WebDAV.
pub open spec fn auth_header_text(user: Seq<char>, pass: Seq<char>) -> Seq<char> {
    "Basic "@ + base64_standard(user + ":"@ + pass)
}

/// Builds a Basic Authorization header value for WebDAV.
pub fn auth_header(user: &str, pass: &str) -> (r: String)
    ensures
        r@ == auth_header_text(user@, pass@),
{
    let mut cred = string_of(user);
    push_str(&mut cred, ":");
    push_str(&mut cred, pass);
    let enc = base64_encode(cred.as_str());
    let mut r = string_of("Basic ");
    push_str(&mut r, enc.as_str());
    r
}

/// A base WebDAV URL joined with a file name, keeping one `/` between.
pub open spec fn join_url_text(base: Seq<char>, file: Seq<char>) -> Seq<char> {
    strip_end_char(base, '/') + "/"@ + file
}

/// Joins a base WebDAV URL with a file name, keeping one `/` between.
pub fn join_url(base: &str, file: &str) -> (r: String)
    ensures
        r@ == join_url_text(base@, file@),
{
    let mut r = trim_end_char(base, '/');
    push_str(&mut r, "/");
    push_str(&mut r, file);
    r
}

/// A readable outcome of a sync action (used to render results in the UI).
#[derive(Clone, Debug)]
pub enum TransferState {
    Idle,
    Busy,
    /// Finished successfully, with a message.
    Done(String),
    /// Failed, with a message.
    Failed(String),
}

/// The message a state carries, tagged by the kind of state.
pub open spec fn transfer_view(t: TransferState) -> (int, Seq<char>) {
    match t {
        TransferState::Idle => (0, Seq::empty()),
        TransferState::Busy => (1, Seq::empty()),
        TransferState::Done(m) => (2, m@),
        TransferState::Failed(m) => (3, m@),
    }
}

impl PartialEq for TransferState {
    fn eq(&self, other: &Self) -> (r: bool) {
        match (self, other) {
            (TransferState::Idle, TransferState::Idle) => true,
            (TransferState::Busy, TransferState::Busy) => true,
            (TransferState::Done(a), TransferState::Done(b)) => *a == *b,
            (TransferState::Failed(a), TransferState::Failed(b)) => *a == *b,
            _ => false,
        }
    }
}

impl vstd::std_specs::cmp::PartialEqSpecImpl for TransferState {
    open spec fn obeys_eq_spec() -> bool {
        true
    }

    open spec fn eq_spec(&self, other: &Self) -> bool {
        transfer_view(*self) == transfer_view(*other)
    }
}

/// The state an action ends in: done or failed, with the message.
pub fn transfer_from(result: Result<String, String>) -> (r: TransferState)
    ensures
        match result {
            Ok(m) => r == TransferState::Done(m),
            Err(e) => r == TransferState::Failed(e),
        },
{
    match result {
        Ok(m) => TransferState::Done(m),
        Err(e) => TransferState::Failed(e),
    }
}

/// The message shown when no WebDAV address is configured.
pub open spec fn missing_url_msg() -> Seq<char> {
    "请先配置 WebDAV 地址"@
}

/// Checks the configuration of a request: the URL must not be blank.
pub fn check_config(url: &str, user: &str, pass: &str) -> (r: Result<(), String>)
    ensures
        r is Ok <==> trim_seq(url@).len() != 0,
        r matches Err(m) ==> m@ == missing_url_msg(),
{
    if is_blank(url) {
        return Err(string_of("请先配置 WebDAV 地址"));
    }
    Ok(())
}

/// The separator between the messages of an error and its causes.
pub open spec fn chain_sep() -> Seq<char> {
    "\n  ↳ "@
}

/// Flattens an error's message and the messages of all of its causes
/// (outermost first) into one readable, multi-line text.
pub fn chain_text(messages: &Vec<String>) -> (r: String)
    ensures
        r@ == join_seq(views(messages@), chain_sep()),
{
    join_strings(messages, "\n  ↳ ")
}

/// The lower-cased error text names a certificate problem.
pub open spec fn cert_problem(lower: Seq<char>) -> bool {
    has_sub(lower, "certificate"@) || has_sub(lower, "invalid peer"@) || has_sub(lower, "unknownissuer"@)
        || has_sub(lower, "unable to get local issuer"@) || has_sub(lower, "expired"@)
}

/// The hint for a transport failure, chosen from the lower-cased error text.
pub open spec fn transport_hint(lower: Seq<char>) -> Seq<char> {
    if cert_problem(lower) {
        "服务器证书不受信任（可能是自签名或内网证书）"@
    } else if has_sub(lower, "failed to lookup"@) || has_sub(
        lower,
        "temporary failure in name resolution"@,
    ) || has_sub(lower, "dns"@) {
        "域名解析失败，请确认该地址当前可访问"@
    } else if has_sub(lower, "timed out"@) || has_sub(lower, "deadline"@) || has_sub(
        lower,
        "connection reset"@,
    ) {
        "连接超时或被重置，请检查网络或稍后重试"@
    } else if has_sub(lower, "connection refused"@) || has_sub(lower, "econnrefused"@) {
        "连接被拒绝，请确认服务器已开启且地址/端口正确"@
    } else if has_sub(lower, "proxy"@) {
        "代理连接出错，可尝试关闭系统代理或改用直连"@
    } else if has_sub(lower, "tls"@) {
        "TLS 握手失败（可能出现协议/版本不兼容）"@
    } else {
        "网络不可达或请求被中断，请检查地址、网络与防火墙"@
    }
}

/// The message for a transport failure whose error chain reads `messages`.
pub open spec fn transport_text(messages: Seq<Seq<char>>) -> Seq<char> {
    transport_hint(lowercase(join_seq(messages, "\n"@))) + "\n原始信息：\n"@ + join_seq(
        messages,
        chain_sep(),
    )
}

fn hint_for(lower: &str) -> (r: &'static str)
    ensures
        r@ == transport_hint(lower@),
{
    if contains_str(lower, "certificate") || contains_str(lower, "invalid peer") || contains_str(
        lower,
        "unknownissuer",
    ) || contains_str(lower, "unable to get local issuer") || contains_str(lower, "expired") {
        "服务器证书不受信任（可能是自签名或内网证书）"
    } else if contains_str(lower, "failed to lookup") || contains_str(
        lower,
        "temporary failure in name resolution",
    ) || contains_str(lower, "dns") {
        "域名解析失败，请确认该地址当前可访问"
    } else if contains_str(lower, "timed out") || contains_str(lower, "deadline") || contains_str(
        lower,
        "connection reset",
    ) {
        "连接超时或被重置，请检查网络或稍后重试"
    } else if contains_str(lower, "connection refused") || contains_str(lower, "econnrefused") {
        "连接被拒绝，请确认服务器已开启且地址/端口正确"
    } else if contains_str(lower, "proxy") {
        "代理连接出错，可尝试关闭系统代理或改用直连"
    } else if contains_str(lower, "tls") {
        "TLS 握手失败（可能出现协议/版本不兼容）"
    } else {
        "网络不可达或请求被中断，请检查地址、网络与防火墙"
    }
}

/// Classifies a transport-level request error, given the messages of the
/// error and its causes (outermost first), into a concrete, actionable message
/// (DNS, timeout, TLS/certificate, proxy, refused connection, ...).
pub fn classify_transport(messages: &Vec<String>) -> (r: String)
    ensures
        r@ == transport_text(views(messages@)),
{
    let text = join_strings(messages, "\n");
    let lower = to_lowercase(text.as_str());
    let hint = hint_for(lower.as_str());
    let chain = chain_text(messages);
    let mut r = string_of(hint);
    push_str(&mut r, "\n原始信息：\n");
    push_str(&mut r, chain.as_str());
    r
}

/// A 2xx status.
pub open spec fn is_success(status: u16) -> bool {
    200 <= status <= 299
}

/// `prefix`, the decimal status and a closing parenthesis.
pub open spec fn with_status(prefix: Seq<char>, status: u16) -> Seq<char> {
    prefix + dec(status as nat) + "）"@
}

fn status_msg(prefix: &str, status: u16) -> (r: String)
    ensures
        r@ == with_status(prefix@, status),
{
    let mut r = string_of(prefix);
    push_decimal(&mut r, status as u64);
    push_str(&mut r, "）");
    r
}

fn status_msg_after(label: &str, middle: &str, status: u16) -> (r: String)
    ensures
        r@ == with_status(label@ + middle@, status),
{
    let mut r = string_of(label);
    push_str(&mut r, middle);
    push_decimal(&mut r, status as u64);
    push_str(&mut r, "）");
    r
}

/// The readable result of a reachability probe with the given status.
pub open spec fn status_result_spec(label: Seq<char>, status: u16) -> Result<Seq<char>, Seq<char>> {
    if is_success(status) {
        Ok(with_status(label + "：服务器可达（HTTP "@, status))
    } else if status == 405 {
        Ok(label + "：服务器可达（HTTP 405）"@)
    } else if status == 401 || status == 403 {
        Err(with_status(label + "：认证失败，请检查用户名或密码（HTTP "@, status))
    } else {
        Err(with_status(label + "失败（HTTP "@, status))
    }
}

/// The view of a text result.
pub open spec fn result_view(r: Result<String, String>) -> Result<Seq<char>, Seq<char>> {
    match r {
        Ok(m) => Ok(m@),
        Err(m) => Err(m@),
    }
}

/// Turns the status of a reachability probe into a readable result.
pub fn status_result(label: &str, status: u16) -> (r: Result<String, String>)
    ensures
        result_view(r) == status_result_spec(label@, status),
{
    if 200 <= status && status <= 299 {
        Ok(status_msg_after(label, "：服务器可达（HTTP ", status))
    } else if status == 405 {
        let mut m = string_of(label);
        push_str(&mut m, "：服务器可达（HTTP 405）");
        Ok(m)
    } else if status == 401 || status == 403 {
        Err(status_msg_after(label, "：认证失败，请检查用户名或密码（HTTP ", status))
    } else {
        Err(status_msg_after(label, "失败（HTTP ", status))
    }
}


/// An HTTP request for the transport to send.
#[derive(Clone, Debug)]
pub struct RequestSpec {
    pub method: String,
    pub url: String,
    /// Header names and values, in the order they are set.
    pub headers: Vec<(String, String)>,
    /// The body; `None` for an empty body.
    pub body: Option<String>,
}

/// The views of a header list.
pub open spec fn header_views(h: Seq<(String, String)>) -> Seq<(Seq<char>, Seq<char>)> {
    h.map_values(|p: (String, String)| (p.0@, p.1@))
}

/// The request `method url` with the given headers and body.
pub open spec fn is_request(
    r: RequestSpec,
    method: Seq<char>,
    url: Seq<char>,
    headers: Seq<(Seq<char>, Seq<char>)>,
    body: Option<Seq<char>>,
) -> bool {
    &&& r.method@ == method
    &&& r.url@ == url
    &&& header_views(r.headers@) == headers
    &&& match r.body {
        Some(b) => body == Some(b@),
        None => body is None,
    }
}

fn header(name: &str, value: String) -> (r: (String, String))
    ensures
        r.0@ == name@,
        r.1@ == value@,
{
    (string_of(name), value)
}

/// The WebDAV `PROPFIND` probe with `Depth: 0`, which makes the server check the credentials.
pub open spec fn is_propfind(r: RequestSpec, url: Seq<char>, user: Seq<char>, pass: Seq<char>) -> bool {
    is_request(
        r,
        "PROPFIND"@,
        url,
        seq![("Authorization"@, auth_header_text(user, pass)), ("Depth"@, "0"@)],
        None,
    )
}

/// Builds the `PROPFIND` probe for `url`.
pub fn propfind_request(url: &str, user: &str, pass: &str) -> (r: RequestSpec)
    ensures
        is_propfind(r, url@, user@, pass@),
{
    let mut headers: Vec<(String, String)> = Vec::new();
    headers.push(header("Authorization", auth_header(user, pass)));
    headers.push(header("Depth", string_of("0")));
    let r = RequestSpec { method: string_of("PROPFIND"), url: string_of(url), headers, body: None };
    assert(header_views(r.headers@) =~= seq![
        ("Authorization"@, auth_header_text(user@, pass@)),
        ("Depth"@, "0"@),
    ]);
    r
}

/// What came back from sending a request: a response status, or a transport
/// failure with the messages of the error and its causes (outermost first).
#[derive(Clone, Debug)]
pub enum TransportOutcome {
    Status(u16),
    Failed(Vec<String>),
}

/// The stages of the connection test.
#[derive(Clone, Copy, Debug, PartialEq, Eq, Structural)]
pub enum ProbeStage {
    /// The `OPTIONS` reachability probe is out.
    Options,
    /// `OPTIONS` failed in transport; a `PROPFIND` checks reachability instead.
    FallbackPropfind,
    /// The `PROPFIND` credential check is out.
    Propfind,
}

/// The next thing the connection test does.
#[derive(Debug)]
pub enum ProbeStep {
    /// Send the request and report its outcome at the given stage.
    Send(ProbeStage, RequestSpec),
    /// The test is over with this result.
    Finish(Result<String, String>),
}

/// The message of a failed connection.
pub open spec fn connect_failed_text(messages: Seq<Seq<char>>) -> Seq<char> {
    "连接失败："@ + transport_text(messages)
}

fn prefixed(prefix: &str, rest: String) -> (r: String)
    ensures
        r@ == prefix@ + rest@,
{
    let mut r = string_of(prefix);
    push_str(&mut r, rest.as_str());
    r
}

/// The step sends the `PROPFIND` probe for the trimmed URL at `stage`.
pub open spec fn sends_propfind(r: ProbeStep, stage: ProbeStage, url: Seq<char>, user: Seq<char>, pass: Seq<char>) -> bool {
    match r {
        ProbeStep::Send(st, req) => st == stage && is_propfind(req, trim_seq(url), user, pass),
        _ => false,
    }
}

/// The step ends the test with the result `res`.
pub open spec fn finishes_with(r: ProbeStep, res: Result<Seq<char>, Seq<char>>) -> bool {
    match r {
        ProbeStep::Finish(x) => result_view(x) == res,
        _ => false,
    }
}

/// What the connection test does after the request of `stage` came back with `outcome`.
pub open spec fn probe_next(
    stage: ProbeStage,
    outcome: TransportOutcome,
    url: Seq<char>,
    user: Seq<char>,
    pass: Seq<char>,
    r: ProbeStep,
) -> bool {
    match (stage, outcome) {
        (ProbeStage::Options, TransportOutcome::Status(_)) => sends_propfind(r, ProbeStage::Propfind, url, user, pass),
        (ProbeStage::Options, TransportOutcome::Failed(_)) => sends_propfind(r, ProbeStage::FallbackPropfind, url, user, pass),
        (ProbeStage::FallbackPropfind, TransportOutcome::Status(_)) => sends_propfind(r, ProbeStage::Propfind, url, user, pass),
        (ProbeStage::FallbackPropfind, TransportOutcome::Failed(m)) => finishes_with(r, Err(connect_failed_text(views(m@)))),
        (ProbeStage::Propfind, TransportOutcome::Failed(m)) => finishes_with(r, Err(connect_failed_text(views(m@)))),
        (ProbeStage::Propfind, TransportOutcome::Status(s)) => finishes_with(r, propfind_result_spec(s)),
    }
}

/// Starts the connection test: checks the configuration, then probes the
/// trimmed URL with `OPTIONS`.
pub fn test_connection_start(url: &str, user: &str, pass: &str) -> (r: ProbeStep)
    ensures
        trim_seq(url@).len() == 0 ==> finishes_with(r, Err(missing_url_msg())),
        trim_seq(url@).len() != 0 ==> (r matches ProbeStep::Send(ProbeStage::Options, req)
            && is_request(
            req,
            "OPTIONS"@,
            trim_seq(url@),
            seq![("Authorization"@, auth_header_text(user@, pass@))],
            None,
        )),
{
    match check_config(url, user, pass) {
        Err(m) => ProbeStep::Finish(Err(m)),
        Ok(()) => {
            let target = trim(url);
            let mut headers: Vec<(String, String)> = Vec::new();
            headers.push(header("Authorization", auth_header(user, pass)));
            let req = RequestSpec { method: string_of("OPTIONS"), url: target, headers, body: None };
            assert(header_views(req.headers@) =~= seq![
                ("Authorization"@, auth_header_text(user@, pass@)),
            ]);
            ProbeStep::Send(ProbeStage::Options, req)
        },
    }
}

/// The result of the `PROPFIND` credential check with the given status.
pub open spec fn propfind_result_spec(status: u16) -> Result<Seq<char>, Seq<char>> {
    if is_success(status) {
        Ok(with_status("连接正常，凭据有效（HTTP "@, status))
    } else if status == 405 {
        Ok("服务器可达，但该服务不支持目录探测（HTTP 405）；可在云备份中直接上传试试"@)
    } else {
        status_result_spec("连接"@, status)
    }
}

/// One step of the connection test: what to do after the request of `stage`
/// came back with `outcome`. `url`, `user` and `pass` are those the test
/// started with.
pub fn test_connection_step(
    stage: ProbeStage,
    outcome: TransportOutcome,
    url: &str,
    user: &str,
    pass: &str,
) -> (r: ProbeStep)
    ensures
        probe_next(stage, outcome, url@, user@, pass@, r),
{
    match (stage, outcome) {
        (ProbeStage::Options, TransportOutcome::Status(_)) => {
            let t = trim(url);
            ProbeStep::Send(ProbeStage::Propfind, propfind_request(t.as_str(), user, pass))
        },
        (ProbeStage::Options, TransportOutcome::Failed(_)) => {
            let t = trim(url);
            ProbeStep::Send(ProbeStage::FallbackPropfind, propfind_request(t.as_str(), user, pass))
        },
        (ProbeStage::FallbackPropfind, TransportOutcome::Status(_)) => {
            let t = trim(url);
            ProbeStep::Send(ProbeStage::Propfind, propfind_request(t.as_str(), user, pass))
        },
        (ProbeStage::FallbackPropfind, TransportOutcome::Failed(m)) => {
            ProbeStep::Finish(Err(prefixed("连接失败：", classify_transport(&m))))
        },
        (ProbeStage::Propfind, TransportOutcome::Failed(m)) => {
            ProbeStep::Finish(Err(prefixed("连接失败：", classify_transport(&m))))
        },
        (ProbeStage::Propfind, TransportOutcome::Status(s)) => {
            if 200 <= s && s <= 299 {
                ProbeStep::Finish(Ok(status_msg("连接正常，凭据有效（HTTP ", s)))
            } else if s == 405 {
                ProbeStep::Finish(
                    Ok(string_of("服务器可达，但该服务不支持目录探测（HTTP 405）；可在云备份中直接上传试试")),
                )
            } else {
                ProbeStep::Finish(status_result("连接", s))
            }
        },
    }
}

/// The `PUT` request that uploads a serialized snapshot to `{url}/doit-snapshot.json`.
pub open spec fn is_upload(r: RequestSpec, url: Seq<char>, user: Seq<char>, pass: Seq<char>, body: Seq<char>) -> bool {
    is_request(
        r,
        "PUT"@,
        join_url_text(url, "doit-snapshot.json"@),
        seq![
            ("Authorization"@, auth_header_text(user, pass)),
            ("Content-Type"@, "application/json"@),
        ],
        Some(body),
    )
}

/// The upload request for a serialized snapshot (after the configuration check).
pub fn upload_request(url: &str, user: &str, pass: &str, body: String) -> (r: Result<RequestSpec, String>)
    ensures
        r is Ok <==> trim_seq(url@).len() != 0,
        r matches Err(m) ==> m@ == missing_url_msg(),
        r matches Ok(req) ==> is_upload(req, url@, user@, pass@, body@),
{
    match check_config(url, user, pass) {
        Err(m) => Err(m),
        Ok(()) => {
            let ghost b = body@;
            let mut headers: Vec<(String, String)> = Vec::new();
            headers.push(header("Authorization", auth_header(user, pass)));
            headers.push(header("Content-Type", string_of("application/json")));
            proof {
                reveal_strlit("doit-snapshot.json");
            }
            let target = join_url(url, SYNC_FILE);
            let req = RequestSpec { method: string_of("PUT"), url: target, headers, body: Some(body) };
            assert(header_views(req.headers@) =~= seq![
                ("Authorization"@, auth_header_text(user@, pass@)),
                ("Content-Type"@, "application/json"@),
            ]);
            Ok(req)
        },
    }
}

/// The result of an upload with the given outcome.
pub open spec fn upload_result_spec(outcome: TransportOutcome) -> Result<Seq<char>, Seq<char>> {
    match outcome {
        TransportOutcome::Failed(m) => Err("上传失败："@ + transport_text(views(m@))),
        TransportOutcome::Status(s) => if is_success(s) {
            Ok(with_status("上传成功（HTTP "@, s))
        } else if s == 401 || s == 403 {
            Err(with_status("上传失败：认证失败，请检查用户名或密码（HTTP "@, s))
        } else {
            Err(with_status("上传失败（HTTP "@, s))
        },
    }
}

/// Turns the outcome of an upload into a readable result.
pub fn upload_result(outcome: TransportOutcome) -> (r: Result<String, String>)
    ensures
        result_view(r) == upload_result_spec(outcome),
{
    match outcome {
        TransportOutcome::Failed(m) => Err(prefixed("上传失败：", classify_transport(&m))),
        TransportOutcome::Status(s) => {
            if 200 <= s && s <= 299 {
                Ok(status_msg("上传成功（HTTP ", s))
            } else if s == 401 || s == 403 {
                Err(status_msg("上传失败：认证失败，请检查用户名或密码（HTTP ", s))
            } else {
                Err(status_msg("上传失败（HTTP ", s))
            }
        },
    }
}

/// The `GET` request that fetches `{url}/doit-snapshot.json`.
pub open spec fn is_download(r: RequestSpec, url: Seq<char>, user: Seq<char>, pass: Seq<char>) -> bool {
    is_request(
        r,
        "GET"@,
        join_url_text(url, "doit-snapshot.json"@),
        seq![("Authorization"@, auth_header_text(user, pass))],
        None,
    )
}

/// The download request for the snapshot (after the configuration check).
pub fn download_request(url: &str, user: &str, pass: &str) -> (r: Result<RequestSpec, String>)
    ensures
        r is Ok <==> trim_seq(url@).len() != 0,
        r matches Err(m) ==> m@ == missing_url_msg(),
        r matches Ok(req) ==> is_download(req, url@, user@, pass@),
{
    match check_config(url, user, pass) {
        Err(m) => Err(m),
        Ok(()) => {
            let mut headers: Vec<(String, String)> = Vec::new();
            headers.push(header("Authorization", auth_header(user, pass)));
            proof {
                reveal_strlit("doit-snapshot.json");
            }
            let target = join_url(url, SYNC_FILE);
            let req = RequestSpec { method: string_of("GET"), url: target, headers, body: None };
            assert(header_views(req.headers@) =~= seq![
                ("Authorization"@, auth_header_text(user@, pass@)),
            ]);
            Ok(req)
        },
    }
}

/// What a download with the given outcome gives: `Ok(true)` when there is a
/// body to read, `Ok(false)` when the cloud holds no backup yet (404), or
/// the error shown instead.
pub open spec fn download_status_spec(outcome: TransportOutcome) -> Result<bool, Seq<char>> {
    match outcome {
        TransportOutcome::Failed(m) => Err("下载失败："@ + transport_text(views(m@))),
        TransportOutcome::Status(s) => if s == 404 {
            Ok(false)
        } else if !is_success(s) {
            Err(with_status("下载失败（HTTP "@, s))
        } else {
            Ok(true)
        },
    }
}

/// Decides, from the outcome of a download, whether its body is to be read,
/// whether there is no cloud backup yet, or which error it is.
pub fn download_status(outcome: TransportOutcome) -> (r: Result<bool, String>)
    ensures
        match r {
            Ok(b) => download_status_spec(outcome) == Ok::<bool, Seq<char>>(b),
            Err(m) => download_status_spec(outcome) == Err::<bool, Seq<char>>(m@),
        },
{
    match outcome {
        TransportOutcome::Failed(m) => Err(prefixed("下载失败：", classify_transport(&m))),
        TransportOutcome::Status(s) => {
            if s == 404 {
                Ok(false)
            } else if !(200 <= s && s <= 299) {
                Err(status_msg("下载失败（HTTP ", s))
            } else {
                Ok(true)
            }
        },
    }
}

/// The current local time for snapshot stamps (ISO-8601 without time zone).
pub fn local_stamp() -> (r: String)
    ensures
        vstd::utf8::is_ascii_chars(r@),
        is_datetime_text(r@),
{
    now_iso()
}

/// The newer of the local data (last changed at `last`) and the cloud
/// snapshot: the local data when it changed after the snapshot was taken,
/// else the snapshot.
pub fn choose_authoritative(last: &str, local: SyncSnapshot, remote: SyncSnapshot) -> (r: SyncSnapshot)
    ensures
        text_lt(remote.exported_at@, last@) ==> r == local,
        !text_lt(remote.exported_at@, last@) ==> r == remote,
{
    if str_lt(remote.exported_at.as_str(), last) {
        local
    } else {
        remote
    }
}

} // verus!
