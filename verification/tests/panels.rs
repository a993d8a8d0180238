//! The small panels: palette, demo, hello, JSON, regex, requests and devices.

use pocketdeck::color::Color;
use pocketdeck::demo::{
    default_theme, host_name, severity, Demo, DemoStyle, Severity, HISTORY_CAP, HOST_COUNT,
};
use pocketdeck::hello::{Hello, Recall};
use pocketdeck::json::{
    scalar_display, summary, tell_fault, tree_row, JsonViewer, Node, Scalar, TreeRow,
};
use pocketdeck::net::calendar::{human_age, parse_rfc3339_to_unix};
use pocketdeck::net::devices::{default_user, Device, Devices, Fetch, Settings};
use pocketdeck::net::http::{
    render_body, status_class, HttpClient, HttpResponse, PollReply, Request, Response, SendReply,
    StatusClass,
};
use pocketdeck::palette::{cell_paints, color_to_paint, fit, indexed, split_rgb};
use pocketdeck::regexp::{copy_matches, highlight, show_matches, tell_count, RegexTester};

#[test]
fn palette_maps_colours() {
    let plain = (1, 2, 3);
    assert_eq!(color_to_paint(Color::Reset, true, plain), Some(plain));
    assert_eq!(color_to_paint(Color::Reset, false, plain), None);
    assert_eq!(color_to_paint(Color::LightCyan, false, plain), Some((130, 230, 240)));
    assert_eq!(color_to_paint(Color::Rgb(9, 8, 7), true, plain), Some((9, 8, 7)));
    assert_eq!(color_to_paint(Color::Indexed(16), true, plain), Some((0, 0, 0)));
    assert_eq!(indexed(12), (92, 92, 255));
    assert_eq!(indexed(231), (255, 255, 255));
    assert_eq!(indexed(208), (255, 135, 0));
    assert_eq!(indexed(232), (8, 8, 8));
    assert_eq!(indexed(255), (238, 238, 238));
    assert_eq!(split_rgb(0xff1493), (255, 20, 147));
    assert_eq!(cell_paints(None, Some(plain), true), (Some(plain), Some((211, 211, 211))));
    assert_eq!(cell_paints(Some(plain), None, false), (Some(plain), None));
    assert_eq!((fit(5, 20, 400), fit(30, 20, 400), fit(999, 20, 400)), (20, 30, 400));
}

#[test]
fn demo_selection_goes_round_and_history_is_bounded() {
    let mut d = Demo::new();
    d.select(false);
    assert_eq!(host_name(d.selected), "builds.local");
    d.select(true);
    assert_eq!(d.selected, 0);
    for i in 0..HOST_COUNT {
        d.selected = i;
        d.select(true);
        d.select(false);
        assert_eq!(d.selected, i);
    }
    for i in 0..200u64 {
        d.sample(i);
        assert!(d.history.len() <= HISTORY_CAP);
    }
    assert_eq!((d.history[0], *d.history.last().unwrap()), (72, 199));
    let t = default_theme();
    assert_eq!(t.border(true), DemoStyle { fg: t.accent, bg: None, bold: false });
    assert_eq!(t.border(false).fg, 0x585b70);
    assert_eq!(t.title(), DemoStyle { fg: 0xff1493, bg: None, bold: true });
    assert_eq!(t.menu_highlight().bg, Some(0x313244));
    assert_eq!(t.load(severity(true, true)), t.error);
    assert_eq!(severity(true, false), Severity::Busy);
    assert_eq!(severity(false, false), Severity::Calm);
}

#[test]
fn hello_restores_what_it_kept() {
    let mut h = Hello::new("ipad");
    assert_eq!(h.status, "created on host \"ipad\"");
    h.count = 0x01020304;
    h.tap();
    h.note = "héllo".to_string();
    let bytes = h.save_state();
    assert_eq!(bytes[..4], [5, 3, 2, 1]);
    let mut g = Hello::new("x");
    g.restore_state(&bytes);
    assert_eq!((g.count, g.note.as_str()), (0x01020305, "héllo"));
    assert_eq!(g.status, "state restored across hot reload");
    g.restore_state(&[1, 2, 3]);
    assert_eq!(g.count, 0x01020305);
    g.recalled(Recall::Found(vec![b'a', 0xff]));
    assert_eq!((g.note.as_str(), g.status.as_str()), ("a\u{fffd}", "note recalled"));
    g.recalled(Recall::Missing);
    assert_eq!(g.status, "no note stored yet");
    g.recalled(Recall::Failed("x".to_string()));
    assert_eq!(g.status, "state.get failed: x");
    g.persisted(None);
    assert_eq!(g.status, "note persisted");
    g.persisted(Some("full".to_string()));
    assert_eq!(g.status, "state.set failed: full");
    g.on_host_event("wake", b"now");
    assert_eq!(g.status, "host event wake: now");
}

#[test]
fn json_is_checked_and_reformatted() {
    let mut j = JsonViewer::new();
    assert_eq!(j.verdict(), (true, "✓ valid JSON".to_string()));
    j.minify();
    assert!(!j.input.contains('\n') && j.input.starts_with("{\"limits\""), "{}", j.input);
    assert!(j.formatted().unwrap().contains("\n  \"name\": \"egui-ios\""));
    j.input = "[1,\n 2".to_string();
    let (valid, said) = j.verdict();
    assert!(!valid && said.starts_with("✗ line 2, col 2: "), "{said}");
    assert_eq!(j.formatted(), None);
    j.minify();
    assert_eq!(j.input, "[1,\n 2");
    j.take_compact(Some("[]".to_string()));
    assert_eq!(j.input, "[]");
    assert_eq!(tell_fault(Some((3, 4, "why".to_string()))), "✗ line 3, col 4: why");
    assert_eq!(summary("root", 2, true), "root  {2}");
    assert_eq!(summary("k", 0, false), "k  [0]");
    assert_eq!(scalar_display(&Scalar::Text("a".to_string())), ("\"a\"".to_string(), (166, 227, 161)));
    assert_eq!(scalar_display(&Scalar::Number("1.5".to_string())).0, "1.5");
    assert_eq!(scalar_display(&Scalar::Bool(false)).0, "false");
    assert_eq!(scalar_display(&Scalar::Null), ("null".to_string(), (127, 132, 156)));
}

/// Each row on a line of its own, under its parent.
fn outline(row: &TreeRow, depth: usize, out: &mut Vec<String>) {
    let value = row.value.as_ref().map(|v| format!(" {}", v.0)).unwrap_or_default();
    let mark = if row.open { "+" } else { "" };
    out.push(format!("{}{}{}{}", " ".repeat(depth), mark, row.label, value));
    for r in &row.rows {
        outline(r, depth + 1, out);
    }
}

#[test]
fn regex_groups_are_at_the_ranges() {
    let mut t = RegexTester::new();
    for (pattern, text) in [
        (r"(\w+)@(\w+)", "a@b é@ü c@d"),
        ("x*", "axxé"),
        ("", "aé"),
        ("(?P<y>b)|a", "abc"),
        ("q", "abc"),
    ] {
        t.pattern = pattern.to_string();
        t.text = text.to_string();
        let ranges = t.ranges();
        let whole: Vec<String> = t.breakdown().into_iter().map(|r| r.whole).collect();
        let at: Vec<&str> = ranges.iter().map(|&(a, b)| &text[a..b]).collect();
        assert_eq!(whole, at, "{pattern}");
        assert_eq!(t.groups().len(), ranges.len());
    }
}

#[test]
fn json_browses_as_a_tree() {
    let mut v = JsonViewer::new();
    let mut lines = Vec::new();
    outline(&v.tree().unwrap(), 0, &mut lines);
    assert_eq!(
        lines,
        [
            "+root  {5}",
            " limits  {2}",
            "  jit: null",
            "  memory_mb: 256",
            " name: \"egui-ios\"",
            " plugins  [3]",
            "  0: \"terminal\"",
            "  1: \"regex\"",
            "  2: \"json\"",
            " version: 0.35",
            " wasm: true",
        ],
    );
    assert_eq!(v.tree().unwrap().rows[4].value, Some(("true".to_string(), (137, 180, 250))));
    v.input = "[1,".to_string();
    assert!(v.tree().is_none());
    v.input = " -7.50 ".to_string();
    let root = v.tree().unwrap();
    assert_eq!((root.label.as_str(), root.value.unwrap().0.as_str()), ("root:", "-7.5"));
    let node = Node::Array(vec![
        Node::Object(vec![("k".to_string(), Node::Leaf(Scalar::Null))]),
        Node::Array(Vec::new()),
    ]);
    let mut lines = Vec::new();
    outline(&tree_row(&node, "x", false), 0, &mut lines);
    assert_eq!(lines, ["x  [2]", " 0  {1}", "  k: null", " 1  [0]"]);
}

#[test]
fn regex_marks_matches_and_breaks_them_down() {
    let mut t = RegexTester::new();
    assert_eq!(t.build(), None);
    let ranges = t.ranges();
    assert_eq!(ranges, [(8, 25), (29, 41)]);
    let segs = highlight(&t.text, &ranges);
    assert_eq!(segs, [(0, 8, false), (8, 25, true), (25, 29, false), (29, 41, true), (41, 53, false)]);
    let rows = t.breakdown();
    assert_eq!(rows.len(), 2);
    assert_eq!((rows[1].number.as_str(), rows[1].whole.as_str()), ("2.", "bob@test.org"));
    let groups: Vec<(&str, &str)> = rows[0].groups.iter().map(|g| (g.label.as_str(), g.text.as_str())).collect();
    assert_eq!(groups, [("$1:", "alice"), ("$2:", "example.com")]);
    assert_eq!(copy_matches(&t.groups()), "alice@example.com\nbob@test.org");
    t.pattern = "(?P<who>A+)|(b)".to_string();
    t.text = "aAx b".to_string();
    assert_eq!(t.ranges(), [(1, 2), (4, 5)]);
    t.case_insensitive = true;
    assert_eq!(t.ranges(), [(0, 2), (4, 5)]);
    let rows = t.breakdown();
    assert_eq!((rows[0].groups[0].label.as_str(), rows[1].groups[0].label.as_str()), ("$who:", "$2:"));
    t.pattern = "^.b.$".to_string();
    t.text = "a\nb\nc".to_string();
    assert!(t.ranges().is_empty());
    t.dot_all = true;
    assert_eq!(t.ranges(), []);
    t.pattern = "^b$".to_string();
    t.multiline = true;
    assert_eq!(t.ranges(), [(2, 3)]);
    t.pattern = "(".to_string();
    assert!(t.build().is_some());
    assert!(t.ranges().is_empty() && t.breakdown().is_empty());
    assert_eq!(tell_count(1), "✓ 1 match");
    assert_eq!(tell_count(0), "✓ 0 matches");
    assert!(show_matches(&Vec::new(), &Vec::new()).is_empty());
}

#[test]
fn regex_highlight_skips_stale_ranges() {
    let stale = vec![(2, 1), (0, 1), (0, 3), (3, 4), (4, 99), (4, 5)];
    // "é" is two bytes: a range that cuts it is left out.
    let segs = highlight("a\u{e9}bcd", &stale);
    assert_eq!(segs, [(0, 1, true), (1, 3, false), (3, 4, true), (4, 5, true), (5, 6, false)]);
    assert_eq!(highlight("a\u{e9}", &vec![(1, 2)]), [(0, 3, false)]);
    assert_eq!(highlight("", &vec![(0, 0)]), [(0, 0, true)]);
    assert_eq!(highlight("", &Vec::new()), []);
}

#[test]
fn http_request_goes_out_clean() {
    let mut c = HttpClient::new();
    c.req.url = "  https://x.test/ ".to_string();
    c.req.add_header();
    c.req.headers.push(("  ".to_string(), "v".to_string()));
    c.req.headers.push(("X".to_string(), " 1".to_string()));
    c.req.body = "é".to_string();
    let out = c.req.outgoing();
    assert_eq!(out.url, "https://x.test/");
    assert_eq!(out.headers, [("Accept".to_string(), "*/*".to_string()), ("X".to_string(), " 1".to_string())]);
    assert_eq!((out.body.as_slice(), out.timeout_ms), ("é".as_bytes(), 0));
    c.req.remove_header(0);
    assert_eq!(c.req.headers[0], (String::new(), String::new()));
    assert!(!c.req.has_body());
    c.req.method = "POST".to_string();
    assert!(c.req.has_body());
    assert_eq!(Request::default().url, "https://api.github.com/zen");
}

#[test]
fn http_follows_a_request() {
    let mut c = HttpClient::new();
    let failed = |c: &HttpClient| match &c.resp {
        Response::Failed(e) => e.clone(),
        _ => panic!(),
    };
    c.poll(PollReply::Unreadable);
    assert!(matches!(c.resp, Response::Idle));
    assert!(!c.sent(SendReply::BadId));
    assert_eq!(failed(&c), "host returned a bad request id");
    assert!(!c.sent(SendReply::Failed("no".to_string())));
    assert_eq!(failed(&c), "no");
    assert!(c.sent(SendReply::Accepted(5)));
    assert_eq!(c.pending(), Some(5));
    c.poll(PollReply::Pending);
    assert_eq!(c.pending(), Some(5));
    c.poll(PollReply::Unreadable);
    assert_eq!(failed(&c), "bad poll response");
    c.sent(SendReply::Accepted(6));
    c.poll(PollReply::Error("x".to_string()));
    assert_eq!(failed(&c), "x");
    c.sent(SendReply::Accepted(6));
    c.poll(PollReply::Failed("gone".to_string()));
    assert_eq!(failed(&c), "gone");
    c.sent(SendReply::Accepted(7));
    c.poll(PollReply::Done(HttpResponse { status: 204, headers: Vec::new(), body: Vec::new() }));
    match &c.resp {
        Response::Done(r) => assert_eq!(r.status, 204),
        _ => panic!(),
    }
    assert_eq!(status_class(299), StatusClass::Success);
    assert_eq!(status_class(301), StatusClass::Redirect);
    assert_eq!(status_class(404), StatusClass::Failure);
    assert_eq!(status_class(199), StatusClass::Failure);
}

#[test]
fn http_body_is_laid_out_when_json() {
    assert_eq!(render_body(b"{\"a\":[1]}"), ("{\n  \"a\": [\n    1\n  ]\n}".to_string(), true));
    assert_eq!(render_body(b"plain"), ("plain".to_string(), false));
    assert_eq!(render_body(&[b'x', 0xff]), ("x\u{fffd}".to_string(), false));
}

fn device(name: &str, hostname: &str, addresses: &[&str]) -> Device {
    Device {
        name: name.to_string(),
        hostname: hostname.to_string(),
        os: "linux".to_string(),
        addresses: addresses.iter().map(|a| a.to_string()).collect(),
        last_seen: "2024-02-29T12:00:00Z".to_string(),
    }
}

#[test]
fn devices_are_listed_in_name_order() {
    let mut d = Devices::new();
    let found = vec![
        device("zeta.ts.net", "", &[]),
        device("", "alpha.local", &["fd7a::1", "100.64.0.1", "100.64.0.2"]),
        device("Mid", "x", &["10.0.0.1"]),
        device("alpha", "second", &[]),
    ];
    d.apply_response(200, b"", Ok(found));
    let names: Vec<String> = d.devices.iter().map(|x| x.short_name()).collect();
    assert_eq!(names, ["Mid", "alpha", "alpha", "zeta"]);
    assert_eq!(d.devices[1].hostname, "alpha.local");
    assert_eq!(d.devices[1].tailscale_ip(), Some("100.64.0.1"));
    assert_eq!(d.devices[0].tailscale_ip(), None);
    assert!(matches!(d.fetch, Fetch::Idle));
    let seen = parse_rfc3339_to_unix("2024-02-29T12:00:00Z").unwrap();
    assert_eq!(d.devices[0].online(seen + 300), Some(true));
    assert_eq!(d.devices[0].online(seen + 301), Some(false));
    d.devices[0].last_seen = "never".to_string();
    assert_eq!(d.devices[0].online(seen), None);
}

#[test]
fn devices_fetch_and_its_errors() {
    let mut d = Devices::new();
    let why = |d: &Devices| match &d.fetch {
        Fetch::Failed(e) => e.clone(),
        _ => panic!(),
    };
    assert!(d.refresh().is_none());
    assert_eq!(why(&d), "set a Tailscale API key in settings");
    d.take_settings(None);
    assert!(d.loaded && d.show_settings);
    d.take_settings(Some(Settings { api_key: "k".to_string(), tailnet: String::new(), ssh_user: String::new() }));
    assert_eq!(d.settings.api_key, "", "settings are taken once");
    d.settings.api_key = " key ".to_string();
    let q = d.refresh().unwrap();
    assert_eq!(q.url, "https://api.tailscale.com/api/v2/tailnet/-/devices");
    assert_eq!(q.headers[0], ("Authorization".to_string(), "Bearer key".to_string()));
    assert_eq!((q.method.as_str(), q.timeout_ms), ("GET", 20_000));
    d.settings.tailnet = " example.com ".to_string();
    assert_eq!(d.refresh().unwrap().url, "https://api.tailscale.com/api/v2/tailnet/example.com/devices");
    d.started(Ok(Some(3)));
    assert!(matches!(d.fetch, Fetch::Pending(3)));
    d.started(Ok(None));
    assert_eq!(why(&d), "host returned a bad request id");
    d.started(Err("down".to_string()));
    assert_eq!(why(&d), "down");
    d.apply_response(403, b"", Ok(Vec::new()));
    assert_eq!(why(&d), "auth rejected (HTTP 403); check the API key");
    d.apply_response(500, "é".repeat(200).as_bytes(), Ok(Vec::new()));
    assert_eq!(why(&d), format!("HTTP 500: {}", "é".repeat(120)));
    d.apply_response(200, b"", Err("eof".to_string()));
    assert_eq!(why(&d), "parsing devices: eof");
    d.fail("poll failed".to_string());
    assert_eq!(why(&d), "poll failed");
    assert_eq!((default_user("  "), default_user(" bob ")), ("root".to_string(), "bob".to_string()));
}

#[test]
fn devices_tell_when_they_were_seen() {
    let mut d = Device {
        name: String::new(),
        hostname: String::new(),
        os: String::new(),
        addresses: Vec::new(),
        last_seen: "1970-01-01T00:01:00Z".to_string(),
    };
    assert_eq!(d.seen(60 + 7200).unwrap(), "seen 2h ago");
    assert_eq!(d.seen(59).unwrap(), "seen just now");
    assert_eq!(d.seen(i64::MIN).unwrap(), "seen just now");
    d.last_seen = "1970".to_string();
    assert!(d.seen(60).is_none());
    let r = HttpResponse { status: 200, headers: Vec::new(), body: b"a\xffb".to_vec() };
    assert_eq!(r.body_text(), "a\u{fffd}b");
}

#[test]
fn timestamps_follow_the_calendar() {
    assert_eq!(parse_rfc3339_to_unix("1970-01-01T00:00:00Z"), Some(0));
    assert_eq!(parse_rfc3339_to_unix("2000-03-01T00:00:00Z"), Some(951868800));
    assert_eq!(parse_rfc3339_to_unix("2024-02-29T12:34:56.789Z"), Some(1709210096));
    assert_eq!(parse_rfc3339_to_unix("1969-12-31T23:59:59"), Some(-1));
    assert_eq!(parse_rfc3339_to_unix("0000-03-01T00:00:00"), Some(-719468 * 86400));
    assert_eq!(parse_rfc3339_to_unix("0400-03-01T00:00:00"), Some((-719468 + 146097) * 86400));
    let day = |s: &str| parse_rfc3339_to_unix(s).unwrap() / 86400;
    assert_eq!(day("2023-03-01T00:00:00Z") - day("2023-02-01T00:00:00Z"), 28);
    assert_eq!(day("2024-03-01T00:00:00Z") - day("2024-02-01T00:00:00Z"), 29);
    assert_eq!(day("2100-03-01T00:00:00Z") - day("2100-02-01T00:00:00Z"), 28);
    assert_eq!(day("2025-01-01T00:00:00Z") - day("2024-12-01T00:00:00Z"), 31);
    for bad in ["", "2024-02-29", "2024-13-01T00:00:00Z", "2024-00-01T00:00:00Z", "2024-01-32T00:00:00Z",
        "20x4-01-01T00:00:00Z", "2024-01-01T0\u{e9}:00:00Z", "2024-01-01T--:00:00Z",
        "2024/01/01 00:00:00", "2024-01-01 00:00:00", "2024-01-01T00.00:00", "2024-01-01T00:00-00",
        "2024-01/01T00:00:00", "-400-03-01T00:00:00", "2024-+1-01T00:00:00Z", "2024-01-01T+1:00:00Z"] {
        assert_eq!(parse_rfc3339_to_unix(bad), None, "{bad}");
    }
    for (secs, said) in [(-5, "just now"), (0, "0s ago"), (59, "59s ago"), (60, "1m ago"), (3599, "59m ago"),
        (3600, "1h ago"), (86399, "23h ago"), (86400, "1d ago"), (10 * 86400, "10d ago")] {
        assert_eq!(human_age(secs), said);
    }
}
