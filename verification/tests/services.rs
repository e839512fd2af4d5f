//! Services: how they are selected, shown, restarted and checked.
use salyut_admin::cli::{execute, Cli, ServiceCommand, TopCommand};
use salyut_admin::dialogue::{Dialogue, Stop};
use salyut_admin::request::{Reply, Request, Word};
use salyut_admin::services::{
    all, health, http_health, judge_response, restart, select, status, Service, HEALTH_TIMEOUT,
    RESPONSE_LIMIT,
};

fn owned(names: &[&str]) -> Vec<String> {
    names.iter().map(|name| (*name).to_owned()).collect()
}

fn exited(code: i32) -> Reply {
    Reply::Exited { code: Some(code), status: format!("exit status: {code}") }
}

fn trail(result: Result<(), Stop>) -> Vec<String> {
    match result {
        Err(Stop::Failed(failure)) => failure.trail,
        other => panic!("{other:?}"),
    }
}

fn command_line(request: &Request) -> String {
    match request {
        Request::Run { program, arguments } => {
            let mut line = program.clone();
            for argument in arguments {
                match argument {
                    Word::Text(text) => {
                        line.push(' ');
                        line.push_str(text);
                    }
                    Word::Raw(bytes) => panic!("{bytes:?}"),
                }
            }
            line
        }
        other => format!("{other:?}"),
    }
}

/// Carries an operation through. Units in `inactive` are not active, and the site
/// sends `response`.
fn play(
    operation: impl Fn(&mut Dialogue) -> Result<(), Stop>,
    inactive: &[&str],
    response: Option<&[u8]>,
) -> (Result<(), Stop>, Vec<Request>) {
    let mut replies = Vec::new();
    let mut asked = Vec::new();
    loop {
        match operation(&mut Dialogue::new(&replies)) {
            Err(Stop::Waiting(request)) => {
                replies.push(match &request {
                    Request::Run { .. } => {
                        let line = command_line(&request);
                        let down = inactive.iter().any(|name| {
                            line == format!("systemctl is-active --quiet {name}.service")
                        });
                        exited(if down { 3 } else { 0 })
                    }
                    Request::Connect { .. } if response.is_none() => Reply::Error {
                        not_found: false,
                        cause: "Connection refused".to_owned(),
                    },
                    Request::Receive { .. } => Reply::Bytes(response.unwrap().to_vec()),
                    _ => Reply::Done,
                });
                asked.push(request);
            }
            result => return (result, asked),
        }
    }
}

fn shown(asked: &[Request]) -> Vec<String> {
    let mut lines = Vec::new();
    for request in asked {
        match request {
            Request::Print { line } | Request::PrintError { line } => lines.push(line.clone()),
            _ => {}
        }
    }
    lines
}

#[test]
fn the_managed_services_are_these() {
    let names: Vec<&str> = all().iter().map(|service| service.name).collect();
    assert_eq!(names, ["salyut-site", "salyut-bbsd", "postfix", "dovecot", "caddy"]);
    assert_eq!(all()[0].http_health, Some(("127.0.0.1:8082", "/healthz")));
    assert!(all()[1..].iter().all(|service| service.http_health.is_none()));
    assert_eq!(Service::systemd("caddy", None).unit(), "caddy.service");
}

#[test]
fn names_select_services_in_turn() {
    let selected = select(&owned(&["caddy", "postfix", "caddy"])).unwrap();
    let names: Vec<&str> = selected.iter().map(|service| service.name).collect();
    assert_eq!(names, ["caddy", "postfix", "caddy"]);
    match select(&owned(&["caddy", "sshd", "nginx"])) {
        Err(failure) => assert_eq!(failure.trail, ["unknown managed service: sshd"]),
        Ok(_) => panic!(),
    }
}

#[test]
fn status_shows_the_named_units() {
    let services = select(&owned(&["postfix", "caddy"])).unwrap();
    let (result, asked) = play(|dialogue| status(dialogue, &services), &[], None);
    result.unwrap();
    assert_eq!(asked.len(), 1);
    assert_eq!(
        command_line(&asked[0]),
        "systemctl show --no-pager --property=Id,LoadState,ActiveState,SubState \
         postfix.service caddy.service"
    );
}

#[test]
fn restart_names_the_units() {
    let services = select(&owned(&["postfix", "caddy"])).unwrap();
    let none = Vec::new();
    match restart(&mut Dialogue::new(&none), &services) {
        Err(Stop::Waiting(request)) => {
            assert_eq!(command_line(&request), "systemctl restart postfix.service caddy.service")
        }
        other => panic!("{other:?}"),
    }
    let failed = vec![exited(5)];
    let result = restart(&mut Dialogue::new(&failed), &services);
    assert_eq!(trail(result), ["systemctl failed with exit status: 5"]);
}

#[test]
fn healthy_services_are_reported() {
    let services = all();
    let (result, asked) =
        play(|dialogue| health(dialogue, &services), &[], Some(b"HTTP/1.1 200 OK\r\n\r\n"));
    result.unwrap();
    assert_eq!(
        shown(&asked),
        [
            "ok   salyut-site: active, HTTP healthy",
            "ok   salyut-bbsd: active",
            "ok   postfix: active",
            "ok   dovecot: active",
            "ok   caddy: active",
        ]
    );
    assert!(asked.contains(&Request::ParseAddress { address: "127.0.0.1:8082".to_owned() }));
    assert!(asked.contains(&Request::Connect { seconds: 3 }));
    assert!(asked.contains(&Request::Send {
        text: "GET /healthz HTTP/1.1\r\nHost: localhost\r\nConnection: close\r\n\r\n".to_owned(),
    }));
    assert!(asked.contains(&Request::Receive { limit: 16384 }));
    assert_eq!((HEALTH_TIMEOUT, RESPONSE_LIMIT), (3, 16384));
}

#[test]
fn every_service_is_checked_and_the_unhealthy_are_named() {
    let services = all();
    let (result, asked) =
        play(|dialogue| health(dialogue, &services), &["postfix", "caddy"], None);
    assert_eq!(trail(result), ["health check failed: salyut-site, postfix, caddy"]);
    assert_eq!(
        shown(&asked),
        [
            "FAIL salyut-site: connect to http://127.0.0.1:8082/healthz: Connection refused",
            "ok   salyut-bbsd: active",
            "FAIL postfix: systemd unit is not active",
            "ok   dovecot: active",
            "FAIL caddy: systemd unit is not active",
        ]
    );
    assert!(matches!(asked.last(), Some(Request::PrintError { .. })));
}

#[test]
fn an_inactive_service_is_not_asked_over_http() {
    let services = all();
    let (result, asked) = play(|dialogue| health(dialogue, &services[..1]), &["salyut-site"], None);
    assert_eq!(trail(result), ["health check failed: salyut-site"]);
    assert_eq!(asked.len(), 2);
}

#[test]
fn a_check_that_cannot_be_made_ends_the_health_check() {
    let services = all();
    let replies =
        vec![Reply::Error { not_found: true, cause: "No such file or directory".to_owned() }];
    let result = health(&mut Dialogue::new(&replies), &services);
    assert_eq!(trail(result), ["check salyut-site.service", "No such file or directory"]);
}

#[test]
fn responses_are_judged_by_their_first_line() {
    for good in [
        "HTTP/1.1 200 OK\r\nContent-Length: 0\r\n\r\n",
        "HTTP/1.0 200 \r\n",
        "HTTP/1.1 200 OK",
        "HTTP/1.1 200 OK\nHTTP/1.1 500",
    ] {
        assert_eq!(judge_response("a", "/p", good), Ok(()), "{good:?}");
    }
    for (bad, quoted) in [
        ("", "\"\""),
        ("\nHTTP/1.1 200 OK", "\"\""),
        ("HTTP/1.1 200\r\n", "\"HTTP/1.1 200\""),
        ("HTTP/1.1 503 \"Busy\"\r\nx", "\"HTTP/1.1 503 \\\"Busy\\\"\""),
        ("HTTP/2 200 OK", "\"HTTP/2 200 OK\""),
        (" HTTP/1.1 200 OK", "\" HTTP/1.1 200 OK\""),
        ("a\rb\r\n", "\"a\\rb\""),
    ] {
        match judge_response("127.0.0.1:1", "/p", bad) {
            Err(failure) => {
                assert_eq!(failure.trail, [format!("http://127.0.0.1:1/p returned {quoted}")])
            }
            Ok(()) => panic!("{bad:?}"),
        }
    }
}

#[test]
fn responses_need_not_be_text() {
    let services = all();
    let (result, asked) =
        play(|dialogue| health(dialogue, &services[..1]), &[], Some(b"HTTP/1.1 200 \xff\r\n"));
    result.unwrap();
    assert_eq!(asked.len(), 8);
    let (_, asked) = play(|dialogue| health(dialogue, &services[..1]), &[], Some(b"\xff\r\n"));
    assert_eq!(
        shown(&asked),
        ["FAIL salyut-site: http://127.0.0.1:8082/healthz returned \"\u{fffd}\""]
    );
}

#[test]
fn every_step_of_an_http_check_can_fail() {
    let messages = [
        "parse health address a",
        "connect to http://a/p",
        "set health read timeout",
        "set health write timeout",
        "write health request",
        "read health response",
    ];
    for (step, message) in messages.iter().enumerate() {
        let mut replies = Vec::new();
        for _ in 0..step {
            replies.push(Reply::Done);
        }
        replies.push(Reply::Error { not_found: false, cause: "x".to_owned() });
        let result = http_health(&mut Dialogue::new(&replies), "a", "/p");
        assert_eq!(trail(result), [*message, "x"]);
    }
}

#[test]
fn commands_about_services_reach_their_operations() {
    let run = |command: ServiceCommand| {
        let cli = Cli { command: TopCommand::Services { command } };
        play(|dialogue| execute(dialogue, &cli), &[], Some(b"HTTP/1.1 200 OK"))
    };
    let (result, asked) = run(ServiceCommand::Status { services: Vec::new() });
    result.unwrap();
    assert!(command_line(&asked[0]).ends_with(
        "salyut-site.service salyut-bbsd.service postfix.service dovecot.service caddy.service"
    ));
    let (result, asked) = run(ServiceCommand::Health { services: owned(&["caddy"]) });
    result.unwrap();
    assert_eq!(asked.len(), 2);
    let (result, asked) = run(ServiceCommand::Restart { services: owned(&["caddy", "dovecot"]) });
    result.unwrap();
    let lines: Vec<String> = asked.iter().map(command_line).collect();
    assert_eq!(lines[0], "systemctl restart caddy.service dovecot.service");
    assert_eq!(lines[1], "systemctl is-active --quiet caddy.service");
    assert_eq!(lines[3], "systemctl is-active --quiet dovecot.service");
    for command in [
        ServiceCommand::Status { services: owned(&["sshd"]) },
        ServiceCommand::Health { services: owned(&["caddy", "sshd"]) },
        ServiceCommand::Restart { services: owned(&["sshd"]) },
    ] {
        let (result, asked) = run(command);
        assert_eq!(trail(result), ["unknown managed service: sshd"]);
        assert_eq!(asked, []);
    }
}

#[test]
fn a_restart_that_fails_is_not_followed_by_a_check() {
    let cli = Cli {
        command: TopCommand::Services {
            command: ServiceCommand::Restart { services: owned(&["caddy"]) },
        },
    };
    let replies = vec![exited(1)];
    let result = execute(&mut Dialogue::new(&replies), &cli);
    assert_eq!(trail(result), ["systemctl failed with exit status: 1"]);
}
