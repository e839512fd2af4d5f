//! The services of the machine: which there are, their state, and their health.
use vstd::prelude::*;

use crate::dialogue::{Dialogue, Stop};
use crate::encoding;
use crate::failure::Failure;
use crate::process;
use crate::request::{Reply, ReplyView, Request, RequestView, Word, WordView};
use crate::script::{Ending, Script, Trail};
use crate::text;

verus! {

/// A managed service: its name and, where it answers over HTTP, the address and
/// the path at which it tells of its health.
#[derive(Clone, Copy)]
pub struct Service {
    pub name: &'static str,
    pub http_health: Option<(&'static str, &'static str)>,
}

/// What a [`Service`] stands for.
pub struct ServiceView {
    pub name: Seq<char>,
    pub http_health: Option<(Seq<char>, Seq<char>)>,
}

impl DeepView for Service {
    type V = ServiceView;

    open spec fn deep_view(&self) -> ServiceView {
        ServiceView { name: self.name@, http_health: self.http_health.deep_view() }
    }
}

impl ServiceView {
    /// The unit under which the service runs.
    pub open spec fn unit(self) -> Seq<char> {
        self.name + ".service"@
    }
}

impl Service {
    /// The service of this name.
    pub fn systemd(
        name: &'static str,
        http_health: Option<(&'static str, &'static str)>,
    ) -> (service: Service)
        ensures
            service.name == name,
            service.http_health == http_health,
    {
        Service { name, http_health }
    }

    /// The unit under which the service runs.
    pub fn unit(self) -> (unit: String)
        ensures
            unit@ == self.deep_view().unit(),
    {
        self.name.to_owned().concat(".service")
    }
}

/// The managed services.
pub open spec fn managed() -> Seq<ServiceView> {
    seq![
        ServiceView {
            name: "salyut-site"@,
            http_health: Some(("127.0.0.1:8082"@, "/healthz"@)),
        },
        ServiceView { name: "salyut-bbsd"@, http_health: None },
        ServiceView { name: "postfix"@, http_health: None },
        ServiceView { name: "dovecot"@, http_health: None },
        ServiceView { name: "caddy"@, http_health: None },
    ]
}

/// All managed services.
pub fn all() -> (services: Vec<Service>)
    ensures
        services.deep_view() == managed(),
{
    let services = vec![
        Service::systemd("salyut-site", Some(("127.0.0.1:8082", "/healthz"))),
        Service::systemd("salyut-bbsd", None),
        Service::systemd("postfix", None),
        Service::systemd("dovecot", None),
        Service::systemd("caddy", None),
    ];
    assert(services.deep_view() =~= managed());
    services
}

/// The first of some services that has a name.
pub open spec fn named(services: Seq<ServiceView>, name: Seq<char>) -> Option<ServiceView>
    decreases services.len(),
{
    if services.len() == 0 {
        None
    } else if services[0].name == name {
        Some(services[0])
    } else {
        named(services.drop_first(), name)
    }
}

/// The managed services that have the names, after those already chosen, or what
/// is wrong with the first name that none of them has.
pub open spec fn chosen_by_name(names: Seq<Seq<char>>, chosen: Seq<ServiceView>) -> Result<
    Seq<ServiceView>,
    Trail,
>
    decreases names.len(),
{
    if names.len() == 0 {
        Ok(chosen)
    } else {
        match named(managed(), names[0]) {
            Some(service) => chosen_by_name(names.drop_first(), chosen.push(service)),
            None => Err(seq!["unknown managed service: "@ + names[0]]),
        }
    }
}

/// The services that some names select: all managed ones if there are no names,
/// else those that have the names.
pub open spec fn selection(names: Seq<Seq<char>>) -> Result<Seq<ServiceView>, Trail> {
    if names.len() == 0 {
        Ok(managed())
    } else {
        chosen_by_name(names, seq![])
    }
}

fn find(services: &Vec<Service>, name: &str) -> (service: Option<Service>)
    ensures
        service.deep_view() == named(services.deep_view(), name@),
{
    let ghost views = services.deep_view();
    let mut i: usize = 0;
    assert(views.skip(0) =~= views);
    while i < services.len()
        invariant
            i <= services.len(),
            views == services.deep_view(),
            named(views, name@) == named(views.skip(i as int), name@),
        decreases services.len() - i,
    {
        let service = services[i];
        assert(views.skip(i as int)[0] == service.deep_view());
        if text::same_text(service.name, name) {
            return Some(service);
        }
        assert(views.skip(i as int).drop_first() =~= views.skip(i + 1));
        i = i + 1;
    }
    None
}

/// Selects services by name, or all of them.
pub fn select(names: &[String]) -> (services: Result<Vec<Service>, Failure>)
    ensures
        match services {
            Ok(services) => selection(names.deep_view()) == Ok::<Seq<ServiceView>, Trail>(
                services.deep_view(),
            ),
            Err(failure) => selection(names.deep_view()) == Err::<Seq<ServiceView>, Trail>(
                failure@,
            ),
        },
{
    let all = all();
    if names.len() == 0 {
        return Ok(all);
    }
    let ghost views = names.deep_view();
    let mut services: Vec<Service> = Vec::new();
    let mut i: usize = 0;
    assert(views.skip(0) =~= views);
    assert(services.deep_view() =~= seq![]);
    while i < names.len()
        invariant
            i <= names.len(),
            views == names.deep_view(),
            all.deep_view() == managed(),
            chosen_by_name(views, seq![]) == chosen_by_name(
                views.skip(i as int),
                services.deep_view(),
            ),
        decreases names.len() - i,
    {
        let name = names[i].as_str();
        let ghost before = services.deep_view();
        assert(views.skip(i as int)[0] == name@);
        assert(views.skip(i as int).drop_first() =~= views.skip(i + 1));
        match find(&all, name) {
            Some(service) => {
                services.push(service);
                assert(services.deep_view() =~= before.push(service.deep_view()));
            },
            None => {
                return Err(Failure::new("unknown managed service: ".to_owned().concat(name)));
            },
        }
        i = i + 1;
    }
    Ok(services)
}

/// The units of some services, as arguments.
pub open spec fn units(services: Seq<ServiceView>) -> Seq<WordView> {
    services.map_values(|service: ServiceView| WordView::Text(service.unit()))
}

fn append_units(arguments: &mut Vec<Word>, services: &[Service])
    ensures
        final(arguments).deep_view() == old(arguments).deep_view() + units(services.deep_view()),
{
    let ghost before = arguments.deep_view();
    let ghost words = units(services.deep_view());
    let mut i: usize = 0;
    assert(before + words.take(0) =~= before);
    while i < services.len()
        invariant
            i <= services.len(),
            words == units(services.deep_view()),
            arguments.deep_view() == before + words.take(i as int),
        decreases services.len() - i,
    {
        let ghost now = arguments.deep_view();
        let word = Word::Text(services[i].unit());
        arguments.push(word);
        assert(arguments.deep_view() =~= now.push(word.deep_view()));
        assert(word.deep_view() == words[i as int]);
        assert(before + words.take(i + 1) =~= (before + words.take(i as int)).push(
            words[i as int],
        ));
        i = i + 1;
    }
    assert(words.take(i as int) =~= words);
}

/// What [`status`] does.
pub open spec fn status_script(services: Seq<ServiceView>) -> Script<()> {
    process::run_script(
        "systemctl"@,
        seq![
            WordView::Text("show"@),
            WordView::Text("--no-pager"@),
            WordView::Text("--property=Id,LoadState,ActiveState,SubState"@),
        ] + units(services),
    )
}

/// Shows the state of services.
pub fn status(dialogue: &mut Dialogue, services: &[Service]) -> (result: Result<(), Stop>)
    ensures
        final(dialogue).tells(result) == status_script(services.deep_view()).play(
            old(dialogue).pending(),
        ),
{
    let mut arguments = vec![
        Word::Text("show".to_owned()),
        Word::Text("--no-pager".to_owned()),
        Word::Text("--property=Id,LoadState,ActiveState,SubState".to_owned()),
    ];
    assert(arguments.deep_view() =~= seq![
        WordView::Text("show"@),
        WordView::Text("--no-pager"@),
        WordView::Text("--property=Id,LoadState,ActiveState,SubState"@),
    ]);
    append_units(&mut arguments, services);
    process::run(dialogue, "systemctl", arguments)
}

/// What [`restart`] does.
pub open spec fn restart_script(services: Seq<ServiceView>) -> Script<()> {
    process::run_script("systemctl"@, seq![WordView::Text("restart"@)] + units(services))
}

/// Restarts services.
pub fn restart(dialogue: &mut Dialogue, services: &[Service]) -> (result: Result<(), Stop>)
    ensures
        final(dialogue).tells(result) == restart_script(services.deep_view()).play(
            old(dialogue).pending(),
        ),
{
    let mut arguments = vec![Word::Text("restart".to_owned())];
    assert(arguments.deep_view() =~= seq![WordView::Text("restart"@)]);
    append_units(&mut arguments, services);
    process::run(dialogue, "systemctl", arguments)
}

/// How many seconds a health check waits for each step of its connection.
pub const HEALTH_TIMEOUT: u64 = 3;

/// How much of a response a health check reads.
pub const RESPONSE_LIMIT: u64 = 16384;

/// Whether the first line of a response reports success.
pub open spec fn reports_success(status: Seq<char>) -> bool {
    "HTTP/1.1 200 "@.is_prefix_of(status) || "HTTP/1.0 200 "@.is_prefix_of(status)
}

/// What [`judge_response`] finds wrong with a response, if anything.
pub open spec fn response_fault(
    address: Seq<char>,
    path: Seq<char>,
    response: Seq<char>,
) -> Option<Seq<char>> {
    let status = text::first_line_of(response);
    if reports_success(status) {
        None
    } else {
        Some(returned_text(address, path, encoding::quoted(status)))
    }
}

/// The message about a response whose first line is shown like this.
pub open spec fn returned_text(address: Seq<char>, path: Seq<char>, shown: Seq<char>) -> Seq<char> {
    "http://"@ + address + path + " returned "@ + shown
}

/// Says what a service returned.
pub fn returned(address: &str, path: &str, shown: &str) -> (message: String)
    ensures
        message@ == returned_text(address@, path@, shown@),
{
    "http://".to_owned().concat(address).concat(path).concat(" returned ").concat(shown)
}

/// Judges the health of a service by its response.
pub fn judge_response(address: &str, path: &str, response: &str) -> (verdict: Result<(), Failure>)
    ensures
        match verdict {
            Ok(()) => response_fault(address@, path@, response@) is None,
            Err(failure) => response_fault(address@, path@, response@) matches Some(fault)
                && failure@ == seq![fault],
        },
{
    let status = text::first_line(response);
    if text::starts_with(status, "HTTP/1.1 200 ") || text::starts_with(status, "HTTP/1.0 200 ") {
        Ok(())
    } else {
        Err(Failure::new(returned(address, path, encoding::quote(status).as_str())))
    }
}

/// What [`http_health`] does.
#[verifier::opaque]
pub open spec fn http_health_script(address: Seq<char>, path: Seq<char>) -> Script<()> {
    Script::perform(
        RequestView::ParseAddress { address },
        "parse health address "@ + address,
    ).and(
        Script::perform(
            RequestView::Connect { seconds: HEALTH_TIMEOUT },
            "connect to http://"@ + address + path,
        ),
    ).and(
        Script::perform(
            RequestView::SetReadTimeout { seconds: HEALTH_TIMEOUT },
            "set health read timeout"@,
        ),
    ).and(
        Script::perform(
            RequestView::SetWriteTimeout { seconds: HEALTH_TIMEOUT },
            "set health write timeout"@,
        ),
    ).and(
        Script::perform(
            RequestView::Send {
                text: "GET "@ + path
                    + " HTTP/1.1\r\nHost: localhost\r\nConnection: close\r\n\r\n"@,
            },
            "write health request"@,
        ),
    ).and(
        Script::<()>::ask(
            RequestView::Receive { limit: RESPONSE_LIMIT },
            |reply: ReplyView|
                match reply {
                    ReplyView::Bytes(response) => match response_fault(
                        address,
                        path,
                        encoding::lossy(response),
                    ) {
                        None => Script::give(()),
                        Some(fault) => Script::refuse(fault),
                    },
                    ReplyView::Error { not_found, cause } => Script::fail(
                        "read health response"@,
                        cause,
                    ),
                    _ => Script::garbled(),
                },
        ),
    )
}

/// Asks a service for its health over HTTP.
pub fn http_health(dialogue: &mut Dialogue, address: &str, path: &str) -> (result: Result<
    (),
    Stop,
>)
    ensures
        final(dialogue).tells(result) == http_health_script(address@, path@).play(
            old(dialogue).pending(),
        ),
{
    reveal(http_health_script);
    dialogue.perform(
        Request::ParseAddress { address: address.to_owned() },
        "parse health address ".to_owned().concat(address),
    )?;
    dialogue.perform(
        Request::Connect { seconds: HEALTH_TIMEOUT },
        "connect to http://".to_owned().concat(address).concat(path),
    )?;
    dialogue.perform(
        Request::SetReadTimeout { seconds: HEALTH_TIMEOUT },
        "set health read timeout".to_owned(),
    )?;
    dialogue.perform(
        Request::SetWriteTimeout { seconds: HEALTH_TIMEOUT },
        "set health write timeout".to_owned(),
    )?;
    dialogue.perform(
        Request::Send {
            text: "GET ".to_owned().concat(path).concat(
                " HTTP/1.1\r\nHost: localhost\r\nConnection: close\r\n\r\n",
            ),
        },
        "write health request".to_owned(),
    )?;
    match dialogue.ask(Request::Receive { limit: RESPONSE_LIMIT })? {
        Reply::Bytes(response) => {
            let response = encoding::decode_lossy(response);
            match judge_response(address, path, response.as_str()) {
                Ok(()) => Ok(()),
                Err(failure) => Err(Stop::Failed(failure)),
            }
        },
        Reply::Error { not_found, cause } => {
            Err(Stop::fail("read health response".to_owned(), cause))
        },
        _ => Err(Stop::Garbled),
    }
}

/// What [`health`] does about a service that is active: ends with whether it is
/// healthy, and says so.
pub open spec fn active_script(service: ServiceView) -> Script<bool> {
    match service.http_health {
        Some((address, path)) => http_health_script(address, path).after(
            |ending: Ending<()>|
                match ending {
                    Ending::Value(_) => Script::print(
                        "ok   "@ + service.name + ": active, HTTP healthy"@,
                    ).and(Script::give(true)),
                    Ending::Failed(trail) => Script::print_error(
                        "FAIL "@ + service.name + ": "@ + text::joined(trail, ": "@),
                    ).and(Script::give(false)),
                    Ending::Garbled => Script::garbled(),
                },
        ),
        None => Script::print("ok   "@ + service.name + ": active"@).and(Script::give(true)),
    }
}

/// What [`health`] does about one service: ends with whether it is healthy, and
/// says so.
#[verifier::opaque]
pub open spec fn check_script(service: ServiceView) -> Script<bool> {
    Script::ask(
        RequestView::Run {
            program: "systemctl"@,
            arguments: seq![
                WordView::Text("is-active"@),
                WordView::Text("--quiet"@),
                WordView::Text(service.unit()),
            ],
        },
        |reply: ReplyView|
            match reply {
                ReplyView::Exited { code, status } => if code == Some(0i32) {
                    active_script(service)
                } else {
                    Script::print_error(
                        "FAIL "@ + service.name + ": systemd unit is not active"@,
                    ).and(Script::give(false))
                },
                ReplyView::Error { not_found, cause } => Script::fail(
                    "check "@ + service.unit(),
                    cause,
                ),
                _ => Script::garbled(),
            },
    )
}

/// What [`health`] still does about `services` where those named in `failures`
/// were not healthy.
pub open spec fn health_script_after(
    services: Seq<ServiceView>,
    failures: Seq<Seq<char>>,
) -> Script<()>
    decreases services.len(),
{
    if services.len() == 0 {
        if failures.len() == 0 {
            Script::give(())
        } else {
            Script::refuse("health check failed: "@ + text::joined(failures, ", "@))
        }
    } else {
        check_script(services[0]).and_then(
            |healthy: bool|
                health_script_after(
                    services.drop_first(),
                    if healthy {
                        failures
                    } else {
                        failures.push(services[0].name)
                    },
                ),
        )
    }
}

/// What [`health`] does.
pub open spec fn health_script(services: Seq<ServiceView>) -> Script<()> {
    health_script_after(services, seq![])
}

fn check_active(dialogue: &mut Dialogue, service: Service) -> (result: Result<bool, Stop>)
    ensures
        final(dialogue).tells(result) == active_script(service.deep_view()).play(
            old(dialogue).pending(),
        ),
{
    if let Some((address, path)) = service.http_health {
        match http_health(dialogue, address, path) {
            Ok(()) => {
                dialogue.print(
                    "ok   ".to_owned().concat(service.name).concat(": active, HTTP healthy"),
                )?;
                Ok(true)
            },
            Err(Stop::Failed(failure)) => {
                dialogue.print_error(
                    "FAIL ".to_owned().concat(service.name).concat(": ").concat(
                        failure.one_line().as_str(),
                    ),
                )?;
                Ok(false)
            },
            Err(stop) => Err(stop),
        }
    } else {
        dialogue.print("ok   ".to_owned().concat(service.name).concat(": active"))?;
        Ok(true)
    }
}

fn check(dialogue: &mut Dialogue, service: Service) -> (result: Result<bool, Stop>)
    ensures
        final(dialogue).tells(result) == check_script(service.deep_view()).play(
            old(dialogue).pending(),
        ),
{
    reveal(check_script);
    let unit = service.unit();
    let arguments = vec![
        Word::Text("is-active".to_owned()),
        Word::Text("--quiet".to_owned()),
        Word::Text(unit.clone()),
    ];
    assert(arguments.deep_view() =~= seq![
        WordView::Text("is-active"@),
        WordView::Text("--quiet"@),
        WordView::Text(unit@),
    ]);
    match dialogue.ask(Request::Run { program: "systemctl".to_owned(), arguments })? {
        Reply::Exited { code, status } => {
            if process::exited_with(code, 0) {
                check_active(dialogue, service)
            } else {
                dialogue.print_error(
                    "FAIL ".to_owned().concat(service.name).concat(
                        ": systemd unit is not active",
                    ),
                )?;
                Ok(false)
            }
        },
        Reply::Error { not_found, cause } => {
            Err(Stop::fail("check ".to_owned().concat(unit.as_str()), cause))
        },
        _ => Err(Stop::Garbled),
    }
}

/// Checks the health of services, all of them even if one is not healthy, and
/// fails with the names of those that are not.
pub fn health(dialogue: &mut Dialogue, services: &[Service]) -> (result: Result<(), Stop>)
    ensures
        final(dialogue).tells(result) == health_script(services.deep_view()).play(
            old(dialogue).pending(),
        ),
{
    let ghost views = services.deep_view();
    let ghost start = dialogue.pending();
    let mut failures: Vec<String> = Vec::new();
    let mut i: usize = 0;
    assert(views.skip(0) =~= views);
    assert(failures.deep_view() =~= seq![]);
    while i < services.len()
        invariant
            i <= services.len(),
            views == services.deep_view(),
            start == old(dialogue).pending(),
            health_script(views).play(start) == health_script_after(
                views.skip(i as int),
                failures.deep_view(),
            ).play(dialogue.pending()),
        decreases services.len() - i,
    {
        let service = services[i];
        let ghost before = failures.deep_view();
        assert(views.skip(i as int)[0] == service.deep_view());
        assert(views.skip(i as int).drop_first() =~= views.skip(i + 1));
        if !check(dialogue, service)? {
            failures.push(service.name.to_owned());
            assert(failures.deep_view() =~= before.push(service.name@));
        }
        i = i + 1;
    }
    assert(failures.deep_view().len() == failures.len());
    if failures.len() == 0 {
        Ok(())
    } else {
        Err(
            Stop::refuse(
                "health check failed: ".to_owned().concat(text::join(&failures, ", ").as_str()),
            ),
        )
    }
}

} // verus!
