//! What holds of the services: how they are selected, and how their health is
//! judged.
use vstd::prelude::*;

use crate::cli;
use crate::cli::ServiceCommand;
use crate::encoding;
use crate::laws::conversation;
use crate::process;
use crate::request::{ReplyView, RequestView, WordView};
use crate::script;
use crate::script::{Ending, Progress, Script, Trail};
use crate::services;
use crate::services::ServiceView;
use crate::text;

verus! {

/// Whether a service of this name is managed.
pub open spec fn is_managed(name: Seq<char>) -> bool {
    exists|i: int|
        0 <= i < services::managed().len() && (#[trigger] services::managed()[i]).name == name
}

proof fn named_is_found(services: Seq<ServiceView>, name: Seq<char>)
    ensures
        match services::named(services, name) {
            Some(service) => service.name == name && services.contains(service),
            None => forall|i: int|
                0 <= i < services.len() ==> (#[trigger] services[i]).name != name,
        },
    decreases services.len(),
{
    if services.len() > 0 && services[0].name != name {
        let rest = services.drop_first();
        named_is_found(rest, name);
        match services::named(rest, name) {
            Some(service) => {
                let i = rest.index_of(service);
                assert(services[i + 1] == service);
            },
            None => {
                assert forall|i: int| 0 <= i < services.len() implies (#[trigger] services[i]).name
                    != name by {
                    if i > 0 {
                        assert(rest[i - 1] == services[i]);
                    }
                }
            },
        }
    } else if services.len() > 0 {
        assert(services.contains(services[0]));
    }
}

proof fn managed_is_found(name: Seq<char>)
    ensures
        services::named(services::managed(), name) is Some <==> is_managed(name),
{
    named_is_found(services::managed(), name);
    if let Some(service) = services::named(services::managed(), name) {
        let i = services::managed().index_of(service);
        assert(services::managed()[i].name == name);
    }
}

proof fn chosen_in_turn(names: Seq<Seq<char>>, chosen: Seq<ServiceView>)
    ensures
        match services::chosen_by_name(names, chosen) {
            Ok(services) => services.len() == chosen.len() + names.len() && services.take(
                chosen.len() as int,
            ) == chosen && forall|i: int|
                0 <= i < names.len() ==> services::managed().contains(
                    #[trigger] services[chosen.len() + i],
                ) && services[chosen.len() + i].name == names[i],
            Err(trail) => exists|i: int|
                0 <= i < names.len() && trail == seq!["unknown managed service: "@ + names[i]]
                    && !is_managed(#[trigger] names[i]) && forall|j: int|
                    0 <= j < i ==> is_managed(#[trigger] names[j]),
        },
    decreases names.len(),
{
    if names.len() == 0 {
        assert(chosen.take(chosen.len() as int) =~= chosen);
    } else {
        let rest = names.drop_first();
        named_is_found(services::managed(), names[0]);
        managed_is_found(names[0]);
        match services::named(services::managed(), names[0]) {
            None => {
                assert(!is_managed(names[0]));
            },
            Some(service) => {
                let longer = chosen.push(service);
                chosen_in_turn(rest, longer);
                match services::chosen_by_name(rest, longer) {
                    Ok(services) => {
                        assert(services.take(chosen.len() as int) =~= services.take(
                            longer.len() as int,
                        ).take(chosen.len() as int));
                        assert(longer.take(chosen.len() as int) =~= chosen);
                        assert(services[chosen.len() as int] == services.take(
                            longer.len() as int,
                        )[chosen.len() as int]);
                        assert forall|i: int|
                            0 <= i < names.len() implies services::managed().contains(
                            #[trigger] services[chosen.len() + i],
                        ) && services[chosen.len() + i].name == names[i] by {
                            if i > 0 {
                                assert(services[longer.len() + (i - 1)].name == rest[i - 1]);
                                assert(services::managed().contains(
                                    services[longer.len() + (i - 1)],
                                ));
                            }
                        }
                    },
                    Err(trail) => {
                        let i = choose|i: int|
                            0 <= i < rest.len() && trail == seq![
                                "unknown managed service: "@ + rest[i],
                            ] && !is_managed(#[trigger] rest[i]) && forall|j: int|
                                0 <= j < i ==> is_managed(#[trigger] rest[j]);
                        assert(names[i + 1] == rest[i]);
                        assert forall|j: int| 0 <= j < i + 1 implies is_managed(
                            #[trigger] names[j],
                        ) by {
                            if j > 0 {
                                assert(names[j] == rest[j - 1]);
                            }
                        }
                    },
                }
            },
        }
    }
}

/// Names select the managed services that have them, one for each name and in
/// that order, and no names select all of them. Where a name is that of no
/// managed service nothing is selected, and the failure tells the first such
/// name.
pub proof fn names_select_in_turn(names: Seq<Seq<char>>)
    ensures
        match services::selection(names) {
            Ok(services) => if names.len() == 0 {
                services == services::managed()
            } else {
                services.len() == names.len() && forall|i: int|
                    0 <= i < names.len() ==> services::managed().contains(#[trigger] services[i])
                        && services[i].name == names[i]
            },
            Err(trail) => exists|i: int|
                0 <= i < names.len() && trail == seq!["unknown managed service: "@ + names[i]]
                    && !is_managed(#[trigger] names[i]) && forall|j: int|
                    0 <= j < i ==> is_managed(#[trigger] names[j]),
        },
{
    chosen_in_turn(names, seq![]);
    if let Ok(services) = services::selection(names) {
        assert forall|i: int| 0 <= i < names.len() implies services::managed().contains(
            #[trigger] services[i],
        ) && services[i].name == names[i] by {
            assert(services[0 + i].name == names[i]);
        }
    }
}

/// A command about services that names one that is not managed asks nothing at
/// all.
pub proof fn unknown_services_are_refused(
    command: ServiceCommand,
    names: Seq<Seq<char>>,
    unknown: int,
    replies: Seq<ReplyView>,
)
    requires
        0 <= unknown < names.len(),
        !is_managed(names[unknown]),
        names == match command {
            ServiceCommand::Status { services } => services.deep_view(),
            ServiceCommand::Health { services } => services.deep_view(),
            ServiceCommand::Restart { services } => services.deep_view(),
        },
    ensures
        cli::service_script(command).play(replies) matches Progress::Ended(
            Ending::Failed(trail),
            rest,
        ) && rest == replies && services::selection(names) == Err::<Seq<ServiceView>, Trail>(trail),
{
    names_select_in_turn(names);
    if let Ok(services) = services::selection(names) {
        assert(services::managed().contains(services[unknown]));
        let i = services::managed().index_of(services[unknown]);
        assert(services::managed()[i].name == names[unknown]);
    }
}

/// The checks of some services, all of them, ending with their verdicts.
pub open spec fn checks_script(services: Seq<ServiceView>) -> Script<Seq<bool>>
    decreases services.len(),
{
    if services.len() == 0 {
        Script::give(seq![])
    } else {
        services::check_script(services[0]).and_then(
            |healthy: bool|
                checks_script(services.drop_first()).and_then(
                    |verdicts: Seq<bool>| Script::give(seq![healthy] + verdicts),
                ),
        )
    }
}

/// The names of the services with a bad verdict.
pub open spec fn unhealthy(services: Seq<ServiceView>, verdicts: Seq<bool>) -> Seq<Seq<char>>
    decreases services.len(),
{
    if services.len() == 0 || verdicts.len() == 0 {
        seq![]
    } else if verdicts[0] {
        unhealthy(services.drop_first(), verdicts.drop_first())
    } else {
        seq![services[0].name] + unhealthy(services.drop_first(), verdicts.drop_first())
    }
}

/// How a health check ends where these services are not healthy.
pub open spec fn conclusion(failures: Seq<Seq<char>>) -> Ending<()> {
    if failures.len() == 0 {
        Ending::Value(())
    } else {
        Ending::Failed(seq!["health check failed: "@ + text::joined(failures, ", "@)])
    }
}

proof fn checked_after(
    services: Seq<ServiceView>,
    failures: Seq<Seq<char>>,
    replies: Seq<ReplyView>,
)
    ensures
        services::health_script_after(services, failures).play(replies) == match checks_script(
            services,
        ).play(replies) {
            Progress::Waiting(request) => Progress::<()>::Waiting(request),
            Progress::Ended(Ending::Value(verdicts), rest) => Progress::<()>::Ended(
                conclusion(failures + unhealthy(services, verdicts)),
                rest,
            ),
            Progress::Ended(Ending::Failed(trail), rest) => Progress::<()>::Ended(
                Ending::Failed(trail),
                rest,
            ),
            Progress::Ended(Ending::Garbled, rest) => Progress::<()>::Ended(
                Ending::Garbled,
                rest,
            ),
        },
    decreases services.len(),
{
    if services.len() == 0 {
        assert(failures + seq![] =~= failures);
    } else if let Progress::Ended(Ending::Value(healthy), rest) = services::check_script(
        services[0],
    ).play(replies) {
        let others = services.drop_first();
        let noted = if healthy {
            failures
        } else {
            failures.push(services[0].name)
        };
        checked_after(others, noted, rest);
        if let Progress::Ended(Ending::Value(verdicts), last) = checks_script(others).play(rest) {
            assert((seq![healthy] + verdicts).drop_first() =~= verdicts);
            assert(noted + unhealthy(others, verdicts) =~= failures + unhealthy(
                services,
                seq![healthy] + verdicts,
            ));
        }
    }
}

/// A health check checks every service, also after one that is not healthy. It
/// succeeds if and only if all of them are healthy, and else its failure names
/// those that are not, in their order.
pub proof fn every_service_is_checked(services: Seq<ServiceView>, replies: Seq<ReplyView>)
    ensures
        services::health_script(services).play(replies) == match checks_script(services).play(
            replies,
        ) {
            Progress::Waiting(request) => Progress::<()>::Waiting(request),
            Progress::Ended(Ending::Value(verdicts), rest) => Progress::<()>::Ended(
                conclusion(unhealthy(services, verdicts)),
                rest,
            ),
            Progress::Ended(Ending::Failed(trail), rest) => Progress::<()>::Ended(
                Ending::Failed(trail),
                rest,
            ),
            Progress::Ended(Ending::Garbled, rest) => Progress::<()>::Ended(
                Ending::Garbled,
                rest,
            ),
        },
{
    checked_after(services, seq![], replies);
    if let Progress::Ended(Ending::Value(verdicts), rest) = checks_script(services).play(replies) {
        assert(seq![] + unhealthy(services, verdicts) =~= unhealthy(services, verdicts));
    }
}

/// There is a verdict for every service.
pub proof fn every_service_has_a_verdict(services: Seq<ServiceView>, replies: Seq<ReplyView>)
    ensures
        checks_script(services).play(replies) matches Progress::Ended(Ending::Value(verdicts), _)
            ==> verdicts.len() == services.len() && (unhealthy(services, verdicts).len() == 0
            <==> forall|i: int| 0 <= i < verdicts.len() ==> #[trigger] verdicts[i]),
    decreases services.len(),
{
    if services.len() > 0 {
        if let Progress::Ended(Ending::Value(healthy), rest) = services::check_script(
            services[0],
        ).play(replies) {
            let others = services.drop_first();
            every_service_has_a_verdict(others, rest);
            if let Progress::Ended(Ending::Value(verdicts), _) = checks_script(others).play(rest) {
                let all = seq![healthy] + verdicts;
                assert(all.drop_first() =~= verdicts);
                assert(forall|i: int| 0 <= i < verdicts.len() ==> verdicts[i] == all[i + 1]);
                assert(all[0] == healthy);
                if forall|i: int| 0 <= i < all.len() ==> #[trigger] all[i] {
                    assert forall|i: int|
                        0 <= i < verdicts.len() implies #[trigger] verdicts[i] by {
                        assert(all[i + 1]);
                    }
                }
                if healthy && forall|i: int| 0 <= i < verdicts.len() ==> #[trigger] verdicts[i] {
                    assert forall|i: int| 0 <= i < all.len() implies #[trigger] all[i] by {
                        if i > 0 {
                            assert(all[i] == verdicts[i - 1]);
                        }
                    }
                }
            }
        }
    }
}

/// The services that are managed are these, and the first of them is asked for its
/// health over HTTP.
pub proof fn the_managed_services_are_these()
    ensures
        services::managed().len() == 5,
        services::managed()[0].name == "salyut-site"@,
        services::managed()[1].name == "salyut-bbsd"@,
        services::managed()[2].name == "postfix"@,
        services::managed()[3].name == "dovecot"@,
        services::managed()[4].name == "caddy"@,
        services::managed()[0].http_health == Some(("127.0.0.1:8082"@, "/healthz"@)),
        forall|i: int| 1 <= i < 5 ==> (#[trigger] services::managed()[i]).http_health is None,
{
}

/// What a program that must succeed comes to: it is run once, and only its success
/// is one.
pub open spec fn runs_once(
    script: Script<()>,
    program: Seq<char>,
    arguments: Seq<WordView>,
    replies: Seq<ReplyView>,
) -> bool {
    &&& script.play(seq![]) == Progress::<()>::Waiting(RequestView::Run { program, arguments })
    &&& replies.len() > 0 ==> script.play(replies) == Progress::<()>::Ended(
        match replies[0] {
            ReplyView::Exited { code, status } => if code == Some(0i32) {
                Ending::Value(())
            } else {
                Ending::Failed(seq![program + " failed with "@ + status])
            },
            ReplyView::Error { not_found, cause } => Ending::Failed(
                seq!["run "@ + program, cause],
            ),
            _ => Ending::Garbled,
        },
        replies.drop_first(),
    )
}

/// A program is run once, with the arguments that were given, and only its success
/// is one.
pub proof fn programs_are_run_once(
    program: Seq<char>,
    arguments: Seq<WordView>,
    replies: Seq<ReplyView>,
)
    ensures
        runs_once(process::run_script(program, arguments), program, arguments, replies),
{
}

/// Whether the last of some arguments are the units of some services, one for each
/// of them and in their order.
pub open spec fn ends_with_units(
    arguments: Seq<WordView>,
    services: Seq<ServiceView>,
    options: int,
) -> bool {
    &&& arguments.len() == options + services.len()
    &&& forall|i: int|
        #![trigger services[i]]
        0 <= i < services.len() ==> arguments[options + i] == WordView::Text(
            services[i].name + ".service"@,
        )
}

/// The state of services is asked of `systemctl show`, without a pager and for four
/// properties, and the units are those of the services, one for each of them and in
/// their order.
pub proof fn status_shows_every_unit(services: Seq<ServiceView>, replies: Seq<ReplyView>) -> (
    arguments: Seq<WordView>)
    ensures
        runs_once(services::status_script(services), "systemctl"@, arguments, replies),
        arguments[0] == WordView::Text("show"@),
        arguments[1] == WordView::Text("--no-pager"@),
        arguments[2] == WordView::Text("--property=Id,LoadState,ActiveState,SubState"@),
        ends_with_units(arguments, services, 3),
{
    seq![
        WordView::Text("show"@),
        WordView::Text("--no-pager"@),
        WordView::Text("--property=Id,LoadState,ActiveState,SubState"@),
    ] + services::units(services)
}

/// Services are restarted by one `systemctl restart`, and the units are those of the
/// services, one for each of them and in their order.
pub proof fn restart_restarts_every_unit(services: Seq<ServiceView>, replies: Seq<ReplyView>) -> (
    arguments: Seq<WordView>)
    ensures
        runs_once(services::restart_script(services), "systemctl"@, arguments, replies),
        arguments[0] == WordView::Text("restart"@),
        ends_with_units(arguments, services, 1),
{
    seq![WordView::Text("restart"@)] + services::units(services)
}

/// Whether the first line of a response has one of the first two versions of HTTP
/// and the status two hundred.
pub open spec fn is_ok(line: Seq<char>) -> bool {
    &&& line.len() >= 13
    &&& line.subrange(0, 7) == "HTTP/1."@
    &&& line[7] == '0' || line[7] == '1'
    &&& line[8] == ' '
    &&& line[9] == '2'
    &&& line[10] == '0'
    &&& line[11] == '0'
    &&& line[12] == ' '
}

/// A response is healthy if and only if its first line says so: see [`is_ok`]. Of
/// every other response the first line is told.
pub proof fn only_the_status_decides(
    address: Seq<char>,
    path: Seq<char>,
    response: Seq<char>,
)
    ensures
        services::response_fault(address, path, response) == if is_ok(
            text::first_line_of(response),
        ) {
            None::<Seq<char>>
        } else {
            Some(
                "http://"@ + address + path + " returned "@ + encoding::quoted(
                    text::first_line_of(response),
                ),
            )
        },
{
    let line = text::first_line_of(response);
    reveal_strlit("HTTP/1.");
    reveal_strlit("HTTP/1.1 200 ");
    reveal_strlit("HTTP/1.0 200 ");
    let one = "HTTP/1.1 200 "@;
    let zero = "HTTP/1.0 200 "@;
    if one.is_prefix_of(line) {
        assert(forall|i: int| 0 <= i < 13 ==> line[i] == line.subrange(0, 13)[i]);
        assert(line.subrange(0, 7) =~= "HTTP/1."@);
    }
    if zero.is_prefix_of(line) {
        assert(forall|i: int| 0 <= i < 13 ==> line[i] == line.subrange(0, 13)[i]);
        assert(line.subrange(0, 7) =~= "HTTP/1."@);
    }
    if is_ok(line) {
        assert(forall|i: int| 0 <= i < 7 ==> line[i] == line.subrange(0, 7)[i]);
        if line[7] == '1' {
            assert(one =~= line.subrange(0, 13));
        } else {
            assert(zero =~= line.subrange(0, 13));
        }
    }
}

/// The steps by which an active service is asked for its health over HTTP.
pub open spec fn http_steps(address: Seq<char>, path: Seq<char>) -> Seq<RequestView> {
    seq![
        RequestView::ParseAddress { address },
        RequestView::Connect { seconds: 3 },
        RequestView::SetReadTimeout { seconds: 3 },
        RequestView::SetWriteTimeout { seconds: 3 },
        RequestView::Send {
            text: "GET "@ + path + " HTTP/1.1\r\nHost: localhost\r\nConnection: close\r\n\r\n"@,
        },
        RequestView::Receive { limit: 16384 },
    ]
}

/// What is told of such a step where it cannot be taken.
pub open spec fn http_troubles(address: Seq<char>, path: Seq<char>) -> Seq<Seq<char>> {
    seq![
        "parse health address "@ + address,
        "connect to http://"@ + address + path,
        "set health read timeout"@,
        "set health write timeout"@,
        "write health request"@,
        "read health response"@,
    ]
}

/// As many replies that something was done.
pub open spec fn dones(count: nat) -> Seq<ReplyView> {
    Seq::new(count, |i: int| ReplyView::Done)
}

/// Some replies that tell of a unit that is active and of steps that were taken.
pub open spec fn steps_taken(active: ReplyView, count: nat) -> Seq<ReplyView> {
    seq![active] + dones(count)
}

/// A check first asks whether the unit is active. Where it is not the service is
/// not healthy, which is told; where that cannot be found out, the check fails.
pub proof fn inactive_services_are_unhealthy(service: ServiceView, reply: ReplyView)
    requires
        !conversation::is_success(reply),
    ensures
        ({
            let script = services::check_script(service);
            let line = "FAIL "@ + service.name + ": systemd unit is not active"@;
            &&& script.play(seq![]) == Progress::<bool>::Waiting(
                RequestView::Run {
                    program: "systemctl"@,
                    arguments: seq![
                        WordView::Text("is-active"@),
                        WordView::Text("--quiet"@),
                        WordView::Text(service.name + ".service"@),
                    ],
                },
            )
            &&& match reply {
                ReplyView::Exited { code, status } => {
                    &&& script.play(seq![reply]) == Progress::<bool>::Waiting(
                        RequestView::PrintError { line },
                    )
                    &&& script.play(seq![reply, ReplyView::Done]) == Progress::<bool>::Ended(
                        Ending::Value(false),
                        seq![],
                    )
                },
                ReplyView::Error { not_found, cause } => script.play(seq![reply]) == Progress::<
                    bool,
                >::Ended(
                    Ending::Failed(seq!["check "@ + (service.name + ".service"@), cause]),
                    seq![],
                ),
                _ => script.play(seq![reply]) == Progress::<bool>::Ended(Ending::Garbled, seq![]),
            }
        }),
{
    reveal(services::check_script);
    assert(seq![reply].drop_first() =~= seq![]);
    assert(seq![reply, ReplyView::Done].drop_first() =~= seq![ReplyView::Done]);
    assert(seq![ReplyView::Done].drop_first() =~= seq![]);
}

/// An active service without an endpoint is healthy, which is told.
pub proof fn active_services_are_healthy(service: ServiceView, active: ReplyView)
    requires
        conversation::is_success(active),
        service.http_health is None,
    ensures
        ({
            let script = services::check_script(service);
            &&& script.play(seq![active]) == Progress::<bool>::Waiting(
                RequestView::Print { line: "ok   "@ + service.name + ": active"@ },
            )
            &&& script.play(seq![active, ReplyView::Done]) == Progress::<bool>::Ended(
                Ending::Value(true),
                seq![],
            )
        }),
{
    reveal(services::check_script);
    assert(seq![active].drop_first() =~= seq![]);
    assert(seq![active, ReplyView::Done].drop_first() =~= seq![ReplyView::Done]);
    assert(seq![ReplyView::Done].drop_first() =~= seq![]);
}

/// An active service with an endpoint is asked there, step by step. Where a step
/// cannot be taken the service is not healthy, and which step and why is told.
pub proof fn endpoints_are_asked_step_by_step(
    service: ServiceView,
    address: Seq<char>,
    path: Seq<char>,
    active: ReplyView,
    count: nat,
    not_found: bool,
    cause: Seq<char>,
)
    requires
        service.http_health == Some((address, path)),
        conversation::is_success(active),
        count < 6,
    ensures
        ({
            let script = services::check_script(service);
            let taken = steps_taken(active, count);
            let refused = taken.push(ReplyView::Error { not_found, cause });
            let trouble = http_troubles(address, path)[count as int];
            &&& script.play(taken) == Progress::<bool>::Waiting(
                http_steps(address, path)[count as int],
            )
            &&& script.play(refused) == Progress::<bool>::Waiting(
                RequestView::PrintError {
                    line: "FAIL "@ + service.name + ": "@ + (trouble + ": "@ + cause),
                },
            )
            &&& script.play(refused.push(ReplyView::Done)) == Progress::<bool>::Ended(
                Ending::Value(false),
                seq![],
            )
        }),
{
    broadcast use {fewer_steps, fewer_steps_and_one, fewer_steps_and_two};

    reveal(services::check_script);
    reveal(services::http_health_script);
    let taken = steps_taken(active, count);
    let done = dones(count);
    let error = ReplyView::Error { not_found, cause };
    let trouble = http_troubles(address, path)[count as int];
    joined_pair(trouble, cause);
    assert(taken.drop_first() =~= done);
    assert(taken.push(error).drop_first() =~= done.push(error));
    assert(taken.push(error).push(ReplyView::Done).drop_first() =~= done.push(error).push(
        ReplyView::Done,
    ));
    let last = done.push(error).push(ReplyView::Done);
    assert(services::http_health_script(address, path).play(done) == Progress::<()>::Waiting(
        http_steps(address, path)[count as int],
    ));
    assert(services::http_health_script(address, path).play(done.push(error)) == Progress::<
        (),
    >::Ended(Ending::Failed(seq![trouble, cause]), seq![]));
    assert(services::http_health_script(address, path).play(last) == Progress::<()>::Ended(
        Ending::Failed(seq![trouble, cause]),
        seq![ReplyView::Done],
    ));
    assert(seq![ReplyView::Done].drop_first() =~= seq![]);
}

proof fn joined_pair(one: Seq<char>, other: Seq<char>)
    ensures
        text::joined(seq![one, other], ": "@) == one + ": "@ + other,
{
    reveal_with_fuel(text::joined_rest, 3);
    assert(seq![one, other].drop_first() =~= seq![other]);
    assert(seq![other].drop_first() =~= seq![]);
    assert(one + (": "@ + other + seq![]) =~= one + ": "@ + other);
}

broadcast proof fn fewer_steps(count: nat)
    ensures
        count > 0 ==> #[trigger] dones(count).drop_first() == dones((count - 1) as nat),
{
    if count > 0 {
        assert(dones(count).drop_first() =~= dones((count - 1) as nat));
    }
}

broadcast proof fn fewer_steps_and_one(count: nat, reply: ReplyView)
    ensures
        (#[trigger] dones(count).push(reply).drop_first()) == if count > 0 {
            dones((count - 1) as nat).push(reply)
        } else {
            seq![]
        },
{
    if count > 0 {
        assert(dones(count).push(reply).drop_first() =~= dones((count - 1) as nat).push(reply));
    } else {
        assert(dones(count).push(reply).drop_first() =~= seq![]);
    }
}

broadcast proof fn fewer_steps_and_two(count: nat, reply: ReplyView, other: ReplyView)
    ensures
        (#[trigger] dones(count).push(reply).push(other).drop_first()) == if count > 0 {
            dones((count - 1) as nat).push(reply).push(other)
        } else {
            seq![other]
        },
{
    if count > 0 {
        assert(dones(count).push(reply).push(other).drop_first() =~= dones(
            (count - 1) as nat,
        ).push(reply).push(other));
    } else {
        assert(dones(count).push(reply).push(other).drop_first() =~= seq![other]);
    }
}

/// An active service with an endpoint is healthy if and only if the response that
/// comes from there says so, and which of the two it is is told.
pub proof fn endpoints_decide(
    service: ServiceView,
    address: Seq<char>,
    path: Seq<char>,
    active: ReplyView,
    response: Seq<u8>,
)
    requires
        service.http_health == Some((address, path)),
        conversation::is_success(active),
    ensures
        ({
            let script = services::check_script(service);
            let told = steps_taken(active, 5).push(ReplyView::Bytes(response));
            let status = text::first_line_of(encoding::lossy(response));
            let healthy = is_ok(status);
            &&& script.play(told) == Progress::<bool>::Waiting(
                if healthy {
                    RequestView::Print {
                        line: "ok   "@ + service.name + ": active, HTTP healthy"@,
                    }
                } else {
                    RequestView::PrintError {
                        line: "FAIL "@ + service.name + ": "@ + ("http://"@ + address + path
                            + " returned "@ + encoding::quoted(status)),
                    }
                },
            )
            &&& script.play(told.push(ReplyView::Done)) == Progress::<bool>::Ended(
                Ending::Value(healthy),
                seq![],
            )
        }),
{
    broadcast use {fewer_steps, fewer_steps_and_one, fewer_steps_and_two};

    reveal(services::check_script);
    reveal(services::http_health_script);
    only_the_status_decides(address, path, encoding::lossy(response));
    let taken = steps_taken(active, 5);
    let done = dones(5);
    let bytes = ReplyView::Bytes(response);
    assert(taken.push(bytes).drop_first() =~= done.push(bytes));
    assert(taken.push(bytes).push(ReplyView::Done).drop_first() =~= done.push(bytes).push(
        ReplyView::Done,
    ));
    assert(seq![ReplyView::Done].drop_first() =~= seq![]);
    if let Some(fault) = services::response_fault(address, path, encoding::lossy(response)) {
        reveal_with_fuel(text::joined_rest, 2);
        assert(seq![fault].drop_first() =~= seq![]);
        assert(text::joined(seq![fault], ": "@) =~= fault);
    }
}

/// A check is given up, without a verdict, on a reply that does not answer its request:
/// the replies to the steps are that they were taken or not, and the last is a response.
pub proof fn checks_need_answers(
    service: ServiceView,
    address: Seq<char>,
    path: Seq<char>,
    active: ReplyView,
    count: nat,
    reply: ReplyView,
)
    requires
        service.http_health == Some((address, path)),
        conversation::is_success(active),
        count < 6,
        !(reply is Error),
        count < 5 ==> !(reply is Done),
        count == 5 ==> !(reply is Bytes),
    ensures
        services::check_script(service).play(steps_taken(active, count).push(reply))
            == Progress::<bool>::Ended(Ending::Garbled, seq![]),
{
    broadcast use {fewer_steps, fewer_steps_and_one};

    reveal(services::check_script);
    reveal(services::http_health_script);
    let done = dones(count);
    assert(steps_taken(active, count).push(reply).drop_first() =~= done.push(reply));
    assert(services::http_health_script(address, path).play(done.push(reply)) == Progress::<
        (),
    >::Ended(Ending::Garbled, seq![]));
}

/// There is no verdict before it was told: a check that waits for that to be done, and
/// gets another reply, is given up.
pub proof fn verdicts_are_told(
    service: ServiceView,
    replies: Seq<ReplyView>,
    line: Seq<char>,
    reply: ReplyView,
)
    requires
        ({
            let asked = services::check_script(service).play(replies);
            ||| asked == Progress::<bool>::Waiting(RequestView::Print { line })
            ||| asked == Progress::<bool>::Waiting(RequestView::PrintError { line })
        }),
    ensures
        services::check_script(service).play(replies.push(reply)) matches Progress::Ended(
            ending,
            rest,
        ) && rest.len() == 0 && (ending is Value <==> reply is Done) && (ending is Garbled
            <==> !(reply is Done)),
{
    reveal(services::check_script);
    let more = replies.push(reply);
    assert(replies.len() > 0);
    let during = replies.drop_first();
    assert(more.drop_first() =~= during.push(reply));
    if conversation::is_success(replies[0]) {
        if let Some((address, path)) = service.http_health {
            let health = services::http_health_script(address, path);
            health_asks_no_printing(address, path, during);
            assert(health.causal()) by {
                broadcast use script::group_causal;

                reveal(services::http_health_script);
            }
            reveal(Script::causal);
            assert(health.play(during).grows_to(reply, health.play(during.push(reply))));
            if let Progress::Ended(_, rest) = health.play(during) {
                assert(rest.len() == 0);
                assert(rest.push(reply).drop_first() =~= seq![]);
            }
        } else {
            assert(during.len() == 0);
            assert(during.push(reply).drop_first() =~= seq![]);
        }
    } else {
        assert(during.len() == 0);
        assert(during.push(reply).drop_first() =~= seq![]);
    }
}

proof fn health_asks_no_printing(address: Seq<char>, path: Seq<char>, replies: Seq<ReplyView>)
    ensures
        services::http_health_script(address, path).play(replies) matches Progress::Waiting(request)
            ==> !(request is Print) && !(request is PrintError),
{
    reveal(services::http_health_script);
}

/// Services are restarted before their health is checked, and it is checked
/// wherever the restart went well, of the same services.
pub proof fn restarted_services_are_checked(
    names: Vec<String>,
    selected: Seq<ServiceView>,
    replies: Seq<ReplyView>,
) -> (arguments: Seq<WordView>)
    requires
        services::selection(names.deep_view()) == Ok::<Seq<ServiceView>, Trail>(selected),
    ensures
        ({
            let script = cli::service_script(ServiceCommand::Restart { services: names });
            &&& script.play(seq![]) == Progress::<()>::Waiting(
                RequestView::Run { program: "systemctl"@, arguments },
            )
            &&& arguments[0] == WordView::Text("restart"@)
            &&& ends_with_units(arguments, selected, 1)
            &&& replies.len() > 0 ==> script.play(replies) == match replies[0] {
                ReplyView::Exited { code, status } => if code == Some(0i32) {
                    services::health_script(selected).play(replies.drop_first())
                } else {
                    Progress::<()>::Ended(
                        Ending::Failed(seq!["systemctl failed with "@ + status]),
                        replies.drop_first(),
                    )
                },
                ReplyView::Error { not_found, cause } => Progress::<()>::Ended(
                    Ending::Failed(seq!["run systemctl"@, cause]),
                    replies.drop_first(),
                ),
                _ => Progress::<()>::Ended(Ending::Garbled, replies.drop_first()),
            }
        }),
{
    reveal_strlit("systemctl");
    reveal_strlit("run ");
    reveal_strlit("run systemctl");
    reveal_strlit(" failed with ");
    reveal_strlit("systemctl failed with ");
    assert("run "@ + "systemctl"@ =~= "run systemctl"@);
    assert("systemctl"@ + " failed with "@ =~= "systemctl failed with "@);
    restart_restarts_every_unit(selected, replies)
}

} // verus!
