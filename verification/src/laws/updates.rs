//! What holds of an update: which repositories it is about, and what comes before
//! what.
use vstd::prelude::*;

use crate::encoding;
use crate::laws::causality;
use crate::laws::conversation;
use crate::path;
use crate::process;
use crate::repositories;
use crate::repositories::Stage;
use crate::request::{ReplyView, RequestView, WordView};
use crate::script;
use crate::script::{Ending, Progress, Script, Trail};
use crate::services;
use crate::text;

verus! {

/// Only a directory that has a `.git` and a regular file `Makefile` is eligible:
/// the three are asked in that order, up to the first that is not so.
pub proof fn repositories_have_git_and_makefile(repository: Seq<u8>, replies: Seq<ReplyView>)
    ensures
        repositories::eligible_script(repository).play(replies) == Progress::<bool>::Ended(
            Ending::Value(true),
            replies.skip(3),
        ) <==> {
            &&& replies.len() >= 3
            &&& replies[0] == ReplyView::Flag(true)
            &&& replies[1] == ReplyView::Flag(true)
            &&& replies[2] == ReplyView::Flag(true)
        },
        repositories::eligible_script(repository).play(seq![]) == Progress::<bool>::Waiting(
            RequestView::IsDirectory { place: WordView::Raw(repository) },
        ),
        repositories::eligible_script(repository).play(seq![ReplyView::Flag(true)])
            == Progress::<bool>::Waiting(
            RequestView::Exists {
                place: WordView::Raw(
                    path::below_raw(repository, vstd::utf8::encode_utf8(".git"@)),
                ),
            },
        ),
        repositories::eligible_script(repository).play(
            seq![ReplyView::Flag(true), ReplyView::Flag(true)],
        ) == Progress::<bool>::Waiting(
            RequestView::IsFile {
                place: WordView::Raw(
                    path::below_raw(repository, vstd::utf8::encode_utf8("Makefile"@)),
                ),
            },
        ),
{
    reveal(repositories::eligible_script);
    let yes = ReplyView::Flag(true);
    assert(seq![yes].drop_first() =~= seq![]);
    assert(seq![yes, yes].drop_first() =~= seq![yes]);
    if replies.len() >= 3 {
        assert(replies.drop_first().drop_first().drop_first() =~= replies.skip(3));
    }
}

proof fn kept_are_among(paths: Seq<Seq<u8>>, kept: Seq<Seq<u8>>, replies: Seq<ReplyView>)
    ensures
        repositories::keep_eligible_script(paths, kept).play(replies) matches Progress::Ended(
            Ending::Value(result),
            _,
        ) ==> {
            &&& kept.len() <= result.len() <= kept.len() + paths.len()
            &&& result.len() == kept.len() + paths.len() ==> result == kept + paths
            &&& forall|i: int|
                0 <= i < result.len() ==> kept.contains(#[trigger] result[i]) || paths.contains(
                    result[i],
                )
        },
    decreases paths.len(),
{
    if paths.len() == 0 {
        assert(kept + paths =~= kept);
    } else if let Progress::Ended(Ending::Value(fit), rest) = repositories::eligible_script(
        paths[0],
    ).play(replies) {
        let others = paths.drop_first();
        let more = if fit {
            kept.push(paths[0])
        } else {
            kept
        };
        kept_are_among(others, more, rest);
        if let Progress::Ended(Ending::Value(result), _) = repositories::keep_eligible_script(
            others,
            more,
        ).play(rest) {
            assert(kept.push(paths[0]) + others =~= kept + paths);
            assert forall|i: int| 0 <= i < result.len() implies kept.contains(#[trigger] result[i])
                || paths.contains(result[i]) by {
                if others.contains(result[i]) {
                    let j = others.index_of(result[i]);
                    assert(paths[j + 1] == result[i]);
                } else if more.contains(result[i]) && !kept.contains(result[i]) {
                    let j = more.index_of(result[i]);
                    if j < kept.len() {
                        assert(kept[j] == result[i]);
                    }
                    assert(paths[0] == result[i]);
                }
            }
        }
    }
}

proof fn none_unfit(names: Seq<Seq<char>>)
    ensures
        match repositories::first_unfit(names) {
            Some(name) => names.contains(name) && !repositories::plain_name(name),
            None => forall|i: int|
                0 <= i < names.len() ==> repositories::plain_name(#[trigger] names[i]),
        },
    decreases names.len(),
{
    if names.len() > 0 {
        let rest = names.drop_first();
        none_unfit(rest);
        if repositories::plain_name(names[0]) {
            match repositories::first_unfit(rest) {
                Some(name) => {
                    let i = rest.index_of(name);
                    assert(names[i + 1] == name);
                },
                None => {
                    assert forall|i: int| 0 <= i < names.len() implies repositories::plain_name(
                        #[trigger] names[i],
                    ) by {
                        if i > 0 {
                            assert(rest[i - 1] == names[i]);
                        }
                    }
                },
            }
        } else {
            assert(names.contains(names[0]));
        }
    }
}

/// Whether no path comes later than one behind it.
pub open spec fn in_byte_order(paths: Seq<Seq<u8>>) -> bool {
    forall|i: int, j: int|
        0 <= i < j < paths.len() ==> path::no_later(#[trigger] paths[i], #[trigger] paths[j])
}

proof fn sorted_is_in_order(paths: Seq<Seq<u8>>)
    requires
        vstd::relations::sorted_by(paths, path::byte_order()),
    ensures
        in_byte_order(paths),
{
    let order = path::byte_order();
    assert forall|i: int, j: int| 0 <= i < j < paths.len() implies path::no_later(
        #[trigger] paths[i],
        #[trigger] paths[j],
    ) by {
        assert(order(paths[i], paths[j]));
    }
}

/// The repositories that are selected come in order. If some are named, they are
/// those and no others, one for each name, and every name is that of an entry of
/// the root; if none is, they are entries of the root.
pub proof fn selected_repositories_are_in_order(
    root: Seq<u8>,
    names: Seq<Seq<char>>,
    replies: Seq<ReplyView>,
)
    ensures
        repositories::select_script(root, names).play(replies) matches Progress::Ended(
            Ending::Value(selected),
            _,
        ) ==> {
            &&& in_byte_order(selected)
            &&& if names.len() > 0 {
                &&& forall|i: int|
                    0 <= i < names.len() ==> repositories::plain_name(#[trigger] names[i])
                &&& selected.to_multiset() == repositories::paths_of(root, names).to_multiset()
            } else {
                &&& replies.len() >= 2
                &&& replies[1] matches ReplyView::Names(entries)
                &&& forall|i: int|
                    0 <= i < selected.len() ==> exists|j: int|
                        0 <= j < entries.len() && #[trigger] selected[i] == path::below_raw(
                            root,
                            #[trigger] entries[j],
                        )
            }
        },
{
    reveal(repositories::select_script);
    if let Progress::Ended(Ending::Value(selected), _) = repositories::select_script(
        root,
        names,
    ).play(replies) {
        assert(replies.len() > 0 && replies[0] == ReplyView::Flag(true));
        let rest = replies.drop_first();
        let found = repositories::candidates_script(root, names).play(rest);
        assert(found matches Progress::Ended(Ending::Value(_), _));
        if let Progress::Ended(Ending::Value(paths), later) = found {
            kept_are_among(paths, seq![], later);
            let kept = repositories::keep_eligible_script(paths, seq![]).play(later);
            assert(kept matches Progress::Ended(Ending::Value(_), _));
            if let Progress::Ended(Ending::Value(kept), _) = kept {
                assert(selected == path::in_order(kept));
                path::byte_order_is_total();
                kept.lemma_sort_by_ensures(path::byte_order());
                sorted_is_in_order(selected);
                if names.len() > 0 {
                    none_unfit(names);
                    assert(paths == repositories::paths_of(root, names));
                    assert(seq![] + paths =~= paths);
                } else if let ReplyView::Names(entries) = rest[0] {
                    assert forall|i: int| 0 <= i < selected.len() implies exists|j: int|
                        0 <= j < entries.len() && #[trigger] selected[i] == path::below_raw(
                            root,
                            #[trigger] entries[j],
                        ) by {
                        vstd::seq_lib::to_multiset_contains(selected, selected[i]);
                        vstd::seq_lib::to_multiset_contains(kept, selected[i]);
                        let k = kept.index_of(selected[i]);
                        assert(paths.contains(kept[k]));
                        let j = paths.index_of(kept[k]);
                        assert(paths[j] == path::below_raw(root, entries[j]));
                    }
                }
            }
        }
    }
}

/// A name that is not that of an entry of the root is refused before any
/// repository is looked at.
pub proof fn unfit_names_are_refused(root: Seq<u8>, names: Seq<Seq<char>>, unfit: int)
    requires
        0 <= unfit < names.len(),
        !repositories::plain_name(names[unfit]),
    ensures
        repositories::first_unfit(names) matches Some(name) && names.contains(name)
            && !repositories::plain_name(name) && repositories::select_script(root, names).play(
            seq![ReplyView::Flag(true)],
        ) == Progress::<Seq<Seq<u8>>>::Ended(
            Ending::Failed(seq!["invalid repository name: "@ + name]),
            seq![],
        ),
{
    none_unfit(names);
    reveal(repositories::select_script);
    assert(seq![ReplyView::Flag(true)].drop_first() =~= seq![]);
}

/// Whether a request runs a program.
pub open spec fn runs(request: RequestView, name: Seq<char>) -> bool {
    request matches RequestView::Run { program, arguments } && program == name
}

/// Whether a script came to its end without a failure.
pub open spec fn went_well(progress: Progress<()>) -> bool {
    progress matches Progress::Ended(Ending::Value(_), _)
}

/// The program that a step runs.
spec fn program_of(stage: Stage) -> Seq<char> {
    match stage {
        Stage::Pull => "git"@,
        Stage::Build => "make"@,
        Stage::Install => "make"@,
    }
}

proof fn each_asks<A>(
    items: Seq<A>,
    step: spec_fn(A) -> Script<()>,
    allowed: spec_fn(RequestView) -> bool,
)
    requires
        forall|item: A| (#[trigger] step(item)).only_asks(allowed),
    ensures
        Script::each(items, step).only_asks(allowed),
    decreases items.len(),
{
    broadcast use script::group_only_asks;

    if items.len() > 0 {
        each_asks(items.drop_first(), step, allowed);
        assert(step(items[0]).only_asks(allowed));
    }
}

proof fn stages_run(stage: Stage, repositories: Seq<Seq<u8>>)
    ensures
        repositories::all_through_script(stage, repositories).only_asks(
            |request: RequestView| request is Print || runs(request, program_of(stage)),
        ),
{
    broadcast use script::group_only_asks;

    let allowed = |request: RequestView| request is Print || runs(request, program_of(stage));
    let step = |repository: Seq<u8>| repositories::stage_script(stage, repository);
    assert forall|repository: Seq<u8>| (#[trigger] step(repository)).only_asks(allowed) by {
        reveal(repositories::stage_script);
        assert forall|line: Seq<char>| #[trigger] Script::print(line).only_asks(allowed) by {}
        assert forall|arguments: Seq<WordView>| #[trigger]
            process::run_script(program_of(stage), arguments).only_asks(allowed) by {}
    }
    each_asks(repositories, step, allowed);
}

proof fn programs_differ()
    ensures
        "git"@ != "make"@,
        "git"@ != "systemctl"@,
        "make"@ != "systemctl"@,
{
    reveal_strlit("git");
    reveal_strlit("make");
    reveal_strlit("systemctl");
    assert("git"@.len() == 3 && "make"@.len() == 4 && "systemctl"@.len() == 9);
}

/// No repository is built before all of them are pulled, and no service is
/// touched before all of them are installed.
pub proof fn updates_go_step_by_step(repositories: Seq<Seq<u8>>, replies: Seq<ReplyView>)
    ensures
        repositories::update_selected_script(repositories).play(replies) matches Progress::Waiting(
            request,
        ) ==> {
            let pulled = repositories::all_through_script(Stage::Pull, repositories);
            let built = pulled.and(repositories::all_through_script(Stage::Build, repositories));
            let installed = built.and(
                repositories::all_through_script(Stage::Install, repositories),
            );
            &&& runs(request, "make"@) ==> went_well(pulled.play(replies))
            &&& runs(request, "systemctl"@) ==> went_well(installed.play(replies))
        },
{
    reveal(Script::only_asks);
    programs_differ();
    let pull = repositories::all_through_script(Stage::Pull, repositories);
    let build = repositories::all_through_script(Stage::Build, repositories);
    let install = repositories::all_through_script(Stage::Install, repositories);
    stages_run(Stage::Pull, repositories);
    stages_run(Stage::Build, repositories);
    stages_run(Stage::Install, repositories);
    let to_pull = |request: RequestView|
        request is Print || runs(request, program_of(Stage::Pull));
    let to_build = |request: RequestView|
        request is Print || runs(request, program_of(Stage::Build));
    let to_install = |request: RequestView|
        request is Print || runs(request, program_of(Stage::Install));
    assert(pull.play(replies).asks_only(to_pull));
    if let Progress::Ended(Ending::Value(_), rest) = pull.play(replies) {
        assert(build.play(rest).asks_only(to_build));
        if let Progress::Ended(Ending::Value(_), last) = build.play(rest) {
            assert(install.play(last).asks_only(to_install));
        }
    }
}

/// The first step that fails ends the update: what it failed with is what the
/// update fails with, and nothing more is asked.
pub proof fn failed_steps_end_the_update(
    repositories: Seq<Seq<u8>>,
    replies: Seq<ReplyView>,
    trail: Trail,
    rest: Seq<ReplyView>,
)
    ensures
        ({
            let pulled = repositories::all_through_script(Stage::Pull, repositories);
            let built = pulled.and(repositories::all_through_script(Stage::Build, repositories));
            let installed = built.and(
                repositories::all_through_script(Stage::Install, repositories),
            );
            let failed = Progress::<()>::Ended(Ending::Failed(trail), rest);
            pulled.play(replies) == failed || built.play(replies) == failed || installed.play(
                replies,
            ) == failed ==> repositories::update_selected_script(repositories).play(replies)
                == failed
        }),
{
}

/// Once everything is installed, the units are read anew, all managed services
/// are restarted, and then their health is checked.
pub proof fn updates_end_with_the_services(
    repositories: Seq<Seq<u8>>,
    replies: Seq<ReplyView>,
    rest: Seq<ReplyView>,
)
    requires
        repositories::all_through_script(Stage::Pull, repositories).and(
            repositories::all_through_script(Stage::Build, repositories),
        ).and(repositories::all_through_script(Stage::Install, repositories)).play(replies)
            == Progress::<()>::Ended(Ending::Value(()), rest),
    ensures
        repositories::update_selected_script(repositories).play(replies) == process::run_script(
            "systemctl"@,
            seq![WordView::Text("daemon-reload"@)],
        ).and(services::restart_script(services::managed())).and(
            services::health_script(services::managed()),
        ).play(rest),
{
}

/// Repositories go through a step one after another: the first on the replies
/// that there are, the others on those that it leaves.
pub proof fn steps_are_taken_in_turn(
    stage: Stage,
    repositories: Seq<Seq<u8>>,
    replies: Seq<ReplyView>,
)
    requires
        repositories.len() > 0,
    ensures
        repositories::all_through_script(stage, repositories).play(replies)
            == match repositories::stage_script(stage, repositories[0]).play(replies) {
            Progress::Ended(Ending::Value(_), rest) => repositories::all_through_script(
                stage,
                repositories.drop_first(),
            ).play(rest),
            progress => progress,
        },
{
}

/// What is asked for a repository in one of the steps: first that the step be told,
/// then that it be taken.
pub open spec fn asked_of(stage: Stage, repository: Seq<u8>, told: bool) -> RequestView {
    let shown = encoding::lossy(repository);
    match stage {
        Stage::Pull => if !told {
            RequestView::Print { line: "pulling "@ + shown }
        } else {
            RequestView::Run {
                program: "git"@,
                arguments: seq![
                    WordView::Text("-C"@),
                    WordView::Raw(repository),
                    WordView::Text("pull"@),
                    WordView::Text("--ff-only"@),
                ],
            }
        },
        Stage::Build => if !told {
            RequestView::Print { line: "building "@ + shown }
        } else {
            RequestView::Run {
                program: "make"@,
                arguments: seq![WordView::Text("-C"@), WordView::Raw(repository)],
            }
        },
        Stage::Install => if !told {
            RequestView::Print { line: "installing "@ + shown }
        } else {
            RequestView::Run {
                program: "make"@,
                arguments: seq![
                    WordView::Text("-C"@),
                    WordView::Raw(repository),
                    WordView::Text("install"@),
                ],
            }
        },
    }
}

/// What is asked at some point of a step that all repositories go through.
pub open spec fn asked_in_stage(
    stage: Stage,
    repositories: Seq<Seq<u8>>,
    count: int,
) -> RequestView {
    asked_of(stage, repositories[count / 2], count % 2 == 1)
}

/// What is asked at some point of an update, counted from where the repositories are
/// selected: all are pulled, then all are built, then all are installed, then the
/// units are read anew, and then all managed services are restarted.
pub open spec fn asked_in_update(repositories: Seq<Seq<u8>>, count: int) -> RequestView {
    let each = 2 * repositories.len();
    if count < each {
        asked_in_stage(Stage::Pull, repositories, count)
    } else if count < 2 * each {
        asked_in_stage(Stage::Build, repositories, count - each)
    } else if count < 3 * each {
        asked_in_stage(Stage::Install, repositories, count - 2 * each)
    } else if count == 3 * each {
        RequestView::Run {
            program: "systemctl"@,
            arguments: seq![WordView::Text("daemon-reload"@)],
        }
    } else {
        RequestView::Run {
            program: "systemctl"@,
            arguments: seq![
                WordView::Text("restart"@),
                WordView::Text("salyut-site.service"@),
                WordView::Text("salyut-bbsd.service"@),
                WordView::Text("postfix.service"@),
                WordView::Text("dovecot.service"@),
                WordView::Text("caddy.service"@),
            ],
        }
    }
}

/// Whether a reply lets an update go on: a line was printed, or a program succeeded.
pub open spec fn lets_go_on(request: RequestView, reply: ReplyView) -> bool {
    if request is Run {
        conversation::is_success(reply)
    } else {
        reply is Done
    }
}

/// How an update ends on a reply that does not let it go on.
pub open spec fn ends_on(request: RequestView, reply: ReplyView) -> Ending<()> {
    match (request, reply) {
        (
            RequestView::Run { program, arguments },
            ReplyView::Exited { code, status },
        ) => Ending::Failed(seq![program + " failed with "@ + status]),
        (
            RequestView::Run { program, arguments },
            ReplyView::Error { not_found, cause },
        ) => Ending::Failed(seq!["run "@ + program, cause]),
        _ => Ending::Garbled,
    }
}

/// Whether the first `count` replies let a step go on.
spec fn stage_fine(
    stage: Stage,
    repositories: Seq<Seq<u8>>,
    replies: Seq<ReplyView>,
    count: int,
) -> bool {
    forall|i: int|
        #![trigger replies[i]]
        0 <= i < count ==> lets_go_on(asked_in_stage(stage, repositories, i), replies[i])
}

proof fn stage_goes(
    stage: Stage,
    repositories: Seq<Seq<u8>>,
    replies: Seq<ReplyView>,
    count: int,
)
    requires
        0 <= count <= replies.len(),
        count <= 2 * repositories.len(),
        stage_fine(stage, repositories, replies, count),
        count == replies.len() || count == 2 * repositories.len() || !lets_go_on(
            asked_in_stage(stage, repositories, count),
            replies[count],
        ),
    ensures
        repositories::all_through_script(stage, repositories).play(replies) == if count == 2
            * repositories.len() {
            Progress::<()>::Ended(Ending::Value(()), replies.skip(count))
        } else if count == replies.len() {
            Progress::<()>::Waiting(asked_in_stage(stage, repositories, count))
        } else {
            Progress::<()>::Ended(
                ends_on(asked_in_stage(stage, repositories, count), replies[count]),
                replies.skip(count + 1),
            )
        },
    decreases repositories.len(),
{
    reveal(repositories::stage_script);
    if repositories.len() == 0 {
        assert(replies.skip(0) =~= replies);
    } else {
        let first = repositories[0];
        let others = repositories.drop_first();
        assert(asked_in_stage(stage, repositories, 0) == asked_of(stage, first, false));
        assert(asked_in_stage(stage, repositories, 1) == asked_of(stage, first, true));
        if count < 2 {
            if count == 1 {
                assert(lets_go_on(asked_in_stage(stage, repositories, 0), replies[0]));
                if replies.len() > 1 {
                    assert(replies.drop_first().drop_first() =~= replies.skip(2));
                    assert(replies.drop_first()[0] == replies[1]);
                }
            } else if replies.len() > 0 {
                assert(replies.drop_first() =~= replies.skip(1));
            }
        } else {
            assert(lets_go_on(asked_in_stage(stage, repositories, 0), replies[0]));
            assert(lets_go_on(asked_in_stage(stage, repositories, 1), replies[1]));
            let later = replies.skip(2);
            assert(replies.drop_first().drop_first() =~= later);
            assert(replies.drop_first()[0] == replies[1]);
            assert forall|i: int|
                #![trigger later[i]]
                0 <= i < count - 2 implies lets_go_on(
                asked_in_stage(stage, others, i),
                later[i],
            ) by {
                assert(lets_go_on(asked_in_stage(stage, repositories, i + 2), replies[i + 2]));
                assert(repositories[(i + 2) / 2] == others[i / 2]);
            }
            if count < 2 * repositories.len() {
                assert(repositories[count / 2] == others[(count - 2) / 2]);
            }
            stage_goes(stage, others, later, count - 2);
            assert(later.skip(count - 2) =~= replies.skip(count));
            if count < replies.len() {
                assert(later.skip(count - 1) =~= replies.skip(count + 1));
            }
            assert(repositories::stage_script(stage, first).play(replies) == Progress::<()>::Ended(
                Ending::Value(()),
                later,
            ));
            steps_are_taken_in_turn(stage, repositories, replies);
        }
    }
}

/// Whether the first `count` replies after the selection let an update go on.
pub open spec fn update_fine(
    repositories: Seq<Seq<u8>>,
    replies: Seq<ReplyView>,
    count: int,
) -> bool {
    forall|i: int|
        #![trigger replies[i]]
        0 <= i < count ==> lets_go_on(asked_in_update(repositories, i), replies[i])
}

proof fn units_are_these()
    ensures
        seq![WordView::Text("restart"@)] + services::units(services::managed()) == seq![
            WordView::Text("restart"@),
            WordView::Text("salyut-site.service"@),
            WordView::Text("salyut-bbsd.service"@),
            WordView::Text("postfix.service"@),
            WordView::Text("dovecot.service"@),
            WordView::Text("caddy.service"@),
        ],
{
    reveal_strlit(".service");
    reveal_strlit("salyut-site");
    reveal_strlit("salyut-bbsd");
    reveal_strlit("postfix");
    reveal_strlit("dovecot");
    reveal_strlit("caddy");
    reveal_strlit("salyut-site.service");
    reveal_strlit("salyut-bbsd.service");
    reveal_strlit("postfix.service");
    reveal_strlit("dovecot.service");
    reveal_strlit("caddy.service");
    let units = services::units(services::managed());
    assert("salyut-site"@ + ".service"@ =~= "salyut-site.service"@);
    assert("salyut-bbsd"@ + ".service"@ =~= "salyut-bbsd.service"@);
    assert("postfix"@ + ".service"@ =~= "postfix.service"@);
    assert("dovecot"@ + ".service"@ =~= "dovecot.service"@);
    assert("caddy"@ + ".service"@ =~= "caddy.service"@);
    assert(units[0] == WordView::Text("salyut-site.service"@));
    assert(units[1] == WordView::Text("salyut-bbsd.service"@));
    assert(units[2] == WordView::Text("postfix.service"@));
    assert(units[3] == WordView::Text("dovecot.service"@));
    assert(units[4] == WordView::Text("caddy.service"@));
    assert(seq![WordView::Text("restart"@)] + units =~= seq![
        WordView::Text("restart"@),
        WordView::Text("salyut-site.service"@),
        WordView::Text("salyut-bbsd.service"@),
        WordView::Text("postfix.service"@),
        WordView::Text("dovecot.service"@),
        WordView::Text("caddy.service"@),
    ]);
}

/// How far replies take repositories through all the steps.
spec fn through_all(
    repositories: Seq<Seq<u8>>,
    replies: Seq<ReplyView>,
    count: int,
    limit: int,
) -> Progress<()> {
    if count == limit {
        Progress::Ended(Ending::Value(()), replies.skip(count))
    } else if count == replies.len() {
        Progress::Waiting(asked_in_update(repositories, count))
    } else {
        Progress::Ended(
            ends_on(asked_in_update(repositories, count), replies[count]),
            replies.skip(count + 1),
        )
    }
}

/// Whether `count` is where replies stop to let an update go on, or a limit.
spec fn stops_at(
    repositories: Seq<Seq<u8>>,
    replies: Seq<ReplyView>,
    count: int,
    limit: int,
) -> bool {
    &&& 0 <= count <= replies.len()
    &&& count <= limit
    &&& update_fine(repositories, replies, count)
    &&& count == replies.len() || count == limit || !lets_go_on(
        asked_in_update(repositories, count),
        replies[count],
    )
}

proof fn next_stage(
    before: Script<()>,
    stage: Stage,
    repositories: Seq<Seq<u8>>,
    replies: Seq<ReplyView>,
    count: int,
    start: int,
)
    requires
        start == match stage {
            Stage::Pull => 0,
            Stage::Build => 2 * repositories.len(),
            Stage::Install => 4 * repositories.len(),
        },
        stops_at(repositories, replies, count, start + 2 * repositories.len()),
        count < start ==> before.play(replies) == through_all(repositories, replies, count, start),
        count >= start ==> before.play(replies) == Progress::<()>::Ended(
            Ending::Value(()),
            replies.skip(start),
        ),
    ensures
        before.and(repositories::all_through_script(stage, repositories)).play(replies)
            == through_all(repositories, replies, count, start + 2 * repositories.len()),
{
    if count >= start {
        let rest = replies.skip(start);
        let more = count - start;
        assert(stage_fine(stage, repositories, rest, more)) by {
            assert forall|i: int|
                #![trigger rest[i]]
                0 <= i < more implies lets_go_on(
                asked_in_stage(stage, repositories, i),
                rest[i],
            ) by {
                assert(lets_go_on(asked_in_update(repositories, start + i), replies[start + i]));
            }
        }
        if more < 2 * repositories.len() {
            assert(asked_in_update(repositories, count) == asked_in_stage(
                stage,
                repositories,
                more,
            ));
            if count < replies.len() {
                assert(rest[more] == replies[count]);
            }
        }
        stage_goes(stage, repositories, rest, more);
        assert(rest.skip(more) =~= replies.skip(count));
        if count < replies.len() {
            assert(rest.skip(more + 1) =~= replies.skip(count + 1));
        }
    }
}

proof fn stages_go(repositories: Seq<Seq<u8>>, replies: Seq<ReplyView>, count: int)
    requires
        stops_at(repositories, replies, count, 6 * repositories.len() as int),
    ensures
        repositories::all_through_script(Stage::Pull, repositories).and(
            repositories::all_through_script(Stage::Build, repositories),
        ).and(repositories::all_through_script(Stage::Install, repositories)).play(replies)
            == through_all(repositories, replies, count, 6 * repositories.len() as int),
{
    let each = 2 * repositories.len() as int;
    let pull = repositories::all_through_script(Stage::Pull, repositories);
    let build = repositories::all_through_script(Stage::Build, repositories);
    let c1 = if count < each {
        count
    } else {
        each
    };
    assert(replies.skip(0) =~= replies);
    assert(stage_fine(Stage::Pull, repositories, replies, c1)) by {
        assert forall|i: int|
            #![trigger replies[i]]
            0 <= i < c1 implies lets_go_on(
            asked_in_stage(Stage::Pull, repositories, i),
            replies[i],
        ) by {
            assert(lets_go_on(asked_in_update(repositories, i), replies[i]));
        }
    }
    stage_goes(Stage::Pull, repositories, replies, c1);
    let c2 = if count < 2 * each {
        count
    } else {
        2 * each
    };
    next_stage(pull, Stage::Build, repositories, replies, c2, each);
    next_stage(pull.and(build), Stage::Install, repositories, replies, count, 2 * each);
}

proof fn selected_go(repositories: Seq<Seq<u8>>, replies: Seq<ReplyView>, count: int)
    requires
        stops_at(repositories, replies, count, 6 * repositories.len() as int + 2),
    ensures
        repositories::update_selected_script(repositories).play(replies) == if count == 6
            * repositories.len() + 2 {
            services::health_script(services::managed()).play(replies.skip(count))
        } else {
            through_all(repositories, replies, count, 6 * repositories.len() as int + 2)
        },
{
    let all = 6 * repositories.len() as int;
    let c = if count < all {
        count
    } else {
        all
    };
    stages_go(repositories, replies, c);
    units_are_these();
    if count >= all {
        let rest = replies.skip(all);
        if rest.len() > 0 {
            assert(rest.drop_first() =~= replies.skip(all + 1));
            assert(rest[0] == replies[all]);
        }
        if count > all {
            assert(lets_go_on(asked_in_update(repositories, all), replies[all]));
            let later = replies.skip(all + 1);
            if later.len() > 0 {
                assert(later.drop_first() =~= replies.skip(all + 2));
                assert(later[0] == replies[all + 1]);
            }
            if count > all + 1 {
                assert(lets_go_on(asked_in_update(repositories, all + 1), replies[all + 1]));
            }
        }
    }
}

/// An update does the same with its repositories however they were selected: see
/// [`asked_in_update`]. It goes on as long as lines are printed and programs succeed,
/// ends on the first reply that tells otherwise, and checks the health of all managed
/// services once they are restarted. Without repositories it fails.
pub proof fn updates_follow_the_selection(
    root: Seq<u8>,
    names: Seq<Seq<char>>,
    replies: Seq<ReplyView>,
    selected: Seq<Seq<u8>>,
    rest: Seq<ReplyView>,
    count: int,
)
    requires
        repositories::select_script(root, names).play(replies) == Progress::<Seq<Seq<u8>>>::Ended(
            Ending::Value(selected),
            rest,
        ),
        0 <= count <= rest.len(),
        count <= 6 * selected.len() + 2,
        update_fine(selected, rest, count),
        count == rest.len() || count == 6 * selected.len() + 2 || !lets_go_on(
            asked_in_update(selected, count),
            rest[count],
        ),
    ensures
        repositories::update_script(root, names).play(replies) == if selected.len() == 0 {
            Progress::<()>::Ended(Ending::Failed(seq!["no eligible repositories found"@]), rest)
        } else if count == 6 * selected.len() + 2 {
            services::health_script(services::managed()).play(rest.skip(count))
        } else if count == rest.len() {
            Progress::<()>::Waiting(asked_in_update(selected, count))
        } else {
            Progress::<()>::Ended(
                ends_on(asked_in_update(selected, count), rest[count]),
                rest.skip(count + 1),
            )
        },
{
    selected_go(selected, rest, count);
}

/// A selection that does not end with a value is where an update ends, or waits.
pub proof fn updates_begin_with_the_selection(
    root: Seq<u8>,
    names: Seq<Seq<char>>,
    replies: Seq<ReplyView>,
)
    ensures
        match repositories::select_script(root, names).play(replies) {
            Progress::Waiting(request) => repositories::update_script(root, names).play(replies)
                == Progress::<()>::Waiting(request),
            Progress::Ended(Ending::Failed(trail), rest) => repositories::update_script(
                root,
                names,
            ).play(replies) == Progress::<()>::Ended(Ending::Failed(trail), rest),
            Progress::Ended(Ending::Garbled, rest) => repositories::update_script(
                root,
                names,
            ).play(replies) == Progress::<()>::Ended(Ending::Garbled, rest),
            Progress::Ended(Ending::Value(_), _) => true,
        },
{
}

proof fn first_trouble(selected: Seq<Seq<u8>>, rest: Seq<ReplyView>, limit: int) -> (count: int)
    requires
        0 <= limit <= rest.len(),
    ensures
        0 <= count <= limit,
        update_fine(selected, rest, count),
        count == limit || !lets_go_on(asked_in_update(selected, count), rest[count]),
    decreases limit,
{
    if limit == 0 {
        0
    } else {
        let count = first_trouble(selected, rest, limit - 1);
        if count == limit - 1 && lets_go_on(asked_in_update(selected, count), rest[count]) {
            limit
        } else {
            count
        }
    }
}

/// An update that goes well selected some repositories, pulled, built and installed
/// every one of them, restarted all managed services after that, and found them all
/// healthy after that.
pub proof fn successful_updates_are_complete(
    root: Seq<u8>,
    names: Seq<Seq<char>>,
    replies: Seq<ReplyView>,
    last: Seq<ReplyView>,
) -> (found: (Seq<Seq<u8>>, Seq<ReplyView>))
    requires
        repositories::update_script(root, names).play(replies) == Progress::<()>::Ended(
            Ending::Value(()),
            last,
        ),
    ensures
        ({
            let script = repositories::update_script(root, names);
            let (selected, rest) = found;
            let start = replies.len() - rest.len();
            let count = 6 * selected.len() as int + 2;
            &&& repositories::select_script(root, names).play(replies) == Progress::<
                Seq<Seq<u8>>,
            >::Ended(Ending::Value(selected), rest)
            &&& selected.len() > 0
            &&& 0 <= start && start + count <= replies.len()
            &&& forall|k: int|
                #![trigger asked_in_update(selected, k)]
                0 <= k < count ==> conversation::asks_at(
                    script,
                    replies,
                    start + k,
                    asked_in_update(selected, k),
                ) && lets_go_on(asked_in_update(selected, k), replies[start + k])
            &&& services::health_script(services::managed()).play(replies.skip(start + count))
                == Progress::<()>::Ended(Ending::Value(()), last)
        }),
{
    let script = repositories::update_script(root, names);
    let select = repositories::select_script(root, names);
    causality::select_is_causal(root, names);
    match select.play(replies) {
        Progress::Ended(Ending::Value(selected), rest) => {
            let whole: int = 6 * selected.len() as int + 2;
            let limit = if rest.len() < whole {
                rest.len() as int
            } else {
                whole
            };
            let count = first_trouble(selected, rest, limit);
            updates_follow_the_selection(root, names, replies, selected, rest, count);
            assert(selected.len() > 0);
            assert(count == whole);
            script::lemma_over_before(select, replies, Ending::Value(selected), rest, 0);
            let start = replies.len() - rest.len();
            assert forall|k: int|
                #![trigger asked_in_update(selected, k)]
                0 <= k < whole implies conversation::asks_at(
                script,
                replies,
                start + k,
                asked_in_update(selected, k),
            ) && lets_go_on(asked_in_update(selected, k), replies[start + k]) by {
                assert(rest[k] == replies[start + k]);
                script::lemma_over_before(select, replies, Ending::Value(selected), rest, k);
                assert(update_fine(selected, rest.take(k), k)) by {
                    assert forall|j: int|
                        #![trigger rest.take(k)[j]]
                        0 <= j < k implies lets_go_on(
                        asked_in_update(selected, j),
                        rest.take(k)[j],
                    ) by {
                        assert(rest.take(k)[j] == rest[j]);
                    }
                }
                updates_follow_the_selection(
                    root,
                    names,
                    replies.take(start + k),
                    selected,
                    rest.take(k),
                    k,
                );
            }
            assert(replies.skip(start + whole) =~= rest.skip(whole));
            (selected, rest)
        },
        _ => {
            updates_begin_with_the_selection(root, names, replies);
            (seq![], seq![])
        },
    }
}

/// What is asked of a path to find out whether it is that of a repository: whether
/// it is a directory, whether there is a `.git` in it, and whether there is a regular
/// file `Makefile` in it.
pub open spec fn asked_of_path(path: Seq<u8>) -> Seq<RequestView> {
    seq![
        RequestView::IsDirectory { place: WordView::Raw(path) },
        RequestView::Exists {
            place: WordView::Raw(path::below_raw(path, vstd::utf8::encode_utf8(".git"@))),
        },
        RequestView::IsFile {
            place: WordView::Raw(path::below_raw(path, vstd::utf8::encode_utf8("Makefile"@))),
        },
    ]
}

/// A path is eligible if and only if the three questions about it are all answered
/// with yes; the first no is the end of it.
pub proof fn eligibility_takes_three_answers(path: Seq<u8>, replies: Seq<ReplyView>, count: int)
    requires
        0 <= count < 3,
        count <= replies.len(),
        forall|i: int| 0 <= i < count ==> #[trigger] replies[i] == ReplyView::Flag(true),
    ensures
        ({
            let script = repositories::eligible_script(path);
            if replies.len() == count {
                script.play(replies) == Progress::<bool>::Waiting(asked_of_path(path)[count])
            } else {
                match replies[count] {
                    ReplyView::Flag(false) => script.play(replies) == Progress::<bool>::Ended(
                        Ending::Value(false),
                        replies.skip(count + 1),
                    ),
                    ReplyView::Flag(true) => count == 2 ==> script.play(replies) == Progress::<
                        bool,
                    >::Ended(Ending::Value(true), replies.skip(3)),
                    _ => script.play(replies) == Progress::<bool>::Ended(
                        Ending::Garbled,
                        replies.skip(count + 1),
                    ),
                }
            }
        }),
{
    reveal(repositories::eligible_script);
    if count > 0 {
        assert(replies[0] == ReplyView::Flag(true));
    }
    if count > 1 {
        assert(replies[1] == ReplyView::Flag(true));
        assert(replies.drop_first()[0] == replies[1]);
    }
    if replies.len() > 0 {
        assert(replies.drop_first() =~= replies.skip(1));
    }
    if replies.len() > 1 {
        assert(replies.drop_first().drop_first() =~= replies.skip(2));
        assert(replies.drop_first()[0] == replies[1]);
    }
    if replies.len() > 2 {
        assert(replies.drop_first().drop_first().drop_first() =~= replies.skip(3));
        assert(replies.drop_first().drop_first()[0] == replies[2]);
    }
}

/// The questions about some paths, all of them and in their order, ending with the
/// answers.
pub open spec fn eligibility_script(paths: Seq<Seq<u8>>) -> Script<Seq<bool>>
    decreases paths.len(),
{
    if paths.len() == 0 {
        Script::give(seq![])
    } else {
        repositories::eligible_script(paths[0]).and_then(
            |fit: bool|
                eligibility_script(paths.drop_first()).and_then(
                    |others: Seq<bool>| Script::give(seq![fit] + others),
                ),
        )
    }
}

/// Those of some items for which the answer is `wanted`, in their order.
pub open spec fn those<A>(items: Seq<A>, answers: Seq<bool>, wanted: bool) -> Seq<A>
    decreases items.len(),
{
    if items.len() == 0 || answers.len() == 0 {
        seq![]
    } else {
        let others = those(items.drop_first(), answers.drop_first(), wanted);
        if answers[0] == wanted {
            seq![items[0]] + others
        } else {
            others
        }
    }
}

proof fn kept_are_those(paths: Seq<Seq<u8>>, kept: Seq<Seq<u8>>, replies: Seq<ReplyView>)
    ensures
        repositories::keep_eligible_script(paths, kept).play(replies)
            == match eligibility_script(paths).play(replies) {
            Progress::Waiting(request) => Progress::<Seq<Seq<u8>>>::Waiting(request),
            Progress::Ended(Ending::Value(answers), rest) => Progress::<Seq<Seq<u8>>>::Ended(
                Ending::Value(kept + those(paths, answers, true)),
                rest,
            ),
            Progress::Ended(Ending::Failed(trail), rest) => Progress::<Seq<Seq<u8>>>::Ended(
                Ending::Failed(trail),
                rest,
            ),
            Progress::Ended(Ending::Garbled, rest) => Progress::<Seq<Seq<u8>>>::Ended(
                Ending::Garbled,
                rest,
            ),
        },
    decreases paths.len(),
{
    if paths.len() == 0 {
        assert(kept + seq![] =~= kept);
    } else if let Progress::Ended(Ending::Value(fit), rest) = repositories::eligible_script(
        paths[0],
    ).play(replies) {
        let others = paths.drop_first();
        let more = if fit {
            kept.push(paths[0])
        } else {
            kept
        };
        kept_are_those(others, more, rest);
        if let Progress::Ended(Ending::Value(answers), last) = eligibility_script(others).play(
            rest,
        ) {
            assert((seq![fit] + answers).drop_first() =~= answers);
            assert(more + those(others, answers, true) =~= kept + those(
                paths,
                seq![fit] + answers,
                true,
            ));
        }
    }
}

proof fn found_are_those(
    root: Seq<u8>,
    names: Seq<Seq<char>>,
    found: Seq<Seq<char>>,
    replies: Seq<ReplyView>,
)
    ensures
        repositories::find_ineligible_script(root, names, found).play(replies)
            == match eligibility_script(named_paths(root, names)).play(replies) {
            Progress::Waiting(request) => Progress::<Seq<Seq<char>>>::Waiting(request),
            Progress::Ended(Ending::Value(answers), rest) => Progress::<Seq<Seq<char>>>::Ended(
                Ending::Value(found + those(names, answers, false)),
                rest,
            ),
            Progress::Ended(Ending::Failed(trail), rest) => Progress::<Seq<Seq<char>>>::Ended(
                Ending::Failed(trail),
                rest,
            ),
            Progress::Ended(Ending::Garbled, rest) => Progress::<Seq<Seq<char>>>::Ended(
                Ending::Garbled,
                rest,
            ),
        },
    decreases names.len(),
{
    let paths = named_paths(root, names);
    if names.len() == 0 {
        assert(found + seq![] =~= found);
    } else {
        let others = names.drop_first();
        assert(paths.drop_first() =~= named_paths(root, others));
        if let Progress::Ended(Ending::Value(fit), rest) = repositories::eligible_script(
            paths[0],
        ).play(replies) {
            let more = if fit {
                found
            } else {
                found.push(names[0])
            };
            found_are_those(root, others, more, rest);
            if let Progress::Ended(Ending::Value(answers), last) = eligibility_script(
                named_paths(root, others),
            ).play(rest) {
                assert((seq![fit] + answers).drop_first() =~= answers);
                assert(more + those(others, answers, false) =~= found + those(
                    names,
                    seq![fit] + answers,
                    false,
                ));
            }
        }
    }
}

/// The paths of named entries of a directory.
pub open spec fn named_paths(root: Seq<u8>, names: Seq<Seq<char>>) -> Seq<Seq<u8>> {
    Seq::new(names.len(), |i: int| path::below_raw(root, vstd::utf8::encode_utf8(names[i])))
}

/// The paths of the entries of a directory.
pub open spec fn entry_paths(root: Seq<u8>, entries: Seq<Seq<u8>>) -> Seq<Seq<u8>> {
    Seq::new(entries.len(), |i: int| path::below_raw(root, entries[i]))
}

/// Whether a name is that of an entry of a directory.
pub open spec fn names_an_entry(name: Seq<char>) -> bool {
    &&& name.len() > 0
    &&& name != "."@
    &&& name != ".."@
    &&& !name.contains('/')
    &&& !name.contains('\0')
}

/// A repository name is accepted if and only if it is that of an entry of a
/// directory.
pub proof fn repository_names_are_entries(name: Seq<char>)
    ensures
        repositories::plain_name(name) <==> names_an_entry(name),
{
    if repositories::plain_name(name) {
        assert(!name.contains('/'));
        assert(!name.contains('\0'));
    }
    if names_an_entry(name) {
        assert forall|i: int| 0 <= i < name.len() implies name[i] != '/' && name[i] != '\0' by {
            assert(name.contains(name[i]));
        }
    }
}

proof fn unfit_is_first(names: Seq<Seq<char>>)
    ensures
        match repositories::first_unfit(names) {
            Some(name) => exists|i: int|
                0 <= i < names.len() && name == names[i] && !names_an_entry(#[trigger] names[i])
                    && forall|j: int| 0 <= j < i ==> names_an_entry(#[trigger] names[j]),
            None => forall|i: int| 0 <= i < names.len() ==> names_an_entry(#[trigger] names[i]),
        },
    decreases names.len(),
{
    if names.len() > 0 {
        let rest = names.drop_first();
        repository_names_are_entries(names[0]);
        unfit_is_first(rest);
        if repositories::plain_name(names[0]) {
            match repositories::first_unfit(rest) {
                Some(name) => {
                    let i = choose|i: int|
                        0 <= i < rest.len() && name == rest[i] && !names_an_entry(
                            #[trigger] rest[i],
                        ) && forall|j: int| 0 <= j < i ==> names_an_entry(#[trigger] rest[j]);
                    assert(names[i + 1] == rest[i]);
                    assert forall|j: int| 0 <= j < i + 1 implies names_an_entry(
                        #[trigger] names[j],
                    ) by {
                        if j > 0 {
                            assert(names[j] == rest[j - 1]);
                        }
                    }
                },
                None => {
                    assert forall|i: int| 0 <= i < names.len() implies names_an_entry(
                        #[trigger] names[i],
                    ) by {
                        if i > 0 {
                            assert(names[i] == rest[i - 1]);
                        }
                    }
                },
            }
        } else {
            assert(!names_an_entry(names[0]));
        }
    }
}

/// What is asked first where repositories are selected, and where nothing is
/// selected: the root must be a directory and, if no repository is named, one that
/// can be read; if some are named, each must be that of an entry.
pub proof fn selections_start_at_the_root(
    root: Seq<u8>,
    names: Seq<Seq<char>>,
    replies: Seq<ReplyView>,
)
    ensures
        ({
            let script = repositories::select_script(root, names);
            let shown = encoding::lossy(root);
            let rest = replies.drop_first();
            &&& script.play(seq![]) == Progress::<Seq<Seq<u8>>>::Waiting(
                RequestView::IsDirectory { place: WordView::Raw(root) },
            )
            &&& replies.len() > 0 ==> match replies[0] {
                ReplyView::Flag(true) => {
                    &&& names.len() == 0 && rest.len() == 0 ==> script.play(replies) == Progress::<
                        Seq<Seq<u8>>,
                    >::Waiting(RequestView::ListDirectory { directory: root })
                    &&& names.len() == 0 && rest.len() > 0 ==> match rest[0] {
                        ReplyView::Names(_) => true,
                        ReplyView::Error { not_found, cause } => script.play(replies) == Progress::<
                            Seq<Seq<u8>>,
                        >::Ended(
                            Ending::Failed(seq!["read "@ + shown, cause]),
                            rest.drop_first(),
                        ),
                        _ => script.play(replies) == Progress::<Seq<Seq<u8>>>::Ended(
                            Ending::Garbled,
                            rest.drop_first(),
                        ),
                    }
                },
                ReplyView::Flag(false) => script.play(replies) == Progress::<Seq<Seq<u8>>>::Ended(
                    Ending::Failed(seq!["source root is not a directory: "@ + shown]),
                    rest,
                ),
                _ => script.play(replies) == Progress::<Seq<Seq<u8>>>::Ended(Ending::Garbled, rest),
            }
        }),
{
    reveal(repositories::select_script);
}

/// Whether a selection that waits for what the questions wait for, and keeps the
/// eligible paths, in order.
pub open spec fn keeps_eligible(
    progress: Progress<Seq<Seq<u8>>>,
    paths: Seq<Seq<u8>>,
    replies: Seq<ReplyView>,
) -> bool {
    match eligibility_script(paths).play(replies) {
        Progress::Waiting(request) => progress == Progress::<Seq<Seq<u8>>>::Waiting(request),
        Progress::Ended(Ending::Value(answers), rest) => {
            &&& progress matches Progress::Ended(Ending::Value(selected), left)
            &&& left == rest
            &&& in_byte_order(selected)
            &&& selected.to_multiset() == those(paths, answers, true).to_multiset()
        },
        Progress::Ended(Ending::Failed(trail), rest) => false,
        Progress::Ended(Ending::Garbled, rest) => progress == Progress::<Seq<Seq<u8>>>::Ended(
            Ending::Garbled,
            rest,
        ),
    }
}

proof fn questions_do_not_fail(paths: Seq<Seq<u8>>, replies: Seq<ReplyView>)
    ensures
        eligibility_script(paths).play(replies) matches Progress::Ended(ending, _) ==> !(ending
            is Failed),
        eligibility_script(paths).play(replies) matches Progress::Ended(Ending::Value(answers), _)
            ==> answers.len() == paths.len(),
    decreases paths.len(),
{
    reveal(repositories::eligible_script);
    if paths.len() > 0 {
        if let Progress::Ended(Ending::Value(fit), rest) = repositories::eligible_script(
            paths[0],
        ).play(replies) {
            questions_do_not_fail(paths.drop_first(), rest);
        }
    }
}

/// Without names, every entry of the root is asked about, and those that are
/// eligible are selected, all of them and in order.
pub proof fn every_eligible_entry_is_selected(
    root: Seq<u8>,
    entries: Seq<Seq<u8>>,
    replies: Seq<ReplyView>,
)
    requires
        replies.len() >= 2,
        replies[0] == ReplyView::Flag(true),
        replies[1] == ReplyView::Names(entries),
    ensures
        keeps_eligible(
            repositories::select_script(root, seq![]).play(replies),
            entry_paths(root, entries),
            replies.skip(2),
        ),
{
    reveal(repositories::select_script);
    let paths = entry_paths(root, entries);
    let rest = replies.skip(2);
    assert(replies.drop_first().drop_first() =~= rest);
    assert(replies.drop_first()[0] == replies[1]);
    assert(entries.map_values(|entry: Seq<u8>| path::below_raw(root, entry)) =~= paths);
    kept_are_those(paths, seq![], rest);
    questions_do_not_fail(paths, rest);
    if let Progress::Ended(Ending::Value(answers), _) = eligibility_script(paths).play(rest) {
        let kept = those(paths, answers, true);
        assert(seq![] + kept =~= kept);
        path::byte_order_is_total();
        kept.lemma_sort_by_ensures(path::byte_order());
        sorted_is_in_order(path::in_order(kept));
    }
}

/// With names, each must be that of an entry of the root, and the first that is not
/// is told. Every one of them is asked about. If all are eligible all are selected,
/// in order; if not, they are asked about once more, and those that are not eligible
/// are told, in the order in which they were named.
pub proof fn every_named_repository_must_be_eligible(
    root: Seq<u8>,
    names: Seq<Seq<char>>,
    replies: Seq<ReplyView>,
)
    requires
        names.len() > 0,
        replies.len() > 0,
        replies[0] == ReplyView::Flag(true),
    ensures
        ({
            let progress = repositories::select_script(root, names).play(replies);
            let paths = named_paths(root, names);
            let rest = replies.drop_first();
            let unfit = exists|i: int|
                0 <= i < names.len() && !names_an_entry(#[trigger] names[i]);
            &&& unfit ==> exists|i: int|
                0 <= i < names.len() && !names_an_entry(#[trigger] names[i]) && (forall|j: int|
                    0 <= j < i ==> names_an_entry(#[trigger] names[j])) && progress
                    == Progress::<Seq<Seq<u8>>>::Ended(
                    Ending::Failed(seq!["invalid repository name: "@ + names[i]]),
                    rest,
                )
            &&& !unfit ==> match eligibility_script(paths).play(rest) {
                Progress::Ended(Ending::Value(answers), last) => if answers.contains(false) {
                    match eligibility_script(paths).play(last) {
                        Progress::Waiting(request) => progress == Progress::<
                            Seq<Seq<u8>>,
                        >::Waiting(request),
                        Progress::Ended(Ending::Value(again), end) => progress == Progress::<
                            Seq<Seq<u8>>,
                        >::Ended(
                            Ending::Failed(
                                seq![
                                    "not Git repositories with Makefiles under "@
                                        + encoding::lossy(root) + ": "@ + text::joined(
                                        those(names, again, false),
                                        ", "@,
                                    ),
                                ],
                            ),
                            end,
                        ),
                        Progress::Ended(_, end) => progress == Progress::<Seq<Seq<u8>>>::Ended(
                            Ending::Garbled,
                            end,
                        ),
                    }
                } else {
                    keeps_eligible(progress, paths, rest)
                },
                _ => keeps_eligible(progress, paths, rest),
            }
        }),
{
    reveal(repositories::select_script);
    let paths = named_paths(root, names);
    let rest = replies.drop_first();
    unfit_is_first(names);
    assert(repositories::paths_of(root, names) =~= paths);
    kept_are_those(paths, seq![], rest);
    questions_do_not_fail(paths, rest);
    if let Progress::Ended(Ending::Value(answers), last) = eligibility_script(paths).play(rest) {
        let kept = those(paths, answers, true);
        assert(seq![] + kept =~= kept);
        all_or_fewer(paths, answers);
        found_are_those(root, names, seq![], last);
        questions_do_not_fail(paths, last);
        if let Progress::Ended(Ending::Value(again), _) = eligibility_script(paths).play(last) {
            assert(seq![] + those(names, again, false) =~= those(names, again, false));
        }
        path::byte_order_is_total();
        kept.lemma_sort_by_ensures(path::byte_order());
        sorted_is_in_order(path::in_order(kept));
    }
}

proof fn all_or_fewer<A>(items: Seq<A>, answers: Seq<bool>)
    requires
        items.len() == answers.len(),
    ensures
        those(items, answers, true).len() <= items.len(),
        those(items, answers, true).len() == items.len() <==> !answers.contains(false),
    decreases items.len(),
{
    if items.len() > 0 {
        let others = answers.drop_first();
        all_or_fewer(items.drop_first(), others);
        if answers.contains(false) {
            let i = answers.index_of(false);
            if i > 0 {
                assert(others[i - 1] == false);
            } else {
                assert(!answers[0]);
            }
        } else {
            assert(answers.contains(answers[0]));
            if others.contains(false) {
                let i = others.index_of(false);
                assert(answers[i + 1] == false);
            }
        }
    }
}

} // verus!
