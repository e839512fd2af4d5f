//! What holds of an account from its addition to its deletion.
use vstd::prelude::*;

use crate::laws::causality;
use crate::laws::conversation;
use crate::laws::furnishing;
use crate::laws::passwords;
use crate::laws::scope;
use crate::process;
use crate::provision;
use crate::request::{ReplyView, RequestView, WordView};
use crate::script;
use crate::script::{Ending, Progress, Script, Trail};
use crate::text;
use crate::users;

verus! {

/// An addition with a fault in one of its inputs asks nothing at all, and fails
/// with the first fault.
pub proof fn faulty_additions_ask_nothing(
    username: Seq<char>,
    ssh_key: Seq<char>,
    signup_email: Seq<char>,
    recovery_email: Seq<char>,
    replies: Seq<ReplyView>,
)
    ensures
        users::add_fault(username, ssh_key, signup_email, recovery_email) matches Some(fault)
            ==> users::add_script(username, ssh_key, signup_email, recovery_email).play(replies)
            == Progress::<()>::Ended(Ending::Failed(seq![fault]), replies),
{
}

/// The reply of a program that succeeded.
pub open spec fn succeeded(reply: ReplyView) -> bool {
    reply matches ReplyView::Exited { code, status } && code == Some(0i32)
}

/// The reply of `getent` where there is no account of the name.
pub open spec fn unknown_account(reply: ReplyView) -> bool {
    reply matches ReplyView::Exited { code, status } && code == Some(2i32)
}

/// An addition first finds out whether there is an account of the name. If there
/// is one it fails and asks nothing more; an account is added only where there
/// is none.
pub proof fn existing_accounts_are_left_alone(
    username: Seq<char>,
    ssh_key: Seq<char>,
    signup_email: Seq<char>,
    recovery_email: Seq<char>,
    reply: ReplyView,
)
    requires
        users::add_fault(username, ssh_key, signup_email, recovery_email) is None,
    ensures
        ({
            let script = users::add_script(username, ssh_key, signup_email, recovery_email);
            &&& script.play(seq![]) == Progress::<()>::Waiting(scope::getent(username))
            &&& succeeded(reply) ==> script.play(seq![reply]) == Progress::<()>::Ended(
                Ending::Failed(seq!["account already exists: "@ + username]),
                seq![],
            )
            &&& unknown_account(reply) <==> script.play(seq![reply]) == Progress::<()>::Waiting(
                scope::useradd(username),
            )
        }),
{
    reveal(users::account_exists_script);
    assert(seq![reply].drop_first() =~= seq![]);
}

/// What is played before an account is furnished.
pub(crate) open spec fn opening(
    username: Seq<char>,
    ssh_key: Seq<char>,
    signup_email: Seq<char>,
    recovery_email: Seq<char>,
) -> Script<()> {
    Script::check(users::add_fault(username, ssh_key, signup_email, recovery_email)).and(
        users::account_exists_script(username),
    ).and_then(
        |exists: bool|
            Script::check(
                if exists {
                    Some("account already exists: "@ + username)
                } else {
                    None
                },
            ),
    ).and(
        process::run_script(
            "useradd"@,
            seq![
                WordView::Text("-m"@),
                WordView::Text("-G"@),
                WordView::Text(provision::USER_GROUP@),
                WordView::Text(username),
            ],
        ),
    )
}

pub(crate) proof fn after_the_opening(
    username: Seq<char>,
    ssh_key: Seq<char>,
    signup_email: Seq<char>,
    recovery_email: Seq<char>,
    replies: Seq<ReplyView>,
)
    requires
        users::add_fault(username, ssh_key, signup_email, recovery_email) is None,
        replies.len() >= 2,
        unknown_account(replies[0]),
        succeeded(replies[1]),
    ensures
        users::add_script(username, ssh_key, signup_email, recovery_email).play(replies)
            == users::furnish_or_give_up_script(
            username,
            ssh_key,
            signup_email,
            recovery_email,
        ).play(replies.skip(2)),
{
    reveal(users::account_exists_script);
    assert(replies.drop_first().drop_first() =~= replies.skip(2));
    assert(opening(username, ssh_key, signup_email, recovery_email).play(replies)
        == Progress::<()>::Ended(Ending::Value(()), replies.skip(2)));
}

/// An account whose furnishing fails is taken back: whatever the replies, the
/// entry and the home directory, the site and the profiles are all removed, or at
/// least tried, and the addition then fails. The failure says what went wrong in
/// the first place and whether all was taken back.
pub proof fn failed_additions_are_taken_back(
    username: Seq<char>,
    ssh_key: Seq<char>,
    signup_email: Seq<char>,
    recovery_email: Seq<char>,
    replies: Seq<ReplyView>,
    trail: Trail,
    undo: Seq<ReplyView>,
)
    requires
        users::add_fault(username, ssh_key, signup_email, recovery_email) is None,
        replies.len() >= 2,
        unknown_account(replies[0]),
        succeeded(replies[1]),
        users::furnish_script(username, ssh_key, signup_email, recovery_email).play(replies.skip(2))
            == Progress::<()>::Ended(Ending::Failed(trail), seq![]),
        undo.len() == 3,
        undo[0] is Exited || undo[0] is Error,
        undo[1] is Done || undo[1] is Error,
        undo[2] is Done || undo[2] is Error,
    ensures
        ({
            let script = users::add_script(username, ssh_key, signup_email, recovery_email);
            let all_gone = {
                &&& succeeded(undo[0])
                &&& undo[1] matches ReplyView::Error { not_found, cause } ==> not_found
                &&& undo[2] matches ReplyView::Error { not_found, cause } ==> not_found
            };
            &&& script.play(replies) == Progress::<()>::Waiting(scope::userdel(username))
            &&& script.play(replies + undo.take(1)) == Progress::<()>::Waiting(
                RequestView::RemoveTree { path: provision::site_of(username) },
            )
            &&& script.play(replies + undo.take(2)) == Progress::<()>::Waiting(
                RequestView::RemoveTree { path: provision::profiles_of(username) },
            )
            &&& script.play(replies + undo) matches Progress::Ended(Ending::Failed(told), rest)
                && rest.len() == 0 && told.len() == trail.len() + 1 && told.drop_first() == trail
                && (all_gone <==> told[0]
                == "provisioning failed; the new account was rolled back"@)
        }),
{
    taken_back_after(username, ssh_key, signup_email, recovery_email, replies, trail, seq![]);
    taken_back_after(username, ssh_key, signup_email, recovery_email, replies, trail, undo.take(1));
    taken_back_after(username, ssh_key, signup_email, recovery_email, replies, trail, undo.take(2));
    taken_back_after(username, ssh_key, signup_email, recovery_email, replies, trail, undo);
    assert(replies + seq![] =~= replies);
    rollback_goes_through(username, undo);
    let told = match users::rollback_new_user_script(username).play(undo) {
        Progress::Ended(Ending::Failed(obstacle), _) => {
            "provisioning failed and rollback also failed: "@ + text::joined(obstacle, ": "@)
        },
        _ => "provisioning failed; the new account was rolled back"@,
    };
    assert((seq![told] + trail).drop_first() =~= trail);
    if let Progress::Ended(Ending::Failed(obstacle), _) = users::rollback_new_user_script(
        username,
    ).play(undo) {
        messages_differ(text::joined(obstacle, ": "@));
    }
}

proof fn messages_differ(obstacle: Seq<char>)
    ensures
        "provisioning failed and rollback also failed: "@ + obstacle
            != "provisioning failed; the new account was rolled back"@,
{
    reveal_strlit("provisioning failed and rollback also failed: ");
    reveal_strlit("provisioning failed; the new account was rolled back");
    assert(("provisioning failed and rollback also failed: "@ + obstacle)[19] == ' ');
}

pub(crate) proof fn taken_back_after(
    username: Seq<char>,
    ssh_key: Seq<char>,
    signup_email: Seq<char>,
    recovery_email: Seq<char>,
    replies: Seq<ReplyView>,
    trail: Trail,
    undo: Seq<ReplyView>,
)
    requires
        users::add_fault(username, ssh_key, signup_email, recovery_email) is None,
        replies.len() >= 2,
        unknown_account(replies[0]),
        succeeded(replies[1]),
        users::furnish_script(username, ssh_key, signup_email, recovery_email).play(replies.skip(2))
            == Progress::<()>::Ended(Ending::Failed(trail), seq![]),
    ensures
        users::add_script(username, ssh_key, signup_email, recovery_email).play(replies + undo)
            == users::give_up_script(username, trail).play(undo),
{
    let furnish = users::furnish_script(username, ssh_key, signup_email, recovery_email);
    causality::furnish_is_causal(username, ssh_key, signup_email, recovery_email);
    script::lemma_over_is_over(furnish, replies.skip(2), Ending::Failed(trail), seq![], undo);
    assert((replies + undo).skip(2) =~= replies.skip(2) + undo);
    assert(seq![] + undo =~= undo);
    after_the_opening(username, ssh_key, signup_email, recovery_email, replies + undo);
}

proof fn rollback_goes_through(username: Seq<char>, undo: Seq<ReplyView>)
    requires
        undo.len() == 3,
        undo[0] is Exited || undo[0] is Error,
        undo[1] is Done || undo[1] is Error,
        undo[2] is Done || undo[2] is Error,
    ensures
        ({
            let script = users::rollback_new_user_script(username);
            let all_gone = {
                &&& succeeded(undo[0])
                &&& undo[1] matches ReplyView::Error { not_found, cause } ==> not_found
                &&& undo[2] matches ReplyView::Error { not_found, cause } ==> not_found
            };
            &&& script.play(seq![]) == Progress::<()>::Waiting(scope::userdel(username))
            &&& script.play(undo.take(1)) == Progress::<()>::Waiting(
                RequestView::RemoveTree { path: provision::site_of(username) },
            )
            &&& script.play(undo.take(2)) == Progress::<()>::Waiting(
                RequestView::RemoveTree { path: provision::profiles_of(username) },
            )
            &&& script.play(undo) matches Progress::Ended(ending, rest) && rest.len() == 0
                && if all_gone {
                ending == Ending::Value(())
            } else {
                ending is Failed
            }
        }),
{
    assert(undo.take(1).drop_first() =~= seq![]);
    assert(undo.take(2).drop_first() =~= seq![undo[1]]);
    assert(undo.drop_first() =~= seq![undo[1], undo[2]]);
    assert(seq![undo[1]].drop_first() =~= seq![]);
    assert(seq![undo[1], undo[2]].drop_first() =~= seq![undo[2]]);
    assert(seq![undo[2]].drop_first() =~= seq![]);
}

/// What follows once there is a password.
spec fn with_the_password(username: Seq<char>, password: Seq<char>) -> Script<()> {
    users::set_password_script(username, password).and(
        Script::print("created account: "@ + username),
    ).and(Script::print("password: "@ + password))
}

proof fn lines_differ(username: Seq<char>, password: Seq<char>, other: Seq<char>)
    ensures
        "created account: "@ + username != "password: "@ + password,
        "password: "@ + password == "password: "@ + other ==> password == other,
{
    reveal_strlit("created account: ");
    reveal_strlit("password: ");
    assert(("created account: "@ + username)[0] == 'c');
    assert(("password: "@ + password)[0] == 'p');
    if "password: "@ + password == "password: "@ + other {
        assert(("password: "@ + password).skip(10) =~= password);
        assert(("password: "@ + other).skip(10) =~= other);
    }
}

proof fn with_the_password_shown(
    username: Seq<char>,
    password: Seq<char>,
    shown: Seq<char>,
    replies: Seq<ReplyView>,
)
    requires
        with_the_password(username, password).play(replies) == Progress::<()>::Waiting(
            RequestView::Print { line: "password: "@ + shown },
        ),
    ensures
        shown == password,
        replies.len() == 5,
        replies[2] is Done,
        succeeded(replies[3]),
        ({
            let script = with_the_password(username, password);
            &&& script.play(replies.take(2)) == Progress::<()>::Waiting(
                RequestView::WriteInput { text: username + ":"@ + password + "\n"@ },
            )
            &&& script.play(replies.take(3)) == Progress::<()>::Waiting(RequestView::Wait)
            &&& script.play(replies.take(4)) == Progress::<()>::Waiting(
                RequestView::Print { line: "created account: "@ + username },
            )
            &&& script.play(replies.push(ReplyView::Done)) == Progress::<()>::Ended(
                Ending::Value(()),
                seq![],
            )
        }),
{
    reveal(users::set_password_script);
    lines_differ(username, shown, password);
    assert(replies.len() == 5);
    assert(replies.drop_first().drop_first().drop_first().drop_first() =~= seq![replies[4]]);
    assert(replies.take(2).drop_first() =~= seq![replies[1]]);
    assert(seq![replies[1]].drop_first() =~= seq![]);
    assert(replies.take(3).drop_first() =~= seq![replies[1], replies[2]]);
    assert(seq![replies[1], replies[2]].drop_first() =~= seq![replies[2]]);
    assert(seq![replies[2]].drop_first() =~= seq![]);
    assert(replies.take(4).drop_first() =~= seq![replies[1], replies[2], replies[3]]);
    assert(seq![replies[1], replies[2], replies[3]].drop_first() =~= seq![replies[2], replies[3]]);
    assert(seq![replies[2], replies[3]].drop_first() =~= seq![replies[3]]);
    assert(seq![replies[3]].drop_first() =~= seq![]);
    let more = replies.push(ReplyView::Done);
    assert(more.drop_first().drop_first().drop_first().drop_first() =~= seq![
        replies[4],
        ReplyView::Done,
    ]);
    assert(seq![replies[4], ReplyView::Done].drop_first() =~= seq![ReplyView::Done]);
    assert(seq![ReplyView::Done].drop_first() =~= seq![]);
}

proof fn furnished_with_the_password(
    username: Seq<char>,
    ssh_key: Seq<char>,
    signup_email: Seq<char>,
    recovery_email: Seq<char>,
    replies: Seq<ReplyView>,
    shown: Seq<char>,
) -> (rest: Seq<ReplyView>)
    requires
        users::furnish_script(username, ssh_key, signup_email, recovery_email).play(replies)
            == Progress::<()>::Waiting(RequestView::Print { line: "password: "@ + shown }),
    ensures
        rest.len() <= replies.len(),
        rest == replies.skip(replies.len() - rest.len()),
        with_the_password(username, shown).play(rest) == Progress::<()>::Waiting(
            RequestView::Print { line: "password: "@ + shown },
        ),
        passwords::is_password(24, shown),
        forall|kept: int|
            0 <= kept <= rest.len() ==> #[trigger] users::furnish_script(
                username,
                ssh_key,
                signup_email,
                recovery_email,
            ).play(replies.take(replies.len() - rest.len() + kept)) == with_the_password(
                username,
                shown,
            ).play(rest.take(kept)),
        users::furnish_script(username, ssh_key, signup_email, recovery_email).play(
            replies.push(ReplyView::Done),
        ) == with_the_password(username, shown).play(rest.push(ReplyView::Done)),
{
    broadcast use script::group_causal;

    let start = scope::up_to_the_password(username, ssh_key, signup_email, recovery_email);
    let furnish = users::furnish_script(username, ssh_key, signup_email, recovery_email);
    reveal(users::furnish_script);
    causality::apply_is_causal(username, Some(ssh_key));
    causality::store_emails_is_causal(username, signup_email, recovery_email);
    causality::generate_password_is_causal();
    assert(start.causal());
    scope::furnishing_asks(username, ssh_key, signup_email, recovery_email, seq![]);
    scope::password_is_password(username, ssh_key, signup_email, recovery_email, replies);
    reveal(Script::only_asks);
    match start.play(replies) {
        Progress::Ended(Ending::Value(password), rest) => {
            with_the_password_shown(username, password, shown, rest);
            script::lemma_over_before(start, replies, Ending::Value(password), rest, 0);
            assert forall|kept: int| 0 <= kept <= rest.len() implies #[trigger] furnish.play(
                replies.take(replies.len() - rest.len() + kept),
            ) == with_the_password(username, shown).play(rest.take(kept)) by {
                script::lemma_over_before(start, replies, Ending::Value(password), rest, kept);
            }
            let more = seq![ReplyView::Done];
            script::lemma_over_is_over(start, replies, Ending::Value(password), rest, more);
            assert(replies + more =~= replies.push(ReplyView::Done));
            assert(rest + more =~= rest.push(ReplyView::Done));
            rest
        },
        _ => {
            assert(start.play(replies).asks_only(
                |request: RequestView|
                    scope::adds(username, ssh_key, signup_email, recovery_email, request) && !(
                    request is Print),
            ));
            seq![]
        },
    }
}

/// The password that is shown is the one that was set: just before, `chpasswd`
/// was given the name and that very password, and succeeded. Once it is shown the
/// addition is over, so it is shown once.
pub proof fn the_password_shown_is_the_one_set(
    username: Seq<char>,
    ssh_key: Seq<char>,
    signup_email: Seq<char>,
    recovery_email: Seq<char>,
    replies: Seq<ReplyView>,
    password: Seq<char>,
)
    requires
        users::add_script(username, ssh_key, signup_email, recovery_email).play(replies)
            == Progress::<()>::Waiting(RequestView::Print { line: "password: "@ + password }),
    ensures
        passwords::is_password(24, password),
        replies.len() >= 7,
        replies[replies.len() - 3] is Done,
        succeeded(replies[replies.len() - 2]),
        ({
            let script = users::add_script(username, ssh_key, signup_email, recovery_email);
            &&& script.play(replies.take(replies.len() - 3)) == Progress::<()>::Waiting(
                RequestView::WriteInput { text: username + ":"@ + password + "\n"@ },
            )
            &&& script.play(replies.take(replies.len() - 2)) == Progress::<()>::Waiting(
                RequestView::Wait,
            )
            &&& script.play(replies.take(replies.len() - 1)) == Progress::<()>::Waiting(
                RequestView::Print { line: "created account: "@ + username },
            )
            &&& script.play(replies.push(ReplyView::Done)) == Progress::<()>::Ended(
                Ending::Value(()),
                seq![],
            )
        }),
{
    let add = users::add_script(username, ssh_key, signup_email, recovery_email);
    let later = users::furnish_or_give_up_script(username, ssh_key, signup_email, recovery_email);
    let furnish = users::furnish_script(username, ssh_key, signup_email, recovery_email);
    let fault = users::add_fault(username, ssh_key, signup_email, recovery_email);
    assert(fault is None && replies.len() >= 2 && unknown_account(replies[0]) && succeeded(
        replies[1],
    )) by {
        reveal(users::account_exists_script);
    }
    after_the_opening(username, ssh_key, signup_email, recovery_email, replies);
    let during = replies.skip(2);
    if let Progress::Ended(Ending::Failed(trail), rest) = furnish.play(during) {
        scope::taking_back_is_quiet(username);
        reveal(Script::only_asks);
        assert(users::rollback_new_user_script(username).play(rest).asks_only(
            |request: RequestView| !(request is Print),
        ));
    }
    let rest = furnished_with_the_password(
        username,
        ssh_key,
        signup_email,
        recovery_email,
        during,
        password,
    );
    with_the_password_shown(username, password, password, rest);
    assert forall|kept: int| 2 <= kept <= 4 implies add.play(
        #[trigger] replies.take(replies.len() - 5 + kept),
    ) == with_the_password(username, password).play(rest.take(kept)) by {
        let fewer = replies.take(replies.len() - 5 + kept);
        after_the_opening(username, ssh_key, signup_email, recovery_email, fewer);
        assert(fewer.skip(2) =~= during.take(during.len() - 5 + kept));
        assert(furnish.play(during.take(during.len() - rest.len() + kept)) is Waiting);
    }
    assert(replies.take(replies.len() - 5 + 2) =~= replies.take(replies.len() - 3));
    assert(replies.take(replies.len() - 5 + 3) =~= replies.take(replies.len() - 2));
    assert(replies.take(replies.len() - 5 + 4) =~= replies.take(replies.len() - 1));
    let more = replies.push(ReplyView::Done);
    after_the_opening(username, ssh_key, signup_email, recovery_email, more);
    assert(more.skip(2) =~= during.push(ReplyView::Done));
}

/// A deletion that was not confirmed, or of a name that is not valid, asks
/// nothing at all.
pub proof fn unconfirmed_deletions_ask_nothing(
    username: Seq<char>,
    confirmed: bool,
    replies: Seq<ReplyView>,
)
    requires
        !confirmed || !users::valid_username(username),
    ensures
        users::delete_script(username, confirmed).play(replies) == Progress::<()>::Ended(
            Ending::Failed(
                seq![
                    match users::username_fault(username) {
                        Some(fault) => fault,
                        None => "refusing to delete "@ + username
                            + "; repeat with --yes to confirm"@,
                    },
                ],
            ),
            replies,
        ),
{
}

/// A deletion that is confirmed goes through: where the account is there, its
/// entry and home directory are removed, then its site, then its profiles. What
/// is missing already is no obstacle.
pub proof fn confirmed_deletions_remove_everything(username: Seq<char>, replies: Seq<ReplyView>)
    requires
        users::valid_username(username),
        replies.len() == 5,
        succeeded(replies[0]),
        succeeded(replies[1]),
        replies[2] is Done || (replies[2] matches ReplyView::Error { not_found, cause }
            && not_found),
        replies[3] is Done || (replies[3] matches ReplyView::Error { not_found, cause }
            && not_found),
        replies[4] is Done,
    ensures
        ({
            let script = users::delete_script(username, true);
            &&& script.play(seq![]) == Progress::<()>::Waiting(scope::getent(username))
            &&& script.play(replies.take(1)) == Progress::<()>::Waiting(scope::userdel(username))
            &&& script.play(replies.take(2)) == Progress::<()>::Waiting(
                RequestView::RemoveTree { path: provision::site_of(username) },
            )
            &&& script.play(replies.take(3)) == Progress::<()>::Waiting(
                RequestView::RemoveTree { path: provision::profiles_of(username) },
            )
            &&& script.play(replies.take(4)) == Progress::<()>::Waiting(
                RequestView::Print { line: "deleted account and managed data: "@ + username },
            )
            &&& script.play(replies) == Progress::<()>::Ended(Ending::Value(()), seq![])
        }),
{
    reveal(users::account_exists_script);
    let (a, b, c, d) = (replies[1], replies[2], replies[3], replies[4]);
    assert(replies.take(1).drop_first() =~= seq![]);
    assert(replies.take(2).drop_first() =~= seq![a]);
    assert(replies.take(3).drop_first() =~= seq![a, b]);
    assert(replies.take(4).drop_first() =~= seq![a, b, c]);
    assert(replies.drop_first() =~= seq![a, b, c, d]);
    assert(seq![a].drop_first() =~= seq![]);
    assert(seq![a, b].drop_first() =~= seq![b]);
    assert(seq![a, b, c].drop_first() =~= seq![b, c]);
    assert(seq![a, b, c, d].drop_first() =~= seq![b, c, d]);
    assert(seq![b].drop_first() =~= seq![]);
    assert(seq![b, c].drop_first() =~= seq![c]);
    assert(seq![b, c, d].drop_first() =~= seq![c, d]);
    assert(seq![c].drop_first() =~= seq![]);
    assert(seq![c, d].drop_first() =~= seq![d]);
    assert(seq![d].drop_first() =~= seq![]);
}

/// An account that is not there is not deleted, repaired, shown or changed: all
/// that is asked is whether it is there.
pub proof fn missing_accounts_are_not_touched(
    username: Seq<char>,
    signup: Seq<char>,
    recovery: Option<Seq<char>>,
    reply: ReplyView,
)
    requires
        users::valid_username(username),
        unknown_account(reply),
        users::email_fault("signup"@, signup) is None,
        recovery matches Some(recovery) ==> users::email_fault("recovery"@, recovery) is None,
    ensures
        ({
            let missing = Progress::<()>::Ended(
                Ending::Failed(seq!["account does not exist: "@ + username]),
                seq![],
            );
            let asked = Progress::<()>::Waiting(scope::getent(username));
            &&& users::delete_script(username, true).play(seq![]) == asked
            &&& users::delete_script(username, true).play(seq![reply]) == missing
            &&& users::repair_script(username).play(seq![]) == asked
            &&& users::repair_script(username).play(seq![reply]) == missing
            &&& users::info_script(username).play(seq![]) == asked
            &&& users::info_script(username).play(seq![reply]) == missing
            &&& users::set_emails_script(username, signup, recovery).play(seq![]) == asked
            &&& users::set_emails_script(username, signup, recovery).play(seq![reply]) == missing
        }),
{
    reveal(users::account_exists_script);
    assert(seq![reply].drop_first() =~= seq![]);
}

/// Whatever is to be done with an account, a name that is not valid is refused before
/// anything is asked, and why is told.
pub proof fn invalid_names_ask_nothing(
    username: Seq<char>,
    ssh_key: Seq<char>,
    signup: Seq<char>,
    recovery: Seq<char>,
    given: Option<Seq<char>>,
    confirmed: bool,
    replies: Seq<ReplyView>,
    fault: Seq<char>,
)
    requires
        users::username_fault(username) == Some(fault),
    ensures
        ({
            let refused = Progress::<()>::Ended(Ending::Failed(seq![fault]), replies);
            &&& users::add_script(username, ssh_key, signup, recovery).play(replies) == refused
            &&& users::repair_script(username).play(replies) == refused
            &&& users::info_script(username).play(replies) == refused
            &&& users::set_emails_script(username, signup, given).play(replies) == refused
            &&& users::delete_script(username, confirmed).play(replies) == refused
            &&& users::require_account_script(username).play(replies) == refused
        }),
{
}

/// A deletion that goes well was confirmed, found that there is an account of the
/// name, and removed its entry and its home directory, its site and its profiles, and
/// nothing else; it is reported.
pub proof fn deletions_are_complete(
    username: Seq<char>,
    confirmed: bool,
    replies: Seq<ReplyView>,
    rest: Seq<ReplyView>,
)
    requires
        users::delete_script(username, confirmed).play(replies) == Progress::<()>::Ended(
            Ending::Value(()),
            rest,
        ),
    ensures
        confirmed,
        users::username_fault(username) is None,
        replies.len() >= 5,
        rest == replies.skip(5),
        succeeded(replies[0]),
        succeeded(replies[1]),
        replies[2] is Done || conversation::is_missing(replies[2]),
        replies[3] is Done || conversation::is_missing(replies[3]),
        replies[4] is Done,
        conversation::asks_in_turn(
            users::delete_script(username, confirmed),
            replies,
            0,
            seq![
                RequestView::RunQuietly {
                    program: "getent"@,
                    arguments: seq![WordView::Text("passwd"@), WordView::Text(username)],
                },
                RequestView::Run {
                    program: "userdel"@,
                    arguments: seq![WordView::Text("-r"@), WordView::Text(username)],
                },
                RequestView::RemoveTree { path: "/srv/user_sites/"@ + username },
                RequestView::RemoveTree { path: "/srv/user_profiles/"@ + username },
                RequestView::Print { line: "deleted account and managed data: "@ + username },
            ],
        ),
{
    broadcast use conversation::first_of_some;

    reveal(users::account_exists_script);
    assert(users::valid_username(username));
    furnishing::valid_is_one_entry(username);
    furnishing::places(username);
    let script = users::delete_script(username, confirmed);
    let requests = seq![
        RequestView::RunQuietly {
            program: "getent"@,
            arguments: seq![WordView::Text("passwd"@), WordView::Text(username)],
        },
        RequestView::Run {
            program: "userdel"@,
            arguments: seq![WordView::Text("-r"@), WordView::Text(username)],
        },
        RequestView::RemoveTree { path: "/srv/user_sites/"@ + username },
        RequestView::RemoveTree { path: "/srv/user_profiles/"@ + username },
        RequestView::Print { line: "deleted account and managed data: "@ + username },
    ];
    let r3 = replies.drop_first().drop_first().drop_first();
    assert(r3 =~= replies.skip(3));
    assert(r3.drop_first().drop_first() =~= replies.skip(5));
    assert(conversation::asks_at(script, replies, 0, requests[0]));
    assert(conversation::asks_at(script, replies, 1, requests[1]));
    assert(conversation::asks_at(script, replies, 2, requests[2]));
    assert(conversation::asks_at(script, replies, 3, requests[3]));
    assert(conversation::asks_at(script, replies, 4, requests[4]));
}

} // verus!
