//! What holds of the email addresses of an account.
use vstd::prelude::*;

use crate::laws::accounts;
use crate::laws::conversation;
use crate::laws::furnishing;
use crate::request::{FileKind, ReplyView, RequestView};
use crate::script::{Ending, Progress};
use crate::users;

verus! {

/// What the host tells of an attribute that holds an address, or of one that is
/// not set.
pub open spec fn holding(address: Option<Seq<char>>) -> ReplyView {
    match address {
        Some(address) => ReplyView::Bytes(vstd::utf8::encode_utf8(address)),
        None => ReplyView::Absent,
    }
}

/// An attribute reads back as the address that was written to it: what is written
/// is [`users::set_attribute_script`]'s encoding of the address.
pub proof fn addresses_read_back(name: Seq<char>, username: Seq<char>, address: Option<Seq<char>>)
    ensures
        users::read_xattr_script(name, username).play(seq![holding(address)])
            == Progress::<Option<Seq<char>>>::Ended(Ending::Value(address), seq![]),
        address matches Some(written) ==> users::set_attribute_script(
            name,
            written,
            username,
        ).play(seq![]) == Progress::<()>::Waiting(
            RequestView::SetAttribute { name, value: vstd::utf8::encode_utf8(written) },
        ),
{
    reveal(users::read_xattr_script);
    if let Some(address) = address {
        vstd::utf8::encode_utf8_valid_utf8(address);
        vstd::utf8::encode_utf8_decode_utf8(address);
    }
    assert(seq![holding(address)].drop_first() =~= seq![]);
}

/// The replies that lead up to the addresses of an account.
pub open spec fn leading_up(replies: Seq<ReplyView>) -> bool {
    &&& replies.len() == 3
    &&& accounts::succeeded(replies[0])
    &&& replies[1] is Done
    &&& replies[2] == ReplyView::Kind(FileKind::Directory)
}

proof fn home_is_open(username: Seq<char>, replies: Seq<ReplyView>, rest: Seq<ReplyView>)
    requires
        users::valid_username(username),
        leading_up(replies),
    ensures
        users::require_account_script(username).and(users::open_home_script(username)).play(
            replies + rest,
        ) == Progress::<()>::Ended(Ending::Value(()), rest),
        users::expect_account_script(username).play(replies + rest) == Progress::<()>::Ended(
            Ending::Value(()),
            (replies + rest).skip(1),
        ),
        users::open_home_script(username).play((replies + rest).skip(1)) == Progress::<()>::Ended(
            Ending::Value(()),
            rest,
        ),
{
    reveal(users::account_exists_script);
    reveal(users::open_home_script);
    let all = replies + rest;
    assert(all.drop_first() =~= all.skip(1));
    assert(all.skip(1).drop_first() =~= all.skip(2));
    assert(all.skip(2).drop_first() =~= rest);
}

/// The addresses that are shown are those that were recorded.
pub proof fn recorded_addresses_are_shown(
    username: Seq<char>,
    signup: Seq<char>,
    recovery: Option<Seq<char>>,
    replies: Seq<ReplyView>,
)
    requires
        users::valid_username(username),
        leading_up(replies),
    ensures
        ({
            let script = users::info_script(username);
            let told = replies + seq![holding(Some(signup)), holding(recovery)];
            let done = ReplyView::Done;
            &&& script.play(told) == Progress::<()>::Waiting(
                RequestView::Print { line: "username: "@ + username },
            )
            &&& script.play(told + seq![done]) == Progress::<()>::Waiting(
                RequestView::Print { line: "signup email: "@ + signup },
            )
            &&& script.play(told + seq![done, done]) == Progress::<()>::Waiting(
                RequestView::Print {
                    line: "recovery email: "@ + match recovery {
                        Some(recovery) => recovery,
                        None => "(not set)"@,
                    },
                },
            )
            &&& script.play(told + seq![done, done, done]) == Progress::<()>::Ended(
                Ending::Value(()),
                seq![],
            )
        }),
{
    let told = replies + seq![holding(Some(signup)), holding(recovery)];
    let done = ReplyView::Done;
    shown_after(username, signup, recovery, replies, seq![]);
    shown_after(username, signup, recovery, replies, seq![done]);
    shown_after(username, signup, recovery, replies, seq![done, done]);
    shown_after(username, signup, recovery, replies, seq![done, done, done]);
    assert(told + seq![] =~= told);
    assert(seq![done].drop_first() =~= seq![]);
    assert(seq![done, done].drop_first() =~= seq![done]);
    assert(seq![done, done, done].drop_first() =~= seq![done, done]);
}

proof fn shown_after(
    username: Seq<char>,
    signup: Seq<char>,
    recovery: Option<Seq<char>>,
    replies: Seq<ReplyView>,
    rest: Seq<ReplyView>,
)
    requires
        users::valid_username(username),
        leading_up(replies),
    ensures
        users::info_script(username).play(
            replies + seq![holding(Some(signup)), holding(recovery)] + rest,
        ) == users::show_info_script(username, signup, recovery).play(rest),
{
    reveal(users::read_xattr_script);
    vstd::utf8::encode_utf8_valid_utf8(signup);
    vstd::utf8::encode_utf8_decode_utf8(signup);
    if let Some(recovery) = recovery {
        vstd::utf8::encode_utf8_valid_utf8(recovery);
        vstd::utf8::encode_utf8_decode_utf8(recovery);
    }
    let values = seq![holding(Some(signup)), holding(recovery)] + rest;
    home_is_open(username, replies, values);
    assert(replies + seq![holding(Some(signup)), holding(recovery)] + rest =~= replies + values);
    assert(values.drop_first() =~= seq![holding(recovery)] + rest);
    assert((seq![holding(recovery)] + rest).drop_first() =~= rest);
}

/// An account without a signup address is not shown.
pub proof fn a_missing_signup_address_is_a_failure(username: Seq<char>, replies: Seq<ReplyView>)
    requires
        users::valid_username(username),
        leading_up(replies),
    ensures
        users::info_script(username).play(replies + seq![ReplyView::Absent])
            == Progress::<()>::Ended(
            Ending::Failed(seq!["trusted.signup"@ + " is not set for "@ + username]),
            seq![],
        ),
{
    reveal(users::read_xattr_script);
    home_is_open(username, replies, seq![ReplyView::Absent]);
    assert(seq![ReplyView::Absent].drop_first() =~= seq![]);
}

/// A change of both addresses is made whole or not at all: where the recovery
/// address cannot be set, the signup address is given back the very value that it
/// had, or removed if it had none, and the change fails. The failure says whether
/// that went well.
pub proof fn failed_changes_are_taken_back(
    username: Seq<char>,
    signup: Seq<char>,
    recovery: Seq<char>,
    replies: Seq<ReplyView>,
    previous: Option<Seq<u8>>,
    not_found: bool,
    cause: Seq<char>,
    other: bool,
    obstacle: Seq<char>,
)
    requires
        users::valid_username(username),
        users::email_fault("signup"@, signup) is None,
        users::email_fault("recovery"@, recovery) is None,
        leading_up(replies),
    ensures
        ({
            let script = users::set_emails_script(username, signup, Some(recovery));
            let before = match previous {
                Some(value) => ReplyView::Bytes(value),
                None => ReplyView::Absent,
            };
            let changed = replies + seq![before, ReplyView::Done];
            let refused = changed + seq![ReplyView::Error { not_found, cause }];
            let doing = "set "@ + "trusted.recovery"@ + " for "@ + username;
            &&& script.play(replies) == Progress::<()>::Waiting(
                RequestView::GetAttribute { name: "trusted.signup"@ },
            )
            &&& script.play(replies + seq![before]) == Progress::<()>::Waiting(
                RequestView::SetAttribute {
                    name: "trusted.signup"@,
                    value: vstd::utf8::encode_utf8(signup),
                },
            )
            &&& script.play(changed) == Progress::<()>::Waiting(
                RequestView::SetAttribute {
                    name: "trusted.recovery"@,
                    value: vstd::utf8::encode_utf8(recovery),
                },
            )
            &&& script.play(refused) == Progress::<()>::Waiting(
                match previous {
                    Some(value) => RequestView::SetAttribute {
                        name: "trusted.signup"@,
                        value,
                    },
                    None => RequestView::RemoveAttribute { name: "trusted.signup"@ },
                },
            )
            &&& script.play(refused + seq![ReplyView::Done]) == Progress::<()>::Ended(
                Ending::Failed(seq![doing + "; restored previous signup email"@, cause]),
                seq![],
            )
            &&& script.play(
                refused + seq![ReplyView::Error { not_found: other, cause: obstacle }],
            ) == Progress::<()>::Ended(
                Ending::Failed(
                    seq![
                        doing + "; failed to restore previous signup email: "@ + obstacle,
                        cause,
                    ],
                ),
                seq![],
            )
        }),
{
    let before = match previous {
        Some(value) => ReplyView::Bytes(value),
        None => ReplyView::Absent,
    };
    let done = ReplyView::Done;
    let error = ReplyView::Error { not_found, cause };
    let failed = ReplyView::Error { not_found: other, cause: obstacle };
    let changed = replies + seq![before, done];
    home_is_open(username, replies, seq![]);
    home_is_open(username, replies, seq![before]);
    home_is_open(username, replies, seq![before, done]);
    home_is_open(username, replies, seq![before, done, error]);
    home_is_open(username, replies, seq![before, done, error, done]);
    home_is_open(username, replies, seq![before, done, error, failed]);
    assert(replies + seq![] =~= replies);
    assert(changed + seq![error] =~= replies + seq![before, done, error]);
    assert(changed + seq![error] + seq![done] =~= replies + seq![before, done, error, done]);
    assert(changed + seq![error] + seq![failed] =~= replies + seq![before, done, error, failed]);
    assert(seq![before].drop_first() =~= seq![]);
    assert(seq![before, done].drop_first() =~= seq![done]);
    assert(seq![before, done, error].drop_first() =~= seq![done, error]);
    assert(seq![before, done, error, done].drop_first() =~= seq![done, error, done]);
    assert(seq![before, done, error, failed].drop_first() =~= seq![done, error, failed]);
    assert(seq![done].drop_first() =~= seq![]);
    assert(seq![done, error].drop_first() =~= seq![error]);
    assert(seq![done, error, done].drop_first() =~= seq![error, done]);
    assert(seq![done, error, failed].drop_first() =~= seq![error, failed]);
    assert(seq![error].drop_first() =~= seq![]);
    assert(seq![error, done].drop_first() =~= seq![done]);
    assert(seq![error, failed].drop_first() =~= seq![failed]);
    assert(seq![failed].drop_first() =~= seq![]);
}

/// A change of addresses goes through where the host does as it is asked: each
/// address that is given is recorded, and the change is reported.
pub proof fn changes_are_recorded(
    username: Seq<char>,
    signup: Seq<char>,
    recovery: Option<Seq<char>>,
    replies: Seq<ReplyView>,
    before: ReplyView,
)
    requires
        users::valid_username(username),
        users::email_fault("signup"@, signup) is None,
        recovery matches Some(recovery) ==> users::email_fault("recovery"@, recovery) is None,
        leading_up(replies),
        before is Bytes || before is Absent,
    ensures
        ({
            let script = users::set_emails_script(username, signup, recovery);
            let done = ReplyView::Done;
            let changed = replies + match recovery {
                Some(_) => seq![before, done, done],
                None => seq![before, done],
            };
            &&& script.play(replies + seq![before]) == Progress::<()>::Waiting(
                RequestView::SetAttribute {
                    name: "trusted.signup"@,
                    value: vstd::utf8::encode_utf8(signup),
                },
            )
            &&& recovery matches Some(recovery) ==> script.play(replies + seq![before, done])
                == Progress::<()>::Waiting(
                RequestView::SetAttribute {
                    name: "trusted.recovery"@,
                    value: vstd::utf8::encode_utf8(recovery),
                },
            )
            &&& script.play(changed) == Progress::<()>::Waiting(
                RequestView::Print { line: "updated email addresses: "@ + username },
            )
            &&& script.play(changed + seq![done]) == Progress::<()>::Ended(
                Ending::Value(()),
                seq![],
            )
        }),
{
    let done = ReplyView::Done;
    home_is_open(username, replies, seq![before]);
    home_is_open(username, replies, seq![before, done]);
    home_is_open(username, replies, seq![before, done, done]);
    home_is_open(username, replies, seq![before, done, done, done]);
    assert(replies + seq![before, done] + seq![done] =~= replies + seq![before, done, done]);
    assert(replies + seq![before, done, done] + seq![done] =~= replies + seq![
        before,
        done,
        done,
        done,
    ]);
    assert(seq![before].drop_first() =~= seq![]);
    assert(seq![before, done].drop_first() =~= seq![done]);
    assert(seq![before, done, done].drop_first() =~= seq![done, done]);
    assert(seq![before, done, done, done].drop_first() =~= seq![done, done, done]);
    assert(seq![done].drop_first() =~= seq![]);
    assert(seq![done, done].drop_first() =~= seq![done]);
    assert(seq![done, done, done].drop_first() =~= seq![done, done]);
}

/// A change of addresses with a fault in one of its inputs asks nothing at all.
pub proof fn faulty_changes_ask_nothing(
    username: Seq<char>,
    signup: Seq<char>,
    recovery: Option<Seq<char>>,
    replies: Seq<ReplyView>,
)
    ensures
        ({
            let script = users::set_emails_script(username, signup, recovery);
            let refused = |fault: Seq<char>|
                Progress::<()>::Ended(Ending::Failed(seq![fault]), replies);
            match (users::username_fault(username), users::email_fault("signup"@, signup)) {
                (Some(fault), _) => script.play(replies) == refused(fault),
                (None, Some(fault)) => script.play(replies) == refused(fault),
                (None, None) => recovery matches Some(recovery) ==> users::email_fault(
                    "recovery"@,
                    recovery,
                ) matches Some(fault) ==> script.play(replies) == refused(fault),
            }
        }),
{
}

/// What is asked before the addresses of an account are, and where they are.
pub open spec fn asked_first(username: Seq<char>) -> Seq<RequestView> {
    seq![
        furnishing::looks_up(username),
        RequestView::OpenDirectory { path: "/home/"@ + username },
        RequestView::OpenKind,
        RequestView::GetAttribute { name: "trusted.signup"@ },
    ]
}

/// An account that is shown is shown with what its home directory records: the home
/// directory is opened, both addresses are read there, and the name and the two
/// addresses are shown, in that order, and nothing else is asked.
pub proof fn showings_are_complete(
    username: Seq<char>,
    replies: Seq<ReplyView>,
    rest: Seq<ReplyView>,
)
    requires
        users::info_script(username).play(replies) == Progress::<()>::Ended(
            Ending::Value(()),
            rest,
        ),
    ensures
        ({
            let script = users::info_script(username);
            let recovery = match replies[4] {
                ReplyView::Bytes(value) => vstd::utf8::decode_utf8(value),
                _ => "(not set)"@,
            };
            &&& users::username_fault(username) is None
            &&& replies.len() >= 8 && rest == replies.skip(8)
            &&& leading_up(replies.take(3))
            &&& replies[3] matches ReplyView::Bytes(signup)
            &&& vstd::utf8::valid_utf8(signup)
            &&& replies[4] is Absent || (replies[4] matches ReplyView::Bytes(value)
                && vstd::utf8::valid_utf8(value))
            &&& conversation::asks_in_turn(
                script,
                replies,
                0,
                asked_first(username) + seq![
                    RequestView::GetAttribute { name: "trusted.recovery"@ },
                    RequestView::Print { line: "username: "@ + username },
                    RequestView::Print {
                        line: "signup email: "@ + vstd::utf8::decode_utf8(signup),
                    },
                    RequestView::Print { line: "recovery email: "@ + recovery },
                ],
            )
        }),
{
    broadcast use conversation::first_of_some;

    reveal(users::account_exists_script);
    reveal(users::open_home_script);
    reveal(users::read_xattr_script);
    let script = users::info_script(username);
    assert(users::valid_username(username));
    furnishing::valid_is_one_entry(username);
    furnishing::places(username);
    let (r1, r2, r3) = (
        replies.drop_first(),
        replies.drop_first().drop_first(),
        replies.drop_first().drop_first().drop_first(),
    );
    assert(r1 =~= replies.skip(1) && r2 =~= replies.skip(2) && r3 =~= replies.skip(3));
    let r4 = r3.drop_first();
    assert(r4 =~= replies.skip(4));
    let r5 = r4.drop_first();
    assert(r5 =~= replies.skip(5));
    assert(r5.drop_first().drop_first().drop_first() =~= replies.skip(8));
    let signup = vstd::utf8::decode_utf8(replies[3]->Bytes_0);
    let recovery = match replies[4] {
        ReplyView::Bytes(value) => vstd::utf8::decode_utf8(value),
        _ => "(not set)"@,
    };
    let requests = asked_first(username) + seq![
        RequestView::GetAttribute { name: "trusted.recovery"@ },
        RequestView::Print { line: "username: "@ + username },
        RequestView::Print { line: "signup email: "@ + signup },
        RequestView::Print { line: "recovery email: "@ + recovery },
    ];
    assert(conversation::asks_at(script, replies, 0, requests[0]));
    assert(conversation::asks_at(script, replies, 1, requests[1]));
    assert(conversation::asks_at(script, replies, 2, requests[2]));
    assert(conversation::asks_at(script, replies, 3, requests[3]));
    assert(conversation::asks_at(script, replies, 4, requests[4]));
    assert(conversation::asks_at(script, replies, 5, requests[5]));
    assert(conversation::asks_at(script, replies, 6, requests[6]));
    assert(conversation::asks_at(script, replies, 7, requests[7]));
}

/// A change of addresses that goes well records each address that was given under its
/// own name, in the home directory of the account, after the one that was there was
/// looked at; it is reported, and nothing else is asked.
pub proof fn changes_are_complete(
    username: Seq<char>,
    signup: Seq<char>,
    recovery: Option<Seq<char>>,
    replies: Seq<ReplyView>,
    rest: Seq<ReplyView>,
)
    requires
        users::set_emails_script(username, signup, recovery).play(replies) == Progress::<
            (),
        >::Ended(Ending::Value(()), rest),
    ensures
        ({
            let script = users::set_emails_script(username, signup, recovery);
            let set_signup = RequestView::SetAttribute {
                name: "trusted.signup"@,
                value: vstd::utf8::encode_utf8(signup),
            };
            let report = RequestView::Print { line: "updated email addresses: "@ + username };
            let later = match recovery {
                Some(recovery) => seq![
                    set_signup,
                    RequestView::SetAttribute {
                        name: "trusted.recovery"@,
                        value: vstd::utf8::encode_utf8(recovery),
                    },
                    report,
                ],
                None => seq![set_signup, report],
            };
            let requests = asked_first(username) + later;
            &&& users::username_fault(username) is None
            &&& users::email_fault("signup"@, signup) is None
            &&& recovery matches Some(recovery) ==> users::email_fault("recovery"@, recovery)
                is None
            &&& replies.len() >= requests.len() && rest == replies.skip(requests.len() as int)
            &&& leading_up(replies.take(3))
            &&& replies[3] is Bytes || replies[3] is Absent
            &&& forall|i: int| 4 <= i < requests.len() ==> #[trigger] replies[i] is Done
            &&& conversation::asks_in_turn(script, replies, 0, requests)
        }),
{
    broadcast use conversation::first_of_some;

    reveal(users::account_exists_script);
    reveal(users::open_home_script);
    let script = users::set_emails_script(username, signup, recovery);
    assert(users::valid_username(username));
    furnishing::valid_is_one_entry(username);
    furnishing::places(username);
    let set_signup = RequestView::SetAttribute {
        name: "trusted.signup"@,
        value: vstd::utf8::encode_utf8(signup),
    };
    let report = RequestView::Print { line: "updated email addresses: "@ + username };
    let later = match recovery {
        Some(recovery) => seq![
            set_signup,
            RequestView::SetAttribute {
                name: "trusted.recovery"@,
                value: vstd::utf8::encode_utf8(recovery),
            },
            report,
        ],
        None => seq![set_signup, report],
    };
    let requests = asked_first(username) + later;
    let r3 = replies.drop_first().drop_first().drop_first();
    assert(r3 =~= replies.skip(3));
    let r5 = r3.drop_first().drop_first();
    assert(r5 =~= replies.skip(5));
    assert(r5.drop_first() =~= replies.skip(6));
    if recovery is Some {
        assert(r5.drop_first().drop_first() =~= replies.skip(7));
    }
    assert(conversation::asks_at(script, replies, 0, requests[0]));
    assert(conversation::asks_at(script, replies, 1, requests[1]));
    assert(conversation::asks_at(script, replies, 2, requests[2]));
    assert(conversation::asks_at(script, replies, 3, requests[3]));
    assert(conversation::asks_at(script, replies, 4, requests[4]));
    assert(conversation::asks_at(script, replies, 5, requests[5]));
    if recovery is Some {
        assert(conversation::asks_at(script, replies, 6, requests[6]));
    }
}

/// Whether a recovery address is given makes no difference before it is set: a change
/// with one asks and fails as the change without one does.
pub proof fn recovery_addresses_come_last(
    username: Seq<char>,
    signup: Seq<char>,
    recovery: Seq<char>,
    replies: Seq<ReplyView>,
)
    requires
        users::email_fault("recovery"@, recovery) is None,
    ensures
        ({
            let with = users::set_emails_script(username, signup, Some(recovery)).play(replies);
            let without = users::set_emails_script(username, signup, None).play(replies);
            match without {
                Progress::Waiting(request) => request is Print || with == without,
                Progress::Ended(Ending::Value(_), _) => true,
                Progress::Ended(Ending::Failed(_), _) => with == without,
                Progress::Ended(Ending::Garbled, rest) => replies.len() - rest.len() < 6 ==> with
                    == without,
            }
        }),
{
    reveal(users::account_exists_script);
    reveal(users::open_home_script);
}

} // verus!
