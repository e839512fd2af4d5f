//! What can be said of a generated password.
use vstd::prelude::*;

use crate::request::{ReplyView, RequestView};
use crate::script::{Ending, Progress};
use crate::users;

verus! {

/// The letter that a byte under two hundred and twenty-eight stands for.
pub open spec fn letter_of(byte: u8) -> char {
    "ABCDEFGHJKLMNPQRSTUVWXYZabcdefghijkmnopqrstuvwxyz23456789"@[byte as int % 57]
}

/// The letters that some random bytes stand for, without the bytes that stand
/// for none.
pub open spec fn letters_of(bytes: Seq<u8>) -> Seq<char>
    decreases bytes.len(),
{
    if bytes.len() == 0 {
        seq![]
    } else if bytes[0] < 228 {
        seq![letter_of(bytes[0])] + letters_of(bytes.drop_first())
    } else {
        letters_of(bytes.drop_first())
    }
}

proof fn letters_are_these(byte: u8)
    ensures
        users::cutoff() == 228,
        users::letter_for(byte) == letter_of(byte),
{
    users::lemma_alphabet_size();
}

/// Some bytes as the replies that hand them over.
pub open spec fn as_replies(bytes: Seq<u8>) -> Seq<ReplyView> {
    bytes.map_values(|byte: u8| ReplyView::Byte(byte))
}

proof fn course_is_letters(length: nat, password: Seq<char>, bytes: Seq<u8>)
    requires
        password.len() <= length,
    ensures
        ({
            let letters = password + letters_of(bytes);
            match users::password_course(length, password, as_replies(bytes)) {
                Progress::Waiting(request) => request == RequestView::ReadByte && letters.len()
                    < length,
                Progress::Ended(Ending::Value(result), _) => result == letters.take(length as int)
                    && letters.len() >= length,
                Progress::Ended(_, _) => false,
            }
        }),
    decreases bytes.len(),
{
    let letters = password + letters_of(bytes);
    if bytes.len() > 0 {
        letters_are_these(bytes[0]);
    }
    if password.len() == length {
        assert(letters.take(length as int) =~= password);
    } else if bytes.len() > 0 {
        assert(as_replies(bytes).drop_first() =~= as_replies(bytes.drop_first()));
        let byte = bytes[0];
        if byte < users::cutoff() {
            let longer = password.push(users::letter_for(byte));
            course_is_letters(length, longer, bytes.drop_first());
            assert(longer + letters_of(bytes.drop_first()) =~= letters);
        } else {
            course_is_letters(length, password, bytes.drop_first());
        }
    }
}

/// A password is read off the random bytes: it is the first letters that they
/// stand for, and more bytes are read exactly as long as there are too few.
pub proof fn passwords_are_read_off_the_bytes(length: nat, bytes: Seq<u8>)
    requires
        length > 0,
    ensures
        match users::password_from_reader_script(length).play(as_replies(bytes)) {
            Progress::Waiting(request) => request == RequestView::ReadByte && letters_of(
                bytes,
            ).len() < length,
            Progress::Ended(Ending::Value(password), _) => password == letters_of(bytes).take(
                length as int,
            ) && letters_of(bytes).len() >= length,
            Progress::Ended(_, _) => false,
        },
{
    course_is_letters(length, seq![], bytes);
    assert(seq![] + letters_of(bytes) =~= letters_of(bytes));
}

/// Whether a text is one that can come out as a password of this length.
pub open spec fn is_password(length: nat, password: Seq<char>) -> bool {
    &&& password.len() == length
    &&& forall|i: int| 0 <= i < password.len() ==> is_clear(#[trigger] password[i])
}

proof fn course_is_password(length: nat, password: Seq<char>, replies: Seq<ReplyView>)
    requires
        password.len() <= length,
        is_password(password.len(), password),
    ensures
        users::password_course(length, password, replies) matches Progress::Ended(
            Ending::Value(result),
            _,
        ) ==> is_password(length, result),
    decreases replies.len(),
{
    if password.len() < length && replies.len() > 0 {
        if let ReplyView::Byte(byte) = replies[0] {
            users::lemma_alphabet_size();
            let longer = password.push(users::letter_for(byte));
            alphabet_in_place(byte as int % 57);
            if byte < users::cutoff() {
                course_is_password(length, longer, replies.drop_first());
            } else {
                course_is_password(length, password, replies.drop_first());
            }
        }
    }
}

/// Whatever is read, a password has the length that was asked for, and no letter
/// that is easily mistaken for another.
pub proof fn passwords_are_well_formed(length: nat, replies: Seq<ReplyView>)
    ensures
        users::password_from_reader_script(length).play(replies) matches Progress::Ended(
            Ending::Value(password),
            _,
        ) ==> is_password(length, password),
{
    course_is_password(length, seq![], replies);
}

/// The letters and digits that are not easily mistaken for one another.
pub open spec fn is_clear(letter: char) -> bool {
    ||| 'A' <= letter <= 'Z' && letter != 'I' && letter != 'O'
    ||| 'a' <= letter <= 'z' && letter != 'l'
    ||| '2' <= letter <= '9'
}

/// Where in the alphabet a letter stands.
spec fn place_of(letter: char) -> int {
    if letter <= '9' {
        49 + (letter as int - '2' as int)
    } else if letter <= 'H' {
        letter as int - 'A' as int
    } else if letter <= 'N' {
        8 + (letter as int - 'J' as int)
    } else if letter <= 'Z' {
        13 + (letter as int - 'P' as int)
    } else if letter <= 'k' {
        24 + (letter as int - 'a' as int)
    } else {
        35 + (letter as int - 'm' as int)
    }
}

spec fn first_in_place(count: nat) -> bool
    decreases count,
{
    count == 0 || {
        let letter = users::PASSWORD_ALPHABET@[count - 1];
        is_clear(letter) && place_of(letter) == count - 1 && first_in_place((count - 1) as nat)
    }
}

proof fn letter_in_place(count: nat, place: int)
    requires
        first_in_place(count),
        0 <= place < count,
    ensures
        is_clear(users::PASSWORD_ALPHABET@[place]),
        place_of(users::PASSWORD_ALPHABET@[place]) == place,
    decreases count,
{
    if place < count - 1 {
        letter_in_place((count - 1) as nat, place);
    }
}

proof fn alphabet_in_place(place: int)
    requires
        0 <= place < 57,
    ensures
        is_clear(users::PASSWORD_ALPHABET@[place]),
        place_of(users::PASSWORD_ALPHABET@[place]) == place,
{
    reveal_strlit("ABCDEFGHJKLMNPQRSTUVWXYZabcdefghijkmnopqrstuvwxyz23456789");
    reveal_with_fuel(first_in_place, 58);
    assert(first_in_place(57));
    letter_in_place(57, place);
}

/// The alphabet holds the letters and digits that are not easily mistaken for
/// one another, each of them once.
pub proof fn alphabet_is_clear()
    ensures
        users::PASSWORD_ALPHABET@.no_duplicates(),
        forall|letter: char|
            #![trigger users::PASSWORD_ALPHABET@.contains(letter)]
            users::PASSWORD_ALPHABET@.contains(letter) <==> is_clear(letter),
{
    users::lemma_alphabet_size();
    assert forall|i: int, j: int|
        #![trigger users::PASSWORD_ALPHABET@[i], users::PASSWORD_ALPHABET@[j]]
        0 <= i < 57 && 0 <= j < 57 && i != j implies users::PASSWORD_ALPHABET@[i]
        != users::PASSWORD_ALPHABET@[j] by {
        alphabet_in_place(i);
        alphabet_in_place(j);
    }
    assert forall|letter: char|
        #![trigger users::PASSWORD_ALPHABET@.contains(letter)]
        users::PASSWORD_ALPHABET@.contains(letter) <==> is_clear(letter) by {
        if users::PASSWORD_ALPHABET@.contains(letter) {
            let place = users::PASSWORD_ALPHABET@.index_of(letter);
            alphabet_in_place(place);
        }
        if is_clear(letter) {
            alphabet_in_place(place_of(letter));
            assert(users::PASSWORD_ALPHABET@[place_of(letter)] == letter);
        }
    }
}

/// Every letter is as likely as every other: of the bytes that stand for a letter
/// at all, exactly four stand for it.
pub proof fn letters_are_equally_likely(place: int, byte: u8)
    requires
        0 <= place < users::PASSWORD_ALPHABET@.len(),
    ensures
        byte < users::cutoff() && users::letter_for(byte) == users::PASSWORD_ALPHABET@[place] <==> {
            ||| byte == place
            ||| byte == place + 57
            ||| byte == place + 114
            ||| byte == place + 171
        },
{
    users::lemma_alphabet_size();
    alphabet_in_place(place);
    alphabet_in_place(byte as int % 57);
}

/// The bytes that some replies hand over.
pub open spec fn bytes_in(replies: Seq<ReplyView>) -> Seq<u8> {
    replies.map_values(|reply: ReplyView| reply->Byte_0)
}

pub(crate) proof fn course_done(
    length: nat,
    password: Seq<char>,
    replies: Seq<ReplyView>,
    result: Seq<char>,
    rest: Seq<ReplyView>,
)
    requires
        password.len() <= length,
        users::password_course(length, password, replies) == Progress::<Seq<char>>::Ended(
            Ending::Value(result),
            rest,
        ),
    ensures
        rest.len() <= replies.len(),
        result.len() == length,
        result == password + letters_of(bytes_in(replies.take(replies.len() - rest.len()))),
        forall|i: int|
            0 <= i < replies.len() - rest.len() ==> #[trigger] replies[i] is Byte
                && users::password_course(length, password, replies.take(i)) == Progress::<
                Seq<char>,
            >::Waiting(RequestView::ReadByte),
    decreases replies.len(),
{
    if password.len() == length {
        assert(replies.take(0) =~= seq![]);
        assert(bytes_in(replies.take(0)) =~= seq![]);
        assert(password + seq![] =~= password);
    } else {
        let byte = replies[0]->Byte_0;
        let others = replies.drop_first();
        let count = replies.len() - rest.len();
        letters_are_these(byte);
        let longer = if byte < 228 {
            password.push(letter_of(byte))
        } else {
            password
        };
        course_done(length, longer, others, result, rest);
        let bytes = bytes_in(replies.take(count));
        assert(bytes.drop_first() =~= bytes_in(others.take(count - 1)));
        assert(result =~= password + letters_of(bytes));
        assert forall|i: int| 0 <= i < count implies #[trigger] replies[i] is Byte
            && users::password_course(length, password, replies.take(i)) == Progress::<
            Seq<char>,
        >::Waiting(RequestView::ReadByte) by {
            if i == 0 {
                assert(replies.take(0) =~= seq![]);
            } else {
                assert(others[i - 1] is Byte);
                assert(replies.take(i).drop_first() =~= others.take(i - 1));
            }
        }
    }
}

/// The letters are these, in this order, and a generated password has twenty-four
/// of them.
pub proof fn the_alphabet_is_this()
    ensures
        users::PASSWORD_ALPHABET@ == "ABCDEFGHJKLMNPQRSTUVWXYZabcdefghijkmnopqrstuvwxyz23456789"@,
        users::PASSWORD_LEN == 24,
        users::cutoff() == 228,
{
    users::lemma_alphabet_size();
}

/// A password without letters is refused, and a byte that cannot be read is the end of
/// it.
pub proof fn passwords_need_bytes(
    length: nat,
    bytes: Seq<u8>,
    not_found: bool,
    cause: Seq<char>,
    replies: Seq<ReplyView>,
)
    ensures
        users::password_from_reader_script(0).play(replies) == Progress::<Seq<char>>::Ended(
            Ending::Failed(seq!["password length must be positive"@]),
            replies,
        ),
        letters_of(bytes).len() < length ==> users::password_from_reader_script(length).play(
            as_replies(bytes).push(ReplyView::Error { not_found, cause }),
        ) == Progress::<Seq<char>>::Ended(
            Ending::Failed(seq!["read random bytes"@, cause]),
            seq![],
        ),
{
    if letters_of(bytes).len() < length {
        assert(seq![] + letters_of(bytes) =~= letters_of(bytes));
        unread(length, seq![], bytes, ReplyView::Error { not_found, cause });
    }
}

proof fn unread(length: nat, password: Seq<char>, bytes: Seq<u8>, reply: ReplyView)
    requires
        (password + letters_of(bytes)).len() < length,
        reply is Error,
    ensures
        users::password_course(length, password, as_replies(bytes).push(reply)) == Progress::<
            Seq<char>,
        >::Ended(Ending::Failed(seq!["read random bytes"@, reply->cause]), seq![]),
    decreases bytes.len(),
{
    let more = as_replies(bytes).push(reply);
    if bytes.len() == 0 {
        assert(more.drop_first() =~= seq![]);
    } else {
        letters_are_these(bytes[0]);
        assert(more.drop_first() =~= as_replies(bytes.drop_first()).push(reply));
        if bytes[0] < 228 {
            unread(length, password.push(letter_of(bytes[0])), bytes.drop_first(), reply);
        } else {
            unread(length, password, bytes.drop_first(), reply);
        }
    }
}

} // verus!
