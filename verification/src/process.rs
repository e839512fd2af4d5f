//! Programs that are run for their exit status.
use vstd::prelude::*;

use crate::dialogue::{Dialogue, Stop};
use crate::request::{Reply, ReplyView, Request, RequestView, Word, WordView};
use crate::script::Script;

verus! {

/// What [`run`] does.
pub open spec fn run_script(program: Seq<char>, arguments: Seq<WordView>) -> Script<()> {
    Script::ask(
        RequestView::Run { program, arguments },
        |reply: ReplyView|
            match reply {
                ReplyView::Exited { code, status } => if code == Some(0i32) {
                    Script::give(())
                } else {
                    Script::refuse(program + " failed with "@ + status)
                },
                ReplyView::Error { not_found, cause } => Script::fail("run "@ + program, cause),
                _ => Script::garbled(),
            },
    )
}

/// Runs a program, which must succeed.
pub fn run(dialogue: &mut Dialogue, program: &str, arguments: Vec<Word>) -> (result: Result<
    (),
    Stop,
>)
    ensures
        final(dialogue).tells(result) == run_script(program@, arguments.deep_view()).play(
            old(dialogue).pending(),
        ),
{
    match dialogue.ask(Request::Run { program: program.to_owned(), arguments })? {
        Reply::Exited { code, status } => {
            if exited_with(code, 0) {
                Ok(())
            } else {
                Err(
                    Stop::refuse(
                        program.to_owned().concat(" failed with ").concat(status.as_str()),
                    ),
                )
            }
        },
        Reply::Error { not_found, cause } => {
            Err(Stop::fail("run ".to_owned().concat(program), cause))
        },
        _ => Err(Stop::Garbled),
    }
}

/// Whether a program exited with `expected`.
pub fn exited_with(code: &Option<i32>, expected: i32) -> (yes: bool)
    ensures
        yes == (*code == Some(expected)),
{
    match code {
        Some(code) => *code == expected,
        None => false,
    }
}

} // verus!
