//! The source repositories: which of them are updated, and how.
use vstd::prelude::*;

use crate::dialogue::{Dialogue, Stop};
use crate::encoding;
use crate::path;
use crate::process;
use crate::request::{Reply, ReplyView, Request, RequestView, Word, WordView};
use crate::script::Script;
use crate::services;
use crate::text;

verus! {

broadcast use crate::request::bytes_are_their_items;

/// What is to be updated.
pub struct UpdateArgs {
    /// Repository directory names; every eligible repository when there are none.
    pub repos: Vec<String>,
    /// Parent directory containing the source repositories.
    pub source_root: Vec<u8>,
}

/// What [`eligible`] does.
#[verifier::opaque]
pub open spec fn eligible_script(repository: Seq<u8>) -> Script<bool> {
    Script::question(RequestView::IsDirectory { place: WordView::Raw(repository) }).and_then(
        |directory: bool|
            if directory {
                Script::question(
                    RequestView::Exists {
                        place: WordView::Raw(
                            path::below_raw(repository, vstd::utf8::encode_utf8(".git"@)),
                        ),
                    },
                ).and_then(
                    |git: bool|
                        if git {
                            Script::question(
                                RequestView::IsFile {
                                    place: WordView::Raw(
                                        path::below_raw(
                                            repository,
                                            vstd::utf8::encode_utf8("Makefile"@),
                                        ),
                                    ),
                                },
                            )
                        } else {
                            Script::give(false)
                        },
                )
            } else {
                Script::give(false)
            },
    )
}

/// Whether a path is that of a Git repository with a Makefile.
pub fn eligible(dialogue: &mut Dialogue, repository: &Vec<u8>) -> (result: Result<bool, Stop>)
    ensures
        final(dialogue).tells(result) == eligible_script(repository@).play(
            old(dialogue).pending(),
        ),
{
    reveal(eligible_script);
    let place = Word::Raw(path::copy_bytes(repository.as_slice()));
    if !dialogue.question(Request::IsDirectory { place })? {
        return Ok(false);
    }
    let git = Word::Raw(path::join_raw(repository, ".git".as_bytes()));
    if !dialogue.question(Request::Exists { place: git })? {
        return Ok(false);
    }
    let makefile = Word::Raw(path::join_raw(repository, "Makefile".as_bytes()));
    dialogue.question(Request::IsFile { place: makefile })
}

/// Whether a name is that of an entry of a directory, and of none outside it.
pub open spec fn plain_name(name: Seq<char>) -> bool {
    &&& name.len() > 0
    &&& name != "."@
    &&& name != ".."@
    &&& forall|i: int| 0 <= i < name.len() ==> name[i] != '/' && name[i] != '\0'
}

/// Whether a name is a [`plain_name`].
pub fn is_plain_name(name: &str) -> (yes: bool)
    ensures
        yes == plain_name(name@),
{
    let chars = text::chars_of(name);
    if chars.len() == 0 || text::same_text(name, ".") || text::same_text(name, "..") {
        return false;
    }
    let mut i: usize = 0;
    while i < chars.len()
        invariant
            i <= chars.len(),
            chars@ == name@,
            forall|k: int| 0 <= k < i ==> name@[k] != '/' && name@[k] != '\0',
        decreases chars.len() - i,
    {
        if chars[i] == '/' || chars[i] == '\0' {
            assert(name@[i as int] == chars@[i as int]);
            return false;
        }
        i = i + 1;
    }
    true
}

/// The first of some names that is not a [`plain_name`].
pub open spec fn first_unfit(names: Seq<Seq<char>>) -> Option<Seq<char>>
    decreases names.len(),
{
    if names.len() == 0 {
        None
    } else if plain_name(names[0]) {
        first_unfit(names.drop_first())
    } else {
        Some(names[0])
    }
}

/// The paths of named entries of a directory.
pub open spec fn paths_of(root: Seq<u8>, names: Seq<Seq<char>>) -> Seq<Seq<u8>> {
    names.map_values(
        |name: Seq<char>| path::below_raw(root, vstd::utf8::encode_utf8(name)),
    )
}

/// The paths that may be those of repositories: every entry of the directory if
/// there are no names, else the named ones.
pub open spec fn candidates_script(root: Seq<u8>, names: Seq<Seq<char>>) -> Script<Seq<Seq<u8>>> {
    if names.len() == 0 {
        Script::ask(
            RequestView::ListDirectory { directory: root },
            |reply: ReplyView|
                match reply {
                    ReplyView::Names(entries) => Script::give(
                        entries.map_values(|entry: Seq<u8>| path::below_raw(root, entry)),
                    ),
                    ReplyView::Error { not_found, cause } => Script::fail(
                        "read "@ + encoding::lossy(root),
                        cause,
                    ),
                    _ => Script::garbled(),
                },
        )
    } else {
        match first_unfit(names) {
            Some(name) => Script::refuse("invalid repository name: "@ + name),
            None => Script::give(paths_of(root, names)),
        }
    }
}

fn candidates(dialogue: &mut Dialogue, root: &Vec<u8>, names: &[String]) -> (result: Result<
    Vec<Vec<u8>>,
    Stop,
>)
    ensures
        final(dialogue).tells(result) == candidates_script(root@, names.deep_view()).play(
            old(dialogue).pending(),
        ),
{
    let mut paths: Vec<Vec<u8>> = Vec::new();
    let mut i: usize = 0;
    if names.len() == 0 {
        let directory = path::copy_bytes(root.as_slice());
        match dialogue.ask(Request::ListDirectory { directory })? {
            Reply::Names(entries) => {
                let ghost wanted = entries.deep_view().map_values(
                    |entry: Seq<u8>| path::below_raw(root@, entry),
                );
                assert(paths.deep_view() =~= wanted.take(0));
                while i < entries.len()
                    invariant
                        i <= entries.len(),
                        wanted == entries.deep_view().map_values(
                            |entry: Seq<u8>| path::below_raw(root@, entry),
                        ),
                        paths.deep_view() == wanted.take(i as int),
                    decreases entries.len() - i,
                {
                    let ghost before = paths.deep_view();
                    let path = path::join_raw(root, entries[i].as_slice());
                    paths.push(path);
                    assert(entries.deep_view()[i as int] == entries@[i as int]@);
                    assert(paths.deep_view() =~= before.push(path@));
                    assert(wanted.take(i + 1) =~= wanted.take(i as int).push(wanted[i as int]));
                    i = i + 1;
                }
                assert(wanted.take(i as int) =~= wanted);
                Ok(paths)
            },
            Reply::Error { not_found, cause } => {
                Err(
                    Stop::fail(
                        "read ".to_owned().concat(encoding::decode_lossy(root).as_str()),
                        cause,
                    ),
                )
            },
            _ => Err(Stop::Garbled),
        }
    } else {
        let ghost views = names.deep_view();
        let ghost wanted = paths_of(root@, views);
        assert(paths.deep_view() =~= wanted.take(0));
        assert(views.skip(0) =~= views);
        while i < names.len()
            invariant
                i <= names.len(),
                0 < names.len(),
                views == names.deep_view(),
                wanted == paths_of(root@, views),
                paths.deep_view() == wanted.take(i as int),
                first_unfit(views) == first_unfit(views.skip(i as int)),
                dialogue.pending() == old(dialogue).pending(),
            decreases names.len() - i,
        {
            let name = names[i].as_str();
            assert(views.skip(i as int)[0] == name@);
            assert(views.skip(i as int).drop_first() =~= views.skip(i + 1));
            if !is_plain_name(name) {
                return Err(Stop::refuse("invalid repository name: ".to_owned().concat(name)));
            }
            let ghost before = paths.deep_view();
            let path = path::join_raw(root, name.as_bytes());
            paths.push(path);
            assert(paths.deep_view() =~= before.push(path@));
            assert(wanted.take(i + 1) =~= wanted.take(i as int).push(wanted[i as int]));
            i = i + 1;
        }
        assert(wanted.take(i as int) =~= wanted);
        Ok(paths)
    }
}

/// Those of some paths, after the ones already kept, that are eligible.
pub open spec fn keep_eligible_script(
    paths: Seq<Seq<u8>>,
    kept: Seq<Seq<u8>>,
) -> Script<Seq<Seq<u8>>>
    decreases paths.len(),
{
    if paths.len() == 0 {
        Script::give(kept)
    } else {
        eligible_script(paths[0]).and_then(
            |fit: bool|
                keep_eligible_script(
                    paths.drop_first(),
                    if fit {
                        kept.push(paths[0])
                    } else {
                        kept
                    },
                ),
        )
    }
}

fn keep_eligible(dialogue: &mut Dialogue, paths: &Vec<Vec<u8>>) -> (result: Result<
    Vec<Vec<u8>>,
    Stop,
>)
    ensures
        final(dialogue).tells(result) == keep_eligible_script(paths.deep_view(), seq![]).play(
            old(dialogue).pending(),
        ),
{
    let ghost views = paths.deep_view();
    let mut kept: Vec<Vec<u8>> = Vec::new();
    let mut i: usize = 0;
    assert(views.skip(0) =~= views);
    assert(kept.deep_view() =~= seq![]);
    while i < paths.len()
        invariant
            i <= paths.len(),
            views == paths.deep_view(),
            keep_eligible_script(views, seq![]).play(old(dialogue).pending())
                == keep_eligible_script(views.skip(i as int), kept.deep_view()).play(
                dialogue.pending(),
            ),
        decreases paths.len() - i,
    {
        let ghost before = kept.deep_view();
        assert(views.skip(i as int)[0] == paths@[i as int]@);
        assert(views.skip(i as int).drop_first() =~= views.skip(i + 1));
        if eligible(dialogue, &paths[i])? {
            kept.push(path::copy_bytes(paths[i].as_slice()));
            assert(kept.deep_view() =~= before.push(paths@[i as int]@));
        }
        i = i + 1;
    }
    Ok(kept)
}

/// Those of some names, after the ones already found, whose paths are not
/// eligible.
pub open spec fn find_ineligible_script(
    root: Seq<u8>,
    names: Seq<Seq<char>>,
    found: Seq<Seq<char>>,
) -> Script<Seq<Seq<char>>>
    decreases names.len(),
{
    if names.len() == 0 {
        Script::give(found)
    } else {
        eligible_script(path::below_raw(root, vstd::utf8::encode_utf8(names[0]))).and_then(
            |fit: bool|
                find_ineligible_script(
                    root,
                    names.drop_first(),
                    if fit {
                        found
                    } else {
                        found.push(names[0])
                    },
                ),
        )
    }
}

fn find_ineligible(dialogue: &mut Dialogue, root: &Vec<u8>, names: &[String]) -> (result: Result<
    Vec<String>,
    Stop,
>)
    ensures
        final(dialogue).tells(result) == find_ineligible_script(
            root@,
            names.deep_view(),
            seq![],
        ).play(old(dialogue).pending()),
{
    let ghost views = names.deep_view();
    let mut found: Vec<String> = Vec::new();
    let mut i: usize = 0;
    assert(views.skip(0) =~= views);
    assert(found.deep_view() =~= seq![]);
    while i < names.len()
        invariant
            i <= names.len(),
            views == names.deep_view(),
            find_ineligible_script(root@, views, seq![]).play(old(dialogue).pending())
                == find_ineligible_script(root@, views.skip(i as int), found.deep_view()).play(
                dialogue.pending(),
            ),
        decreases names.len() - i,
    {
        let ghost before = found.deep_view();
        assert(views.skip(i as int)[0] == names@[i as int]@);
        assert(views.skip(i as int).drop_first() =~= views.skip(i + 1));
        if !eligible(dialogue, &path::join_raw(root, names[i].as_str().as_bytes()))? {
            found.push(names[i].clone());
            assert(found.deep_view() =~= before.push(names@[i as int]@));
        }
        i = i + 1;
    }
    Ok(found)
}

/// What [`select`] does.
#[verifier::opaque]
pub open spec fn select_script(root: Seq<u8>, names: Seq<Seq<char>>) -> Script<Seq<Seq<u8>>> {
    Script::question(RequestView::IsDirectory { place: WordView::Raw(root) }).and_then(
        |directory: bool|
            if directory {
                candidates_script(root, names)
            } else {
                Script::refuse("source root is not a directory: "@ + encoding::lossy(root))
            },
    ).and_then(|paths: Seq<Seq<u8>>| keep_eligible_script(paths, seq![])).and_then(
        |kept: Seq<Seq<u8>>|
            if names.len() > 0 && kept.len() != names.len() {
                find_ineligible_script(root, names, seq![]).and_then(
                    |missing: Seq<Seq<char>>|
                        Script::refuse(
                            "not Git repositories with Makefiles under "@ + encoding::lossy(root)
                                + ": "@ + text::joined(missing, ", "@),
                        ),
                )
            } else {
                Script::give(path::in_order(kept))
            },
    )
}

/// Selects the repositories to update: the named ones, all of which must be
/// eligible, or every eligible one. They come in order.
pub fn select(dialogue: &mut Dialogue, source_root: &Vec<u8>, names: &[String]) -> (result: Result<
    Vec<Vec<u8>>,
    Stop,
>)
    ensures
        final(dialogue).tells(result) == select_script(source_root@, names.deep_view()).play(
            old(dialogue).pending(),
        ),
{
    reveal(select_script);
    let place = Word::Raw(path::copy_bytes(source_root.as_slice()));
    if !dialogue.question(Request::IsDirectory { place })? {
        return Err(
            Stop::refuse(
                "source root is not a directory: ".to_owned().concat(
                    encoding::decode_lossy(source_root).as_str(),
                ),
            ),
        );
    }
    let paths = candidates(dialogue, source_root, names)?;
    let repositories = keep_eligible(dialogue, &paths)?;
    assert(repositories.deep_view().len() == repositories.len());
    if names.len() > 0 && repositories.len() != names.len() {
        let missing = find_ineligible(dialogue, source_root, names)?;
        return Err(
            Stop::refuse(
                "not Git repositories with Makefiles under ".to_owned().concat(
                    encoding::decode_lossy(source_root).as_str(),
                ).concat(": ").concat(text::join(&missing, ", ").as_str()),
            ),
        );
    }
    Ok(path::sort(repositories))
}

/// One of the steps that every repository goes through.
#[derive(Clone, Copy)]
pub enum Stage {
    Pull,
    Build,
    Install,
}

/// What takes one repository through one step.
#[verifier::opaque]
pub open spec fn stage_script(stage: Stage, repository: Seq<u8>) -> Script<()> {
    match stage {
        Stage::Pull => Script::print("pulling "@ + encoding::lossy(repository)).and(
            process::run_script(
                "git"@,
                seq![
                    WordView::Text("-C"@),
                    WordView::Raw(repository),
                    WordView::Text("pull"@),
                    WordView::Text("--ff-only"@),
                ],
            ),
        ),
        Stage::Build => Script::print("building "@ + encoding::lossy(repository)).and(
            process::run_script("make"@, seq![WordView::Text("-C"@), WordView::Raw(repository)]),
        ),
        Stage::Install => Script::print("installing "@ + encoding::lossy(repository)).and(
            process::run_script(
                "make"@,
                seq![
                    WordView::Text("-C"@),
                    WordView::Raw(repository),
                    WordView::Text("install"@),
                ],
            ),
        ),
    }
}

fn take_through(dialogue: &mut Dialogue, stage: Stage, repository: &Vec<u8>) -> (result: Result<
    (),
    Stop,
>)
    ensures
        final(dialogue).tells(result) == stage_script(stage, repository@).play(
            old(dialogue).pending(),
        ),
{
    reveal(stage_script);
    let shown = encoding::decode_lossy(repository);
    let place = Word::Raw(path::copy_bytes(repository.as_slice()));
    match stage {
        Stage::Pull => {
            dialogue.print("pulling ".to_owned().concat(shown.as_str()))?;
            let arguments = vec![
                Word::Text("-C".to_owned()),
                place,
                Word::Text("pull".to_owned()),
                Word::Text("--ff-only".to_owned()),
            ];
            assert(arguments.deep_view() =~= seq![
                WordView::Text("-C"@),
                WordView::Raw(repository@),
                WordView::Text("pull"@),
                WordView::Text("--ff-only"@),
            ]);
            process::run(dialogue, "git", arguments)
        },
        Stage::Build => {
            dialogue.print("building ".to_owned().concat(shown.as_str()))?;
            let arguments = vec![Word::Text("-C".to_owned()), place];
            assert(arguments.deep_view() =~= seq![
                WordView::Text("-C"@),
                WordView::Raw(repository@),
            ]);
            process::run(dialogue, "make", arguments)
        },
        Stage::Install => {
            dialogue.print("installing ".to_owned().concat(shown.as_str()))?;
            let arguments = vec![
                Word::Text("-C".to_owned()),
                place,
                Word::Text("install".to_owned()),
            ];
            assert(arguments.deep_view() =~= seq![
                WordView::Text("-C"@),
                WordView::Raw(repository@),
                WordView::Text("install"@),
            ]);
            process::run(dialogue, "make", arguments)
        },
    }
}

/// What takes repositories through one step, one after another.
pub open spec fn all_through_script(stage: Stage, repositories: Seq<Seq<u8>>) -> Script<()> {
    Script::each(repositories, |repository: Seq<u8>| stage_script(stage, repository))
}

fn take_all_through(
    dialogue: &mut Dialogue,
    stage: Stage,
    repositories: &Vec<Vec<u8>>,
) -> (result: Result<(), Stop>)
    ensures
        final(dialogue).tells(result) == all_through_script(
            stage,
            repositories.deep_view(),
        ).play(old(dialogue).pending()),
{
    let ghost views = repositories.deep_view();
    let mut i: usize = 0;
    assert(views.skip(0) =~= views);
    while i < repositories.len()
        invariant
            i <= repositories.len(),
            views == repositories.deep_view(),
            all_through_script(stage, views).play(old(dialogue).pending()) == all_through_script(
                stage,
                views.skip(i as int),
            ).play(dialogue.pending()),
        decreases repositories.len() - i,
    {
        assert(views.skip(i as int)[0] == repositories@[i as int]@);
        assert(views.skip(i as int).drop_first() =~= views.skip(i + 1));
        take_through(dialogue, stage, &repositories[i])?;
        i = i + 1;
    }
    Ok(())
}

/// What [`update`] does once the repositories are selected.
pub open spec fn update_selected_script(repositories: Seq<Seq<u8>>) -> Script<()> {
    all_through_script(Stage::Pull, repositories).and(
        all_through_script(Stage::Build, repositories),
    ).and(all_through_script(Stage::Install, repositories)).and(
        process::run_script("systemctl"@, seq![WordView::Text("daemon-reload"@)]),
    ).and(services::restart_script(services::managed())).and(
        services::health_script(services::managed()),
    )
}

/// What [`update`] does.
pub open spec fn update_script(root: Seq<u8>, names: Seq<Seq<char>>) -> Script<()> {
    select_script(root, names).and_then(
        |repositories: Seq<Seq<u8>>|
            if repositories.len() == 0 {
                Script::refuse("no eligible repositories found"@)
            } else {
                update_selected_script(repositories)
            },
    )
}

fn update_selected(dialogue: &mut Dialogue, repositories: &Vec<Vec<u8>>) -> (result: Result<
    (),
    Stop,
>)
    ensures
        final(dialogue).tells(result) == update_selected_script(repositories.deep_view()).play(
            old(dialogue).pending(),
        ),
{
    take_all_through(dialogue, Stage::Pull, repositories)?;
    take_all_through(dialogue, Stage::Build, repositories)?;
    take_all_through(dialogue, Stage::Install, repositories)?;
    let arguments = vec![Word::Text("daemon-reload".to_owned())];
    assert(arguments.deep_view() =~= seq![WordView::Text("daemon-reload"@)]);
    process::run(dialogue, "systemctl", arguments)?;
    let all = services::all();
    services::restart(dialogue, all.as_slice())?;
    services::health(dialogue, all.as_slice())
}

/// Pulls, builds and installs repositories, then restarts the services and
/// checks their health.
pub fn update(dialogue: &mut Dialogue, arguments: &UpdateArgs) -> (result: Result<(), Stop>)
    ensures
        final(dialogue).tells(result) == update_script(
            arguments.source_root@,
            arguments.repos.deep_view(),
        ).play(old(dialogue).pending()),
{
    let repositories = select(dialogue, &arguments.source_root, arguments.repos.as_slice())?;
    assert(repositories.deep_view().len() == repositories.len());
    if repositories.len() == 0 {
        return Err(Stop::refuse("no eligible repositories found".to_owned()));
    }
    update_selected(dialogue, &repositories)
}

} // verus!
