//! Addon folders, ScriptHook files and the ScriptHook configuration.

use crate::paths::{
    self, join_bytes, path_class, shown_path, PathBytes, PathSet,
};
use crate::text::{
    cut_first, joined, lemma_cut_first, lemma_first_at, lines_of, lower, same_ignoring_case,
    split_once, texts, trim, trimmed, CharClass, drop_leading, drop_trailing,
};
use crate::text;
use std::path::{Path, PathBuf};
use vstd::prelude::*;

verus! {

/// One change of the file system, with the text that explains its failure.
pub enum DirectoryChange {
    Rename { from: PathBuf, to: PathBuf, context: String },
    Create { path: PathBuf, context: String },
}

/// The change that makes a directory visible or hides it, as a function of what exists.
#[derive(Clone, Copy, PartialEq, Eq, Structural)]
pub enum DirectoryMove {
    Keep,
    Unhide,
    Create,
    Hide,
}

/// What has to be done so that a directory is enabled or disabled.
pub open spec fn directory_move(enabled: bool, visible: bool, hidden: bool) -> DirectoryMove {
    if enabled {
        if visible {
            DirectoryMove::Keep
        } else if hidden {
            DirectoryMove::Unhide
        } else {
            DirectoryMove::Create
        }
    } else if visible && !hidden {
        DirectoryMove::Hide
    } else {
        DirectoryMove::Keep
    }
}

/// What exists after a move: the visible and the hidden directory.
pub open spec fn moved(step: DirectoryMove, visible: bool, hidden: bool) -> (bool, bool) {
    match step {
        DirectoryMove::Keep => (visible, hidden),
        DirectoryMove::Unhide => (true, false),
        DirectoryMove::Create => (true, hidden),
        DirectoryMove::Hide => (false, true),
    }
}

/// What exists once a directory has been enabled or disabled.
pub open spec fn switched(enabled: bool, visible: bool, hidden: bool) -> (bool, bool) {
    moved(directory_move(enabled, visible, hidden), visible, hidden)
}

impl DirectoryChange {
    /// Whether this is the given move of a pair of directories.
    pub open spec fn does(self, step: DirectoryMove, visible: &Path, hidden: &Path) -> bool {
        match step {
            DirectoryMove::Keep => false,
            DirectoryMove::Unhide => self matches DirectoryChange::Rename { from, to, context }
                && from.bytes() == hidden.bytes() && to.bytes() == visible.bytes() && context@
                == "Failed to unhide "@ + shown_path(visible.bytes()) + " from "@ + shown_path(
                hidden.bytes(),
            ),
            DirectoryMove::Create => self matches DirectoryChange::Create { path, context }
                && path.bytes() == visible.bytes() && context@ == "Failed to create "@
                + shown_path(visible.bytes()),
            DirectoryMove::Hide => self matches DirectoryChange::Rename { from, to, context }
                && from.bytes() == visible.bytes() && to.bytes() == hidden.bytes() && context@
                == "Failed to hide "@ + shown_path(visible.bytes()) + " as "@ + shown_path(
                hidden.bytes(),
            ),
        }
    }
}

/// The next change on the way to an enabled or disabled directory, where one is needed.
///
/// A directory that is to be enabled comes back from its hidden name where it can, and is
/// created otherwise; one that is to be disabled gives way to its hidden name, unless that
/// name is taken.
pub fn set_directory_enabled(
    visible: &Path,
    hidden: &Path,
    enabled: bool,
    visible_exists: bool,
    hidden_exists: bool,
) -> (r: Option<DirectoryChange>)
    ensures
        match r {
            Some(change) => change.does(
                directory_move(enabled, visible_exists, hidden_exists),
                visible,
                hidden,
            ),
            None => directory_move(enabled, visible_exists, hidden_exists) is Keep,
        },
{
    if enabled {
        if visible_exists {
            None
        } else if hidden_exists {
            let mut context = "Failed to unhide ".to_owned();
            context.append(paths::shown(visible).as_str());
            context.append(" from ");
            context.append(paths::shown(hidden).as_str());
            Some(
                DirectoryChange::Rename {
                    from: hidden.to_path_buf(),
                    to: visible.to_path_buf(),
                    context,
                },
            )
        } else {
            let mut context = "Failed to create ".to_owned();
            context.append(paths::shown(visible).as_str());
            Some(DirectoryChange::Create { path: visible.to_path_buf(), context })
        }
    } else if visible_exists && !hidden_exists {
        let mut context = "Failed to hide ".to_owned();
        context.append(paths::shown(visible).as_str());
        context.append(" as ");
        context.append(paths::shown(hidden).as_str());
        Some(
            DirectoryChange::Rename {
                from: visible.to_path_buf(),
                to: hidden.to_path_buf(),
                context,
            },
        )
    } else {
        None
    }
}

/// An enabled directory exists under its visible name, and nothing is left to do then.
pub proof fn enabling_makes_a_directory_visible(visible: bool, hidden: bool)
    ensures
        ({
            let (now_visible, now_hidden) = switched(true, visible, hidden);
            now_visible && directory_move(true, now_visible, now_hidden) is Keep
        }),
{
}

/// A disabled directory is not visible, unless a hidden one was in the way; nothing is left to
/// do then.
pub proof fn disabling_hides_a_directory(visible: bool, hidden: bool)
    ensures
        ({
            let (now_visible, now_hidden) = switched(false, visible, hidden);
            (now_visible <==> visible && hidden) && directory_move(
                false,
                now_visible,
                now_hidden,
            ) is Keep
        }),
{
}

/// Disabling a directory and enabling it again gives back what was there.
pub proof fn hiding_can_be_undone(hidden: bool)
    ensures
        ({
            let (v, h) = switched(false, true, hidden);
            switched(true, v, h) == (true, hidden)
        }),
{
}

/// The files that ScriptHook needs in the game folder.
pub open spec fn script_hook_names() -> Seq<Seq<char>> {
    seq![
        "dinput8.dll"@,
        "ScriptHookV.dll"@,
        "ScriptHookVDotNet.asi"@,
        "ScriptHookVDotNet2.dll"@,
        "ScriptHookVDotNet3.dll"@,
        "mscoree.dll"@,
    ]
}

/// The names, in order, whose file under `root` is not among the given files.
pub open spec fn missing_among(
    names: Seq<Seq<char>>,
    root: Seq<u8>,
    files: Set<Seq<Seq<u8>>>,
) -> Seq<Seq<char>>
    decreases names.len(),
{
    if names.len() == 0 {
        Seq::empty()
    } else {
        let before = missing_among(names.drop_last(), root, files);
        if files.contains(path_class(join_bytes(root, names.last()))) {
            before
        } else {
            before.push(names.last())
        }
    }
}

fn required_script_hook_files() -> (r: Vec<String>)
    ensures
        texts(r@) == script_hook_names(),
{
    let mut names: Vec<String> = Vec::new();
    names.push("dinput8.dll".to_owned());
    names.push("ScriptHookV.dll".to_owned());
    names.push("ScriptHookVDotNet.asi".to_owned());
    names.push("ScriptHookVDotNet2.dll".to_owned());
    names.push("ScriptHookVDotNet3.dll".to_owned());
    names.push("mscoree.dll".to_owned());
    assert(texts(names@) =~= script_hook_names());
    names
}

/// The paths under the game folder at which ScriptHook files are looked for.
pub fn script_hook_paths(game_root: &Path) -> (r: Vec<PathBuf>)
    ensures
        r@.len() == script_hook_names().len(),
        forall|i: int|
            0 <= i < r@.len() ==> (#[trigger] r@[i]).bytes() == join_bytes(
                game_root.bytes(),
                script_hook_names()[i],
            ),
{
    let names = required_script_hook_files();
    let mut out: Vec<PathBuf> = Vec::new();
    let mut i: usize = 0;
    while i < names.len()
        invariant
            texts(names@) == script_hook_names(),
            0 <= i <= names@.len(),
            out@.len() == i,
            forall|j: int|
                0 <= j < i ==> (#[trigger] out@[j]).bytes() == join_bytes(
                    game_root.bytes(),
                    script_hook_names()[j],
                ),
        decreases names@.len() - i,
    {
        assert(texts(names@)[i as int] == names@[i as int]@);
        out.push(paths::join(game_root, names[i].as_str()));
        i += 1;
    }
    assert(names@.len() == texts(names@).len());
    out
}

/// The ScriptHook files that are missing from the game folder, given the files that are there.
pub fn missing_script_hook_files(game_root: &Path, files: &PathSet) -> (r: Vec<String>)
    ensures
        texts(r@) == missing_among(script_hook_names(), game_root.bytes(), files@),
{
    let names = required_script_hook_files();
    let mut out: Vec<String> = Vec::new();
    let mut i: usize = 0;
    let ghost all = texts(names@);
    while i < names.len()
        invariant
            all == texts(names@),
            0 <= i <= names@.len(),
            texts(out@) == missing_among(all.take(i as int), game_root.bytes(), files@),
        decreases names@.len() - i,
    {
        proof {
            assert(all.take(i + 1).drop_last() =~= all.take(i as int));
        }
        let path = paths::join(game_root, names[i].as_str());
        if !files.contains(path.as_path()) {
            let ghost before = texts(out@);
            out.push(names[i].clone());
            assert(texts(out@) =~= before.push(all[i as int]));
        }
        i += 1;
    }
    assert(all.take(all.len() as int) =~= all);
    out
}

/// Nothing is missing exactly when every ScriptHook file is there.
pub proof fn nothing_is_missing_when_every_file_is_there(root: Seq<u8>, files: Set<Seq<Seq<u8>>>)
    ensures
        missing_among(script_hook_names(), root, files).len() == 0 <==> forall|i: int|
            0 <= i < script_hook_names().len() ==> files.contains(
                path_class(join_bytes(root, #[trigger] script_hook_names()[i])),
            ),
{
    lemma_missing_none(script_hook_names(), root, files);
}

proof fn lemma_missing_none(names: Seq<Seq<char>>, root: Seq<u8>, files: Set<Seq<Seq<u8>>>)
    ensures
        missing_among(names, root, files).len() == 0 <==> forall|i: int|
            0 <= i < names.len() ==> files.contains(
                path_class(join_bytes(root, #[trigger] names[i])),
            ),
    decreases names.len(),
{
    if names.len() > 0 {
        let front = names.drop_last();
        lemma_missing_none(front, root, files);
        if missing_among(names, root, files).len() == 0 {
            assert forall|i: int| 0 <= i < names.len() implies files.contains(
                path_class(join_bytes(root, #[trigger] names[i])),
            ) by {
                if i < front.len() {
                    assert(front[i] == names[i]);
                }
            }
        } else if forall|i: int|
            0 <= i < names.len() ==> files.contains(
                path_class(join_bytes(root, #[trigger] names[i])),
            ) {
            assert(names[names.len() - 1] == names.last());
            assert forall|i: int| 0 <= i < front.len() implies files.contains(
                path_class(join_bytes(root, #[trigger] front[i])),
            ) by {
                assert(front[i] == names[i]);
            }
        }
    }
}

/// Whether a line of the configuration sets `AutoLoadScripts`.
pub open spec fn sets_autoload(line: Seq<char>) -> bool {
    match cut_first(line, '=') {
        Some((key, _)) => lower(trimmed(key)) == lower("AutoLoadScripts"@),
        None => false,
    }
}

/// The line that switches the loading of scripts on or off.
pub open spec fn autoload_line(on: bool) -> Seq<char> {
    "AutoLoadScripts="@ + if on {
        "true"@
    } else {
        "false"@
    }
}

/// The lines with the first `AutoLoadScripts` line replaced, or with one behind them.
pub open spec fn with_autoload(lines: Seq<Seq<char>>, on: bool) -> Seq<Seq<char>>
    decreases lines.len(),
{
    if lines.len() == 0 {
        seq![autoload_line(on)]
    } else if sets_autoload(lines[0]) {
        seq![autoload_line(on)] + lines.skip(1)
    } else {
        seq![lines[0]] + with_autoload(lines.skip(1), on)
    }
}

/// The configuration after an update: each line with a line feed behind it.
pub open spec fn updated_ini(content: Seq<char>, on: bool) -> Seq<char> {
    joined(with_autoload(lines_of(content), on), "\n"@) + "\n"@
}

proof fn lemma_replaced(lines: Seq<Seq<char>>, on: bool, i: int)
    requires
        0 <= i < lines.len(),
        sets_autoload(lines[i]),
        forall|j: int| 0 <= j < i ==> !sets_autoload(#[trigger] lines[j]),
    ensures
        with_autoload(lines, on) == lines.update(i, autoload_line(on)),
    decreases lines.len(),
{
    if i == 0 {
        assert(seq![autoload_line(on)] + lines.skip(1) =~= lines.update(0, autoload_line(on)));
    } else {
        let rest = lines.skip(1);
        assert forall|j: int| 0 <= j < i - 1 implies !sets_autoload(#[trigger] rest[j]) by {
            assert(rest[j] == lines[j + 1]);
        }
        assert(rest[i - 1] == lines[i]);
        lemma_replaced(rest, on, i - 1);
        assert(!sets_autoload(lines[0]));
        assert(seq![lines[0]] + rest.update(i - 1, autoload_line(on)) =~= lines.update(
            i,
            autoload_line(on),
        ));
    }
}

proof fn lemma_appended(lines: Seq<Seq<char>>, on: bool)
    requires
        forall|j: int| 0 <= j < lines.len() ==> !sets_autoload(#[trigger] lines[j]),
    ensures
        with_autoload(lines, on) == lines.push(autoload_line(on)),
    decreases lines.len(),
{
    if lines.len() == 0 {
        assert(seq![autoload_line(on)] =~= lines.push(autoload_line(on)));
    } else {
        let rest = lines.skip(1);
        assert forall|j: int| 0 <= j < rest.len() implies !sets_autoload(#[trigger] rest[j]) by {
            assert(rest[j] == lines[j + 1]);
        }
        lemma_appended(rest, on);
        assert(!sets_autoload(lines[0]));
        assert(seq![lines[0]] + rest.push(autoload_line(on)) =~= lines.push(autoload_line(on)));
    }
}

fn line_sets_autoload(line: &str) -> (r: bool)
    ensures
        r == sets_autoload(line@),
{
    match split_once(line, '=') {
        Some((key, _)) => same_ignoring_case(trim(key.as_str()).as_str(), "AutoLoadScripts"),
        None => false,
    }
}

/// The ScriptHook configuration with the loading of scripts switched on or off; the content is
/// empty where there is no configuration yet.
pub fn update_scripthook_ini(content: &str, autoload_scripts: bool) -> (r: String)
    ensures
        r@ == updated_ini(content@, autoload_scripts),
{
    let mut desired = "AutoLoadScripts=".to_owned();
    if autoload_scripts {
        desired.append("true");
    } else {
        desired.append("false");
    }
    let mut lines = text::lines(content);
    let ghost before = texts(lines@);
    let mut i: usize = 0;
    while i < lines.len() && !line_sets_autoload(lines[i].as_str())
        invariant
            before == texts(lines@),
            0 <= i <= lines@.len(),
            forall|j: int| 0 <= j < i ==> !sets_autoload(#[trigger] before[j]),
        decreases lines@.len() - i,
    {
        assert(before[i as int] == lines@[i as int]@);
        i += 1;
    }
    if i < lines.len() {
        proof {
            assert(before[i as int] == lines@[i as int]@);
            lemma_replaced(before, autoload_scripts, i as int);
        }
        lines.set(i, desired);
        assert(texts(lines@) =~= before.update(i as int, autoload_line(autoload_scripts)));
    } else {
        proof {
            lemma_appended(before, autoload_scripts);
        }
        lines.push(desired);
        assert(texts(lines@) =~= before.push(autoload_line(autoload_scripts)));
    }
    let mut out = text::join(&lines, "\n");
    out.append("\n");
    out
}

proof fn lemma_autoload_line(on: bool)
    ensures
        sets_autoload(autoload_line(on)),
        !autoload_line(on).contains('\n'),
        autoload_line(on).len() > 0,
        autoload_line(on).last() != '\r',
{
    reveal_strlit("AutoLoadScripts=");
    reveal_strlit("AutoLoadScripts");
    reveal_strlit("true");
    reveal_strlit("false");
    let line = autoload_line(on);
    let key = "AutoLoadScripts"@;
    assert(line.take(15) =~= key);
    lemma_cut_first(line, '=', 15);
    assert(drop_leading(key, CharClass::White) == key);
    assert(drop_trailing(key, CharClass::White) == key);
}

/// The last setting wins: an update after another one gives what it would have given alone.
pub proof fn the_last_autoload_setting_wins(lines: Seq<Seq<char>>, first: bool, second: bool)
    ensures
        with_autoload(with_autoload(lines, first), second) == with_autoload(lines, second),
    decreases lines.len(),
{
    lemma_autoload_line(first);
    let once = with_autoload(lines, first);
    if lines.len() == 0 {
        assert(once.skip(1) =~= Seq::<Seq<char>>::empty());
        assert(seq![autoload_line(second)] + once.skip(1) =~= seq![autoload_line(second)]);
    } else if sets_autoload(lines[0]) {
        assert(once.skip(1) =~= lines.skip(1));
    } else {
        assert(once.skip(1) =~= with_autoload(lines.skip(1), first));
        the_last_autoload_setting_wins(lines.skip(1), first, second);
    }
}

/// After an update the first line that sets `AutoLoadScripts` holds the value asked for.
pub proof fn an_update_is_read_back(lines: Seq<Seq<char>>, on: bool)
    ensures
        exists|i: int|
            0 <= i < with_autoload(lines, on).len() && #[trigger] with_autoload(lines, on)[i]
                == autoload_line(on) && (forall|j: int|
                0 <= j < i ==> !sets_autoload(#[trigger] with_autoload(lines, on)[j])),
        sets_autoload(autoload_line(on)),
    decreases lines.len(),
{
    lemma_autoload_line(on);
    let now = with_autoload(lines, on);
    if lines.len() == 0 || sets_autoload(lines[0]) {
        assert(now[0] == autoload_line(on));
    } else {
        let rest = with_autoload(lines.skip(1), on);
        an_update_is_read_back(lines.skip(1), on);
        let i = choose|i: int|
            0 <= i < rest.len() && #[trigger] rest[i] == autoload_line(on) && (forall|j: int|
                0 <= j < i ==> !sets_autoload(#[trigger] rest[j]));
        assert(now[i + 1] == rest[i]);
        assert forall|j: int| 0 <= j < i + 1 implies !sets_autoload(#[trigger] now[j]) by {
            if j > 0 {
                assert(now[j] == rest[j - 1]);
            }
        }
    }
}

/// Every line that does not set `AutoLoadScripts` stays, in its place.
pub proof fn other_lines_stay(lines: Seq<Seq<char>>, on: bool, i: int)
    requires
        0 <= i < lines.len(),
        !sets_autoload(lines[i]),
    ensures
        i < with_autoload(lines, on).len(),
        with_autoload(lines, on)[i] == lines[i],
    decreases lines.len(),
{
    if sets_autoload(lines[0]) {
    } else if i > 0 {
        assert(lines.skip(1)[i - 1] == lines[i]);
        other_lines_stay(lines.skip(1), on, i - 1);
    }
}

/// Whether a text can stand as a line that is read back as it was written.
pub open spec fn is_line(line: Seq<char>) -> bool {
    !line.contains('\n') && (line.len() == 0 || line.last() != '\r')
}

proof fn lemma_first_line(line: Seq<char>, rest: Seq<char>)
    requires
        is_line(line),
    ensures
        lines_of(line + "\n"@ + rest) == seq![line] + lines_of(rest),
{
    reveal_strlit("\n");
    let all = line + "\n"@ + rest;
    assert(all[line.len() as int] == '\n');
    assert forall|j: int| 0 <= j < line.len() implies all[j] != '\n' by {
        assert(all[j] == line[j]);
        assert(line.contains(line[j]));
    }
    lemma_first_at(all, '\n', 0, line.len() as int);
    assert(all.take(line.len() as int) =~= line);
    assert(all.skip(line.len() as int + 1) =~= rest);
}

proof fn lemma_written_lines(lines: Seq<Seq<char>>, rest: Seq<char>)
    requires
        lines.len() > 0,
        forall|i: int| 0 <= i < lines.len() ==> is_line(#[trigger] lines[i]),
    ensures
        lines_of(joined(lines, "\n"@) + "\n"@ + rest) == lines + lines_of(rest),
    decreases lines.len(),
{
    if lines.len() == 1 {
        lemma_first_line(lines[0], rest);
        assert(seq![lines[0]] =~= lines);
    } else {
        let front = lines.drop_last();
        let tail = lines.last() + "\n"@ + rest;
        assert forall|i: int| 0 <= i < front.len() implies is_line(#[trigger] front[i]) by {
            assert(front[i] == lines[i]);
        }
        lemma_written_lines(front, tail);
        lemma_first_line(lines.last(), rest);
        assert(joined(lines, "\n"@) + "\n"@ + rest =~= joined(front, "\n"@) + "\n"@ + tail);
        assert(front + (seq![lines.last()] + lines_of(rest)) =~= lines + lines_of(rest));
    }
}

/// The configuration on disk behaves as its lines do: what an update writes is read back line
/// by line, and the last setting wins, where no line that stays ends in a stray carriage return.
pub proof fn the_last_written_setting_wins(content: Seq<char>, first: bool, second: bool)
    requires
        forall|i: int|
            0 <= i < with_autoload(lines_of(content), first).len() ==> is_line(
                #[trigger] with_autoload(lines_of(content), first)[i],
            ),
    ensures
        lines_of(updated_ini(content, first)) == with_autoload(lines_of(content), first),
        updated_ini(updated_ini(content, first), second) == updated_ini(content, second),
{
    let lines = lines_of(content);
    let now = with_autoload(lines, first);
    lemma_written_lines(now, Seq::empty());
    assert(joined(now, "\n"@) + "\n"@ + Seq::<char>::empty() =~= updated_ini(content, first));
    assert(now + lines_of(Seq::<char>::empty()) =~= now);
    the_last_autoload_setting_wins(lines, first, second);
}

/// A directory is renamed to its hidden name when it is disabled and back when it is enabled, and it is
/// created under its visible name; nothing else is touched.
pub proof fn a_change_goes_the_right_way(
    change: DirectoryChange,
    enabled: bool,
    visible: &Path,
    hidden: &Path,
    visible_exists: bool,
    hidden_exists: bool,
)
    requires
        change.does(directory_move(enabled, visible_exists, hidden_exists), visible, hidden),
    ensures
        enabled <==> !visible_exists,
        change matches DirectoryChange::Rename { from, to, .. } ==> if enabled {
            from.bytes() == hidden.bytes() && to.bytes() == visible.bytes() && hidden_exists
        } else {
            from.bytes() == visible.bytes() && to.bytes() == hidden.bytes() && !hidden_exists
        },
        change matches DirectoryChange::Create { path, .. } ==> enabled && !hidden_exists
            && path.bytes() == visible.bytes(),
{
}

/// A file is told as missing exactly when it is not there, in the order of the names.
pub proof fn what_is_not_there_is_missing(
    names: Seq<Seq<char>>,
    root: Seq<u8>,
    files: Set<Seq<Seq<u8>>>,
)
    ensures
        missing_among(names, root, files) == names.filter(
            |name: Seq<char>| !files.contains(path_class(join_bytes(root, name))),
        ),
    decreases names.len(),
{
    reveal(Seq::filter);
    if names.len() > 0 {
        what_is_not_there_is_missing(names.drop_last(), root, files);
    }
}

/// The line that is written sets `AutoLoadScripts` to what was asked for.
pub proof fn the_line_says_what_was_asked_for(on: bool)
    ensures
        cut_first(autoload_line(on), '=') == Some(
            (
                "AutoLoadScripts"@,
                if on {
                    "true"@
                } else {
                    "false"@
                },
            ),
        ),
        autoload_line(true) != autoload_line(false),
{
    reveal_strlit("AutoLoadScripts=");
    reveal_strlit("AutoLoadScripts");
    reveal_strlit("true");
    reveal_strlit("false");
    let line = autoload_line(on);
    assert(line.take(15) =~= "AutoLoadScripts"@);
    lemma_cut_first(line, '=', 15);
    assert(line.skip(16) =~= if on {
        "true"@
    } else {
        "false"@
    });
    assert(autoload_line(true).len() != autoload_line(false).len());
}

/// A line sets `AutoLoadScripts` when that stands before its first `=`, in capitals or not and with
/// white space around it or not; a line without `=` sets nothing.
pub proof fn the_key_may_be_written_freely(key: Seq<char>, value: Seq<char>, line: Seq<char>)
    ensures
        !key.contains('=') ==> (sets_autoload(key.push('=') + value) <==> lower(trimmed(key))
            == "autoloadscripts"@),
        !line.contains('=') ==> !sets_autoload(line),
{
    reveal_strlit("AutoLoadScripts");
    reveal_strlit("autoloadscripts");
    assert(lower("AutoLoadScripts"@) =~= "autoloadscripts"@);
    let whole = key.push('=') + value;
    if !key.contains('=') {
        assert forall|j: int| 0 <= j < key.len() implies whole[j] != '=' by {
            assert(whole[j] == key[j]);
            assert(key.contains(key[j]));
        }
        lemma_cut_first(whole, '=', key.len() as int);
        assert(whole.take(key.len() as int) =~= key);
    }
    if !line.contains('=') {
        crate::text::lemma_cut_first_none(line, '=');
    }
}

/// Only the first line that sets `AutoLoadScripts` is replaced; where there is none, one line is put
/// behind the others.
pub proof fn only_one_line_is_written(lines: Seq<Seq<char>>, on: bool, i: int)
    ensures
        (forall|j: int| 0 <= j < lines.len() ==> !sets_autoload(#[trigger] lines[j]))
            ==> with_autoload(lines, on) == lines.push(autoload_line(on)),
        0 <= i < lines.len() && sets_autoload(lines[i]) && (forall|j: int|
            0 <= j < i ==> !sets_autoload(#[trigger] lines[j])) ==> with_autoload(lines, on)
            == lines.update(i, autoload_line(on)),
{
    if forall|j: int| 0 <= j < lines.len() ==> !sets_autoload(#[trigger] lines[j]) {
        lemma_appended(lines, on);
    }
    if 0 <= i < lines.len() && sets_autoload(lines[i]) && (forall|j: int|
        0 <= j < i ==> !sets_autoload(#[trigger] lines[j])) {
        lemma_replaced(lines, on, i);
    }
}

/// ScriptHook needs six different files, among them the library that stands in for the input one and the
/// runtime of the scripts.
pub proof fn script_hook_needs_six_files(i: int, j: int)
    ensures
        script_hook_names().len() == 6,
        0 <= i < j < 6 ==> script_hook_names()[i] != script_hook_names()[j],
        script_hook_names().contains("dinput8.dll"@) && script_hook_names().contains("mscoree.dll"@),
{
    reveal_strlit("dinput8.dll");
    reveal_strlit("ScriptHookV.dll");
    reveal_strlit("ScriptHookVDotNet.asi");
    reveal_strlit("ScriptHookVDotNet2.dll");
    reveal_strlit("ScriptHookVDotNet3.dll");
    reveal_strlit("mscoree.dll");
    let names = script_hook_names();
    assert(names[0] == "dinput8.dll"@ && names[5] == "mscoree.dll"@);
    assert(names[0].len() == 11 && names[1].len() == 15 && names[2].len() == 21);
    assert(names[3].len() == 22 && names[4].len() == 22 && names[5].len() == 11);
    assert(names[3][17] == '2' && names[4][17] == '3');
    assert(names[0][0] == 'd' && names[5][0] == 'm');
}

}
