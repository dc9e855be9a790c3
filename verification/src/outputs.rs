//! What the helper programs print, and names that are safe in a path.

use crate::paths;
use crate::paths::PathBytes;
use crate::text::{
    self, begins, drop_leading, drop_trailing, ends, lines_of, texts, trimmed, trimmed_of,
    trimming_takes_the_ends_off, CharClass,
};
use std::path::PathBuf;
use vstd::prelude::*;
use vstd::utf8::encode_utf8;

verus! {

/// The message of an error, where there is one.
pub open spec fn complaint<T>(r: Result<T, String>) -> Option<Seq<char>> {
    match r {
        Ok(_) => None,
        Err(message) => Some(message@),
    }
}

/// What is said of a program that failed: what it printed as errors, else what it printed, else
/// how it ended.
pub open spec fn failure_text(
    label: Seq<char>,
    stdout: Seq<char>,
    stderr: Seq<char>,
    status: Seq<char>,
) -> Seq<char> {
    if trimmed(stderr).len() > 0 {
        label + " failed: "@ + trimmed(stderr)
    } else if trimmed(stdout).len() > 0 {
        label + " failed: "@ + trimmed(stdout)
    } else {
        label + " failed with exit status "@ + status
    }
}

fn is_empty(s: &str) -> (r: bool)
    ensures
        r == (s@.len() == 0),
{
    proof {
        reveal_strlit("");
        if s@.len() == 0 {
            assert(s@ =~= ""@);
        }
    }
    text::same_text(s, "")
}

/// Whether a program succeeded; `status` says in words how it ended.
pub fn ensure_success(
    label: &str,
    success: bool,
    stdout: &str,
    stderr: &str,
    status: &str,
) -> (r: Result<(), String>)
    ensures
        complaint(r) == if success {
            None
        } else {
            Some(failure_text(label@, stdout@, stderr@, status@))
        },
{
    if success {
        return Ok(());
    }
    let errors = text::trim(stderr);
    let printed = text::trim(stdout);
    let mut message = label.to_owned();
    if !is_empty(errors.as_str()) {
        message.append(" failed: ");
        message.append(errors.as_str());
    } else if !is_empty(printed.as_str()) {
        message.append(" failed: ");
        message.append(printed.as_str());
    } else {
        message.append(" failed with exit status ");
        message.append(status);
    }
    Err(message)
}

/// What is said of a command that failed.
pub open spec fn command_failure_text(
    program: Seq<char>,
    args: Seq<char>,
    stdout: Seq<char>,
    stderr: Seq<char>,
) -> Seq<char> {
    let start = program + " "@ + args + " failed"@;
    if trimmed(stderr).len() > 0 {
        start + ": "@ + trimmed(stderr)
    } else if trimmed(stdout).len() > 0 {
        start + ": "@ + trimmed(stdout)
    } else {
        start
    }
}

/// What a command printed, without the white space around it, where it succeeded.
pub fn command_stdout(
    program: &str,
    args: &Vec<String>,
    success: bool,
    stdout: &str,
    stderr: &str,
) -> (r: Result<String, String>)
    ensures
        match r {
            Ok(printed) => success && printed@ == trimmed(stdout@),
            Err(message) => !success && message@ == command_failure_text(
                program@,
                text::joined(texts(args@), " "@),
                stdout@,
                stderr@,
            ),
        },
{
    let printed = text::trim(stdout);
    if success {
        return Ok(printed);
    }
    let errors = text::trim(stderr);
    let mut message = program.to_owned();
    message.append(" ");
    message.append(text::join(args, " ").as_str());
    message.append(" failed");
    if !is_empty(errors.as_str()) {
        message.append(": ");
        message.append(errors.as_str());
    } else if !is_empty(printed.as_str()) {
        message.append(": ");
        message.append(printed.as_str());
    }
    Err(message)
}

/// What follows `prefix` in the first line that begins with it.
pub open spec fn named_value(lines: Seq<Seq<char>>, prefix: Seq<char>) -> Option<Seq<char>>
    decreases lines.len(),
{
    if lines.len() == 0 {
        None
    } else if begins(lines[0], prefix) {
        Some(lines[0].skip(prefix.len() as int))
    } else {
        named_value(lines.skip(1), prefix)
    }
}

/// The path that a helper printed behind `key=`.
pub fn parse_named_output_path(stdout: &str, key: &str) -> (r: Result<PathBuf, String>)
    ensures
        match (r, named_value(lines_of(stdout@), key@ + "="@)) {
            (Ok(path), Some(value)) => path.bytes() == encode_utf8(value),
            (Err(message), None) => message@ == "Expected "@ + key@ + "=... in helper output"@,
            _ => false,
        },
{
    let mut prefix = key.to_owned();
    prefix.append("=");
    let lines = text::lines(stdout);
    let ghost all = texts(lines@);
    let mut i: usize = 0;
    assert(all.skip(0) =~= all);
    while i < lines.len()
        invariant
            all == texts(lines@),
            0 <= i <= lines@.len(),
            prefix@ == key@ + "="@,
            named_value(all, prefix@) == named_value(all.skip(i as int), prefix@),
            all == lines_of(stdout@),
        decreases lines@.len() - i,
    {
        proof {
            assert(all.skip(i as int)[0] == lines@[i as int]@);
            assert(all.skip(i as int).skip(1) =~= all.skip(i + 1));
        }
        match text::strip_prefix(lines[i].as_str(), prefix.as_str()) {
            Some(value) => {
                return Ok(paths::path_from(value.as_str()));
            },
            None => {},
        }
        i += 1;
    }
    let mut message = "Expected ".to_owned();
    message.append(key);
    message.append("=... in helper output");
    Err(message)
}

/// Whether a character is kept in a name for a path.
pub open spec fn is_safe(c: char) -> bool {
    'a' <= c <= 'z' || 'A' <= c <= 'Z' || '0' <= c <= '9' || c == '-' || c == '_'
}

/// A text with an underscore in place of each character that is not kept.
pub open spec fn masked(s: Seq<char>) -> Seq<char> {
    Seq::new(
        s.len(),
        |i: int|
            if is_safe(s[i]) {
                s[i]
            } else {
                '_'
            },
    )
}

/// A name for a path: masked, without underscores at either end, and never empty.
pub open spec fn sanitized(s: Seq<char>) -> Seq<char> {
    let name = trimmed_of(masked(s), CharClass::Underscore);
    if name.len() == 0 {
        "item"@
    } else {
        name
    }
}

/// A name that is safe in a path.
pub fn sanitize_for_path(value: &str) -> (r: String)
    ensures
        r@ == sanitized(value@),
{
    let v = text::chars_of(value);
    let mut result = String::new();
    let mut i: usize = 0;
    while i < v.len()
        invariant
            v@ == value@,
            0 <= i <= v@.len(),
            result@ == masked(value@).take(i as int),
        decreases v@.len() - i,
    {
        let c = v[i];
        let safe = ('a' <= c && c <= 'z') || ('A' <= c && c <= 'Z') || ('0' <= c && c <= '9') || c
            == '-' || c == '_';
        if safe {
            result.push(c);
        } else {
            result.push('_');
        }
        assert(result@ =~= masked(value@).take(i + 1));
        i += 1;
    }
    assert(masked(value@).take(v@.len() as int) =~= masked(value@));
    let name = text::trim_class(result.as_str(), CharClass::Underscore);
    if is_empty(name.as_str()) {
        "item".to_owned()
    } else {
        name
    }
}

proof fn lemma_trim_keeps(s: Seq<char>, class: CharClass)
    ensures
        drop_leading(s, class).len() <= s.len(),
        forall|i: int|
            0 <= i < drop_leading(s, class).len() ==> s.contains(
                #[trigger] drop_leading(s, class)[i],
            ),
        drop_leading(s, class).len() > 0 ==> !class.holds(drop_leading(s, class)[0]),
    decreases s.len(),
{
    if s.len() > 0 && class.holds(s[0]) {
        let t = s.drop_first();
        lemma_trim_keeps(t, class);
        assert forall|i: int| 0 <= i < drop_leading(s, class).len() implies s.contains(
            #[trigger] drop_leading(s, class)[i],
        ) by {
            let c = drop_leading(t, class)[i];
            let k = choose|k: int| 0 <= k < t.len() && t[k] == c;
            assert(s[k + 1] == c);
        }
    } else {
        assert forall|i: int| 0 <= i < s.len() implies s.contains(#[trigger] s[i]) by {}
    }
}

proof fn lemma_trim_end_keeps(s: Seq<char>, class: CharClass)
    ensures
        drop_trailing(s, class).len() <= s.len(),
        drop_trailing(s, class) == s.take(drop_trailing(s, class).len() as int),
        drop_trailing(s, class).len() > 0 ==> !class.holds(drop_trailing(s, class).last()),
    decreases s.len(),
{
    if s.len() > 0 && class.holds(s.last()) {
        let t = s.drop_last();
        lemma_trim_end_keeps(t, class);
        assert(t.take(drop_trailing(t, class).len() as int) =~= s.take(
            drop_trailing(t, class).len() as int,
        ));
    } else {
        assert(s.take(s.len() as int) =~= s);
    }
}

proof fn lemma_all_dropped(s: Seq<char>, class: CharClass)
    requires
        forall|i: int| 0 <= i < s.len() ==> class.holds(#[trigger] s[i]),
    ensures
        drop_leading(s, class).len() == 0,
    decreases s.len(),
{
    if s.len() > 0 {
        assert(class.holds(s[0]));
        let rest = s.drop_first();
        assert forall|i: int| 0 <= i < rest.len() implies class.holds(#[trigger] rest[i]) by {
            assert(rest[i] == s[i + 1]);
        }
        lemma_all_dropped(rest, class);
    }
}

/// A sanitized name is not empty, holds letters, digits, `-` and `_` of ASCII only, neither begins
/// nor ends with `_`, and stays as it is when it is sanitized again. A text of which nothing but
/// `_` would be left becomes `item`.
pub proof fn sanitized_names_are_safe(s: Seq<char>)
    ensures
        sanitized(s).len() > 0,
        sanitized(s)[0] != '_',
        sanitized(s).last() != '_',
        (forall|i: int| 0 <= i < s.len() ==> !is_safe(#[trigger] s[i]) || s[i] == '_')
            ==> sanitized(s) == "item"@,
        forall|i: int| 0 <= i < sanitized(s).len() ==> is_safe(#[trigger] sanitized(s)[i]),
        sanitized(sanitized(s)) == sanitized(s),
{
    reveal_strlit("item");
    let class = CharClass::Underscore;
    let m = masked(s);
    let front = drop_leading(m, class);
    let name = drop_trailing(front, class);
    lemma_trim_keeps(m, class);
    lemma_trim_end_keeps(front, class);
    let result = sanitized(s);
    assert forall|i: int| 0 <= i < result.len() implies is_safe(#[trigger] result[i]) by {
        if name.len() > 0 {
            assert(name[i] == front[i]);
            let c = front[i];
            assert(m.contains(c));
        }
    }
    assert(masked(result) =~= result);
    if name.len() > 0 {
        assert(name[0] == front[0]);
    }
    assert(!class.holds(result[0]) && !class.holds(result.last()));
    assert(drop_leading(result, class) == result);
    assert(drop_trailing(result, class) == result);
    if forall|i: int| 0 <= i < s.len() ==> !is_safe(#[trigger] s[i]) || s[i] == '_' {
        assert forall|i: int| 0 <= i < m.len() implies class.holds(#[trigger] m[i]) by {
            assert(!is_safe(s[i]) || s[i] == '_');
        }
        lemma_all_dropped(m, class);
    }
}

proof fn lemma_told(front: Seq<char>, tail: Seq<char>)
    ensures
        ends(front + tail, tail),
        begins(front + tail, front),
{
    let whole = front + tail;
    assert(whole.subrange(whole.len() - tail.len(), whole.len() as int) =~= tail);
    assert(whole.subrange(0, front.len() as int) =~= front);
}

/// What is said of a failure begins with the name of what failed and ends in what was printed: as
/// errors, or else at all. Only where nothing was printed it ends in how the program ended.
pub proof fn a_failure_tells_what_was_printed(
    label: Seq<char>,
    stdout: Seq<char>,
    stderr: Seq<char>,
    status: Seq<char>,
    args: Seq<char>,
)
    ensures
        begins(failure_text(label, stdout, stderr, status), label + " failed"@),
        trimmed(stderr).len() > 0 ==> ends(
            failure_text(label, stdout, stderr, status),
            trimmed(stderr),
        ),
        trimmed(stderr).len() == 0 && trimmed(stdout).len() > 0 ==> ends(
            failure_text(label, stdout, stderr, status),
            trimmed(stdout),
        ),
        trimmed(stderr).len() == 0 && trimmed(stdout).len() == 0 ==> ends(
            failure_text(label, stdout, stderr, status),
            status,
        ),
        begins(
            command_failure_text(label, args, stdout, stderr),
            label + " "@ + args + " failed"@,
        ),
        trimmed(stderr).len() > 0 ==> ends(
            command_failure_text(label, args, stdout, stderr),
            trimmed(stderr),
        ),
        trimmed(stderr).len() == 0 && trimmed(stdout).len() > 0 ==> ends(
            command_failure_text(label, args, stdout, stderr),
            trimmed(stdout),
        ),
        trimmed(stderr).len() == 0 && trimmed(stdout).len() == 0 ==> ends(
            command_failure_text(label, args, stdout, stderr),
            " failed"@,
        ),
{
    reveal_strlit(" failed");
    reveal_strlit(" failed: ");
    reveal_strlit(" failed with exit status ");
    lemma_told(label + " failed: "@, trimmed(stderr));
    lemma_told(label + " failed: "@, trimmed(stdout));
    lemma_told(label + " failed with exit status "@, status);
    let text = failure_text(label, stdout, stderr, status);
    assert(text.subrange(0, (label + " failed"@).len() as int) =~= label + " failed"@);
    let start = label + " "@ + args + " failed"@;
    lemma_told(start + ": "@, trimmed(stderr));
    lemma_told(start + ": "@, trimmed(stdout));
    lemma_told(label + " "@ + args, " failed"@);
    let other = command_failure_text(label, args, stdout, stderr);
    assert(other.subrange(0, start.len() as int) =~= start);
}

/// The value of a key is what follows it in the first line that begins with it; there is none only
/// where no line does.
pub proof fn the_first_named_value_counts(
    lines: Seq<Seq<char>>,
    prefix: Seq<char>,
    value: Seq<char>,
    i: int,
)
    ensures
        0 <= i < lines.len() && lines[i] == prefix + value && (forall|j: int|
            0 <= j < i ==> !begins(#[trigger] lines[j], prefix)) ==> named_value(lines, prefix)
            == Some(value),
        (forall|j: int| 0 <= j < lines.len() ==> !begins(#[trigger] lines[j], prefix))
            ==> named_value(lines, prefix) is None,
    decreases lines.len(),
{
    if lines.len() > 0 {
        let rest = lines.skip(1);
        assert forall|j: int| 1 <= j < lines.len() implies #[trigger] lines[j] == rest[j - 1] by {}
        if 0 <= i < lines.len() && lines[i] == prefix + value && (forall|j: int|
            0 <= j < i ==> !begins(#[trigger] lines[j], prefix)) {
            lemma_told(prefix, value);
            if i == 0 {
                assert(lines[0].skip(prefix.len() as int) =~= value);
            } else {
                assert(!begins(lines[0], prefix));
                assert forall|j: int| 0 <= j < i - 1 implies !begins(#[trigger] rest[j], prefix) by {
                    assert(rest[j] == lines[j + 1]);
                }
                the_first_named_value_counts(rest, prefix, value, i - 1);
            }
        }
        if forall|j: int| 0 <= j < lines.len() ==> !begins(#[trigger] lines[j], prefix) {
            assert(!begins(lines[0], prefix));
            assert forall|j: int| 0 <= j < rest.len() implies !begins(#[trigger] rest[j], prefix) by {
                assert(rest[j] == lines[j + 1]);
            }
            the_first_named_value_counts(rest, prefix, value, i - 1);
        }
    }
}

/// A safe name is a stretch of the text in which the ASCII letters and digits, `-` and `_` stay and
/// every other character is an underscore; nothing but such underscores is missing at its ends.
pub proof fn a_safe_name_keeps_what_is_safe(s: Seq<char>)
    requires
        exists|i: int| 0 <= i < s.len() && is_safe(#[trigger] s[i]) && s[i] != '_',
    ensures
        exists|a: int|
            {
                &&& 0 <= a && #[trigger] (a + sanitized(s).len()) <= s.len()
                &&& forall|i: int|
                    0 <= i < sanitized(s).len() ==> #[trigger] sanitized(s)[i] == if (('a' <= s[a
                        + i] <= 'z') || ('A' <= s[a + i] <= 'Z') || ('0' <= s[a + i] <= '9') || s[a
                        + i] == '-') {
                        s[a + i]
                    } else {
                        '_'
                    }
                &&& forall|i: int|
                    0 <= i < a || a + sanitized(s).len() <= i < s.len() ==> !is_safe(
                        #[trigger] s[i],
                    ) || s[i] == '_'
            },
{
    let m = masked(s);
    let class = CharClass::Underscore;
    trimming_takes_the_ends_off(m, class);
    let (a, b) = choose|a: int, b: int|
        {
            &&& 0 <= a <= b <= m.len()
            &&& trimmed_of(m, class) == #[trigger] m.subrange(a, b)
            &&& forall|i: int| 0 <= i < a || b <= i < m.len() ==> class.holds(#[trigger] m[i])
            &&& a < b ==> !class.holds(m[a]) && !class.holds(m[b - 1])
        };
    let k = choose|i: int| 0 <= i < s.len() && is_safe(#[trigger] s[i]) && s[i] != '_';
    assert(m[k] == s[k]);
    assert(a <= k < b);
    assert(sanitized(s) == m.subrange(a, b));
    assert(a + sanitized(s).len() == b);
    assert forall|i: int| 0 <= i < a || b <= i < s.len() implies !is_safe(#[trigger] s[i]) || s[i]
        == '_' by {
        assert(class.holds(m[i]));
    }
}

}
