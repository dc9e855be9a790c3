//! How deep the elements of an XML text are nested.

use crate::text::{self, begins, count_of};
use vstd::prelude::*;

verus! {

/// How many elements may be open at once in a text that is parsed. The parser takes up to seven
/// kilobytes of the stack for each, so that these fit in half of the two megabytes that a thread has
/// by default.
pub const DEEPEST_NESTING: usize = 128;

/// What a part of an XML text belongs to.
#[derive(Clone, Copy, PartialEq, Eq, Structural, Debug)]
pub enum Place {
    /// Between the tags.
    Content,
    /// The tag that begins an element.
    Tag,
    /// The value of an attribute, up to the given quote.
    Quoted(char),
    Comment,
    CharacterData,
    Instruction,
}

/// How the number of open elements changes.
#[derive(Clone, Copy, PartialEq, Eq, Structural, Debug)]
pub enum Change {
    Opens,
    Closes,
    Stays,
}

/// What the next token of a text does: how many characters it takes, where it leads, and how it
/// changes the number of open elements.
#[derive(Clone, Copy, PartialEq, Eq, Structural, Debug)]
pub struct Token {
    pub length: usize,
    pub place: Place,
    pub change: Change,
}

/// The token that a text begins with.
pub open spec fn first_token(s: Seq<char>, place: Place) -> Token {
    match place {
        Place::Content => if begins(s, seq!['<', '!', '-', '-']) {
            Token { length: 4, place: Place::Comment, change: Change::Stays }
        } else if begins(s, seq!['<', '!', '[', 'C', 'D', 'A', 'T', 'A', '[']) {
            Token { length: 9, place: Place::CharacterData, change: Change::Stays }
        } else if begins(s, seq!['<', '?']) {
            Token { length: 2, place: Place::Instruction, change: Change::Stays }
        } else if begins(s, seq!['<', '/']) {
            Token { length: 2, place: Place::Content, change: Change::Closes }
        } else if s[0] == '<' {
            Token { length: 1, place: Place::Tag, change: Change::Opens }
        } else {
            Token { length: 1, place, change: Change::Stays }
        },
        Place::Tag => if begins(s, seq!['/', '>']) {
            Token { length: 2, place: Place::Content, change: Change::Closes }
        } else if s[0] == '>' {
            Token { length: 1, place: Place::Content, change: Change::Stays }
        } else if s[0] == '"' || s[0] == '\'' {
            Token { length: 1, place: Place::Quoted(s[0]), change: Change::Stays }
        } else {
            Token { length: 1, place, change: Change::Stays }
        },
        Place::Quoted(quote) => Token {
            length: 1,
            place: if s[0] == quote {
                Place::Tag
            } else {
                place
            },
            change: Change::Stays,
        },
        Place::Comment => if begins(s, seq!['-', '-', '>']) {
            Token { length: 3, place: Place::Content, change: Change::Stays }
        } else {
            Token { length: 1, place, change: Change::Stays }
        },
        Place::CharacterData => if begins(s, seq![']', ']', '>']) {
            Token { length: 3, place: Place::Content, change: Change::Stays }
        } else {
            Token { length: 1, place, change: Change::Stays }
        },
        Place::Instruction => if begins(s, seq!['?', '>']) {
            Token { length: 2, place: Place::Content, change: Change::Stays }
        } else {
            Token { length: 1, place, change: Change::Stays }
        },
    }
}

/// The number of open elements behind a token.
pub open spec fn open_behind(open: nat, change: Change) -> nat {
    match change {
        Change::Opens => open + 1,
        Change::Closes => if open == 0 {
            0
        } else {
            (open - 1) as nat
        },
        Change::Stays => open,
    }
}

/// Whether at most `limit` elements are open anywhere in a text that begins at the given place
/// with `open` of them.
pub open spec fn stays_within(s: Seq<char>, place: Place, open: nat, limit: nat) -> bool
    decreases s.len(),
{
    open <= limit && (s.len() == 0 || {
        let token = first_token(s, place);
        stays_within(
            s.skip(token.length as int),
            token.place,
            open_behind(open, token.change),
            limit,
        )
    })
}

/// Whether at most `limit` elements of an XML text are open at once. Where the text is not
/// well-formed, this holds of the part in front of the first mistake too.
pub open spec fn open_at_most(text: Seq<char>, limit: nat) -> bool {
    stays_within(text, Place::Content, 0, limit)
}

fn led_by(chars: &Vec<char>, at: usize, word: &Vec<char>) -> (r: bool)
    requires
        at <= chars@.len(),
    ensures
        r == begins(chars@.skip(at as int), word@),
{
    proof {
        let rest = chars@.skip(at as int);
        if at + word@.len() <= chars@.len() {
            assert(rest.subrange(0, word@.len() as int) == chars@.subrange(
                at as int,
                at + word@.len(),
            ));
        }
    }
    text::stands_at(chars, word, at)
}

fn token_at(chars: &Vec<char>, at: usize, place: Place) -> (r: Token)
    requires
        at < chars@.len(),
    ensures
        r == first_token(chars@.skip(at as int), place),
{
    let c = chars[at];
    match place {
        Place::Content => {
            if led_by(chars, at, &vec!['<', '!', '-', '-']) {
                Token { length: 4, place: Place::Comment, change: Change::Stays }
            } else if led_by(chars, at, &vec!['<', '!', '[', 'C', 'D', 'A', 'T', 'A', '[']) {
                Token { length: 9, place: Place::CharacterData, change: Change::Stays }
            } else if led_by(chars, at, &vec!['<', '?']) {
                Token { length: 2, place: Place::Instruction, change: Change::Stays }
            } else if led_by(chars, at, &vec!['<', '/']) {
                Token { length: 2, place: Place::Content, change: Change::Closes }
            } else if c == '<' {
                Token { length: 1, place: Place::Tag, change: Change::Opens }
            } else {
                Token { length: 1, place, change: Change::Stays }
            }
        },
        Place::Tag => {
            if led_by(chars, at, &vec!['/', '>']) {
                Token { length: 2, place: Place::Content, change: Change::Closes }
            } else if c == '>' {
                Token { length: 1, place: Place::Content, change: Change::Stays }
            } else if c == '"' || c == '\'' {
                Token { length: 1, place: Place::Quoted(c), change: Change::Stays }
            } else {
                Token { length: 1, place, change: Change::Stays }
            }
        },
        Place::Quoted(quote) => {
            let next = if c == quote {
                Place::Tag
            } else {
                place
            };
            Token { length: 1, place: next, change: Change::Stays }
        },
        Place::Comment => {
            if led_by(chars, at, &vec!['-', '-', '>']) {
                Token { length: 3, place: Place::Content, change: Change::Stays }
            } else {
                Token { length: 1, place, change: Change::Stays }
            }
        },
        Place::CharacterData => {
            if led_by(chars, at, &vec![']', ']', '>']) {
                Token { length: 3, place: Place::Content, change: Change::Stays }
            } else {
                Token { length: 1, place, change: Change::Stays }
            }
        },
        Place::Instruction => {
            if led_by(chars, at, &vec!['?', '>']) {
                Token { length: 2, place: Place::Content, change: Change::Stays }
            } else {
                Token { length: 1, place, change: Change::Stays }
            }
        },
    }
}

/// Whether the elements of a text are nested no deeper than the parser may go.
pub fn can_parse(text: &str) -> (r: bool)
    ensures
        r == open_at_most(text@, DEEPEST_NESTING as nat),
{
    let chars = text::chars_of(text);
    let mut at: usize = 0;
    let mut place = Place::Content;
    let mut open: usize = 0;
    assert(chars@.skip(0) == text@);
    while at < chars.len()
        invariant
            at <= chars@.len(),
            open <= DEEPEST_NESTING,
            open_at_most(text@, DEEPEST_NESTING as nat) == stays_within(
                chars@.skip(at as int),
                place,
                open as nat,
                DEEPEST_NESTING as nat,
            ),
        decreases chars@.len() - at,
    {
        let token = token_at(&chars, at, place);
        let ghost rest = chars@.skip(at as int);
        assert(rest.skip(token.length as int) == chars@.skip(at + token.length));
        match token.change {
            Change::Opens => {
                if open == DEEPEST_NESTING {
                    assert(!stays_within(
                        rest.skip(token.length as int),
                        token.place,
                        open as nat + 1,
                        DEEPEST_NESTING as nat,
                    ));
                    return false;
                }
                open += 1;
            },
            Change::Closes => {
                if open > 0 {
                    open -= 1;
                }
            },
            Change::Stays => {},
        }
        at += token.length;
        place = token.place;
    }
    true
}

proof fn lemma_count_behind(s: Seq<char>, k: int, c: char)
    requires
        0 <= k <= s.len(),
    ensures
        count_of(s, c) == count_of(s.take(k), c) + count_of(s.skip(k), c),
    decreases s.len() - k,
{
    if k == s.len() {
        assert(s.take(k) == s);
    } else {
        let front = s.drop_last();
        lemma_count_behind(front, k, c);
        assert(front.take(k) == s.take(k));
        assert(front.skip(k) == s.skip(k).drop_last());
    }
}

proof fn lemma_few_open(s: Seq<char>, place: Place, open: nat, limit: nat)
    requires
        open + count_of(s, '<') <= limit,
    ensures
        stays_within(s, place, open, limit),
    decreases s.len(),
{
    if s.len() > 0 {
        let token = first_token(s, place);
        let k = token.length as int;
        lemma_count_behind(s, k, '<');
        if token.change is Opens {
            assert(s.take(1).last() == '<');
            assert(count_of(s.take(1), '<') >= 1);
        }
        lemma_few_open(s.skip(k), token.place, open_behind(open, token.change), limit);
    }
}

/// No more elements are open at once than a text has `<`.
pub proof fn few_tags_are_not_nested_deep(text: Seq<char>, limit: nat)
    requires
        count_of(text, '<') <= limit,
    ensures
        open_at_most(text, limit),
{
    lemma_few_open(text, Place::Content, 0, limit);
}

/// A place is left only by the texts that end it: a part of a text that holds none of them changes
/// nothing.
proof fn lemma_nothing_ends(front: Seq<char>, s: Seq<char>, place: Place, open: nat, limit: nat)
    requires
        forall|k: int|
            0 <= k < front.len() ==> #[trigger] first_token((front + s).skip(k), place) == (Token {
                length: 1,
                place,
                change: Change::Stays,
            }),
    ensures
        stays_within(front + s, place, open, limit) == (open <= limit && stays_within(
            s,
            place,
            open,
            limit,
        )),
    decreases front.len(),
{
    if front.len() == 0 {
        assert(front + s =~= s);
    } else {
        let rest = front.skip(1);
        let all = front + s;
        assert(all.skip(0) =~= all);
        assert(first_token(all.skip(0), place).length == 1);
        assert(all.skip(1) =~= rest + s);
        assert forall|k: int| 0 <= k < rest.len() implies #[trigger] first_token(
            (rest + s).skip(k),
            place,
        ) == (Token { length: 1, place, change: Change::Stays }) by {
            assert((rest + s).skip(k) =~= all.skip(k + 1));
        }
        lemma_nothing_ends(rest, s, place, open, limit);
        if open <= limit {
            assert(stays_within(all, place, open, limit) == stays_within(
                all.skip(1),
                place,
                open,
                limit,
            ));
        }
    }
}

proof fn lemma_token(s: Seq<char>, place: Place, open: nat, limit: nat)
    requires
        s.len() > 0,
    ensures
        stays_within(s, place, open, limit) == (open <= limit && stays_within(
            s.skip(first_token(s, place).length as int),
            first_token(s, place).place,
            open_behind(open, first_token(s, place).change),
            limit,
        )),
{
}

/// Whether a name can stand in a tag: it neither ends the tag nor opens a value in quotes, nor makes it
/// something else than the tag of an element.
pub open spec fn plain_name(name: Seq<char>) -> bool {
    &&& name.len() > 0 && name[0] != '!' && name[0] != '?'
    &&& !name.contains('<') && !name.contains('>') && !name.contains('/') && !name.contains('"')
    &&& !name.contains('\'')
}

/// An opening tag opens one element, the closing tag closes it, and an empty element is open only within
/// its own tag.
pub proof fn each_tag_opens_or_closes_one(name: Seq<char>, rest: Seq<char>, open: nat, limit: nat)
    requires
        plain_name(name),
    ensures
        stays_within(
            seq!['<'] + name + seq!['>'] + rest,
            Place::Content,
            open,
            limit,
        ) == stays_within(rest, Place::Content, open + 1, limit),
        open > 0 ==> stays_within(
            seq!['<', '/'] + name + seq!['>'] + rest,
            Place::Content,
            open,
            limit,
        ) == (open <= limit && stays_within(rest, Place::Content, (open - 1) as nat, limit)),
        stays_within(
            seq!['<'] + name + seq!['/', '>'] + rest,
            Place::Content,
            open,
            limit,
        ) == (open + 1 <= limit && stays_within(rest, Place::Content, open, limit)),
{
    let opened = seq!['<'] + name + seq!['>'] + rest;
    let closed = seq!['<', '/'] + name + seq!['>'] + rest;
    let empty = seq!['<'] + name + seq!['/', '>'] + rest;
    let behind = seq!['>'] + rest;
    let slash = seq!['/', '>'] + rest;
    assert(opened[0] == '<' && opened[1] == name[0]);
    assert(name.contains(name[0]));
    lemma_token(opened, Place::Content, open, limit);
    assert(opened.skip(1) =~= name + behind);
    assert forall|k: int| 0 <= k < name.len() implies #[trigger] first_token(
        (name + behind).skip(k),
        Place::Tag,
    ) == (Token { length: 1, place: Place::Tag, change: Change::Stays }) by {
        assert((name + behind).skip(k)[0] == name[k]);
        assert(name.contains(name[k]));
    }
    lemma_nothing_ends(name, behind, Place::Tag, open + 1, limit);
    lemma_token(behind, Place::Tag, open + 1, limit);
    assert(behind[0] == '>');
    assert(behind.skip(1) =~= rest);
    assert(empty[0] == '<' && empty[1] == name[0]);
    lemma_token(empty, Place::Content, open, limit);
    assert(empty.skip(1) =~= name + slash);
    assert forall|k: int| 0 <= k < name.len() implies #[trigger] first_token(
        (name + slash).skip(k),
        Place::Tag,
    ) == (Token { length: 1, place: Place::Tag, change: Change::Stays }) by {
        assert((name + slash).skip(k)[0] == name[k]);
        assert(name.contains(name[k]));
    }
    lemma_nothing_ends(name, slash, Place::Tag, open + 1, limit);
    lemma_token(slash, Place::Tag, open + 1, limit);
    assert(begins(slash, seq!['/', '>'])) by {
        assert(slash.subrange(0, 2) =~= seq!['/', '>']);
    }
    assert(slash.skip(2) =~= rest);
    assert(open_behind(open + 1, Change::Closes) == open);
    if open > 0 {
        assert(closed[0] == '<' && closed[1] == '/');
        assert(begins(closed, seq!['<', '/'])) by {
            assert(closed.subrange(0, 2) =~= seq!['<', '/']);
        }
        lemma_token(closed, Place::Content, open, limit);
        assert(closed.skip(2) =~= name.push('>') + rest);
        let inner = name.push('>');
        assert forall|k: int| 0 <= k < inner.len() implies #[trigger] first_token(
            (inner + rest).skip(k),
            Place::Content,
        ) == (Token { length: 1, place: Place::Content, change: Change::Stays }) by {
            let at = (inner + rest).skip(k);
            assert(at[0] == inner[k]);
            if k < name.len() {
                assert(name.contains(name[k]));
            }
            lemma_not_begun(at, seq!['<', '!', '-', '-']);
            lemma_not_begun(at, seq!['<', '!', '[', 'C', 'D', 'A', 'T', 'A', '[']);
            lemma_not_begun(at, seq!['<', '?']);
            lemma_not_begun(at, seq!['<', '/']);
        }
        lemma_nothing_ends(inner, rest, Place::Content, (open - 1) as nat, limit);
    }
    lemma_zero_within(rest, Place::Content, open + 1, limit);
}

proof fn lemma_zero_within(s: Seq<char>, place: Place, open: nat, limit: nat)
    ensures
        stays_within(s, place, open, limit) ==> open <= limit,
{
}

proof fn lemma_not_begun(s: Seq<char>, mark: Seq<char>)
    requires
        s.len() > 0,
        mark.len() > 0,
        s[0] != mark[0],
    ensures
        !begins(s, mark),
{
    if begins(s, mark) {
        assert(s.subrange(0, mark.len() as int)[0] == mark[0]);
    }
}

/// A tag within a tag is open as deep as there are tags: that many elements are open at once, and no
/// fewer.
pub proof fn nested_tags_are_counted(names: Seq<Seq<char>>, open: nat, limit: nat)
    requires
        forall|i: int| 0 <= i < names.len() ==> plain_name(#[trigger] names[i]),
    ensures
        stays_within(opening_tags(names), Place::Content, open, limit) <==> open + names.len()
            <= limit,
    decreases names.len(),
{
    if names.len() > 0 {
        let rest = names.skip(1);
        assert forall|i: int| 0 <= i < rest.len() implies plain_name(#[trigger] rest[i]) by {
            assert(rest[i] == names[i + 1]);
        }
        assert(plain_name(names[0]));
        nested_tags_are_counted(rest, open + 1, limit);
        each_tag_opens_or_closes_one(names[0], opening_tags(rest), open, limit);
    }
}

/// The opening tags of elements of which each stands in the one before.
pub open spec fn opening_tags(names: Seq<Seq<char>>) -> Seq<char>
    decreases names.len(),
{
    if names.len() == 0 {
        Seq::empty()
    } else {
        seq!['<'] + names[0] + seq!['>'] + opening_tags(names.skip(1))
    }
}

/// Within a comment, character data or a processing instruction nothing is opened or closed, whatever
/// stands in it, up to the text that ends it.
pub proof fn what_is_marked_off_opens_nothing(
    inner: Seq<char>,
    rest: Seq<char>,
    place: Place,
    open: nat,
    limit: nat,
)
    requires
        place is Comment || place is CharacterData || place is Instruction,
        open <= limit,
        !inner.contains('>'),
    ensures
        ({
            let end = if place is Comment {
                seq!['-', '-', '>']
            } else if place is CharacterData {
                seq![']', ']', '>']
            } else {
                seq!['?', '>']
            };
            inner.len() == 0 || (inner.last() != '-' && inner.last() != ']' && inner.last() != '?')
                ==> stays_within(inner + (end + rest), place, open, limit) == stays_within(
                rest,
                Place::Content,
                open,
                limit,
            )
        }),
{
    let end = if place is Comment {
        seq!['-', '-', '>']
    } else if place is CharacterData {
        seq![']', ']', '>']
    } else {
        seq!['?', '>']
    };
    if inner.len() == 0 || (inner.last() != '-' && inner.last() != ']' && inner.last() != '?') {
        let s = end + rest;
        assert forall|k: int| 0 <= k < inner.len() implies #[trigger] first_token(
            (inner + s).skip(k),
            place,
        ) == (Token { length: 1, place, change: Change::Stays }) by {
            let at = (inner + s).skip(k);
            if begins(at, end) {
                let n = end.len() as int;
                let shown = at.subrange(0, n);
                assert(shown[n - 1] == '>');
                assert(at[n - 1] == (inner + s)[k + n - 1]);
                if k + n - 1 < inner.len() {
                    assert(inner.contains(inner[k + n - 1]));
                } else {
                    let j = inner.len() - 1 - k;
                    assert(shown[j] == at[j]);
                    assert(at[j] == inner.last());
                }
            }
        }
        lemma_nothing_ends(inner, s, place, open, limit);
        assert(begins(s, end)) by {
            assert(s.subrange(0, end.len() as int) =~= end);
        }
        lemma_token(s, place, open, limit);
        assert(s.skip(end.len() as int) =~= rest);
    }
}

/// The value of an attribute ends at the quote that it began with, whatever else stands in it.
pub proof fn a_value_ends_at_its_quote(
    value: Seq<char>,
    rest: Seq<char>,
    quote: char,
    open: nat,
    limit: nat,
)
    requires
        quote == '"' || quote == '\'',
        !value.contains(quote),
        open <= limit,
    ensures
        stays_within(seq![quote] + value + seq![quote] + rest, Place::Tag, open, limit)
            == stays_within(rest, Place::Tag, open, limit),
{
    let all = seq![quote] + value + seq![quote] + rest;
    let behind = seq![quote] + rest;
    lemma_not_begun(all, seq!['/', '>']);
    lemma_token(all, Place::Tag, open, limit);
    assert(all.skip(1) =~= value + behind);
    assert forall|k: int| 0 <= k < value.len() implies #[trigger] first_token(
        (value + behind).skip(k),
        Place::Quoted(quote),
    ) == (Token { length: 1, place: Place::Quoted(quote), change: Change::Stays }) by {
        assert((value + behind).skip(k)[0] == value[k]);
        assert(value.contains(value[k]));
    }
    lemma_nothing_ends(value, behind, Place::Quoted(quote), open, limit);
    lemma_token(behind, Place::Quoted(quote), open, limit);
    assert(behind.skip(1) =~= rest);
}

/// A comment, character data and a processing instruction begin with their own marks between the tags.
pub proof fn each_mark_begins_its_own(rest: Seq<char>, open: nat, limit: nat)
    requires
        open <= limit,
    ensures
        stays_within(seq!['<', '!', '-', '-'] + rest, Place::Content, open, limit) == stays_within(
            rest,
            Place::Comment,
            open,
            limit,
        ),
        stays_within(
            seq!['<', '!', '[', 'C', 'D', 'A', 'T', 'A', '['] + rest,
            Place::Content,
            open,
            limit,
        ) == stays_within(rest, Place::CharacterData, open, limit),
        stays_within(seq!['<', '?'] + rest, Place::Content, open, limit) == stays_within(
            rest,
            Place::Instruction,
            open,
            limit,
        ),
{
    let comment = seq!['<', '!', '-', '-'] + rest;
    let data = seq!['<', '!', '[', 'C', 'D', 'A', 'T', 'A', '['] + rest;
    let instruction = seq!['<', '?'] + rest;
    assert(comment.subrange(0, 4) =~= seq!['<', '!', '-', '-']);
    assert(comment.skip(4) =~= rest);
    lemma_token(comment, Place::Content, open, limit);
    assert(data.subrange(0, 9) =~= seq!['<', '!', '[', 'C', 'D', 'A', 'T', 'A', '[']);
    assert(data.skip(9) =~= rest);
    if begins(data, seq!['<', '!', '-', '-']) {
        assert(data.subrange(0, 4)[2] == '-');
    }
    lemma_token(data, Place::Content, open, limit);
    assert(instruction.subrange(0, 2) =~= seq!['<', '?']);
    assert(instruction.skip(2) =~= rest);
    if begins(instruction, seq!['<', '!', '-', '-']) {
        assert(instruction.subrange(0, 4)[1] == '!');
    }
    if begins(instruction, seq!['<', '!', '[', 'C', 'D', 'A', 'T', 'A', '[']) {
        assert(instruction.subrange(0, 9)[1] == '!');
    }
    lemma_token(instruction, Place::Content, open, limit);
}

} // verus!
