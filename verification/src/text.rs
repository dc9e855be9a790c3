//! Plain text operations over strings seen as sequences of characters.

use vstd::prelude::*;

verus! {

/// `String::push` appends the given character to the end of the string.
pub assume_specification[ String::push ](s: &mut String, c: char)
    ensures
        final(s)@ == old(s)@.push(c),
;

/// The characters of Unicode's `White_Space` property.
pub open spec fn is_white(c: char) -> bool {
    ||| '\u{9}' <= c <= '\u{d}'
    ||| c == ' '
    ||| c == '\u{85}'
    ||| c == '\u{a0}'
    ||| c == '\u{1680}'
    ||| '\u{2000}' <= c <= '\u{200a}'
    ||| c == '\u{2028}'
    ||| c == '\u{2029}'
    ||| c == '\u{202f}'
    ||| c == '\u{205f}'
    ||| c == '\u{3000}'
}

/// A set of characters that is cut off the ends of a text.
#[derive(Clone, Copy)]
pub enum CharClass {
    White,
    Underscore,
    DotOrSpace,
}

impl CharClass {
    pub open spec fn holds(self, c: char) -> bool {
        match self {
            CharClass::White => is_white(c),
            CharClass::Underscore => c == '_',
            CharClass::DotOrSpace => c == '.' || c == ' ',
        }
    }

    /// Whether `c` belongs to this class.
    pub fn has(self, c: char) -> (r: bool)
        ensures
            r == self.holds(c),
    {
        match self {
            CharClass::White => {
                ('\u{9}' <= c && c <= '\u{d}') || c == ' ' || c == '\u{85}' || c == '\u{a0}' || c
                    == '\u{1680}' || ('\u{2000}' <= c && c <= '\u{200a}') || c == '\u{2028}' || c
                    == '\u{2029}' || c == '\u{202f}' || c == '\u{205f}' || c == '\u{3000}'
            },
            CharClass::Underscore => c == '_',
            CharClass::DotOrSpace => c == '.' || c == ' ',
        }
    }
}

/// `s` without its longest prefix of characters of `class`.
pub open spec fn drop_leading(s: Seq<char>, class: CharClass) -> Seq<char>
    decreases s.len(),
{
    if s.len() > 0 && class.holds(s[0]) {
        drop_leading(s.drop_first(), class)
    } else {
        s
    }
}

/// `s` without its longest suffix of characters of `class`.
pub open spec fn drop_trailing(s: Seq<char>, class: CharClass) -> Seq<char>
    decreases s.len(),
{
    if s.len() > 0 && class.holds(s.last()) {
        drop_trailing(s.drop_last(), class)
    } else {
        s
    }
}

/// `s` without the characters of `class` at either end.
pub open spec fn trimmed_of(s: Seq<char>, class: CharClass) -> Seq<char> {
    drop_trailing(drop_leading(s, class), class)
}

/// `s` without the white space at either end.
pub open spec fn trimmed(s: Seq<char>) -> Seq<char> {
    trimmed_of(s, CharClass::White)
}

/// The ASCII lower-case form of one character.
pub open spec fn lower_char(c: char) -> char {
    if 'A' <= c <= 'Z' {
        ((c as u8) + 32) as char
    } else {
        c
    }
}

/// The ASCII lower-case form of a text.
pub open spec fn lower(s: Seq<char>) -> Seq<char> {
    Seq::new(s.len(), |i: int| lower_char(s[i]))
}

/// Whether `needle` occurs in `hay`.
pub open spec fn occurs(hay: Seq<char>, needle: Seq<char>) -> bool {
    exists|i: int| #[trigger] occurs_at(hay, needle, i)
}

/// Whether `needle` occurs in `hay` at position `i`.
pub open spec fn occurs_at(hay: Seq<char>, needle: Seq<char>, i: int) -> bool {
    0 <= i && i + needle.len() <= hay.len() && hay.subrange(i, i + needle.len()) == needle
}

/// Whether `s` begins with `prefix`.
pub open spec fn begins(s: Seq<char>, prefix: Seq<char>) -> bool {
    occurs_at(s, prefix, 0)
}

/// Whether `s` ends with `suffix`.
pub open spec fn ends(s: Seq<char>, suffix: Seq<char>) -> bool {
    occurs_at(s, suffix, s.len() - suffix.len())
}

/// The parts before and after the first `c`, where there is one.
pub open spec fn cut_first(s: Seq<char>, c: char) -> Option<(Seq<char>, Seq<char>)>
    decreases s.len(),
{
    if s.len() == 0 {
        None
    } else if s[0] == c {
        Some((Seq::empty(), s.drop_first()))
    } else {
        match cut_first(s.drop_first(), c) {
            Some((before, after)) => Some((seq![s[0]] + before, after)),
            None => None,
        }
    }
}

/// The parts before and after the last `c`, where there is one.
pub open spec fn cut_last(s: Seq<char>, c: char) -> Option<(Seq<char>, Seq<char>)>
    decreases s.len(),
{
    if s.len() == 0 {
        None
    } else if s.last() == c {
        Some((s.drop_last(), Seq::empty()))
    } else {
        match cut_last(s.drop_last(), c) {
            Some((before, after)) => Some((before, after.push(s.last()))),
            None => None,
        }
    }
}

/// What follows the last `c`, or all of `s` where there is no `c`.
pub open spec fn last_segment(s: Seq<char>, c: char) -> Seq<char> {
    match cut_last(s, c) {
        Some((_, after)) => after,
        None => s,
    }
}

/// How often `c` occurs in `s`.
pub open spec fn count_of(s: Seq<char>, c: char) -> nat
    decreases s.len(),
{
    if s.len() == 0 {
        0
    } else {
        count_of(s.drop_last(), c) + if s.last() == c {
            1nat
        } else {
            0nat
        }
    }
}

/// A line without the carriage return that belongs to its line ending.
pub open spec fn without_return(s: Seq<char>) -> Seq<char> {
    if s.len() > 0 && s.last() == '\r' {
        s.drop_last()
    } else {
        s
    }
}

/// The lines of a text: a line ends in `\n` or `\r\n`, the last ending is optional.
pub open spec fn lines_of(s: Seq<char>) -> Seq<Seq<char>>
    decreases s.len(),
{
    if s.len() == 0 {
        Seq::empty()
    } else {
        match first_at(s, '\n', 0) {
            Some(i) => if 0 <= i < s.len() {
                seq![without_return(s.take(i))] + lines_of(s.skip(i + 1))
            } else {
                Seq::empty()
            },
            None => seq![s],
        }
    }
}

/// The position of the first `c` at or after `from`.
pub open spec fn first_at(s: Seq<char>, c: char, from: int) -> Option<int>
    decreases s.len() - from,
{
    if from < 0 || from >= s.len() {
        None
    } else if s[from] == c {
        Some(from)
    } else {
        first_at(s, c, from + 1)
    }
}

/// The texts in order, with `sep` between each two.
pub open spec fn joined(parts: Seq<Seq<char>>, sep: Seq<char>) -> Seq<char>
    decreases parts.len(),
{
    if parts.len() == 0 {
        Seq::empty()
    } else if parts.len() == 1 {
        parts[0]
    } else {
        joined(parts.drop_last(), sep) + sep + parts.last()
    }
}

/// The decimal digit of a number below ten.
pub open spec fn digit(n: nat) -> char {
    (48 + n) as u8 as char
}

/// A number in decimal notation.
pub open spec fn decimal(n: nat) -> Seq<char>
    decreases n,
{
    if n < 10 {
        seq![digit(n)]
    } else {
        decimal(n / 10).push(digit(n % 10))
    }
}

/// The views of a vector of strings.
pub open spec fn texts(v: Seq<String>) -> Seq<Seq<char>> {
    Seq::new(v.len(), |i: int| v[i]@)
}

/// The view of an optional string.
pub open spec fn opt_text(s: Option<String>) -> Option<Seq<char>> {
    match s {
        Some(t) => Some(t@),
        None => None,
    }
}

/// Whether `a` comes before `b` in the order of their characters.
pub open spec fn text_before(a: Seq<char>, b: Seq<char>) -> bool
    decreases a.len(),
{
    if b.len() == 0 {
        false
    } else if a.len() == 0 {
        true
    } else if a[0] == b[0] {
        text_before(a.drop_first(), b.drop_first())
    } else {
        a[0] < b[0]
    }
}

/// The characters of a string.
pub fn chars_of(s: &str) -> (r: Vec<char>)
    ensures
        r@ == s@,
{
    let mut out: Vec<char> = Vec::new();
    for c in it: s.chars()
        invariant
            out@ == it.seq().take(it.index() as int),
            it.seq() == s@,
    {
        out.push(c);
    }
    out
}

/// The string of the characters from `from` up to `to`.
pub fn from_range(v: &Vec<char>, from: usize, to: usize) -> (r: String)
    requires
        from <= to <= v@.len(),
    ensures
        r@ == v@.subrange(from as int, to as int),
{
    let mut out = String::new();
    let mut i: usize = from;
    while i < to
        invariant
            from <= i <= to <= v@.len(),
            out@ == v@.subrange(from as int, i as int),
        decreases to - i,
    {
        out.push(v[i]);
        i += 1;
    }
    out
}

/// Whether two texts are the same.
pub fn same_text(a: &str, b: &str) -> (r: bool)
    ensures
        r == (a@ == b@),
{
    let left = a.to_owned();
    let right = b.to_owned();
    left == right
}

/// Whether an optional string holds exactly the given text.
pub fn opt_is(a: &Option<String>, b: &str) -> (r: bool)
    ensures
        r == (opt_text(*a) == Some(b@)),
{
    match a {
        Some(t) => same_text(t.as_str(), b),
        None => false,
    }
}

fn lower_one(c: char) -> (r: char)
    ensures
        r == lower_char(c),
{
    if 'A' <= c && c <= 'Z' {
        ((c as u8) + 32) as char
    } else {
        c
    }
}

/// The ASCII lower-case form of a text.
pub fn to_lower(s: &str) -> (r: String)
    ensures
        r@ == lower(s@),
{
    let mut out = String::new();
    for c in it: s.chars()
        invariant
            out@ == lower(it.seq().take(it.index() as int)),
            it.seq() == s@,
    {
        out.push(lower_one(c));
        assert(out@ == lower(it.seq().take(it.index() + 1)));
    }
    assert(s@.take(s@.len() as int) == s@);
    out
}

/// Whether two texts differ at most in the case of their ASCII letters.
pub fn same_ignoring_case(a: &str, b: &str) -> (r: bool)
    ensures
        r == (lower(a@) == lower(b@)),
{
    same_text(to_lower(a).as_str(), to_lower(b).as_str())
}

proof fn lemma_drop_leading_skip(s: Seq<char>, class: CharClass, n: int)
    requires
        0 <= n <= s.len(),
        forall|i: int| 0 <= i < n ==> class.holds(s[i]),
    ensures
        drop_leading(s, class) == drop_leading(s.skip(n), class),
    decreases n,
{
    if n == 0 {
        assert(s.skip(0) == s);
    } else {
        let t = s.drop_first();
        assert forall|i: int| 0 <= i < n - 1 implies class.holds(t[i]) by {
            assert(t[i] == s[i + 1]);
        }
        lemma_drop_leading_skip(t, class, n - 1);
        assert(t.skip(n - 1) == s.skip(n));
    }
}

proof fn lemma_drop_trailing_take(s: Seq<char>, class: CharClass, n: int)
    requires
        0 <= n <= s.len(),
        forall|i: int| n <= i < s.len() ==> class.holds(s[i]),
    ensures
        drop_trailing(s, class) == drop_trailing(s.take(n), class),
    decreases s.len() - n,
{
    if n == s.len() {
        assert(s.take(n) == s);
    } else {
        let t = s.drop_last();
        lemma_drop_trailing_take(t, class, n);
        assert(t.take(n) == s.take(n));
    }
}

/// The text without the characters of `class` at either end.
pub fn trim_class(s: &str, class: CharClass) -> (r: String)
    ensures
        r@ == trimmed_of(s@, class),
{
    let v = chars_of(s);
    let mut from: usize = 0;
    while from < v.len() && class.has(v[from])
        invariant
            0 <= from <= v@.len(),
            forall|i: int| 0 <= i < from ==> class.holds(v@[i]),
        decreases v@.len() - from,
    {
        from += 1;
    }
    proof {
        lemma_drop_leading_skip(v@, class, from as int);
    }
    let ghost rest = v@.skip(from as int);
    let mut to: usize = v.len();
    while to > from && class.has(v[to - 1])
        invariant
            from <= to <= v@.len(),
            forall|i: int| to <= i < v@.len() ==> class.holds(v@[i]),
        decreases to,
    {
        to -= 1;
    }
    proof {
        assert(rest.take(to - from) == v@.subrange(from as int, to as int));
        lemma_drop_trailing_take(rest, class, to - from);
    }
    from_range(&v, from, to)
}

/// The text without the white space at either end.
pub fn trim(s: &str) -> (r: String)
    ensures
        r@ == trimmed(s@),
{
    trim_class(s, CharClass::White)
}

/// The text without the trailing characters of `class`.
pub fn trim_end_class(s: &str, class: CharClass) -> (r: String)
    ensures
        r@ == drop_trailing(s@, class),
{
    let v = chars_of(s);
    let mut to: usize = v.len();
    while to > 0 && class.has(v[to - 1])
        invariant
            0 <= to <= v@.len(),
            forall|i: int| to <= i < v@.len() ==> class.holds(v@[i]),
        decreases to,
    {
        to -= 1;
    }
    proof {
        assert(v@.take(to as int) == v@.subrange(0, to as int));
        lemma_drop_trailing_take(v@, class, to as int);
    }
    from_range(&v, 0, to)
}

/// Whether `needle` stands in `hay` at position `at`.
pub fn stands_at(hay: &Vec<char>, needle: &Vec<char>, at: usize) -> (r: bool)
    ensures
        r == occurs_at(hay@, needle@, at as int),
{
    let total: usize = hay.len();
    if at > total || needle.len() > total - at {
        return false;
    }
    let mut i: usize = 0;
    while i < needle.len()
        invariant
            total == hay@.len(),
            at <= total,
            needle@.len() <= hay@.len() - at,
            0 <= i <= needle@.len(),
            forall|j: int| 0 <= j < i ==> hay@[at + j] == needle@[j],
        decreases needle@.len() - i,
    {
        if hay[at + i] != needle[i] {
            assert(hay@.subrange(at as int, at + needle@.len())[i as int] != needle@[i as int]);
            return false;
        }
        i += 1;
    }
    assert(hay@.subrange(at as int, at + needle@.len()) == needle@);
    true
}

/// Whether `needle` occurs in `hay`.
pub fn contains(hay: &str, needle: &str) -> (r: bool)
    ensures
        r == occurs(hay@, needle@),
{
    let h = chars_of(hay);
    let n = chars_of(needle);
    if n.len() > h.len() {
        return false;
    }
    let last: usize = h.len() - n.len();
    let mut i: usize = 0;
    loop
        invariant
            h@ == hay@,
            n@ == needle@,
            last + n@.len() == h@.len(),
            0 <= i <= last,
            forall|j: int| 0 <= j < i ==> !#[trigger] occurs_at(h@, n@, j),
        decreases last - i,
    {
        if stands_at(&h, &n, i) {
            return true;
        }
        if i == last {
            return false;
        }
        i += 1;
    }
}

/// Whether `c` occurs in `s`.
pub fn contains_char(s: &str, c: char) -> (r: bool)
    ensures
        r == s@.contains(c),
{
    let v = chars_of(s);
    let mut i: usize = 0;
    while i < v.len()
        invariant
            0 <= i <= v@.len(),
            v@ == s@,
            forall|j: int| 0 <= j < i ==> v@[j] != c,
        decreases v@.len() - i,
    {
        if v[i] == c {
            return true;
        }
        i += 1;
    }
    false
}

/// Whether `s` begins with `prefix`.
pub fn starts_with(s: &str, prefix: &str) -> (r: bool)
    ensures
        r == begins(s@, prefix@),
{
    stands_at(&chars_of(s), &chars_of(prefix), 0)
}

/// Whether `s` ends with `suffix`.
pub fn ends_with(s: &str, suffix: &str) -> (r: bool)
    ensures
        r == ends(s@, suffix@),
{
    let v = chars_of(s);
    let n = chars_of(suffix);
    if n.len() > v.len() {
        return false;
    }
    stands_at(&v, &n, v.len() - n.len())
}

/// What follows `prefix` in `s`, where `s` begins with it.
pub fn strip_prefix(s: &str, prefix: &str) -> (r: Option<String>)
    ensures
        opt_text(r) == if begins(s@, prefix@) {
            Some(s@.skip(prefix@.len() as int))
        } else {
            None
        },
{
    let v = chars_of(s);
    let n = chars_of(prefix);
    if stands_at(&v, &n, 0) {
        let rest = from_range(&v, n.len(), v.len());
        assert(rest@ == s@.skip(prefix@.len() as int));
        Some(rest)
    } else {
        None
    }
}

pub proof fn lemma_cut_first(s: Seq<char>, c: char, i: int)
    requires
        0 <= i < s.len(),
        s[i] == c,
        forall|j: int| 0 <= j < i ==> s[j] != c,
    ensures
        cut_first(s, c) == Some((s.take(i), s.skip(i + 1))),
    decreases s.len(),
{
    if i == 0 {
        assert(s.take(0) == Seq::<char>::empty());
        assert(s.skip(1) == s.drop_first());
    } else {
        let t = s.drop_first();
        assert forall|j: int| 0 <= j < i - 1 implies t[j] != c by {
            assert(t[j] == s[j + 1]);
        }
        lemma_cut_first(t, c, i - 1);
        assert(seq![s[0]] + t.take(i - 1) == s.take(i));
        assert(t.skip(i) == s.skip(i + 1));
    }
}

pub proof fn lemma_cut_first_none(s: Seq<char>, c: char)
    requires
        !s.contains(c),
    ensures
        cut_first(s, c) is None,
    decreases s.len(),
{
    if s.len() > 0 {
        assert(s.contains(s[0]));
        assert forall|x: char| s.drop_first().contains(x) implies s.contains(x) by {
            let k = choose|k: int| 0 <= k < s.drop_first().len() && s.drop_first()[k] == x;
            assert(s[k + 1] == x);
        }
        lemma_cut_first_none(s.drop_first(), c);
    }
}

proof fn lemma_cut_last(s: Seq<char>, c: char, i: int)
    requires
        0 <= i < s.len(),
        s[i] == c,
        forall|j: int| i < j < s.len() ==> s[j] != c,
    ensures
        cut_last(s, c) == Some((s.take(i), s.skip(i + 1))),
    decreases s.len(),
{
    if i == s.len() - 1 {
        assert(s.take(i) == s.drop_last());
        assert(s.skip(i + 1) == Seq::<char>::empty());
    } else {
        let t = s.drop_last();
        lemma_cut_last(t, c, i);
        assert(t.take(i) == s.take(i));
        assert(t.skip(i + 1).push(s.last()) == s.skip(i + 1));
    }
}

proof fn lemma_cut_last_none(s: Seq<char>, c: char)
    requires
        !s.contains(c),
    ensures
        cut_last(s, c) is None,
    decreases s.len(),
{
    if s.len() > 0 {
        assert(s.contains(s.last()));
        assert forall|x: char| s.drop_last().contains(x) implies s.contains(x) by {
            let k = choose|k: int| 0 <= k < s.drop_last().len() && s.drop_last()[k] == x;
            assert(s[k] == x);
        }
        lemma_cut_last_none(s.drop_last(), c);
    }
}

/// The views of a pair of strings.
pub open spec fn opt_pair(r: Option<(String, String)>) -> Option<(Seq<char>, Seq<char>)> {
    match r {
        Some((a, b)) => Some((a@, b@)),
        None => None,
    }
}

/// The parts before and after the first `c`.
pub fn split_once(s: &str, c: char) -> (r: Option<(String, String)>)
    ensures
        opt_pair(r) == cut_first(s@, c),
{
    let v = chars_of(s);
    let mut i: usize = 0;
    while i < v.len()
        invariant
            0 <= i <= v@.len(),
            v@ == s@,
            forall|j: int| 0 <= j < i ==> v@[j] != c,
        decreases v@.len() - i,
    {
        if v[i] == c {
            proof {
                lemma_cut_first(s@, c, i as int);
                assert(v@.subrange(0, i as int) == s@.take(i as int));
                assert(v@.subrange(i + 1, v@.len() as int) == s@.skip(i + 1));
            }
            return Some((from_range(&v, 0, i), from_range(&v, i + 1, v.len())));
        }
        i += 1;
    }
    proof {
        lemma_cut_first_none(s@, c);
    }
    None
}

/// The parts before and after the last `c`.
pub fn rsplit_once(s: &str, c: char) -> (r: Option<(String, String)>)
    ensures
        opt_pair(r) == cut_last(s@, c),
{
    let v = chars_of(s);
    let mut i: usize = v.len();
    while i > 0
        invariant
            0 <= i <= v@.len(),
            v@ == s@,
            forall|j: int| i <= j < v@.len() ==> v@[j] != c,
        decreases i,
    {
        i -= 1;
        if v[i] == c {
            proof {
                lemma_cut_last(s@, c, i as int);
                assert(v@.subrange(0, i as int) == s@.take(i as int));
                assert(v@.subrange(i + 1, v@.len() as int) == s@.skip(i + 1));
            }
            return Some((from_range(&v, 0, i), from_range(&v, i + 1, v.len())));
        }
    }
    proof {
        lemma_cut_last_none(s@, c);
    }
    None
}

/// What follows the last `c`, or the whole text.
pub fn after_last(s: &str, c: char) -> (r: String)
    ensures
        r@ == last_segment(s@, c),
{
    match rsplit_once(s, c) {
        Some((_, after)) => after,
        None => s.to_owned(),
    }
}

/// How often `c` occurs in `s`.
pub fn count_char(s: &str, c: char) -> (r: usize)
    ensures
        r == count_of(s@, c),
{
    let v = chars_of(s);
    let mut n: usize = 0;
    let mut i: usize = 0;
    while i < v.len()
        invariant
            0 <= i <= v@.len(),
            n <= i,
            n == count_of(v@.take(i as int), c),
        decreases v@.len() - i,
    {
        proof {
            assert(v@.take(i + 1).drop_last() == v@.take(i as int));
        }
        if v[i] == c {
            n += 1;
        }
        i += 1;
    }
    assert(v@.take(v@.len() as int) == s@);
    n
}

pub proof fn lemma_first_at(s: Seq<char>, c: char, from: int, i: int)
    requires
        0 <= from <= i < s.len(),
        s[i] == c,
        forall|j: int| from <= j < i ==> s[j] != c,
    ensures
        first_at(s, c, from) == Some(i),
    decreases i - from,
{
    if from < i {
        lemma_first_at(s, c, from + 1, i);
    }
}

pub proof fn lemma_first_at_none(s: Seq<char>, c: char, from: int)
    requires
        0 <= from <= s.len(),
        forall|j: int| from <= j < s.len() ==> s[j] != c,
    ensures
        first_at(s, c, from) is None,
    decreases s.len() - from,
{
    if from < s.len() {
        lemma_first_at_none(s, c, from + 1);
    }
}

/// The lines of a text.
pub fn lines(s: &str) -> (r: Vec<String>)
    ensures
        texts(r@) == lines_of(s@),
{
    let v = chars_of(s);
    let mut out: Vec<String> = Vec::new();
    let mut start: usize = 0;
    let mut i: usize = 0;
    assert(v@.skip(0) == v@);
    assert(texts(out@) + lines_of(v@.skip(0)) == lines_of(v@));
    while i < v.len()
        invariant
            0 <= start <= i <= v@.len(),
            v@ == s@,
            texts(out@) + lines_of(v@.skip(start as int)) == lines_of(v@),
            forall|j: int| start <= j < i ==> v@[j] != '\n',
        decreases v@.len() - i,
    {
        if v[i] == '\n' {
            let ghost rest = v@.skip(start as int);
            let ghost before = texts(out@);
            proof {
                assert forall|j: int| 0 <= j < i - start implies rest[j] != '\n' by {
                    assert(rest[j] == v@[start + j]);
                }
                lemma_first_at(rest, '\n', 0, i - start);
                assert(rest.take(i - start) == v@.subrange(start as int, i as int));
                assert(rest.skip(i - start + 1) == v@.skip(i + 1));
            }
            let mut to: usize = i;
            if i > start && v[i - 1] == '\r' {
                to = i - 1;
            }
            let line = from_range(&v, start, to);
            proof {
                assert(line@ == without_return(rest.take(i - start)));
            }
            out.push(line);
            proof {
                assert(texts(out@) == before.push(line@));
                assert(before.push(line@) + lines_of(v@.skip(i + 1)) == before + (seq![line@]
                    + lines_of(v@.skip(i + 1))));
            }
            start = i + 1;
        }
        i += 1;
    }
    let ghost rest = v@.skip(start as int);
    if start < v.len() {
        let ghost before = texts(out@);
        proof {
            assert forall|j: int| 0 <= j < rest.len() implies rest[j] != '\n' by {
                assert(rest[j] == v@[start + j]);
            }
            lemma_first_at_none(rest, '\n', 0);
            assert(rest == v@.subrange(start as int, v@.len() as int));
        }
        out.push(from_range(&v, start, v.len()));
        assert(texts(out@) == before + seq![rest]);
    } else {
        assert(rest.len() == 0);
        assert(texts(out@) + Seq::<Seq<char>>::empty() == texts(out@));
    }
    out
}

/// The texts in order, with `sep` between each two.
pub fn join(parts: &Vec<String>, sep: &str) -> (r: String)
    ensures
        r@ == joined(texts(parts@), sep@),
{
    let mut out = String::new();
    let ghost all = texts(parts@);
    let mut i: usize = 0;
    while i < parts.len()
        invariant
            0 <= i <= parts@.len(),
            all == texts(parts@),
            out@ == joined(all.take(i as int), sep@),
        decreases parts@.len() - i,
    {
        proof {
            assert(all.take(i + 1).drop_last() == all.take(i as int));
        }
        if i > 0 {
            out.append(sep);
        }
        out.append(parts[i].as_str());
        proof {
            if i == 0 {
                assert(all.take(0) == Seq::<Seq<char>>::empty());
                assert(out@ == all[0]);
            }
        }
        i += 1;
    }
    assert(all.take(all.len() as int) == all);
    out
}

fn digit_of(n: u64) -> (r: char)
    requires
        n < 10,
    ensures
        r == digit(n as nat),
{
    (48 + n as u8) as char
}

/// A number in decimal notation.
pub fn show(n: u64) -> (r: String)
    ensures
        r@ == decimal(n as nat),
    decreases n,
{
    if n < 10 {
        let mut out = String::new();
        out.push(digit_of(n));
        assert(out@ == seq![digit(n as nat)]);
        out
    } else {
        let mut out = show(n / 10);
        out.push(digit_of(n % 10));
        out
    }
}

/// A number in decimal notation, with a sign where it is negative.
pub open spec fn signed_decimal(n: int) -> Seq<char> {
    if n < 0 {
        "-"@ + decimal((-n) as nat)
    } else {
        decimal(n as nat)
    }
}

/// A number in decimal notation, with a sign where it is negative.
pub fn show_signed(n: i32) -> (r: String)
    ensures
        r@ == signed_decimal(n as int),
{
    if n < 0 {
        let mut out = "-".to_owned();
        out.append(show((-(n as i64)) as u64).as_str());
        out
    } else {
        show(n as u64)
    }
}

/// The text of an optional string, or the given one.
pub open spec fn text_or(s: Option<String>, otherwise: Seq<char>) -> Seq<char> {
    match s {
        Some(t) => t@,
        None => otherwise,
    }
}

/// The text of an optional string, or the given one.
pub fn value_or(s: &Option<String>, otherwise: &str) -> (r: String)
    ensures
        r@ == text_or(*s, otherwise@),
{
    match s {
        Some(t) => t.clone(),
        None => otherwise.to_owned(),
    }
}

/// Whether `a` comes before `b` in the order of their characters.
pub fn comes_before(a: &Vec<char>, b: &Vec<char>) -> (r: bool)
    ensures
        r == text_before(a@, b@),
{
    let mut i: usize = 0;
    assert(a@.skip(0) == a@ && b@.skip(0) == b@);
    loop
        invariant
            0 <= i <= a@.len(),
            i <= b@.len(),
            text_before(a@, b@) == text_before(a@.skip(i as int), b@.skip(i as int)),
        decreases a@.len() - i,
    {
        if i >= b.len() {
            return false;
        }
        if i >= a.len() {
            return true;
        }
        if a[i] != b[i] {
            return a[i] < b[i];
        }
        proof {
            assert(a@.skip(i as int).drop_first() == a@.skip(i + 1));
            assert(b@.skip(i as int).drop_first() == b@.skip(i + 1));
        }
        i += 1;
    }
}

/// Of two different texts exactly one comes before the other.
pub proof fn text_order_is_total(a: Seq<char>, b: Seq<char>)
    ensures
        a == b ==> !text_before(a, b),
        a != b ==> (text_before(a, b) <==> !text_before(b, a)),
    decreases a.len(),
{
    if a.len() > 0 && b.len() > 0 {
        if a[0] == b[0] {
            text_order_is_total(a.drop_first(), b.drop_first());
            if a.drop_first() == b.drop_first() {
                assert(a == seq![a[0]] + a.drop_first());
                assert(b == seq![b[0]] + b.drop_first());
            }
        }
    } else if a.len() == 0 && b.len() == 0 {
        assert(a == b);
    }
}

/// The order of texts is transitive.
pub proof fn text_order_is_transitive(a: Seq<char>, b: Seq<char>, c: Seq<char>)
    requires
        text_before(a, b),
        text_before(b, c),
    ensures
        text_before(a, c),
    decreases a.len(),
{
    if a.len() > 0 && a[0] == b[0] && b[0] == c[0] {
        text_order_is_transitive(a.drop_first(), b.drop_first(), c.drop_first());
    }
}

/// Only the capitals of ASCII have another form in lower case, thirty-two places on.
pub proof fn only_capitals_are_lowered(s: Seq<char>, i: int)
    requires
        0 <= i < s.len(),
    ensures
        lower(s).len() == s.len(),
        'A' <= s[i] <= 'Z' ==> lower(s)[i] as u32 == s[i] as u32 + 32,
        !('A' <= s[i] <= 'Z') ==> lower(s)[i] == s[i],
        lower(lower(s)) == lower(s),
{
    assert(lower(lower(s)) =~= lower(s));
}

/// Blanks, tabs and line ends are white space; no other character of ASCII that is printed is.
pub proof fn blanks_are_white(c: char)
    ensures
        c == ' ' || c == '\t' || c == '\n' || c == '\r' ==> is_white(c),
        '!' <= c <= '~' ==> !is_white(c),
{
}

proof fn lemma_leading(s: Seq<char>, class: CharClass) -> (a: int)
    ensures
        0 <= a <= s.len(),
        drop_leading(s, class) == s.skip(a),
        forall|i: int| 0 <= i < a ==> class.holds(#[trigger] s[i]),
        a < s.len() ==> !class.holds(s[a]),
    decreases s.len(),
{
    if s.len() > 0 && class.holds(s[0]) {
        let rest = s.drop_first();
        let a = lemma_leading(rest, class);
        assert(rest.skip(a) == s.skip(a + 1));
        assert forall|i: int| 0 <= i < a + 1 implies class.holds(#[trigger] s[i]) by {
            if i > 0 {
                assert(rest[i - 1] == s[i]);
            }
        }
        a + 1
    } else {
        assert(s.skip(0) == s);
        0
    }
}

proof fn lemma_trailing(s: Seq<char>, class: CharClass) -> (b: int)
    ensures
        0 <= b <= s.len(),
        drop_trailing(s, class) == s.take(b),
        forall|i: int| b <= i < s.len() ==> class.holds(#[trigger] s[i]),
        b > 0 ==> !class.holds(s[b - 1]),
    decreases s.len(),
{
    if s.len() > 0 && class.holds(s.last()) {
        let rest = s.drop_last();
        let b = lemma_trailing(rest, class);
        assert(rest.take(b) == s.take(b));
        assert forall|i: int| b <= i < s.len() implies class.holds(#[trigger] s[i]) by {
            if i < rest.len() {
                assert(rest[i] == s[i]);
            }
        }
        b
    } else {
        assert(s.take(s.len() as int) == s);
        s.len() as int
    }
}

/// Trimming leaves a stretch of the text with no character of the class at either end, and takes
/// off nothing but characters of the class.
pub proof fn trimming_takes_the_ends_off(s: Seq<char>, class: CharClass)
    ensures
        exists|a: int, b: int|
            {
                &&& 0 <= a <= b <= s.len()
                &&& trimmed_of(s, class) == #[trigger] s.subrange(a, b)
                &&& forall|i: int| 0 <= i < a || b <= i < s.len() ==> class.holds(#[trigger] s[i])
                &&& a < b ==> !class.holds(s[a]) && !class.holds(s[b - 1])
            },
{
    let a = lemma_leading(s, class);
    let rest = s.skip(a);
    let n = lemma_trailing(rest, class);
    let b = a + n;
    assert(rest.take(n) == s.subrange(a, b));
    assert forall|i: int| 0 <= i < a || b <= i < s.len() implies class.holds(#[trigger] s[i]) by {
        if b <= i {
            assert(rest[i - a] == s[i]);
        }
    }
    if a < b {
        assert(rest[n - 1] == s[b - 1]);
    }
}

/// A character occurs as often as it is found.
pub proof fn counting_finds_each(s: Seq<char>, c: char)
    ensures
        count_of(s, c) == s.filter(|x: char| x == c).len(),
    decreases s.len(),
{
    reveal(Seq::filter);
    if s.len() > 0 {
        counting_finds_each(s.drop_last(), c);
    }
}

/// A text is cut at the first place of a character: what stands before it has none of it.
pub proof fn the_first_cut_comes_first(s: Seq<char>, c: char)
    ensures
        cut_first(s, c) is Some <==> s.contains(c),
        cut_first(s, c) matches Some((before, after)) ==> s == before.push(c) + after
            && !before.contains(c),
{
    if s.contains(c) {
        let k = choose|k: int| 0 <= k < s.len() && s[k] == c;
        let i = lemma_first_of(s, c, k);
        lemma_cut_first(s, c, i);
        assert(s == s.take(i).push(c) + s.skip(i + 1));
    } else {
        lemma_cut_first_none(s, c);
    }
}

proof fn lemma_first_of(s: Seq<char>, c: char, k: int) -> (i: int)
    requires
        0 <= k < s.len(),
        s[k] == c,
    ensures
        0 <= i <= k,
        s[i] == c,
        forall|j: int| 0 <= j < i ==> s[j] != c,
    decreases k,
{
    if exists|j: int| 0 <= j < k && s[j] == c {
        let j = choose|j: int| 0 <= j < k && s[j] == c;
        lemma_first_of(s, c, j)
    } else {
        k
    }
}

proof fn lemma_last_of(s: Seq<char>, c: char, k: int) -> (i: int)
    requires
        0 <= k < s.len(),
        s[k] == c,
    ensures
        k <= i < s.len(),
        s[i] == c,
        forall|j: int| i < j < s.len() ==> s[j] != c,
    decreases s.len() - k,
{
    if exists|j: int| k < j < s.len() && s[j] == c {
        let j = choose|j: int| k < j < s.len() && s[j] == c;
        lemma_last_of(s, c, j)
    } else {
        k
    }
}

/// A text is cut at the last place of a character: what stands behind it has none of it, and is
/// the last segment.
pub proof fn the_last_cut_comes_last(s: Seq<char>, c: char)
    ensures
        cut_last(s, c) is Some <==> s.contains(c),
        cut_last(s, c) matches Some((before, after)) ==> s == before.push(c) + after
            && !after.contains(c) && last_segment(s, c) == after,
        !s.contains(c) ==> last_segment(s, c) == s,
{
    if s.contains(c) {
        let k = choose|k: int| 0 <= k < s.len() && s[k] == c;
        let i = lemma_last_of(s, c, k);
        lemma_cut_last(s, c, i);
        assert(s == s.take(i).push(c) + s.skip(i + 1));
    } else {
        lemma_cut_last_none(s, c);
    }
}

/// Texts are joined part by part: joining the parts of two lists puts one separator between what
/// each gives.
pub proof fn joined_lists_are_separated(a: Seq<Seq<char>>, b: Seq<Seq<char>>, sep: Seq<char>)
    requires
        a.len() > 0,
        b.len() > 0,
    ensures
        joined(a + b, sep) == joined(a, sep) + sep + joined(b, sep),
        a.len() == 1 ==> joined(a, sep) == a[0],
    decreases b.len(),
{
    let all = a + b;
    assert(all.last() == b.last());
    if b.len() == 1 {
        assert(all.drop_last() == a);
    } else {
        joined_lists_are_separated(a, b.drop_last(), sep);
        assert(all.drop_last() == a + b.drop_last());
        assert(joined(a, sep) + sep + joined(b.drop_last(), sep) + sep + b.last() == joined(a, sep)
            + sep + (joined(b.drop_last(), sep) + sep + b.last()));
    }
}

/// The first difference decides which of two texts comes first, and a text comes before one that
/// goes on behind it.
pub proof fn the_first_difference_decides(
    same: Seq<char>,
    x: char,
    y: char,
    a: Seq<char>,
    b: Seq<char>,
)
    ensures
        x != y ==> (text_before(same.push(x) + a, same.push(y) + b) <==> x < y),
        text_before(same, same.push(x) + a),
        !text_before(same.push(x) + a, same),
    decreases same.len(),
{
    let left = same.push(x) + a;
    let right = same.push(y) + b;
    if same.len() > 0 {
        let rest = same.drop_first();
        the_first_difference_decides(rest, x, y, a, b);
        assert(left.drop_first() == rest.push(x) + a);
        assert(right.drop_first() == rest.push(y) + b);
        assert(left[0] == same[0] && right[0] == same[0]);
    } else {
        assert(left[0] == x && right[0] == y);
    }
}

/// Each decimal digit stands for its value, and the last digit of a number is its remainder by ten.
pub proof fn decimals_end_in_the_remainder(n: nat)
    ensures
        decimal(n).len() > 0,
        decimal(n).last() as u32 == 48 + n % 10,
        n >= 10 ==> decimal(n).drop_last() == decimal(n / 10),
        n < 10 ==> decimal(n).len() == 1,
{
    if n >= 10 {
        assert(decimal(n).drop_last() =~= decimal(n / 10));
    }
}

/// A negative number stands behind a sign, and only such a one.
pub proof fn only_negative_numbers_have_a_sign(n: int)
    ensures
        n >= 0 ==> signed_decimal(n) == decimal(n as nat),
        n < 0 ==> signed_decimal(n) == seq!['-'] + signed_decimal(-n),
{
    reveal_strlit("-");
    assert("-"@ =~= seq!['-']);
}

/// Two numbers have the same decimal notation only where they are the same, and the notation holds
/// nothing but digits.
pub proof fn decimals_are_distinct(a: nat, b: nat)
    ensures
        decimal(a) == decimal(b) ==> a == b,
        forall|i: int| 0 <= i < decimal(a).len() ==> '0' <= #[trigger] decimal(a)[i] <= '9',
    decreases a,
{
    decimals_end_in_the_remainder(a);
    decimals_end_in_the_remainder(b);
    if a >= 10 {
        decimals_are_distinct(a / 10, b / 10);
        assert forall|i: int| 0 <= i < decimal(a).len() implies '0' <= #[trigger] decimal(a)[i]
            <= '9' by {
            if i < decimal(a).len() - 1 {
                assert(decimal(a)[i] == decimal(a / 10)[i]);
            }
        }
        if decimal(a) == decimal(b) && b < 10 {
            decimals_end_in_the_remainder(a / 10);
        }
    } else if b >= 10 {
        decimals_end_in_the_remainder(b / 10);
    }
}

/// Each line ends at its break, be it a line feed or a carriage return with one, and the rest follows; a
/// last line without a break is a line too, and nothing behind a break is none.
pub proof fn lines_end_at_their_breaks(line: Seq<char>, rest: Seq<char>)
    requires
        !line.contains('\n'),
    ensures
        line.len() == 0 || line.last() != '\r' ==> lines_of(line.push('\n') + rest) == seq![line]
            + lines_of(rest),
        lines_of(line.push('\r').push('\n') + rest) == seq![line] + lines_of(rest),
        line.len() > 0 ==> lines_of(line) == seq![line],
        lines_of(Seq::empty()).len() == 0,
{
    let plain = line.push('\n') + rest;
    let returned = line.push('\r').push('\n') + rest;
    let n = line.len() as int;
    assert forall|j: int| 0 <= j < n implies line[j] != '\n' by {
        assert(line.contains(line[j]));
    }
    assert(plain[n] == '\n' && returned[n] == '\r' && returned[n + 1] == '\n');
    assert forall|j: int| 0 <= j < n implies plain[j] == line[j] && returned[j] == line[j] by {}
    lemma_first_at(plain, '\n', 0, n);
    lemma_first_at(returned, '\n', 0, n + 1);
    lemma_first_at_none(line, '\n', 0);
    assert(plain.take(n) =~= line);
    assert(plain.skip(n + 1) =~= rest);
    assert(returned.take(n + 1) =~= line.push('\r'));
    assert(line.push('\r').drop_last() =~= line);
    assert(returned.skip(n + 2) =~= rest);
}

}
