//! Names behind hashes: the hash of a name, the table of known names, and the placeholders that
//! stand for a hash in a text.

use crate::text::{
    self, begins, lines_of, lower, lower_char, occurs, occurs_at, texts, trimmed,
};
use std::collections::HashMap;
use vstd::prelude::*;
use vstd::utf8::encode_utf8;

verus! {

broadcast use vstd::std_specs::hash::group_hash_axioms;

/// The hash after one more byte.
pub open spec fn stirred(hash: u32, byte: u8) -> u32 {
    let a = hash.wrapping_add(byte as u32);
    let b = a.wrapping_add(a << 10);
    b ^ (b >> 6)
}

/// The hash over a sequence of bytes, before its last mixing.
pub open spec fn stirred_all(bytes: Seq<u8>) -> u32
    decreases bytes.len(),
{
    if bytes.len() == 0 {
        0
    } else {
        stirred(stirred_all(bytes.drop_last()), bytes.last())
    }
}

/// The last mixing of a hash.
pub open spec fn settled(hash: u32) -> u32 {
    let a = hash.wrapping_add(hash << 3);
    let b = a ^ (a >> 11);
    b.wrapping_add(b << 15)
}

/// Jenkins' one-at-a-time hash of a name, in which the case of ASCII letters does not count.
pub open spec fn name_hash(name: Seq<char>) -> u32 {
    settled(stirred_all(encode_utf8(lower(name))))
}

/// The hash of a name.
pub fn jenk_hash(value: &str) -> (r: u32)
    ensures
        r == name_hash(value@),
{
    let lowered = text::to_lower(value);
    let bytes = lowered.as_str().as_bytes();
    let mut hash: u32 = 0;
    let mut i: usize = 0;
    while i < bytes.len()
        invariant
            0 <= i <= bytes@.len(),
            hash == stirred_all(bytes@.take(i as int)),
        decreases bytes@.len() - i,
    {
        proof {
            assert(bytes@.take(i + 1).drop_last() =~= bytes@.take(i as int));
        }
        hash = hash.wrapping_add(bytes[i] as u32);
        hash = hash.wrapping_add(hash << 10);
        hash = hash ^ (hash >> 6);
        i += 1;
    }
    assert(bytes@.take(bytes@.len() as int) =~= bytes@);
    hash = hash.wrapping_add(hash << 3);
    hash = hash ^ (hash >> 11);
    hash.wrapping_add(hash << 15)
}

/// Names that differ only in the case of their ASCII letters have the same hash.
pub proof fn a_hash_ignores_case(a: Seq<char>, b: Seq<char>)
    requires
        lower(a) == lower(b),
    ensures
        name_hash(a) == name_hash(b),
{
}

/// The names of a table of seeds under their hashes: blank lines and lines that begin with `#`
/// do not count, and of two names with one hash the later stands.
pub open spec fn known_names(lines: Seq<Seq<char>>) -> Map<u32, Seq<char>>
    decreases lines.len(),
{
    if lines.len() == 0 {
        Map::empty()
    } else {
        let before = known_names(lines.drop_last());
        let name = trimmed(lines.last());
        if name.len() == 0 || begins(name, "#"@) {
            before
        } else {
            before.insert(name_hash(name), name)
        }
    }
}

/// The texts of a table of names.
pub open spec fn names_in(table: Map<u32, String>) -> Map<u32, Seq<char>> {
    Map::new(|hash: u32| table.contains_key(hash), |hash: u32| table[hash]@)
}

/// The known names of a seed file under their hashes.
pub fn load_known_hash_name_overrides(content: &str) -> (r: HashMap<u32, String>)
    ensures
        names_in(r@) == known_names(lines_of(content@)),
{
    let lines = text::lines(content);
    let ghost all = texts(lines@);
    let mut table: HashMap<u32, String> = HashMap::new();
    let mut i: usize = 0;
    assert(names_in(table@) =~= known_names(all.take(0)));
    while i < lines.len()
        invariant
            all == texts(lines@),
            0 <= i <= lines@.len(),
            names_in(table@) == known_names(all.take(i as int)),
        decreases lines@.len() - i,
    {
        proof {
            assert(all.take(i + 1).drop_last() =~= all.take(i as int));
            reveal_strlit("");
        }
        let name = text::trim(lines[i].as_str());
        let ghost before = table@;
        if !text::same_text(name.as_str(), "") && !text::starts_with(name.as_str(), "#") {
            proof {
                if name@.len() == 0 {
                    assert(name@ =~= ""@);
                }
            }
            let hash: u32 = jenk_hash(name.as_str());
            table.insert(hash, name);
            assert(names_in(table@) =~= names_in(before).insert(hash, name@));
        }
        i += 1;
    }
    assert(all.take(all.len() as int) =~= all);
    table
}

/// In a table of known names every name stands under its own hash.
pub proof fn known_names_stand_under_their_hash(lines: Seq<Seq<char>>, hash: u32)
    requires
        known_names(lines).contains_key(hash),
    ensures
        name_hash(known_names(lines)[hash]) == hash,
    decreases lines.len(),
{
    let before = known_names(lines.drop_last());
    let name = trimmed(lines.last());
    if name.len() == 0 || begins(name, "#"@) {
        known_names_stand_under_their_hash(lines.drop_last(), hash);
    } else if hash != name_hash(name) {
        known_names_stand_under_their_hash(lines.drop_last(), hash);
    }
}

/// Whether a character is a hexadecimal digit.
pub open spec fn is_hex(c: char) -> bool {
    '0' <= c <= '9' || 'a' <= c <= 'f' || 'A' <= c <= 'F'
}

/// The value of a hexadecimal digit.
pub open spec fn hex_digit(c: char) -> nat {
    if '0' <= c <= '9' {
        (c as u32 - 48) as nat
    } else if 'a' <= c <= 'f' {
        (c as u32 - 87) as nat
    } else {
        (c as u32 - 55) as nat
    }
}

/// The value of a hexadecimal number.
pub open spec fn hex_value(s: Seq<char>) -> nat
    decreases s.len(),
{
    if s.len() == 0 {
        0
    } else {
        hex_value(s.drop_last()) * 16 + hex_digit(s.last())
    }
}

/// Whether a text begins with a placeholder: `hash_` and eight hexadecimal digits.
pub open spec fn has_placeholder(s: Seq<char>) -> bool {
    begins(s, "hash_"@) && s.len() >= 13 && forall|i: int| 5 <= i < 13 ==> is_hex(#[trigger] s[i])
}

/// A text with each placeholder of a known hash replaced by the name.
pub open spec fn with_names(s: Seq<char>, names: Map<u32, Seq<char>>) -> Seq<char>
    decreases s.len(),
{
    if s.len() == 0 {
        s
    } else if has_placeholder(s) && names.contains_key(hex_value(s.subrange(5, 13)) as u32) {
        names[hex_value(s.subrange(5, 13)) as u32] + with_names(s.skip(13), names)
    } else {
        seq![s[0]] + with_names(s.skip(1), names)
    }
}

/// How many bytes a character takes in UTF-8.
pub open spec fn byte_width(c: char) -> int {
    if c as u32 <= 0x7F {
        1
    } else if c as u32 <= 0x7FF {
        2
    } else if c as u32 <= 0xFFFF {
        3
    } else {
        4
    }
}

/// Whether the first `n` bytes of a text end with a character, or the text is shorter.
pub open spec fn cuts_between_chars(s: Seq<char>, n: int) -> bool
    decreases s.len(),
{
    if n <= 0 {
        n == 0
    } else if s.len() == 0 {
        true
    } else {
        cuts_between_chars(s.skip(1), n - byte_width(s[0]))
    }
}

/// Whether behind each `hash_` of a text the eight bytes of a placeholder can be cut out.
pub open spec fn placeholders_can_be_cut(s: Seq<char>) -> bool {
    forall|i: int| #[trigger]
        occurs_at(s, "hash_"@, i) ==> cuts_between_chars(s.skip(i + 5), 8)
}

fn width_of(c: char) -> (r: usize)
    ensures
        r == byte_width(c),
{
    if c as u32 <= 0x7F {
        1
    } else if c as u32 <= 0x7FF {
        2
    } else if c as u32 <= 0xFFFF {
        3
    } else {
        4
    }
}

fn cuts_at(v: &Vec<char>, from: usize, n: usize) -> (r: bool)
    requires
        from <= v@.len(),
    ensures
        r == cuts_between_chars(v@.skip(from as int), n as int),
{
    let mut left: usize = n;
    let mut i: usize = from;
    loop
        invariant
            from <= i <= v@.len(),
            cuts_between_chars(v@.skip(from as int), n as int) == cuts_between_chars(
                v@.skip(i as int),
                left as int,
            ),
        decreases v@.len() - i,
    {
        if left == 0 {
            return true;
        }
        if i >= v.len() {
            return true;
        }
        let width: usize = width_of(v[i]);
        proof {
            assert(v@.skip(i as int).skip(1) =~= v@.skip(i + 1));
        }
        if width > left {
            assert(!cuts_between_chars(v@.skip(i + 1), left - width));
            return false;
        }
        left -= width;
        i += 1;
    }
}

/// Whether the placeholders of a text can be looked up.
pub fn can_replace_placeholders(text: &str) -> (r: bool)
    ensures
        r == placeholders_can_be_cut(text@),
{
    let v = text::chars_of(text);
    let mark = text::chars_of("hash_");
    proof {
        reveal_strlit("hash_");
    }
    let mut i: usize = 0;
    while i < v.len()
        invariant
            v@ == text@,
            mark@ == "hash_"@,
            mark@.len() == 5,
            0 <= i <= v@.len(),
            forall|j: int|
                0 <= j < i && #[trigger] occurs_at(v@, mark@, j) ==> cuts_between_chars(
                    v@.skip(j + 5),
                    8,
                ),
        decreases v@.len() - i,
    {
        if text::stands_at(&v, &mark, i) && !cuts_at(&v, i + 5, 8) {
            assert(occurs_at(text@, "hash_"@, i as int));
            return false;
        }
        i += 1;
    }
    true
}

proof fn lemma_hex_bound(s: Seq<char>)
    requires
        forall|i: int| 0 <= i < s.len() ==> is_hex(#[trigger] s[i]),
        s.len() <= 8,
    ensures
        s.len() == 0 ==> hex_value(s) == 0,
        s.len() == 1 ==> hex_value(s) < 0x10,
        s.len() == 2 ==> hex_value(s) < 0x100,
        s.len() == 3 ==> hex_value(s) < 0x1000,
        s.len() == 4 ==> hex_value(s) < 0x1_0000,
        s.len() == 5 ==> hex_value(s) < 0x10_0000,
        s.len() == 6 ==> hex_value(s) < 0x100_0000,
        s.len() == 7 ==> hex_value(s) < 0x1000_0000,
        s.len() == 8 ==> hex_value(s) < 0x1_0000_0000,
    decreases s.len(),
{
    if s.len() > 0 {
        assert forall|i: int| 0 <= i < s.drop_last().len() implies is_hex(
            #[trigger] s.drop_last()[i],
        ) by {
            assert(s.drop_last()[i] == s[i]);
        }
        lemma_hex_bound(s.drop_last());
        assert(is_hex(s[s.len() - 1]));
    }
}

fn hex_of(c: char) -> (r: Option<u32>)
    ensures
        match r {
            Some(n) => is_hex(c) && n == hex_digit(c) && n < 16,
            None => !is_hex(c),
        },
{
    if '0' <= c && c <= '9' {
        Some(c as u32 - 48)
    } else if 'a' <= c && c <= 'f' {
        Some(c as u32 - 87)
    } else if 'A' <= c && c <= 'F' {
        Some(c as u32 - 55)
    } else {
        None
    }
}

fn placeholder_at(v: &Vec<char>, mark: &Vec<char>, at: usize) -> (r: Option<u32>)
    requires
        at < v@.len(),
        mark@ == "hash_"@,
    ensures
        match r {
            Some(hash) => has_placeholder(v@.skip(at as int)) && hash == hex_value(
                v@.skip(at as int).subrange(5, 13),
            ) as u32,
            None => !has_placeholder(v@.skip(at as int)),
        },
{
    let ghost rest = v@.skip(at as int);
    proof {
        reveal_strlit("hash_");
        if at + 5 <= v@.len() {
            assert(v@.subrange(at as int, at + 5) =~= rest.subrange(0, 5));
        }
    }
    let total: usize = v.len();
    if !text::stands_at(v, mark, at) {
        return None;
    }
    if total - at < 13 {
        return None;
    }
    let mut value: u32 = 0;
    let mut i: usize = 5;
    while i < 13
        invariant
            rest == v@.skip(at as int),
            total == v@.len(),
            at + 13 <= total,
            rest.len() >= 13,
            5 <= i <= 13,
            value == hex_value(rest.subrange(5, i as int)),
            forall|j: int| 5 <= j < i ==> is_hex(#[trigger] rest[j]),
        decreases 13 - i,
    {
        let ghost part = rest.subrange(5, i as int);
        proof {
            assert forall|j: int| 0 <= j < part.len() implies is_hex(#[trigger] part[j]) by {
                assert(part[j] == rest[j + 5]);
            }
            lemma_hex_bound(part);
            assert(rest.subrange(5, i + 1).drop_last() =~= part);
            assert(v@[at + i] == rest[i as int]);
        }
        match hex_of(v[at + i]) {
            Some(digit) => {
                value = value * 16 + digit;
            },
            None => {
                return None;
            },
        }
        i += 1;
    }
    Some(value)
}

/// The text with each placeholder of a known hash replaced by the name.
pub fn replace_hash_placeholders(text: &str, overrides: &HashMap<u32, String>) -> (r: String)
    requires
        placeholders_can_be_cut(text@),
    ensures
        r@ == with_names(text@, names_in(overrides@)),
{
    let v = text::chars_of(text);
    let mark = text::chars_of("hash_");
    let ghost names = names_in(overrides@);
    let mut out = String::new();
    let mut i: usize = 0;
    assert(v@.skip(0) =~= v@);
    assert(out@ + with_names(v@.skip(0), names) =~= with_names(v@, names));
    while i < v.len()
        invariant
            names == names_in(overrides@),
            mark@ == "hash_"@,
            0 <= i <= v@.len(),
            out@ + with_names(v@.skip(i as int), names) == with_names(v@, names),
        decreases v@.len() - i,
    {
        let ghost rest = v@.skip(i as int);
        let ghost before = out@;
        let mut name: Option<&String> = None;
        if let Some(hash) = placeholder_at(&v, &mark, i) {
            name = overrides.get(&hash);
        }
        match name {
            Some(known) => {
                out.append(known.as_str());
                proof {
                    assert(rest.skip(13) =~= v@.skip(i + 13));
                    assert(out@ + with_names(v@.skip(i + 13), names) =~= before + (known@
                        + with_names(rest.skip(13), names)));
                }
                i += 13;
            },
            None => {
                out.push(v[i]);
                proof {
                    assert(rest.skip(1) =~= v@.skip(i + 1));
                    assert(out@ + with_names(v@.skip(i + 1), names) =~= before + (seq![rest[0]]
                        + with_names(rest.skip(1), names)));
                }
                i += 1;
            },
        }
    }
    assert(v@.skip(v@.len() as int) =~= Seq::<char>::empty());
    assert(out@ + Seq::<char>::empty() =~= out@);
    out
}

/// The text with the names of a seed file in place of their placeholders.
pub fn apply_known_hash_name_overrides(text: &str, seeds: &str) -> (r: String)
    requires
        placeholders_can_be_cut(text@),
    ensures
        r@ == with_names(text@, known_names(lines_of(seeds@))),
{
    let overrides = load_known_hash_name_overrides(seeds);
    replace_hash_placeholders(text, &overrides)
}

/// A text in which `hash_` does not occur stays as it is.
pub proof fn a_text_without_placeholders_stays(s: Seq<char>, names: Map<u32, Seq<char>>)
    requires
        !occurs(s, "hash_"@),
    ensures
        with_names(s, names) == s,
    decreases s.len(),
{
    if s.len() > 0 {
        assert(!occurs_at(s, "hash_"@, 0));
        let rest = s.skip(1);
        assert forall|i: int| !#[trigger] occurs_at(rest, "hash_"@, i) by {
            if occurs_at(rest, "hash_"@, i) {
                assert(rest.subrange(i, i + "hash_"@.len()) =~= s.subrange(
                    i + 1,
                    i + 1 + "hash_"@.len(),
                ));
                assert(occurs_at(s, "hash_"@, i + 1));
            }
        }
        a_text_without_placeholders_stays(rest, names);
        assert(seq![s[0]] + rest =~= s);
    }
}

/// A text stays as it is where no name is known.
pub proof fn a_text_stays_without_names(s: Seq<char>)
    ensures
        with_names(s, Map::empty()) == s,
    decreases s.len(),
{
    if s.len() > 0 {
        a_text_stays_without_names(s.skip(1));
        assert(seq![s[0]] + s.skip(1) =~= s);
    }
}

/// Each byte is added to the hash, which is then multiplied by one more than a thousand and
/// twenty-four and mixed with its sixty-fourth part; at the end it is multiplied by nine, mixed with
/// its part by two to the eleventh, and multiplied by one more than two to the fifteenth. All of it is
/// counted in 32 bits.
pub proof fn the_hash_is_jenkins(hash: u32, byte: u8)
    ensures
        ({
            let a = ((hash + byte) % 0x1_0000_0000 * 1025 % 0x1_0000_0000) as u32;
            stirred(hash, byte) == a ^ (a / 64)
        }),
        ({
            let a = (hash * 9 % 0x1_0000_0000) as u32;
            let b = a ^ (a / 2048);
            settled(hash) == b * 32769 % 0x1_0000_0000
        }),
        stirred_all(Seq::empty()) == 0,
{
    let x = hash.wrapping_add(byte as u32);
    assert(x == (hash + byte) % 0x1_0000_0000);
    lemma_times(x);
    let a = x.wrapping_add(x << 10);
    assert(a == x * 1025 % 0x1_0000_0000);
    assert(a >> 6 == a / 64) by (bit_vector);
    lemma_times(hash);
    let c = hash.wrapping_add(hash << 3);
    assert(c == hash * 9 % 0x1_0000_0000);
    assert(c >> 11 == c / 2048) by (bit_vector);
    let b = c ^ (c >> 11);
    lemma_times(b);
    assert(b.wrapping_add(b << 15) == b * 32769 % 0x1_0000_0000);
}

proof fn lemma_times(x: u32)
    ensures
        x.wrapping_add(x << 10) == x * 1025 % 0x1_0000_0000,
        x.wrapping_add(x << 3) == x * 9 % 0x1_0000_0000,
        x.wrapping_add(x << 15) == x * 32769 % 0x1_0000_0000,
{
    assert(x << 10 == (x as u64 * 1024) % 0x1_0000_0000) by (bit_vector);
    assert(x << 3 == (x as u64 * 8) % 0x1_0000_0000) by (bit_vector);
    assert(x << 15 == (x as u64 * 32768) % 0x1_0000_0000) by (bit_vector);
    lemma_wrapped_sum(x, x << 10, x * 1024);
    lemma_wrapped_sum(x, x << 3, x * 8);
    lemma_wrapped_sum(x, x << 15, x * 32768);
}

proof fn lemma_wrapped_sum(x: u32, y: u32, product: int)
    requires
        y == product % 0x1_0000_0000,
    ensures
        x.wrapping_add(y) == (x + product) % 0x1_0000_0000,
{
    vstd::arithmetic::div_mod::lemma_add_mod_noop_right(x as int, product, 0x1_0000_0000);
}

/// Each further byte is worked into the hash of those before it.
pub proof fn a_hash_grows_byte_by_byte(bytes: Seq<u8>, byte: u8)
    ensures
        stirred_all(bytes.push(byte)) == stirred(stirred_all(bytes), byte),
{
    assert(bytes.push(byte).drop_last() =~= bytes);
}

/// Whether a line of the table names something.
pub open spec fn names_something(line: Seq<char>) -> bool {
    trimmed(line).len() > 0 && trimmed(line)[0] != '#'
}

/// Every line that is neither blank nor a comment makes its name known under the hash of the name; of
/// lines with one hash the last counts. No other line counts at all.
pub proof fn every_named_line_is_known(lines: Seq<Seq<char>>, i: int, hash: u32)
    ensures
        0 <= i < lines.len() && names_something(lines[i]) && (forall|j: int|
            i < j < lines.len() && names_something(#[trigger] lines[j]) ==> name_hash(
                trimmed(lines[j]),
            ) != name_hash(trimmed(lines[i]))) ==> known_names(lines).contains_key(
            name_hash(trimmed(lines[i])),
        ) && known_names(lines)[name_hash(trimmed(lines[i]))] == trimmed(lines[i]),
        known_names(lines).contains_key(hash) ==> exists|k: int|
            0 <= k < lines.len() && names_something(#[trigger] lines[k]) && name_hash(
                trimmed(lines[k]),
            ) == hash,
    decreases lines.len(),
{
    reveal_strlit("#");
    if lines.len() > 0 {
        let front = lines.drop_last();
        let name = trimmed(lines.last());
        assert(lines.last() == lines[lines.len() - 1]);
        if name.len() > 0 {
            assert(name.subrange(0, 1)[0] == name[0]);
            if name[0] == '#' {
                assert(name.subrange(0, 1) =~= "#"@);
            }
            assert(begins(name, "#"@) <==> name[0] == '#');
        }
        if 0 <= i < front.len() {
            assert(front[i] == lines[i]);
            if forall|j: int|
                i < j < lines.len() && names_something(#[trigger] lines[j]) ==> name_hash(
                    trimmed(lines[j]),
                ) != name_hash(trimmed(lines[i])) {
                assert forall|j: int|
                    i < j < front.len() && names_something(#[trigger] front[j]) implies name_hash(
                    trimmed(front[j]),
                ) != name_hash(trimmed(front[i])) by {
                    assert(front[j] == lines[j]);
                }
            }
        }
        every_named_line_is_known(front, i, hash);
        if known_names(lines).contains_key(hash) {
            if names_something(lines.last()) && name_hash(name) == hash {
                assert(names_something(lines[lines.len() - 1]));
            } else {
                let k = choose|k: int|
                    0 <= k < front.len() && names_something(#[trigger] front[k]) && name_hash(
                        trimmed(front[k]),
                    ) == hash;
                assert(front[k] == lines[k]);
            }
        }
    }
}

/// The digits of a hash stand for their places in the row of hexadecimal digits, small or capital; a
/// further digit counts sixteen times what stands before it.
pub proof fn digits_stand_for_their_places(c: char, s: Seq<char>)
    ensures
        is_hex(c) <==> "0123456789abcdef"@.contains(lower_char(c)),
        is_hex(c) ==> hex_digit(c) < 16 && "0123456789abcdef"@[hex_digit(c) as int] == lower_char(
            c,
        ),
        hex_value(s.push(c)) == 16 * hex_value(s) + hex_digit(c),
        hex_value(Seq::empty()) == 0,
{
    reveal_strlit("0123456789abcdef");
    let row = "0123456789abcdef"@;
    assert(s.push(c).drop_last() =~= s);
    if is_hex(c) {
        assert(row[hex_digit(c) as int] == lower_char(c));
    } else if row.contains(lower_char(c)) {
        let k = choose|k: int| 0 <= k < row.len() && row[k] == lower_char(c);
    }
}

/// Whether a text is eight hexadecimal digits.
pub open spec fn eight_digits(digits: Seq<char>) -> bool {
    digits.len() == 8 && forall|i: int| 0 <= i < 8 ==> is_hex(#[trigger] digits[i])
}

proof fn lemma_placeholder(digits: Seq<char>, rest: Seq<char>)
    requires
        eight_digits(digits),
    ensures
        ({
            let s = "hash_"@ + digits + rest;
            &&& has_placeholder(s)
            &&& s.subrange(5, 13) == digits
            &&& s.skip(13) == rest
            &&& s.len() == 13 + rest.len()
            &&& forall|k: int| 1 <= k < 13 ==> !has_placeholder(#[trigger] s.skip(k))
        }),
{
    reveal_strlit("hash_");
    let s = "hash_"@ + digits + rest;
    assert(s.subrange(0, 5) =~= "hash_"@);
    assert forall|i: int| 5 <= i < 13 implies is_hex(#[trigger] s[i]) by {
        assert(s[i] == digits[i - 5]);
    }
    assert(s.subrange(5, 13) =~= digits);
    assert(s.skip(13) =~= rest);
    assert forall|k: int| 1 <= k < 13 implies !has_placeholder(#[trigger] s.skip(k)) by {
        let t = s.skip(k);
        if has_placeholder(t) {
            assert(t.subrange(0, 5)[0] == 'h');
            assert(t.subrange(0, 5)[1] == 'a');
            assert(t[0] == s[k] && t[1] == s[k + 1]);
            if k >= 5 {
                assert(is_hex(s[k]));
            }
        }
    }
}

proof fn lemma_copied(s: Seq<char>, n: int, names: Map<u32, Seq<char>>)
    requires
        0 <= n <= s.len(),
        forall|k: int| 0 <= k < n ==> !has_placeholder(#[trigger] s.skip(k)) || !names.contains_key(
            hex_value(s.skip(k).subrange(5, 13)) as u32,
        ),
    ensures
        with_names(s, names) == s.take(n) + with_names(s.skip(n), names),
    decreases n,
{
    if n == 0 {
        assert(s.skip(0) =~= s);
        assert(s.take(0) + with_names(s, names) =~= with_names(s, names));
    } else {
        assert(s.skip(0) =~= s);
        let rest = s.skip(1);
        assert forall|k: int| 0 <= k < n - 1 implies !has_placeholder(#[trigger] rest.skip(k))
            || !names.contains_key(hex_value(rest.skip(k).subrange(5, 13)) as u32) by {
            assert(rest.skip(k) =~= s.skip(k + 1));
        }
        lemma_copied(rest, n - 1, names);
        assert(rest.skip(n - 1) =~= s.skip(n));
        assert(seq![s[0]] + (rest.take(n - 1) + with_names(s.skip(n), names)) =~= s.take(n)
            + with_names(s.skip(n), names));
    }
}

/// A placeholder gives way to the name that is known for its hash, and stays where none is known; the
/// text behind it is treated alike. What is not the beginning of a placeholder stays.
pub proof fn placeholders_give_way_to_their_names(
    digits: Seq<char>,
    rest: Seq<char>,
    c: char,
    names: Map<u32, Seq<char>>,
)
    requires
        eight_digits(digits),
        c != 'h',
    ensures
        names.contains_key(hex_value(digits) as u32) ==> with_names(
            "hash_"@ + digits + rest,
            names,
        ) == names[hex_value(digits) as u32] + with_names(rest, names),
        !names.contains_key(hex_value(digits) as u32) ==> with_names(
            "hash_"@ + digits + rest,
            names,
        ) == "hash_"@ + digits + with_names(rest, names),
        with_names(seq![c] + rest, names) == seq![c] + with_names(rest, names),
{
    reveal_strlit("hash_");
    let s = "hash_"@ + digits + rest;
    lemma_placeholder(digits, rest);
    if !names.contains_key(hex_value(digits) as u32) {
        assert forall|k: int| 0 <= k < 13 implies !has_placeholder(#[trigger] s.skip(k))
            || !names.contains_key(hex_value(s.skip(k).subrange(5, 13)) as u32) by {
            if k == 0 {
                assert(s.skip(0) =~= s);
            }
        }
        lemma_copied(s, 13, names);
        assert(s.take(13) =~= "hash_"@ + digits);
    }
    let other = seq![c] + rest;
    assert(other.skip(1) =~= rest);
    if has_placeholder(other) {
        assert(other.subrange(0, 5)[0] == 'h');
    }
}

proof fn lemma_byte_width(c: char)
    ensures
        byte_width(c) == encode_utf8(seq![c]).len(),
{
    reveal_with_fuel(encode_utf8, 2);
    assert(seq![c].drop_first().len() == 0);
}

/// A text of ASCII characters can be cut anywhere. One that begins with a longer character can be cut
/// in front of that character and behind it, and not within.
pub proof fn a_character_is_not_cut(s: Seq<char>, n: int)
    requires
        0 <= n,
    ensures
        (forall|i: int| 0 <= i < s.len() ==> (#[trigger] s[i] as u32) < 128) ==> cuts_between_chars(
            s,
            n,
        ),
        s.len() > 0 && 0 < n < encode_utf8(seq![s[0]]).len() ==> !cuts_between_chars(s, n),
        s.len() > 0 && n == encode_utf8(seq![s[0]]).len() ==> cuts_between_chars(s, n),
    decreases s.len(),
{
    if s.len() > 0 {
        lemma_byte_width(s[0]);
        if n > 0 && forall|i: int| 0 <= i < s.len() ==> (#[trigger] s[i] as u32) < 128 {
            let rest = s.skip(1);
            assert(byte_width(s[0]) == 1);
            assert forall|i: int| 0 <= i < rest.len() implies (#[trigger] rest[i] as u32) < 128 by {
                assert(rest[i] == s[i + 1]);
            }
            a_character_is_not_cut(rest, n - 1);
        }
        if 0 < n < byte_width(s[0]) {
            assert(!cuts_between_chars(s.skip(1), n - byte_width(s[0])));
        }
        if n == byte_width(s[0]) {
            assert(cuts_between_chars(s.skip(1), 0));
        }
    }
}

}
