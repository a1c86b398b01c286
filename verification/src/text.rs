//! Text: splitting, trimming, and turning numbers into digits and back.

use vstd::prelude::*;
use vstd::string::*;
use vstd::utf8::*;

verus! {

broadcast use {vstd::string::group_string_axioms, vstd::seq::group_seq_axioms};

/// `String::push` appends the character to the end of the text.
pub assume_specification[ String::push ](s: &mut String, c: char)
    ensures
        final(s)@ == old(s)@.push(c),
;

/// `String::pop` takes the last character off and returns it; an empty text stays empty.
pub assume_specification[ String::pop ](s: &mut String) -> (r: Option<char>)
    ensures
        old(s)@.len() == 0 ==> r is None && final(s)@ == old(s)@,
        old(s)@.len() > 0 ==> r == Some(old(s)@.last()) && final(s)@ == old(s)@.drop_last(),
;

/// Bytes that are not UTF-8.
#[verifier::external_type_specification]
#[verifier::external_body]
pub struct ExFromUtf8Error(std::string::FromUtf8Error);

/// `String::from_utf8` makes a text of bytes that are UTF-8, and an error of all others.
pub assume_specification[ String::from_utf8 ](vec: Vec<u8>) -> (r: Result<
    String,
    std::string::FromUtf8Error,
>)
    ensures
        match r {
            Ok(s) => valid_utf8(vec@) && encode_utf8(s@) == vec@,
            Err(_) => !valid_utf8(vec@),
        },
;

/// The view of a text or of the message that stands in its place.
pub open spec fn outcome(r: Result<String, String>) -> Result<Seq<char>, Seq<char>> {
    match r {
        Ok(t) => Ok(t@),
        Err(e) => Err(e@),
    }
}

/// Whether two texts hold the same characters.
pub fn same(a: &str, b: &str) -> (r: bool)
    ensures
        r == (a@ == b@),
{
    a.to_owned() == b.to_owned()
}

/// Joins two texts.
pub fn join2(a: &str, b: &str) -> (r: String)
    ensures
        r@ == a@ + b@,
{
    let mut s: String = a.to_owned();
    s.append(b);
    s
}

/// Joins three texts.
pub fn join3(a: &str, b: &str, c: &str) -> (r: String)
    ensures
        r@ == a@ + b@ + c@,
{
    let mut s: String = join2(a, b);
    s.append(c);
    s
}

/// Joins four texts.
pub fn join4(a: &str, b: &str, c: &str, d: &str) -> (r: String)
    ensures
        r@ == a@ + b@ + c@ + d@,
{
    let mut s: String = join3(a, b, c);
    s.append(d);
    s
}

/// Where `c` first stands in `s`; the length of `s` if it does not occur.
pub open spec fn find(s: Seq<char>, c: char) -> int
    decreases s.len(),
{
    if s.len() == 0 || s[0] == c {
        0
    } else {
        1 + find(s.drop_first(), c)
    }
}

/// `find` is the first place: nothing before it is `c`, and what stands there is `c`.
pub proof fn lemma_find(s: Seq<char>, c: char)
    ensures
        0 <= find(s, c) <= s.len(),
        forall|i: int| 0 <= i < find(s, c) ==> s[i] != c,
        find(s, c) < s.len() ==> s[find(s, c)] == c,
        s.contains(c) <==> find(s, c) < s.len(),
    decreases s.len(),
{
    if s.len() > 0 && s[0] != c {
        let rest = s.drop_first();
        lemma_find(rest, c);
        assert forall|i: int| 0 <= i < find(s, c) implies s[i] != c by {
            if i > 0 {
                assert(rest[i - 1] == s[i]);
            }
        }
    }
}

/// A place before which `c` does not occur and at which it does is the first one.
proof fn lemma_find_is(s: Seq<char>, c: char, at: int)
    requires
        0 <= at <= s.len(),
        forall|i: int| 0 <= i < at ==> s[i] != c,
        at < s.len() ==> s[at] == c,
    ensures
        find(s, c) == at,
{
    lemma_find(s, c);
}

/// Finds the first `c` in `s`; the number of characters of `s` if there is none.
pub fn find_char(s: &str, c: char) -> (r: usize)
    ensures
        r == find(s@, c),
{
    let n: usize = s.unicode_len();
    let mut at: usize = 0;
    for x in it: s.chars()
        invariant
            at == it.index(),
            it.seq() == s@,
            n == s@.len(),
            forall|i: int| 0 <= i < at ==> s@[i] != c,
    {
        if x == c {
            proof {
                lemma_find_is(s@, c, at as int);
            }
            return at;
        }
        at = at + 1;
    }
    proof {
        lemma_find_is(s@, c, at as int);
    }
    at
}

/// The parts of `s` between single spaces, at most `n` of them: the last one keeps its spaces.
pub open spec fn split(s: Seq<char>, n: nat) -> Seq<Seq<char>>
    decreases n,
{
    if n == 0 {
        seq![]
    } else if n == 1 || !s.contains(' ') {
        seq![s]
    } else {
        seq![s.take(find(s, ' '))] + split(s.skip(find(s, ' ') + 1), (n - 1) as nat)
    }
}

/// The first part of a text that begins with a word and a space is that word.
pub proof fn lemma_split_word(word: Seq<char>, rest: Seq<char>, n: nat)
    requires
        !word.contains(' '),
        n >= 2,
    ensures
        split(word + seq![' '] + rest, n) == seq![word] + split(rest, (n - 1) as nat),
{
    let s = word + seq![' '] + rest;
    assert(s[word.len() as int] == ' ');
    assert(s.contains(' '));
    assert forall|i: int| 0 <= i < word.len() implies s[i] != ' ' by {
        assert(s[i] == word[i]);
        assert(word.contains(word[i]));
    }
    lemma_find_is(s, ' ', word.len() as int);
    assert(s.take(word.len() as int) == word);
    assert(s.skip(word.len() as int + 1) == rest);
}

/// Every part but the last possible one is free of spaces.
pub proof fn lemma_split_is_words(s: Seq<char>, n: nat, i: int)
    requires
        0 <= i < split(s, n).len(),
        i < n - 1,
    ensures
        !split(s, n)[i].contains(' '),
    decreases n,
{
    if s.contains(' ') {
        let at = find(s, ' ');
        lemma_find(s, ' ');
        if i == 0 {
            assert(split(s, n)[0] == s.take(at));
            assert forall|j: int| 0 <= j < at implies s.take(at)[j] != ' ' by {}
        } else {
            let rest = s.skip(at + 1);
            assert(split(s, n)[i] == split(rest, (n - 1) as nat)[i - 1]);
            lemma_split_is_words(rest, (n - 1) as nat, i - 1);
        }
    }
}

/// The view of a list of texts.
pub open spec fn texts(v: Seq<String>) -> Seq<Seq<char>> {
    Seq::new(v.len(), |i: int| v[i]@)
}

/// Splits `s` at its first `n - 1` spaces.
pub fn splitn(s: &str, n: usize) -> (r: Vec<String>)
    ensures
        texts(r@) == split(s@, n as nat),
{
    let mut parts: Vec<String> = Vec::new();
    let mut rest: String = s.to_owned();
    let mut left: usize = n;
    while left > 1
        invariant
            left <= n,
            split(s@, n as nat) == texts(parts@) + split(rest@, left as nat),
        decreases left,
    {
        let at: usize = find_char(rest.as_str(), ' ');
        let len: usize = rest.as_str().unicode_len();
        proof {
            lemma_find(rest@, ' ');
        }
        if at == len {
            let ghost before = parts@;
            let ghost last = rest@;
            parts.push(rest);
            assert(texts(parts@) == texts(before) + seq![last]);
            return parts;
        }
        let ghost before = parts@;
        let head: String = rest.as_str().substring_char(0, at).to_owned();
        let tail: String = rest.as_str().substring_char(at + 1, len).to_owned();
        assert(head@ == rest@.take(at as int));
        assert(tail@ == rest@.skip(at + 1));
        let ghost h = head@;
        parts.push(head);
        assert(texts(parts@) == texts(before) + seq![h]);
        assert(split(rest@, left as nat) == seq![h] + split(tail@, (left - 1) as nat));
        assert(texts(before) + (seq![h] + split(tail@, (left - 1) as nat)) == (texts(before)
            + seq![h]) + split(tail@, (left - 1) as nat));
        rest = tail;
        left = left - 1;
    }
    if left == 1 {
        let ghost before = parts@;
        let ghost last = rest@;
        parts.push(rest);
        assert(texts(parts@) == texts(before) + seq![last]);
    } else {
        assert(texts(parts@) == split(s@, n as nat));
    }
    parts
}

/// What stays of `s` behind `prefix`, if `s` begins with it.
pub open spec fn stripped(s: Seq<char>, prefix: Seq<char>) -> Option<Seq<char>> {
    if prefix.is_prefix_of(s) {
        Some(s.skip(prefix.len() as int))
    } else {
        None
    }
}

/// The view of an optional text.
pub open spec fn text_of(t: Option<String>) -> Option<Seq<char>> {
    match t {
        Some(t) => Some(t@),
        None => None,
    }
}

/// Takes `prefix` off the front of `s`.
pub fn strip_prefix(s: &str, prefix: &str) -> (r: Option<String>)
    ensures
        text_of(r) == stripped(s@, prefix@),
{
    let n: usize = prefix.unicode_len();
    let len: usize = s.unicode_len();
    if len < n {
        return None;
    }
    let head: &str = s.substring_char(0, n);
    if same(head, prefix) {
        assert(prefix@.is_prefix_of(s@)) by {
            assert(head@ == s@.subrange(0, n as int));
        }
        let tail: String = s.substring_char(n, len).to_owned();
        assert(tail@ == s@.skip(n as int));
        Some(tail)
    } else {
        assert(head@ == s@.subrange(0, n as int));
        None
    }
}

/// The characters with the Unicode property `White_Space`.
pub open spec fn is_white(c: char) -> bool {
    ||| '\u{9}' <= c <= '\u{d}'
    ||| c == ' '
    ||| c == '\u{85}'
    ||| c == '\u{a0}'
    ||| c == '\u{1680}'
    ||| '\u{2000}' <= c <= '\u{200a}'
    ||| c == '\u{2028}'
    ||| c == '\u{2029}'
    ||| c == '\u{202f}'
    ||| c == '\u{205f}'
    ||| c == '\u{3000}'
}

/// Whether `c` is white space.
fn white(c: char) -> (r: bool)
    ensures
        r == is_white(c),
{
    ('\u{9}' <= c && c <= '\u{d}') || c == ' ' || c == '\u{85}' || c == '\u{a0}' || c == '\u{1680}' || (
    '\u{2000}' <= c && c <= '\u{200a}') || c == '\u{2028}' || c == '\u{2029}' || c == '\u{202f}' || c
        == '\u{205f}' || c == '\u{3000}'
}

/// `s` without the white space at its front.
pub open spec fn trimmed_front(s: Seq<char>) -> Seq<char>
    decreases s.len(),
{
    if s.len() > 0 && is_white(s[0]) {
        trimmed_front(s.drop_first())
    } else {
        s
    }
}

/// `s` without the white space at its back.
pub open spec fn trimmed_back(s: Seq<char>) -> Seq<char>
    decreases s.len(),
{
    if s.len() > 0 && is_white(s.last()) {
        trimmed_back(s.drop_last())
    } else {
        s
    }
}

/// `s` without the white space at either end.
pub open spec fn trimmed(s: Seq<char>) -> Seq<char> {
    trimmed_back(trimmed_front(s))
}

/// Cuts the white space off both ends of `s`.
pub fn trim(s: &str) -> (r: String)
    ensures
        r@ == trimmed(s@),
{
    let mut from: usize = 0;
    let n: usize = s.unicode_len();
    let mut skipping: bool = true;
    assert(s@.skip(0) == s@);
    for x in it: s.chars()
        invariant
            it.seq() == s@,
            n == s@.len(),
            from <= it.index(),
            skipping ==> from == it.index(),
            trimmed_front(s@) == trimmed_front(s@.skip(from as int)),
            !skipping ==> trimmed_front(s@) == s@.skip(from as int),
    {
        if skipping {
            assert(s@.skip(from as int)[0] == x);
            if white(x) {
                assert(s@.skip(from as int).drop_first() == s@.skip(from + 1));
                from = from + 1;
            } else {
                skipping = false;
            }
        }
    }
    assert(trimmed_front(s@) == s@.skip(from as int));
    let mut t: String = s.substring_char(from, n).to_owned();
    assert(t@ == s@.skip(from as int));
    let ghost front = t@;
    loop
        invariant
            trimmed_back(front) == trimmed_back(t@),
        ensures
            t@ == trimmed_back(front),
        decreases t@.len(),
    {
        let len: usize = t.as_str().unicode_len();
        if len == 0 {
            break;
        }
        let last: char = t.as_str().get_char(len - 1);
        if !white(last) {
            break;
        }
        t.pop();
    }
    t
}

/// The digit character of `d`.
pub open spec fn digit(d: int) -> char {
    (48 + d) as char
}

/// The decimal digits of `n`.
pub open spec fn digits(n: nat) -> Seq<char>
    decreases n,
{
    if n < 10 {
        seq![digit(n as int)]
    } else {
        digits(n / 10).push(digit((n % 10) as int))
    }
}

/// The decimal text of `i`, with a minus sign where it is negative.
pub open spec fn number(i: int) -> Seq<char> {
    if i < 0 {
        seq!['-'] + digits((-i) as nat)
    } else {
        digits(i as nat)
    }
}

/// Writes `n` in decimal.
fn natural_text(n: u128) -> (r: String)
    ensures
        r@ == digits(n as nat),
    decreases n,
{
    let mut s: String = if n < 10 {
        String::new()
    } else {
        natural_text(n / 10)
    };
    let d: u8 = (n % 10) as u8;
    s.push((48 + d) as char);
    assert(n < 10 ==> s@ == seq![digit(n as int)]);
    s
}

/// Writes `i` in decimal.
pub fn number_text(i: i128) -> (r: String)
    requires
        i > i128::MIN,
    ensures
        r@ == number(i as int),
{
    if i < 0 {
        let mut s: String = String::new();
        s.push('-');
        s.append(natural_text((-i) as u128).as_str());
        assert(s@ == seq!['-'] + digits((-i) as nat));
        s
    } else {
        natural_text(i as u128)
    }
}

/// Whether `c` is one of the ten digits.
pub open spec fn is_digit(c: char) -> bool {
    '0' <= c <= '9'
}

/// Whether `s` holds digits alone.
pub open spec fn all_digits(s: Seq<char>) -> bool {
    forall|i: int| 0 <= i < s.len() ==> is_digit(#[trigger] s[i])
}

/// The number that a row of digits stands for.
pub open spec fn value(s: Seq<char>) -> nat
    decreases s.len(),
{
    if s.len() == 0 {
        0
    } else {
        value(s.drop_last()) * 10 + (s.last() as nat - 48) as nat
    }
}

/// A whole number as it is typed: digits with an optional plus sign, or a minus sign if `signed`,
/// whose value lies between `min` and `max`.
pub open spec fn parsed(s: Seq<char>, signed: bool, min: int, max: int) -> Option<int> {
    let negative = s.len() > 0 && s[0] == '-' && signed;
    let body = if negative || (s.len() > 0 && s[0] == '+') {
        s.skip(1)
    } else {
        s
    };
    let v = if negative {
        -value(body)
    } else {
        value(body) as int
    };
    if body.len() > 0 && all_digits(body) && min <= v <= max {
        Some(v)
    } else {
        None
    }
}

/// Reads a whole number between `min` and `max`.
pub fn parse_number(s: &str, signed: bool, min: i128, max: i128) -> (r: Option<i128>)
    requires
        -0x1_0000_0000_0000_0000 <= min <= max <= 0x1_0000_0000_0000_0000,
    ensures
        match r {
            Some(v) => parsed(s@, signed, min as int, max as int) == Some(v as int),
            None => parsed(s@, signed, min as int, max as int) is None,
        },
{
    let len: usize = s.unicode_len();
    if len == 0 {
        return None;
    }
    let first: char = s.get_char(0);
    let negative: bool = first == '-' && signed;
    let body: &str = if negative || first == '+' {
        s.substring_char(1, len)
    } else {
        s
    };
    assert(body@ == if negative || first == '+' {
        s@.skip(1)
    } else {
        s@
    });
    let n: usize = body.unicode_len();
    if n == 0 {
        return None;
    }
    // Past this the value is too large whatever follows.
    let cap: i128 = 0x100_0000_0000_0000_0000;
    let mut total: i128 = 0;
    assert(body@.take(0) == Seq::<char>::empty());
    for x in it: body.chars()
        invariant
            it.seq() == body@,
            cap == 0x100_0000_0000_0000_0000,
            0 <= total <= cap,
            total < cap ==> total == value(body@.take(it.index() as int)),
            total == cap ==> value(body@.take(it.index() as int)) >= cap,
            forall|i: int| 0 <= i < it.index() ==> is_digit(#[trigger] body@[i]),
            body@ == (if negative || first == '+' {
                s@.skip(1)
            } else {
                s@
            }),
            s@.len() > 0,
            first == s@[0],
            negative == (first == '-' && signed),
    {
        let ghost k = it.index() as int;
        if !('0' <= x && x <= '9') {
            assert(!is_digit(body@[k]));
            return None;
        }
        assert(body@.take(k + 1).drop_last() == body@.take(k));
        assert(body@.take(k + 1).last() == x);
        let d: i128 = (x as u32 - 48) as i128;
        total = if total >= cap || total * 10 + d >= cap {
            cap
        } else {
            total * 10 + d
        };
    }
    assert(body@.take(n as int) == body@);
    let v: i128 = if negative {
        -total
    } else {
        total
    };
    if min <= v && v <= max {
        Some(v)
    } else {
        None
    }
}

/// The longest beginning of `s` that takes at most `n` bytes of UTF-8.
pub open spec fn byte_head(s: Seq<char>, n: nat) -> Seq<char>
    decreases s.len(),
{
    if s.len() == 0 || encode_utf8(s).len() <= n {
        s
    } else {
        byte_head(s.drop_last(), n)
    }
}

/// The first `n` bytes of `s`, or all of it where it is shorter. A character that would be cut
/// through is left out.
pub fn head(s: &str, n: usize) -> (r: String)
    ensures
        r@ == byte_head(s@, n as nat),
{
    let mut t: String = s.to_owned();
    loop
        invariant
            byte_head(t@, n as nat) == byte_head(s@, n as nat),
        ensures
            t@ == byte_head(s@, n as nat),
        decreases t@.len(),
    {
        if t.as_str().unicode_len() == 0 || t.as_str().as_bytes().len() <= n {
            break;
        }
        t.pop();
    }
    t
}

/// Text of single-byte characters is cut where one counts characters.
pub proof fn lemma_ascii_head(s: Seq<char>, n: nat)
    requires
        is_ascii_chars(s),
    ensures
        byte_head(s, n) == if s.len() <= n {
            s
        } else {
            s.take(n as int)
        },
    decreases s.len(),
{
    is_ascii_chars_encode_utf8(s);
    if n < s.len() {
        let rest = s.drop_last();
        assert(is_ascii_chars(rest));
        lemma_ascii_head(rest, n);
        assert(rest.take(n as int) =~= s.take(n as int));
    }
}

/// The upper-case form of a text, as Unicode defines it.
pub uninterp spec fn uppercase(s: Seq<char>) -> Seq<char>;

/// `c` with a small Latin letter made a capital.
pub open spec fn ascii_upper(c: char) -> char {
    if 'a' <= c <= 'z' {
        (c as int - 32) as char
    } else {
        c
    }
}

/// Whether the upper-case form of a text, if it is ASCII, is that of each letter.
pub open spec fn plain_capitals(s: Seq<char>) -> bool {
    is_ascii_chars(s) ==> uppercase(s) == s.map_values(|c: char| ascii_upper(c))
}

/// `str::to_uppercase`: the upper-case form of `s`, which for ASCII text is that of each letter.
#[verifier::external_body]
pub(crate) fn to_uppercase(s: &str) -> (r: String)
    ensures
        r@ == uppercase(s@),
        is_ascii_chars(s@) ==> r@ == s@.map_values(|c: char| ascii_upper(c)),
{
    s.to_uppercase()
}

/// Some parts with a space between each two.
pub open spec fn spaced(parts: Seq<Seq<char>>) -> Seq<char>
    decreases parts.len(),
{
    if parts.len() == 0 {
        seq![]
    } else if parts.len() == 1 {
        parts[0]
    } else {
        parts[0] + seq![' '] + spaced(parts.drop_first())
    }
}

/// The parts of a text are the text again when they are put together with spaces. There are at most
/// `n`, and a space is left only in the last one, and only if there are `n`.
pub proof fn law_parts_make_the_text(s: Seq<char>, n: nat)
    requires
        n >= 1,
    ensures
        spaced(split(s, n)) == s,
        1 <= split(s, n).len() <= n,
        forall|i: int| 0 <= i < split(s, n).len() - 1 ==> !(#[trigger] split(s, n)[i]).contains(' '),
        split(s, n).len() < n ==> !split(s, n).last().contains(' '),
    decreases n,
{
    if n > 1 && s.contains(' ') {
        let at = find(s, ' ');
        lemma_find(s, ' ');
        let rest = s.skip(at + 1);
        let tail = split(rest, (n - 1) as nat);
        law_parts_make_the_text(rest, (n - 1) as nat);
        let parts = split(s, n);
        assert(parts == seq![s.take(at)] + tail);
        assert(parts.drop_first() =~= tail);
        assert(parts[0] == s.take(at));
        assert(s.take(at) + seq![' '] + rest =~= s);
        assert forall|i: int| 0 <= i < parts.len() - 1 implies !(#[trigger] parts[i]).contains(
            ' ',
        ) by {
            if i > 0 {
                assert(parts[i] == tail[i - 1]);
            }
        }
        assert(parts.last() == tail.last());
    } else {
        assert(split(s, n) =~= seq![s]);
    }
}

/// What stays behind a prefix is what was put behind it, and nothing else begins with the prefix.
pub proof fn law_prefix_is_taken_off(s: Seq<char>, prefix: Seq<char>, rest: Seq<char>)
    ensures
        stripped(prefix + rest, prefix) == Some(rest),
        stripped(s, prefix) == Some(rest) <==> s == prefix + rest,
{
    let whole = prefix + rest;
    assert(whole.subrange(0, prefix.len() as int) =~= prefix);
    assert(whole.skip(prefix.len() as int) =~= rest);
    if prefix.is_prefix_of(s) {
        assert(s =~= prefix + s.skip(prefix.len() as int));
    }
}

/// White space is what Unicode says it is.
pub proof fn law_white_space(c: char)
    ensures
        is_white(c) <==> {
            let n = c as int;
            9 <= n <= 13 || n == 32 || n == 133 || n == 160 || n == 5760 || 8192 <= n <= 8202 || n
                == 8232 || n == 8233 || n == 8239 || n == 8287 || n == 12288
        },
{
}

proof fn lemma_trimmed_front(s: Seq<char>) -> (i: int)
    ensures
        0 <= i <= s.len(),
        trimmed_front(s) == s.skip(i),
        forall|k: int| 0 <= k < i ==> is_white(s[k]),
        i < s.len() ==> !is_white(s[i]),
    decreases s.len(),
{
    if s.len() > 0 && is_white(s[0]) {
        let rest = s.drop_first();
        let j = lemma_trimmed_front(rest);
        assert(rest.skip(j) =~= s.skip(j + 1));
        assert forall|k: int| 0 <= k < j + 1 implies is_white(s[k]) by {
            if k > 0 {
                assert(rest[k - 1] == s[k]);
            }
        }
        if j < rest.len() {
            assert(rest[j] == s[j + 1]);
        }
        j + 1
    } else {
        assert(s.skip(0) =~= s);
        0
    }
}

proof fn lemma_trimmed_back(s: Seq<char>) -> (j: int)
    ensures
        0 <= j <= s.len(),
        trimmed_back(s) == s.take(j),
        forall|k: int| j <= k < s.len() ==> is_white(s[k]),
        j > 0 ==> !is_white(s[j - 1]),
    decreases s.len(),
{
    if s.len() > 0 && is_white(s.last()) {
        let rest = s.drop_last();
        let j = lemma_trimmed_back(rest);
        assert(rest.take(j) =~= s.take(j));
        assert forall|k: int| j <= k < s.len() implies is_white(s[k]) by {
            if k < rest.len() {
                assert(rest[k] == s[k]);
            }
        }
        if j > 0 {
            assert(rest[j - 1] == s[j - 1]);
        }
        j
    } else {
        assert(s.take(s.len() as int) =~= s);
        s.len() as int
    }
}

/// Whether a text is what lies from `i` to `j` in another, and only white space lies outside.
pub open spec fn lies_in(t: Seq<char>, s: Seq<char>, i: int, j: int) -> bool {
    &&& 0 <= i <= j <= s.len()
    &&& t == s.subrange(i, j)
    &&& forall|k: int| 0 <= k < i || j <= k < s.len() ==> is_white(#[trigger] s[k])
}

/// Trimming cuts off white space alone, at the ends alone, and all of it there.
pub proof fn law_trimming_cuts_white_ends(s: Seq<char>)
    ensures
        exists|i: int, j: int| lies_in(trimmed(s), s, i, j),
        trimmed(s).len() > 0 ==> !is_white(trimmed(s)[0]) && !is_white(trimmed(s).last()),
        trimmed(trimmed(s)) == trimmed(s),
{
    let i = lemma_trimmed_front(s);
    let front = s.skip(i);
    let j = lemma_trimmed_back(front);
    assert(front.take(j) =~= s.subrange(i, i + j));
    assert forall|k: int| 0 <= k < i || i + j <= k < s.len() implies is_white(#[trigger] s[k]) by {
        if k >= i {
            assert(front[k - i] == s[k]);
        }
    }
    assert(lies_in(trimmed(s), s, i, i + j));
    if j > 0 {
        assert(front[0] == s[i]);
    }
}

/// A row of digits is worth ten times what stands before its last digit, and that digit.
pub proof fn law_digits_have_place_value(s: Seq<char>, c: char)
    ensures
        value(Seq::empty()) == 0,
        is_digit(c) <==> 48 <= c as int <= 57,
        is_digit(c) ==> value(s.push(c)) == 10 * value(s) + (c as int - 48),
{
    assert(s.push(c).drop_last() =~= s);
}

proof fn lemma_digits(n: nat)
    ensures
        value(digits(n)) == n,
        all_digits(digits(n)),
        digits(n).len() > 0,
        n > 0 ==> digits(n)[0] != '0',
    decreases n,
{
    if n < 10 {
        let d = seq![digit(n as int)];
        assert(d.drop_last() =~= Seq::<char>::empty());
        assert(value(d.drop_last()) == 0);
        assert(d.last() == digit(n as int));
        assert(digit(n as int) as int == 48 + n);
    } else {
        lemma_digits(n / 10);
        let head = digits(n / 10);
        let d = digit((n % 10) as int);
        assert(d as int == 48 + n % 10);
        law_digits_have_place_value(head, d);
        assert forall|i: int| 0 <= i < head.push(d).len() implies is_digit(
            #[trigger] head.push(d)[i],
        ) by {
            if i < head.len() {
                assert(is_digit(head[i]));
            }
        }
    }
}

/// A number that is written is read as the same number, wherever it lies between the bounds; it is
/// written in digits, without a nought in front, behind a minus sign if it is negative.
pub proof fn law_written_numbers_are_read(i: int, min: int, max: int)
    ensures
        parsed(number(i), true, min, max) == if min <= i <= max {
            Some(i)
        } else {
            None
        },
        i >= 0 ==> parsed(number(i), false, min, max) == if min <= i <= max {
            Some(i)
        } else {
            None
        },
        i >= 0 ==> all_digits(number(i)) && value(number(i)) == i && number(i).len() > 0,
        i > 0 ==> number(i)[0] != '0',
        i < 0 ==> number(i) == seq!['-'] + number(-i),
{
    if i < 0 {
        lemma_digits((-i) as nat);
        assert(number(i).skip(1) =~= digits((-i) as nat));
    } else {
        lemma_digits(i as nat);
        assert(is_digit(number(i)[0]));
    }
}

/// What is read as a number: a row of digits for its value, also behind a plus sign; behind a minus
/// sign, where that is taken, for the negative value; and nothing else.
pub proof fn law_typed_numbers(s: Seq<char>, signed: bool, min: int, max: int)
    ensures
        s.len() > 0 && all_digits(s) ==> parsed(s, signed, min, max) == if min <= value(s) <= max {
            Some(value(s) as int)
        } else {
            None
        },
        s.len() > 0 && all_digits(s) ==> parsed(seq!['+'] + s, signed, min, max) == parsed(
            s,
            signed,
            min,
            max,
        ),
        s.len() > 0 && all_digits(s) ==> parsed(seq!['-'] + s, signed, min, max) == if signed && min
            <= -value(s) <= max {
            Some(-value(s))
        } else {
            None
        },
        !all_digits(s) && !(s[0] == '+' || s[0] == '-') ==> parsed(s, signed, min, max) is None,
        s.len() > 0 && !all_digits(s.skip(1)) ==> parsed(s, signed, min, max) is None,
        s.len() == 0 ==> parsed(s, signed, min, max) is None,
        s.len() == 1 && !is_digit(s[0]) ==> parsed(s, signed, min, max) is None,
{
    assert((seq!['+'] + s).skip(1) =~= s);
    assert((seq!['-'] + s).skip(1) =~= s);
    if s.len() > 0 && all_digits(s) {
        assert(is_digit(s[0]));
        assert(!is_digit((seq!['-'] + s)[0]));
    }
    if s.len() > 0 && !all_digits(s.skip(1)) {
        let i = choose|i: int| 0 <= i < s.skip(1).len() && !is_digit(#[trigger] s.skip(1)[i]);
        assert(!is_digit(s[i + 1]));
    }
}

/// What is left of a text that is cut to some bytes is a beginning of it that takes no more, and any
/// longer beginning takes more.
pub proof fn law_cut_texts_are_the_longest(s: Seq<char>, n: nat)
    ensures
        byte_head(s, n) == s.take(byte_head(s, n).len() as int),
        byte_head(s, n).len() <= s.len(),
        encode_utf8(byte_head(s, n)).len() <= n,
        forall|k: int|
            byte_head(s, n).len() < k <= s.len() ==> encode_utf8(#[trigger] s.take(k)).len() > n,
    decreases s.len(),
{
    assert(s.take(s.len() as int) =~= s);
    if s.len() > 0 && encode_utf8(s).len() > n {
        let rest = s.drop_last();
        law_cut_texts_are_the_longest(rest, n);
        let h = byte_head(rest, n);
        assert(rest.take(h.len() as int) =~= s.take(h.len() as int));
        assert forall|k: int| h.len() < k <= s.len() implies encode_utf8(#[trigger] s.take(k)).len()
            > n by {
            if k < s.len() {
                assert(rest.take(k) =~= s.take(k));
            }
        }
    }
}

/// Whether a word spells a name in small letters, capitals or both.
pub open spec fn spells(word: Seq<char>, name: Seq<char>) -> bool {
    &&& word.len() == name.len()
    &&& forall|i: int|
        0 <= i < word.len() ==> ((#[trigger] word[i]) == name[i] || (97 <= word[i] as int <= 122
            && word[i] as int == name[i] as int + 32))
}

/// A word that spells a name of capital letters is that name in capitals.
pub proof fn law_capitals_spell_the_name(word: Seq<char>, name: Seq<char>)
    requires
        spells(word, name),
        forall|i: int| 0 <= i < name.len() ==> 65 <= (#[trigger] name[i]) as int <= 90,
        plain_capitals(word),
    ensures
        uppercase(word) == name,
{
    assert forall|i: int| 0 <= i < word.len() implies (#[trigger] word[i]) as int <= 127 && ascii_upper(
        word[i],
    ) == name[i] by {
        assert(65 <= name[i] as int <= 90);
    }
    assert(is_ascii_chars(word));
    assert(word.map_values(|c: char| ascii_upper(c)) =~= name);
}

/// The view of a list is that of each of its texts, and the view of an outcome that of what came out.
pub proof fn law_views_show_each_text(v: Seq<String>, t: String)
    ensures
        texts(v).len() == v.len(),
        forall|i: int| 0 <= i < v.len() ==> #[trigger] texts(v)[i] == v[i]@,
        outcome(Ok(t)) == Ok::<Seq<char>, Seq<char>>(t@),
        outcome(Err(t)) == Err::<Seq<char>, Seq<char>>(t@),
        text_of(Some(t)) == Some(t@),
        text_of(None) is None,
{
}

} // verus!
