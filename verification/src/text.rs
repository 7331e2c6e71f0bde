//! Text, seen as a sequence of characters.
use vstd::prelude::*;
use vstd::string::*;

verus! {

/// `String::push` puts the character at the end.
pub assume_specification[ String::push ](s: &mut String, c: char)
    ensures
        final(s)@ == old(s)@.push(c),
;

/// The characters of a text.
pub fn characters(s: &str) -> (r: Vec<char>)
    ensures
        r@ == s@,
{
    let mut r: Vec<char> = Vec::new();
    for c in it: s.chars()
        invariant
            it.seq() == s@,
            r@ == s@.take(it.index() as int),
    {
        r.push(c);
    }
    r
}

/// The text that holds the characters from `from` up to, not counting, `to`.
pub fn piece(chars: &Vec<char>, from: usize, to: usize) -> (r: String)
    requires
        from <= to <= chars@.len(),
    ensures
        r@ == chars@.subrange(from as int, to as int),
{
    let mut r = String::new();
    let mut i: usize = from;
    while i < to
        invariant
            from <= i <= to <= chars@.len(),
            r@ == chars@.subrange(from as int, i as int),
        decreases to - i,
    {
        r.push(chars[i]);
        i += 1;
    }
    r
}

/// Whether two texts are the same, character for character.
pub fn same(a: &str, b: &str) -> (r: bool)
    ensures
        r == (a@ == b@),
{
    let left = characters(a);
    let right = characters(b);
    if left.len() != right.len() {
        return false;
    }
    let mut i: usize = 0;
    while i < left.len()
        invariant
            left@ == a@,
            right@ == b@,
            left@.len() == right@.len(),
            i <= left@.len(),
            forall|j: int| 0 <= j < i ==> left@[j] == right@[j],
        decreases left@.len() - i,
    {
        if left[i] != right[i] {
            assert(a@[i as int] != b@[i as int]);
            return false;
        }
        i += 1;
    }
    assert(a@ =~= b@);
    true
}

/// One text behind another.
pub fn joined(a: &str, b: &str) -> (r: String)
    ensures
        r@ == a@ + b@,
{
    let mut r = a.to_owned();
    r.append(b);
    r
}

/// Three texts, one behind the other.
pub fn joined3(a: &str, b: &str, c: &str) -> (r: String)
    ensures
        r@ == a@ + b@ + c@,
{
    let mut r = a.to_owned();
    r.append(b);
    r.append(c);
    r
}

// ---------------------------------------------------------------------------
// Characters
// ---------------------------------------------------------------------------

/// White space, as Unicode has it.
pub open spec fn is_space(c: char) -> bool {
    let n = c as u32;
    ||| 0x9 <= n <= 0xd
    ||| n == 0x20
    ||| n == 0x85
    ||| n == 0xa0
    ||| n == 0x1680
    ||| 0x2000 <= n <= 0x200a
    ||| n == 0x2028
    ||| n == 0x2029
    ||| n == 0x202f
    ||| n == 0x205f
    ||| n == 0x3000
}

pub open spec fn is_digit(c: char) -> bool {
    '0' <= c && c <= '9'
}

/// The value of a digit.
pub open spec fn digit_value(c: char) -> nat {
    (c as u32 - '0' as u32) as nat
}

/// The digit that stands for a value below ten.
pub open spec fn digit(n: nat) -> char {
    if n == 0 {
        '0'
    } else if n == 1 {
        '1'
    } else if n == 2 {
        '2'
    } else if n == 3 {
        '3'
    } else if n == 4 {
        '4'
    } else if n == 5 {
        '5'
    } else if n == 6 {
        '6'
    } else if n == 7 {
        '7'
    } else if n == 8 {
        '8'
    } else {
        '9'
    }
}

/// An ASCII capital as the small letter; any other character as it is.
pub open spec fn lower_char(c: char) -> char {
    if 'A' <= c && c <= 'Z' {
        ((c as u8) + 32u8) as u8 as char
    } else {
        c
    }
}

pub fn space(c: char) -> (r: bool)
    ensures
        r == is_space(c),
{
    let n: u32 = c as u32;
    (0x9 <= n && n <= 0xd) || n == 0x20 || n == 0x85 || n == 0xa0 || n == 0x1680 || (0x2000 <= n
        && n <= 0x200a) || n == 0x2028 || n == 0x2029 || n == 0x202f || n == 0x205f || n == 0x3000
}

fn digit_char(n: u64) -> (r: char)
    requires
        n < 10,
    ensures
        r == digit(n as nat),
{
    if n == 0 {
        '0'
    } else if n == 1 {
        '1'
    } else if n == 2 {
        '2'
    } else if n == 3 {
        '3'
    } else if n == 4 {
        '4'
    } else if n == 5 {
        '5'
    } else if n == 6 {
        '6'
    } else if n == 7 {
        '7'
    } else if n == 8 {
        '8'
    } else {
        '9'
    }
}

/// The text in ASCII small letters.
pub open spec fn lowercase(s: Seq<char>) -> Seq<char> {
    s.map_values(|c: char| lower_char(c))
}

pub fn to_lowercase(s: &str) -> (r: String)
    ensures
        r@ == lowercase(s@),
{
    let mut r = String::new();
    let chars = characters(s);
    let mut i: usize = 0;
    while i < chars.len()
        invariant
            chars@ == s@,
            i <= chars@.len(),
            r@ == lowercase(s@.take(i as int)),
        decreases chars@.len() - i,
    {
        let c = chars[i];
        if 'A' <= c && c <= 'Z' {
            r.push((c as u8 + 32) as char);
        } else {
            r.push(c);
        }
        i += 1;
        assert(r@ =~= lowercase(s@.take(i as int)));
    }
    assert(s@.take(i as int) =~= s@);
    r
}

/// Every character is ASCII.
pub open spec fn is_ascii_text(s: Seq<char>) -> bool {
    forall|i: int| 0 <= i < s.len() ==> ((#[trigger] s[i]) as u32) < 128
}

/// What `str::to_lowercase` makes of a text.
pub uninterp spec fn unicode_lowercase(s: Seq<char>) -> Seq<char>;

/// What `char::to_uppercase` makes of a character; it may be several.
pub uninterp spec fn unicode_uppercase(c: char) -> Seq<char>;

/// `str::to_lowercase`: each character by Unicode's table. On ASCII that is the small
/// letter for each capital; of other texts nothing is said but that the result rests on the
/// text alone.
#[verifier::external_body]
pub(crate) fn fold_case(s: &str) -> (r: String)
    ensures
        r@ == unicode_lowercase(s@),
        is_ascii_text(s@) ==> r@ == lowercase(s@),
{
    s.to_lowercase()
}

/// `char::to_uppercase`: by Unicode's table. On ASCII that is the capital for each small
/// letter; of other characters nothing is said but that the result rests on the character
/// alone.
#[verifier::external_body]
pub(crate) fn capital(c: char) -> (r: String)
    ensures
        r@ == unicode_uppercase(c),
        'a' <= c && c <= 'z' ==> r@ == seq![((c as u8) - 32u8) as u8 as char],
        (c as u32) < 128 && !('a' <= c && c <= 'z') ==> r@ == seq![c],
{
    c.to_uppercase().to_string()
}

/// A text with its first letter as a capital.
pub open spec fn capitalized(s: Seq<char>) -> Seq<char> {
    if s.len() == 0 {
        s
    } else {
        unicode_uppercase(s[0]) + s.skip(1)
    }
}

/// What stands for the first character, and the rest of the text behind it.
pub fn with_first(first: &str, chars: &Vec<char>) -> (r: String)
    requires
        chars@.len() > 0,
    ensures
        r@ == first@ + chars@.skip(1),
{
    let n = chars.len();
    let rest = piece(chars, 1, n);
    assert(rest@ =~= chars@.skip(1));
    joined(first, rest.as_str())
}

/// A text with its first letter as a capital.
pub fn capitalize(text: &str) -> (r: String)
    ensures
        r@ == capitalized(text@),
{
    let chars = characters(text);
    if chars.len() == 0 {
        return String::new();
    }
    let first = capital(chars[0]);
    with_first(first.as_str(), &chars)
}

// ---------------------------------------------------------------------------
// Trimming, and what a text begins and ends with
// ---------------------------------------------------------------------------

pub open spec fn trim_start(s: Seq<char>) -> Seq<char>
    decreases s.len(),
{
    if s.len() > 0 && is_space(s[0]) {
        trim_start(s.skip(1))
    } else {
        s
    }
}

pub open spec fn trim_end(s: Seq<char>) -> Seq<char>
    decreases s.len(),
{
    if s.len() > 0 && is_space(s.last()) {
        trim_end(s.drop_last())
    } else {
        s
    }
}

/// A text without the white space at both ends.
pub open spec fn trim(s: Seq<char>) -> Seq<char> {
    trim_end(trim_start(s))
}

/// A text without the run of `c` that it starts with.
pub open spec fn without_leading(s: Seq<char>, c: char) -> Seq<char>
    decreases s.len(),
{
    if s.len() > 0 && s[0] == c {
        without_leading(s.skip(1), c)
    } else {
        s
    }
}

/// A text without every repetition of `head` that it starts with.
pub open spec fn without_prefixes(s: Seq<char>, head: Seq<char>) -> Seq<char>
    decreases s.len(),
{
    if 0 < head.len() <= s.len() && s.take(head.len() as int) == head {
        without_prefixes(s.skip(head.len() as int), head)
    } else {
        s
    }
}

pub open spec fn starts_with(s: Seq<char>, head: Seq<char>) -> bool {
    head.len() <= s.len() && s.take(head.len() as int) == head
}

pub open spec fn ends_with(s: Seq<char>, tail: Seq<char>) -> bool {
    tail.len() <= s.len() && s.skip(s.len() - tail.len()) == tail
}

/// What stands behind `head`, in a text that starts with it.
pub open spec fn after_prefix(s: Seq<char>, head: Seq<char>) -> Option<Seq<char>> {
    if starts_with(s, head) {
        Some(s.skip(head.len() as int))
    } else {
        None
    }
}

/// What stands before `tail`, in a text that ends with it.
pub open spec fn before_suffix(s: Seq<char>, tail: Seq<char>) -> Option<Seq<char>> {
    if ends_with(s, tail) {
        Some(s.take(s.len() - tail.len()))
    } else {
        None
    }
}

/// Whether `part` stands somewhere in `s`.
pub open spec fn has_part(s: Seq<char>, part: Seq<char>) -> bool {
    exists|i: int| 0 <= i <= s.len() - part.len() && #[trigger] s.skip(i).take(part.len() as int) == part
}

/// The view of an optional text.
pub open spec fn text_of(o: Option<String>) -> Option<Seq<char>> {
    match o {
        Some(t) => Some(t@),
        None => None,
    }
}

/// The views of several texts.
pub open spec fn texts(v: Seq<String>) -> Seq<Seq<char>> {
    v.map_values(|t: String| t@)
}

fn trim_start_from(chars: &Vec<char>) -> (r: usize)
    ensures
        r <= chars@.len(),
        chars@.skip(r as int) == trim_start(chars@),
{
    let mut i: usize = 0;
    assert(chars@.skip(0) =~= chars@);
    while i < chars.len() && space(chars[i])
        invariant
            i <= chars@.len(),
            trim_start(chars@.skip(i as int)) == trim_start(chars@),
        decreases chars@.len() - i,
    {
        assert(chars@.skip(i as int).skip(1) =~= chars@.skip(i as int + 1));
        i += 1;
    }
    i
}

/// `str::trim`: the text without the white space around it.
pub fn trimmed(s: &str) -> (r: String)
    ensures
        r@ == trim(s@),
{
    let chars = characters(s);
    let from = trim_start_from(&chars);
    let mut to: usize = chars.len();
    assert(chars@.subrange(from as int, to as int) =~= chars@.skip(from as int));
    while to > from && space(chars[to - 1])
        invariant
            from <= to <= chars@.len(),
            trim_end(chars@.subrange(from as int, to as int)) == trim_end(chars@.skip(from as int)),
        decreases to,
    {
        let ghost now = chars@.subrange(from as int, to as int);
        assert(now.last() == chars@[to - 1]);
        assert(now.drop_last() =~= chars@.subrange(from as int, to - 1));
        to -= 1;
    }
    proof {
        let now = chars@.subrange(from as int, to as int);
        if to > from {
            assert(now.last() == chars@[to - 1]);
        }
    }
    piece(&chars, from, to)
}

pub fn trimmed_start(s: &str) -> (r: String)
    ensures
        r@ == trim_start(s@),
{
    let chars = characters(s);
    let from = trim_start_from(&chars);
    assert(chars@.subrange(from as int, chars@.len() as int) =~= chars@.skip(from as int));
    piece(&chars, from, chars.len())
}

pub fn drop_leading(s: &str, c: char) -> (r: String)
    ensures
        r@ == without_leading(s@, c),
{
    let chars = characters(s);
    let mut i: usize = 0;
    assert(chars@.skip(0) =~= chars@);
    while i < chars.len() && chars[i] == c
        invariant
            i <= chars@.len(),
            without_leading(chars@.skip(i as int), c) == without_leading(chars@, c),
        decreases chars@.len() - i,
    {
        assert(chars@.skip(i as int).skip(1) =~= chars@.skip(i as int + 1));
        i += 1;
    }
    assert(chars@.subrange(i as int, chars@.len() as int) =~= chars@.skip(i as int));
    piece(&chars, i, chars.len())
}

/// Whether the characters of `part` stand in `chars` from `at` on.
fn stands_at(chars: &Vec<char>, at: usize, part: &Vec<char>) -> (r: bool)
    requires
        at <= chars@.len(),
    ensures
        r == (at + part@.len() <= chars@.len() && chars@.skip(at as int).take(part@.len() as int)
            == part@),
{
    let n = chars.len();
    if n - at < part.len() {
        return false;
    }
    let ghost here = chars@.skip(at as int).take(part@.len() as int);
    let mut i: usize = 0;
    while i < part.len()
        invariant
            at + part@.len() <= chars@.len(),
            n == chars@.len(),
            i <= part@.len(),
            here == chars@.skip(at as int).take(part@.len() as int),
            forall|j: int| 0 <= j < i ==> here[j] == part@[j],
        decreases part@.len() - i,
    {
        assert(here[i as int] == chars@[at + i]);
        if chars[at + i] != part[i] {
            return false;
        }
        i += 1;
    }
    assert(here =~= part@);
    true
}

pub fn begins(s: &str, head: &str) -> (r: bool)
    ensures
        r == starts_with(s@, head@),
{
    let chars = characters(s);
    let part = characters(head);
    assert(s@.skip(0) =~= s@);
    stands_at(&chars, 0, &part)
}

pub fn ends(s: &str, tail: &str) -> (r: bool)
    ensures
        r == ends_with(s@, tail@),
{
    let chars = characters(s);
    let part = characters(tail);
    if chars.len() < part.len() {
        return false;
    }
    assert(s@.skip(s@.len() - tail@.len()).take(tail@.len() as int) =~= s@.skip(
        s@.len() - tail@.len(),
    ));
    stands_at(&chars, chars.len() - part.len(), &part)
}

/// `str::strip_prefix`.
pub fn strip_prefix(s: &str, head: &str) -> (r: Option<String>)
    ensures
        text_of(r) == after_prefix(s@, head@),
{
    if begins(s, head) {
        let chars = characters(s);
        let from = characters(head).len();
        assert(s@.subrange(from as int, s@.len() as int) =~= s@.skip(from as int));
        Some(piece(&chars, from, chars.len()))
    } else {
        None
    }
}

/// `str::strip_suffix`.
pub fn strip_suffix(s: &str, tail: &str) -> (r: Option<String>)
    ensures
        text_of(r) == before_suffix(s@, tail@),
{
    if ends(s, tail) {
        let chars = characters(s);
        let to = chars.len() - characters(tail).len();
        assert(s@.subrange(0, to as int) =~= s@.take(to as int));
        Some(piece(&chars, 0, to))
    } else {
        None
    }
}

/// `str::trim_start_matches` for a text.
pub fn drop_prefixes(s: &str, head: &str) -> (r: String)
    ensures
        r@ == without_prefixes(s@, head@),
{
    let chars = characters(s);
    let part = characters(head);
    let n = chars.len();
    let mut i: usize = 0;
    assert(chars@.skip(0) =~= chars@);
    while part.len() > 0 && stands_at(&chars, i, &part)
        invariant
            i <= chars@.len(),
            n == chars@.len(),
            part@ == head@,
            without_prefixes(chars@.skip(i as int), head@) == without_prefixes(chars@, head@),
        decreases chars@.len() - i,
    {
        assert(chars@.skip(i as int).skip(part@.len() as int) =~= chars@.skip(i + part@.len()));
        i += part.len();
    }
    assert(chars@.subrange(i as int, chars@.len() as int) =~= chars@.skip(i as int));
    piece(&chars, i, chars.len())
}

/// `str::contains` for a text.
pub fn contains(s: &str, part: &str) -> (r: bool)
    ensures
        r == has_part(s@, part@),
{
    let chars = characters(s);
    let part_chars = characters(part);
    let mut i: usize = 0;
    while i < chars.len()
        invariant
            chars@ == s@,
            part_chars@ == part@,
            i <= chars@.len(),
            forall|j: int|
                0 <= j < i && j <= s@.len() - part@.len() ==> #[trigger] s@.skip(j).take(
                    part@.len() as int,
                ) != part@,
        decreases chars@.len() - i,
    {
        if stands_at(&chars, i, &part_chars) {
            return true;
        }
        i += 1;
    }
    if part_chars.len() == 0 {
        assert(s@.skip(0).take(0) =~= part@);
        true
    } else {
        false
    }
}

/// Whether a character stands in a text.
pub fn has_char(s: &str, c: char) -> (r: bool)
    ensures
        r == s@.contains(c),
{
    let chars = characters(s);
    let mut i: usize = 0;
    while i < chars.len()
        invariant
            chars@ == s@,
            i <= chars@.len(),
            forall|j: int| 0 <= j < i ==> chars@[j] != c,
        decreases chars@.len() - i,
    {
        if chars[i] == c {
            return true;
        }
        i += 1;
    }
    false
}

// ---------------------------------------------------------------------------
// Parts
// ---------------------------------------------------------------------------

/// The parts between the separators: each separator starts a new part, every other
/// character belongs to the part it stands in. There is always at least one part.
pub open spec fn split(s: Seq<char>, sep: char) -> Seq<Seq<char>>
    decreases s.len(),
{
    if s.len() == 0 {
        seq![Seq::empty()]
    } else {
        let before = split(s.drop_last(), sep);
        if s.last() == sep {
            before.push(Seq::empty())
        } else {
            before.drop_last().push(before.last().push(s.last()))
        }
    }
}

/// A line without the carriage return that it ends in.
pub open spec fn without_return(line: Seq<char>) -> Seq<char> {
    if line.len() > 0 && line.last() == '\r' {
        line.drop_last()
    } else {
        line
    }
}

/// The lines of a text. What follows the last line feed is a line only if it holds
/// something; a carriage return is dropped where a line feed follows it.
pub open spec fn lines(s: Seq<char>) -> Seq<Seq<char>> {
    let parts = split(s, '\n');
    let count = if parts.last().len() == 0 {
        (parts.len() - 1) as nat
    } else {
        parts.len()
    };
    Seq::new(
        count,
        |i: int|
            if i < parts.len() - 1 {
                without_return(parts[i])
            } else {
                parts[i]
            },
    )
}

/// Where the first character stands that `f` holds of; the length if there is none.
pub open spec fn first_where(s: Seq<char>, f: spec_fn(char) -> bool) -> int
    decreases s.len(),
{
    if s.len() == 0 || f(s[0]) {
        0
    } else {
        1 + first_where(s.skip(1), f)
    }
}

/// What stands before and behind the first character that `f` holds of.
pub open spec fn split_once(s: Seq<char>, f: spec_fn(char) -> bool) -> Option<
    (Seq<char>, Seq<char>),
> {
    let at = first_where(s, f);
    if at < s.len() {
        Some((s.take(at), s.skip(at + 1)))
    } else {
        None
    }
}

/// Texts with `sep` between them.
pub open spec fn join(parts: Seq<Seq<char>>, sep: Seq<char>) -> Seq<char>
    decreases parts.len(),
{
    if parts.len() == 0 {
        Seq::empty()
    } else if parts.len() == 1 {
        parts[0]
    } else {
        join(parts.drop_last(), sep) + sep + parts.last()
    }
}

proof fn lemma_first_where(s: Seq<char>, f: spec_fn(char) -> bool, at: int)
    requires
        0 <= at <= s.len(),
        forall|j: int| 0 <= j < at ==> !f(#[trigger] s[j]),
        at < s.len() ==> f(s[at]),
    ensures
        first_where(s, f) == at,
    decreases s.len(),
{
    if at > 0 {
        let rest = s.skip(1);
        assert forall|j: int| 0 <= j < at - 1 implies !f(#[trigger] rest[j]) by {
            assert(rest[j] == s[j + 1]);
        }
        lemma_first_where(rest, f, at - 1);
        assert(!f(s[0]));
    }
}

/// `str::split` at a character.
pub fn split_at_each(s: &str, sep: char) -> (r: Vec<String>)
    ensures
        texts(r@) == split(s@, sep),
        r@.len() > 0,
{
    let chars = characters(s);
    let mut done: Vec<String> = Vec::new();
    let mut current = String::new();
    let mut i: usize = 0;
    assert(texts(done@).push(current@) =~= split(s@.take(0), sep));
    while i < chars.len()
        invariant
            chars@ == s@,
            i <= chars@.len(),
            texts(done@).push(current@) == split(s@.take(i as int), sep),
        decreases chars@.len() - i,
    {
        let ghost before = texts(done@).push(current@);
        proof {
            assert(s@.take(i + 1).drop_last() =~= s@.take(i as int));
            assert(before.drop_last() =~= texts(done@));
        }
        if chars[i] == sep {
            done.push(current);
            current = String::new();
            assert(texts(done@) =~= before);
            assert(current@ =~= Seq::empty());
        } else {
            current.push(chars[i]);
        }
        i += 1;
    }
    let ghost before = texts(done@).push(current@);
    done.push(current);
    assert(texts(done@) =~= before);
    assert(s@.take(i as int) =~= s@);
    done
}

/// `str::lines`.
pub fn split_lines(s: &str) -> (r: Vec<String>)
    ensures
        texts(r@) == lines(s@),
{
    let parts = split_at_each(s, '\n');
    let ghost all = texts(parts@);
    let last = parts.len() - 1;
    let mut r: Vec<String> = Vec::new();
    let mut i: usize = 0;
    while i < last
        invariant
            i <= last,
            last == parts@.len() - 1,
            all == texts(parts@),
            all == split(s@, '\n'),
            texts(r@) == Seq::new(i as nat, |k: int| without_return(all[k])),
        decreases last - i,
    {
        let part = characters(parts[i].as_str());
        let n = part.len();
        let line = if n > 0 && part[n - 1] == '\r' {
            piece(&part, 0, n - 1)
        } else {
            parts[i].clone()
        };
        assert(line@ =~= without_return(all[i as int]));
        let ghost before = texts(r@);
        r.push(line);
        assert(texts(r@) =~= before.push(line@));
        i += 1;
    }
    let ghost before = texts(r@);
    if !parts[last].as_str().is_empty() {
        r.push(parts[last].clone());
        assert(texts(r@) =~= before.push(all[last as int]));
    }
    assert(all.last() == parts@[last as int]@);
    assert(texts(r@) =~= lines(s@));
    r
}

/// `str::split_once` at a character.
pub fn split_at_first(s: &str, sep: char) -> (r: Option<(String, String)>)
    ensures
        r matches Some(pair) ==> split_once(s@, |c: char| c == sep) == Some((pair.0@, pair.1@)),
        r is None ==> split_once(s@, |c: char| c == sep) is None,
{
    let chars = characters(s);
    let n = chars.len();
    let mut i: usize = 0;
    while i < n && chars[i] != sep
        invariant
            chars@ == s@,
            n == chars@.len(),
            i <= n,
            forall|j: int| 0 <= j < i ==> chars@[j] != sep,
        decreases n - i,
    {
        i += 1;
    }
    proof {
        lemma_first_where(s@, |c: char| c == sep, i as int);
    }
    if i < n {
        assert(s@.subrange(0, i as int) =~= s@.take(i as int));
        assert(s@.subrange(i + 1, n as int) =~= s@.skip(i + 1));
        Some((piece(&chars, 0, i), piece(&chars, i + 1, n)))
    } else {
        None
    }
}

/// `str::split_once` at white space.
pub fn split_at_space(s: &str) -> (r: Option<(String, String)>)
    ensures
        r matches Some(pair) ==> split_once(s@, |c: char| is_space(c)) == Some(
            (pair.0@, pair.1@),
        ),
        r is None ==> split_once(s@, |c: char| is_space(c)) is None,
{
    let chars = characters(s);
    let n = chars.len();
    let mut i: usize = 0;
    while i < n && !space(chars[i])
        invariant
            chars@ == s@,
            n == chars@.len(),
            i <= n,
            forall|j: int| 0 <= j < i ==> !is_space(#[trigger] chars@[j]),
        decreases n - i,
    {
        i += 1;
    }
    proof {
        lemma_first_where(s@, |c: char| is_space(c), i as int);
    }
    if i < n {
        assert(s@.subrange(0, i as int) =~= s@.take(i as int));
        assert(s@.subrange(i + 1, n as int) =~= s@.skip(i + 1));
        Some((piece(&chars, 0, i), piece(&chars, i + 1, n)))
    } else {
        None
    }
}

/// `[String]::join`.
pub fn join_all(parts: &Vec<String>, sep: &str) -> (r: String)
    ensures
        r@ == join(texts(parts@), sep@),
{
    let ghost all = texts(parts@);
    let mut r = String::new();
    let mut i: usize = 0;
    assert(all.take(0) =~= Seq::empty());
    assert(r@ =~= Seq::empty());
    while i < parts.len()
        invariant
            all == texts(parts@),
            i <= parts@.len(),
            r@ == join(all.take(i as int), sep@),
        decreases parts@.len() - i,
    {
        assert(all.take(i + 1).drop_last() =~= all.take(i as int));
        if i > 0 {
            r.append(sep);
        } else {
            assert(r@ + all[0] =~= all[0]);
        }
        r.append(parts[i].as_str());
        i += 1;
    }
    assert(all.take(i as int) =~= all);
    r
}

// ---------------------------------------------------------------------------
// Numbers
// ---------------------------------------------------------------------------

/// A number written in decimal.
pub open spec fn decimal(n: nat) -> Seq<char>
    decreases n,
{
    if n < 10 {
        seq![digit(n)]
    } else {
        decimal(n / 10).push(digit(n % 10))
    }
}

/// A whole number written in decimal, with a minus sign in front of a negative one.
pub open spec fn signed_decimal(n: int) -> Seq<char> {
    if n < 0 {
        seq!['-'] + decimal((-n) as nat)
    } else {
        decimal(n as nat)
    }
}

/// The number that a row of digits stands for.
pub open spec fn digits_value(s: Seq<char>) -> nat
    decreases s.len(),
{
    if s.len() == 0 {
        0
    } else {
        digits_value(s.drop_last()) * 10 + digit_value(s.last())
    }
}

pub open spec fn all_digits(s: Seq<char>) -> bool {
    forall|i: int| 0 <= i < s.len() ==> is_digit(#[trigger] s[i])
}

/// The digits of a number, behind the plus sign that may stand in front.
pub open spec fn unsigned(s: Seq<char>) -> Seq<char> {
    if s.len() > 0 && s[0] == '+' {
        s.skip(1)
    } else {
        s
    }
}

/// The number that a text holds: decimal digits, at least one, with at most a plus sign in
/// front, and no more than `max`.
pub open spec fn number(s: Seq<char>, max: nat) -> Option<nat> {
    let digits = unsigned(s);
    if digits.len() > 0 && all_digits(digits) && digits_value(digits) <= max {
        Some(digits_value(digits))
    } else {
        None
    }
}

proof fn lemma_digits_value_grows(s: Seq<char>, n: int)
    requires
        0 <= n <= s.len(),
    ensures
        digits_value(s.take(n)) <= digits_value(s),
    decreases s.len() - n,
{
    if n < s.len() {
        lemma_digits_value_grows(s, n + 1);
        assert(s.take(n + 1).drop_last() =~= s.take(n));
    } else {
        assert(s.take(n) =~= s);
    }
}

/// `str::parse` for an unsigned number that holds at most `max`.
pub fn parse_number(s: &str, max: u64) -> (r: Option<u64>)
    ensures
        r matches Some(n) ==> number(s@, max as nat) == Some(n as nat),
        r is None ==> number(s@, max as nat) is None,
{
    let chars = characters(s);
    let n = chars.len();
    let from: usize = if n > 0 && chars[0] == '+' {
        1
    } else {
        0
    };
    let ghost digits = unsigned(s@);
    assert(digits =~= s@.skip(from as int));
    if from == n {
        return None;
    }
    let mut value: u64 = 0;
    let mut i: usize = from;
    assert(digits.take(0) =~= Seq::empty());
    while i < n
        invariant
            from <= i <= n == chars@.len(),
            digits == chars@.skip(from as int),
            digits == unsigned(s@),
            value == digits_value(digits.take(i - from)),
            value <= max,
            forall|j: int| 0 <= j < i - from ==> is_digit(#[trigger] digits[j]),
        decreases n - i,
    {
        let c = chars[i];
        assert(c == digits[i - from]);
        if !('0' <= c && c <= '9') {
            return None;
        }
        let d: u64 = (c as u32 - 48) as u64;
        proof {
            assert(digits.take(i - from + 1).drop_last() =~= digits.take(i - from));
            assert(digits.take(i - from + 1).last() == c);
            lemma_digits_value_grows(digits, i - from + 1);
        }
        if value > max / 10 {
            assert(value * 10 > max);
            return None;
        }
        if d > max - value * 10 {
            return None;
        }
        value = value * 10 + d;
        i += 1;
    }
    assert(digits.take(n - from) =~= digits);
    Some(value)
}

/// A number in decimal, as `to_string` gives it.
pub fn number_text(n: u64) -> (r: String)
    ensures
        r@ == decimal(n as nat),
    decreases n,
{
    if n < 10 {
        let mut r = String::new();
        r.push(digit_char(n));
        assert(r@ =~= seq![digit(n as nat)]);
        r
    } else {
        let mut r = number_text(n / 10);
        r.push(digit_char(n % 10));
        r
    }
}

/// A whole number in decimal, as `to_string` gives it.
pub fn signed_text(n: i64) -> (r: String)
    ensures
        r@ == signed_decimal(n as int),
{
    if n >= 0 {
        return number_text(n as u64);
    }
    let size: u64 = if n == i64::MIN {
        0x8000_0000_0000_0000
    } else {
        (-n) as u64
    };
    let mut r = String::new();
    r.push('-');
    r.append(number_text(size).as_str());
    assert(r@ =~= seq!['-'] + decimal((-n) as nat));
    r
}

/// What a text looks like with Rust's debug formatting: in quotes, with escapes.
pub uninterp spec fn quoted(s: Seq<char>) -> Seq<char>;

/// Characters that stand for themselves between quotes.
pub open spec fn is_plain(s: Seq<char>) -> bool {
    forall|i: int|
        0 <= i < s.len() ==> ' ' <= (#[trigger] s[i]) && s[i] <= '~' && s[i] != '"' && s[i] != '\\'
            && s[i] != '\''
}

/// `str`'s debug formatting. Printable ASCII without quotes and backslashes is put between
/// quotes as it is; of other texts nothing is said but that the result rests on the text
/// alone.
#[verifier::external_body]
pub(crate) fn quote(s: &str) -> (r: String)
    ensures
        r@ == quoted(s@),
        is_plain(s@) ==> r@ == seq!['"'] + s@ + seq!['"'],
{
    format!("{s:?}")
}

// ---------------------------------------------------------------------------
// Order
// ---------------------------------------------------------------------------

/// Whether one text sorts before another: by the first character in which they differ, a
/// text before every longer one that starts with it.
pub open spec fn precedes(a: Seq<char>, b: Seq<char>) -> bool
    decreases a.len(),
{
    if b.len() == 0 {
        false
    } else if a.len() == 0 {
        true
    } else if a[0] != b[0] {
        a[0] < b[0]
    } else {
        precedes(a.skip(1), b.skip(1))
    }
}

/// Whether `a` sorts before `b`.
pub fn sorts_before(a: &str, b: &str) -> (r: bool)
    ensures
        r == precedes(a@, b@),
{
    let left = characters(a);
    let right = characters(b);
    let mut i: usize = 0;
    assert(left@.skip(0) =~= left@);
    assert(right@.skip(0) =~= right@);
    while i < left.len() && i < right.len() && left[i] == right[i]
        invariant
            i <= left@.len(),
            i <= right@.len(),
            precedes(left@.skip(i as int), right@.skip(i as int)) == precedes(left@, right@),
        decreases left@.len() - i,
    {
        assert(left@.skip(i as int).skip(1) =~= left@.skip(i + 1));
        assert(right@.skip(i as int).skip(1) =~= right@.skip(i + 1));
        i += 1;
    }
    if i >= right.len() {
        false
    } else if i >= left.len() {
        true
    } else {
        left[i] < right[i]
    }
}

/// The order of texts is a strict total order.
pub proof fn text_order_is_total(a: Seq<char>, b: Seq<char>)
    ensures
        !(precedes(a, b) && precedes(b, a)),
        a != b ==> precedes(a, b) || precedes(b, a),
        a == b ==> !precedes(a, b),
    decreases a.len(),
{
    if a.len() > 0 && b.len() > 0 {
        text_order_is_total(a.skip(1), b.skip(1));
        if a[0] == b[0] && a.skip(1) == b.skip(1) {
            assert(a =~= seq![a[0]] + a.skip(1));
            assert(b =~= seq![b[0]] + b.skip(1));
        }
    } else if a.len() == 0 && b.len() == 0 {
        assert(a =~= b);
    }
}

/// The order of texts is transitive.
pub proof fn text_order_is_transitive(a: Seq<char>, b: Seq<char>, c: Seq<char>)
    requires
        precedes(a, b),
        precedes(b, c),
    ensures
        precedes(a, c),
    decreases a.len(),
{
    if a.len() > 0 && a[0] == b[0] && b[0] == c[0] {
        text_order_is_transitive(a.skip(1), b.skip(1), c.skip(1));
    }
}

/// Of two texts that begin alike, the one with the smaller character where they first differ
/// goes first; a text goes before every longer one that begins with it.
pub proof fn texts_go_by_their_first_difference(a: Seq<char>, b: Seq<char>, i: int)
    requires
        0 <= i <= a.len(),
        i < b.len(),
        forall|k: int| 0 <= k < i ==> a[k] == b[k],
        i < a.len() ==> a[i] < b[i],
    ensures
        precedes(a, b),
        !precedes(b, a),
    decreases i,
{
    if i > 0 {
        assert forall|k: int| 0 <= k < i - 1 implies a.skip(1)[k] == b.skip(1)[k] by {
            assert(a[k + 1] == b[k + 1]);
        }
        texts_go_by_their_first_difference(a.skip(1), b.skip(1), i - 1);
    }
}

// ---------------------------------------------------------------------------
// What holds of texts as a whole
// ---------------------------------------------------------------------------

/// A text whose characters are all space.
pub open spec fn is_blank(s: Seq<char>) -> bool {
    forall|i: int| 0 <= i < s.len() ==> is_space(#[trigger] s[i])
}

/// Trimming takes the space off both ends and nothing else: what is left neither begins nor
/// ends with space, and only space was taken off.
pub proof fn trimming_takes_off_space_only(s: Seq<char>) -> (cut: (int, int))
    ensures
        0 <= cut.0 <= cut.1 <= s.len(),
        trim(s) == s.subrange(cut.0, cut.1),
        is_blank(s.take(cut.0)) && is_blank(s.skip(cut.1)),
        trim(s).len() > 0 ==> !is_space(trim(s)[0]) && !is_space(trim(s).last()),
{
    let from = lemma_trim_start(s);
    let rest = trim_start(s);
    let to = lemma_trim_end(rest);
    assert(trim(s) =~= s.subrange(from, from + to));
    assert forall|i: int| 0 <= i < s.skip(from + to).len() implies is_space(
        #[trigger] s.skip(from + to)[i],
    ) by {
        assert(s.skip(from + to)[i] == rest.skip(to)[i]);
    }
    if trim(s).len() > 0 {
        assert(trim(s)[0] == rest[0]);
    }
    (from, from + to)
}

proof fn lemma_trim_start(s: Seq<char>) -> (from: int)
    ensures
        0 <= from <= s.len(),
        trim_start(s) == s.skip(from),
        is_blank(s.take(from)),
        trim_start(s).len() > 0 ==> !is_space(trim_start(s)[0]),
    decreases s.len(),
{
    if s.len() > 0 && is_space(s[0]) {
        let rest = s.skip(1);
        let from = lemma_trim_start(rest);
        assert(rest.skip(from) =~= s.skip(from + 1));
        assert forall|i: int| 0 <= i < s.take(from + 1).len() implies is_space(
            #[trigger] s.take(from + 1)[i],
        ) by {
            if i > 0 {
                assert(rest.take(from)[i - 1] == s[i]);
            }
        }
        from + 1
    } else {
        assert(s.skip(0) =~= s);
        0
    }
}

proof fn lemma_trim_end(s: Seq<char>) -> (to: int)
    ensures
        0 <= to <= s.len(),
        trim_end(s) == s.take(to),
        is_blank(s.skip(to)),
        trim_end(s).len() > 0 ==> !is_space(trim_end(s).last()),
    decreases s.len(),
{
    if s.len() > 0 && is_space(s.last()) {
        let rest = s.drop_last();
        let to = lemma_trim_end(rest);
        assert(rest.take(to) =~= s.take(to));
        assert forall|i: int| 0 <= i < s.skip(to).len() implies is_space(#[trigger] s.skip(to)[i]) by {
            if i < rest.skip(to).len() {
                assert(rest.skip(to)[i] == s.skip(to)[i]);
            }
        }
        to
    } else {
        assert(s.take(s.len() as int) =~= s);
        s.len() as int
    }
}

/// What was put before a text can be taken off again, and what was put behind it too; where it
/// is not there, nothing is taken off.
pub proof fn prefixes_and_suffixes_come_off(s: Seq<char>, end: Seq<char>)
    ensures
        after_prefix(end + s, end) == Some(s),
        before_suffix(s + end, end) == Some(s),
        after_prefix(s, end) matches Some(rest) ==> s == end + rest,
        before_suffix(s, end) matches Some(rest) ==> s == rest + end,
        after_prefix(s, end) is Some <==> starts_with(s, end),
        before_suffix(s, end) is Some <==> ends_with(s, end),
{
    assert((end + s).take(end.len() as int) =~= end);
    assert((end + s).skip(end.len() as int) =~= s);
    assert((s + end).take(s.len() as int) =~= s);
    assert((s + end).skip(s.len() as int) =~= end);
    if starts_with(s, end) {
        assert(s =~= end + s.skip(end.len() as int));
    }
    if ends_with(s, end) {
        assert(s =~= s.take(s.len() - end.len()) + end);
    }
}

/// A text has a part exactly where it can be written with that part between two others.
pub proof fn parts_stand_between_others(s: Seq<char>, before: Seq<char>, part: Seq<char>, after: Seq<char>)
    ensures
        has_part(before + part + after, part),
        has_part(s, part) ==> exists|a: Seq<char>, b: Seq<char>| s == #[trigger] (a + part + b),
{
    let all = before + part + after;
    assert(all.skip(before.len() as int).take(part.len() as int) =~= part);
    if has_part(s, part) {
        let i = choose|i: int|
            0 <= i <= s.len() - part.len() && #[trigger] s.skip(i).take(part.len() as int) == part;
        let a = s.take(i);
        let b = s.skip(i + part.len());
        assert forall|k: int| 0 <= k < part.len() implies part[k] == s[i + k] by {
            assert(s.skip(i).take(part.len() as int)[k] == s[i + k]);
        }
        assert(s =~= a + part + b);
    }
}

/// Splitting loses nothing: the parts, with the separator between them, are the text again,
/// and none of them holds a separator.
pub proof fn splitting_loses_nothing(s: Seq<char>, sep: char)
    ensures
        split(s, sep).len() > 0,
        join(split(s, sep), seq![sep]) == s,
        forall|i: int| 0 <= i < split(s, sep).len() ==> !(#[trigger] split(s, sep)[i]).contains(sep),
        split(s, sep).len() == 1 <==> !s.contains(sep),
    decreases s.len(),
{
    let all = split(s, sep);
    let mid = seq![sep];
    if s.len() == 0 {
        assert(all[0] =~= s);
        assert(join(all, mid) == all[0]);
    } else {
        let rest = s.drop_last();
        let before = split(rest, sep);
        splitting_loses_nothing(rest, sep);
        if s.last() == sep {
            assert(all == before.push(Seq::empty()));
            assert(all.drop_last() =~= before);
            assert(join(all, mid) == join(before, mid) + mid + Seq::<char>::empty());
            assert(join(all, mid) =~= s);
            assert(s[s.len() - 1] == sep);
            assert forall|i: int| 0 <= i < all.len() implies !(#[trigger] all[i]).contains(sep) by {
                if i < before.len() {
                    assert(all[i] == before[i]);
                }
            }
        } else {
            let last = before.last().push(s.last());
            assert(all == before.drop_last().push(last));
            assert(all.drop_last() =~= before.drop_last());
            if all.len() == 1 {
                assert(before =~= seq![before[0]]);
                assert(join(before, mid) == before[0]);
                assert(join(all, mid) == last);
                assert(last =~= s);
            } else {
                assert(join(before, mid) == join(before.drop_last(), mid) + mid + before.last());
                assert(all.last() == last);
                assert(join(all, mid) == join(before.drop_last(), mid) + mid + last);
                assert(join(all, mid) =~= rest.push(s.last()));
                assert(rest.push(s.last()) =~= s);
            }
            assert(before[before.len() - 1] == before.last());
            assert forall|i: int| 0 <= i < all.len() implies !(#[trigger] all[i]).contains(sep) by {
                if i < before.len() - 1 {
                    assert(all[i] == before[i]);
                } else {
                    assert(!before.last().contains(sep));
                    if last.contains(sep) {
                        let k = choose|k: int| 0 <= k < last.len() && last[k] == sep;
                        if k < before.last().len() {
                            assert(before.last()[k] == sep);
                        }
                    }
                }
            }
            assert(s.contains(sep) <==> rest.contains(sep)) by {
                if s.contains(sep) {
                    let k = choose|k: int| 0 <= k < s.len() && s[k] == sep;
                    assert(rest[k] == sep);
                }
                if rest.contains(sep) {
                    let k = choose|k: int| 0 <= k < rest.len() && rest[k] == sep;
                    assert(s[k] == sep);
                }
            }
        }
    }
}

/// Splitting at the first character of a kind parts the text in two, and the first of them
/// holds no such character; where there is none the text is not parted.
pub proof fn splitting_once_goes_by_the_first(s: Seq<char>, f: spec_fn(char) -> bool)
    ensures
        split_once(s, f) matches Some((a, b)) ==> {
            &&& a.len() + 1 + b.len() == s.len()
            &&& f(s[a.len() as int])
            &&& s == a.push(s[a.len() as int]) + b
            &&& forall|i: int| 0 <= i < a.len() ==> !f(#[trigger] a[i])
        },
        split_once(s, f) is None ==> forall|i: int| 0 <= i < s.len() ==> !f(#[trigger] s[i]),
{
    lemma_where(s, f);
    let at = first_where(s, f);
    if at < s.len() {
        assert(s =~= s.take(at).push(s[at]) + s.skip(at + 1));
    }
}

proof fn lemma_where(s: Seq<char>, f: spec_fn(char) -> bool)
    ensures
        0 <= first_where(s, f) <= s.len(),
        first_where(s, f) < s.len() ==> f(s[first_where(s, f)]),
        forall|i: int| 0 <= i < first_where(s, f) ==> !f(#[trigger] s[i]),
    decreases s.len(),
{
    if s.len() > 0 && !f(s[0]) {
        lemma_where(s.skip(1), f);
        assert forall|i: int| 0 <= i < first_where(s, f) implies !f(#[trigger] s[i]) by {
            if i > 0 {
                assert(s.skip(1)[i - 1] == s[i]);
            }
        }
    }
}

/// A number that is written out reads back as that number, whatever it is.
pub proof fn numbers_read_back(n: nat, max: nat)
    ensures
        number(decimal(n), max) == (if n <= max {
            Some(n)
        } else {
            None
        }),
        decimal(n).len() > 0,
        all_digits(decimal(n)),
{
    lemma_decimal(n);
}

proof fn lemma_decimal(n: nat)
    ensures
        decimal(n).len() > 0,
        all_digits(decimal(n)),
        decimal(n)[0] != '+',
        digits_value(decimal(n)) == n,
    decreases n,
{
    assert(forall|d: nat| d < 10 ==> is_digit(#[trigger] digit(d)) && digit(d) != '+' && digit_value(
        digit(d),
    ) == d);
    if n < 10 {
        let s = seq![digit(n)];
        assert(is_digit(digit(n)));
        assert(decimal(n) =~= s);
        assert(s.drop_last() =~= Seq::empty());
        assert(digits_value(s.drop_last()) == 0);
        assert(s.last() == digit(n));
    } else {
        lemma_decimal(n / 10);
        let before = decimal(n / 10);
        let all = before.push(digit(n % 10));
        assert(is_digit(digit(n % 10)));
        assert(all.drop_last() =~= before);
        assert(all.last() == digit(n % 10));
        assert forall|i: int| 0 <= i < all.len() implies is_digit(#[trigger] all[i]) by {
            if i < before.len() {
                assert(all[i] == before[i]);
            }
        }
        assert(all[0] == before[0]);
    }
}

/// Only digits make a number, after a plus sign at most, and only as long as it is not too
/// large; leading zeros change nothing.
pub proof fn only_digits_make_a_number(s: Seq<char>, max: nat)
    ensures
        number(s, max) matches Some(n) ==> n <= max && s.len() > 0 && forall|i: int|
            1 <= i < s.len() ==> '0' <= (#[trigger] s[i]) && s[i] <= '9',
        number(Seq::empty(), max) is None,
        s.len() > 0 && '0' <= s[0] && s[0] <= '9' ==> number(s, max) == number(
            seq!['0'] + s,
            max,
        ),
{
    let digits = unsigned(s);
    if number(s, max) is Some {
        assert forall|i: int| 1 <= i < s.len() implies '0' <= (#[trigger] s[i]) && s[i] <= '9' by {
            if s[0] == '+' {
                assert(is_digit(digits[i - 1]));
            } else {
                assert(is_digit(digits[i]));
            }
        }
    }
    if s.len() > 0 && '0' <= s[0] && s[0] <= '9' {
        let more = seq!['0'] + s;
        lemma_leading_zero(s);
        assert(unsigned(s) == s && unsigned(more) == more);
        if all_digits(s) {
            assert forall|i: int| 0 <= i < more.len() implies is_digit(#[trigger] more[i]) by {
                if i > 0 {
                    assert(more[i] == s[i - 1]);
                }
            }
        }
        if all_digits(more) {
            assert forall|i: int| 0 <= i < s.len() implies is_digit(#[trigger] s[i]) by {
                assert(more[i + 1] == s[i]);
            }
        }
    }
}

proof fn lemma_leading_zero(s: Seq<char>)
    ensures
        digits_value(seq!['0'] + s) == digits_value(s),
    decreases s.len(),
{
    let more = seq!['0'] + s;
    if s.len() > 0 {
        lemma_leading_zero(s.drop_last());
        assert(more.drop_last() =~= seq!['0'] + s.drop_last());
        assert(more.last() == s.last());
    } else {
        assert(more.drop_last() =~= Seq::empty());
        assert(more.last() == '0');
        assert(digits_value(more.drop_last()) == 0);
    }
}

/// Lowering the case changes the capital letters and nothing else, and doing it twice is doing
/// it once.
pub proof fn lowering_changes_capitals_only(s: Seq<char>)
    ensures
        lowercase(s).len() == s.len(),
        lowercase(lowercase(s)) == lowercase(s),
        forall|i: int|
            0 <= i < s.len() && 'A' <= (#[trigger] s[i]) && s[i] <= 'Z' ==> lowercase(s)[i] as u32
                == s[i] as u32 + 32,
        forall|i: int|
            0 <= i < s.len() && !('A' <= (#[trigger] s[i]) && s[i] <= 'Z') ==> lowercase(s)[i]
                == s[i],
{
    assert forall|i: int|
        0 <= i < s.len() && 'A' <= (#[trigger] s[i]) && s[i] <= 'Z' implies lowercase(s)[i] as u32
        == s[i] as u32 + 32 by {
        let c = s[i];
        let n = (c as u8 + 32u8) as u8;
        assert(c as u32 <= 0x5a);
        assert(lowercase(s)[i] == n as char);
    }
    assert(lowercase(lowercase(s)) =~= lowercase(s)) by {
        assert forall|i: int| 0 <= i < s.len() implies lowercase(lowercase(s))[i]
            == #[trigger] lowercase(s)[i] by {
            let c = s[i];
            if 'A' <= c && c <= 'Z' {
                assert(lowercase(s)[i] as u32 == s[i] as u32 + 32);
            }
        }
    }
}

/// A line holds no line break, and a text without any is one line, or none where it is empty.
pub proof fn lines_hold_no_break(s: Seq<char>)
    ensures
        forall|i: int| 0 <= i < lines(s).len() ==> !(#[trigger] lines(s)[i]).contains('\n'),
        !s.contains('\n') && s.len() > 0 ==> lines(s) == seq![s],
        s.len() == 0 ==> lines(s).len() == 0,
{
    splitting_loses_nothing(s, '\n');
    let parts = split(s, '\n');
    assert forall|i: int| 0 <= i < lines(s).len() implies !(#[trigger] lines(s)[i]).contains(
        '\n',
    ) by {
        assert(!parts[i].contains('\n'));
        let line = lines(s)[i];
        if line.contains('\n') {
            let k = choose|k: int| 0 <= k < line.len() && line[k] == '\n';
            assert(parts[i][k] == '\n');
        }
    }
    if !s.contains('\n') {
        assert(join(parts, seq!['\n']) == parts[0]);
        if s.len() > 0 {
            assert(lines(s) =~= seq![s]);
        } else {
            assert(parts.last() == parts[0]);
        }
    }
}

/// What is dropped from the front of a text is dropped as often as it stands there, and the
/// rest of the text stays.
pub proof fn leading_parts_are_dropped(s: Seq<char>, c: char, head: Seq<char>)
    ensures
        without_leading(s, c).len() <= s.len(),
        without_leading(s, c) == s.skip(s.len() - without_leading(s, c).len()),
        forall|i: int| 0 <= i < s.len() - without_leading(s, c).len() ==> s[i] == c,
        without_leading(s, c).len() > 0 ==> without_leading(s, c)[0] != c,
        head.len() > 0 ==> !starts_with(without_prefixes(s, head), head),
        head.len() > 0 ==> without_prefixes(head + s, head) == without_prefixes(s, head),
        !starts_with(s, head) ==> without_prefixes(s, head) == s,
    decreases s.len(),
{
    lemma_without_prefixes(s, head);
    if s.len() > 0 && s[0] == c {
        let rest = s.skip(1);
        leading_parts_are_dropped(rest, c, head);
        let left = without_leading(rest, c);
        assert(rest.skip(rest.len() - left.len()) =~= s.skip(s.len() - left.len()));
        assert forall|i: int| 0 <= i < s.len() - left.len() implies s[i] == c by {
            if i > 0 {
                assert(rest[i - 1] == s[i]);
            }
        }
    } else {
        assert(s.skip(0) =~= s);
    }
    if head.len() > 0 {
        assert((head + s).take(head.len() as int) =~= head);
        assert((head + s).skip(head.len() as int) =~= s);
    }
}

proof fn lemma_without_prefixes(s: Seq<char>, head: Seq<char>)
    ensures
        head.len() > 0 ==> !starts_with(without_prefixes(s, head), head),
    decreases s.len(),
{
    if 0 < head.len() <= s.len() && s.take(head.len() as int) == head {
        lemma_without_prefixes(s.skip(head.len() as int), head);
    }
}

/// Of a text only the first character is capitalised; the rest stays as it is.
pub proof fn capitals_come_first(s: Seq<char>)
    ensures
        s.len() == 0 ==> capitalized(s) == s,
        s.len() > 0 ==> ends_with(capitalized(s), s.skip(1)) && starts_with(
            capitalized(s),
            unicode_uppercase(s[0]),
        ) && capitalized(s).len() == unicode_uppercase(s[0]).len() + s.len() - 1,
{
    if s.len() > 0 {
        let first = unicode_uppercase(s[0]);
        assert(capitalized(s).take(first.len() as int) =~= first);
        assert(capitalized(s).skip(first.len() as int) =~= s.skip(1));
    }
}

} // verus!
