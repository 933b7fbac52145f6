//! Text as the flags, labels and messages of a run use it.
//!
//! A text is modelled by the sequence of its characters. Lengths and positions
//! below count characters, never bytes.

use vstd::prelude::*;
use vstd::string::*;

verus! {

/// `String::push` appends one character to the end.
pub assume_specification[ String::push ](s: &mut String, c: char)
    ensures
        final(s)@ == old(s)@.push(c),
;

/// The characters of the Unicode `White_Space` property.
pub open spec fn is_space(c: char) -> bool {
    let n = c as u32;
    ||| 0x09 <= n <= 0x0d
    ||| n == 0x20
    ||| n == 0x85
    ||| n == 0xa0
    ||| n == 0x1680
    ||| 0x2000 <= n <= 0x200a
    ||| n == 0x2028
    ||| n == 0x2029
    ||| n == 0x202f
    ||| n == 0x205f
    ||| n == 0x3000
}

/// Whether `c` is white space.
pub fn space(c: char) -> (r: bool)
    ensures
        r == is_space(c),
{
    let n: u32 = c as u32;
    (0x09 <= n && n <= 0x0d) || n == 0x20 || n == 0x85 || n == 0xa0 || n == 0x1680 || (0x2000 <= n
        && n <= 0x200a) || n == 0x2028 || n == 0x2029 || n == 0x202f || n == 0x205f || n == 0x3000
}

/// The characters of a text, in order.
pub fn chars_of(text: &str) -> (r: Vec<char>)
    ensures
        r@ == text@,
{
    let mut r: Vec<char> = Vec::new();
    for c in it: text.chars()
        invariant
            r@ == it.seq().take(it.index() as int),
            it.seq() == text@,
    {
        r.push(c);
        assert(it.seq().take(it.index() + 1) =~= it.seq().take(it.index() as int).push(c));
    }
    assert(text@.take(text@.len() as int) =~= text@);
    r
}

/// A text without its leading white space.
pub open spec fn start_trimmed(s: Seq<char>) -> Seq<char>
    decreases s.len(),
{
    if s.len() > 0 && is_space(s[0]) {
        start_trimmed(s.drop_first())
    } else {
        s
    }
}

/// A text without its trailing white space.
pub open spec fn end_trimmed(s: Seq<char>) -> Seq<char>
    decreases s.len(),
{
    if s.len() > 0 && is_space(s.last()) {
        end_trimmed(s.drop_last())
    } else {
        s
    }
}

/// A text without the white space around it.
pub open spec fn trimmed(s: Seq<char>) -> Seq<char> {
    end_trimmed(start_trimmed(s))
}

/// The text without the white space around it.
pub fn trim(text: &str) -> (r: &str)
    ensures
        r@ == trimmed(text@),
{
    let cs: Vec<char> = chars_of(text);
    let n: usize = cs.len();
    let mut i: usize = 0;
    assert(text@.subrange(0, n as int) =~= text@);
    while i < n && space(cs[i])
        invariant
            i <= n,
            n == cs@.len(),
            cs@ == text@,
            start_trimmed(text@) == start_trimmed(text@.subrange(i as int, n as int)),
        decreases n - i,
    {
        assert(text@.subrange(i as int, n as int).drop_first() =~= text@.subrange(i + 1, n as int));
        i = i + 1;
    }
    let mut j: usize = n;
    while j > i && space(cs[j - 1])
        invariant
            i <= j <= n,
            n == cs@.len(),
            cs@ == text@,
            end_trimmed(text@.subrange(i as int, n as int)) == end_trimmed(
                text@.subrange(i as int, j as int),
            ),
        decreases j,
    {
        assert(text@.subrange(i as int, j as int).drop_last() =~= text@.subrange(i as int, j - 1));
        j = j - 1;
    }
    text.substring_char(i, j)
}

/// A text without the run of `c` at its end.
pub open spec fn end_stripped(s: Seq<char>, c: char) -> Seq<char>
    decreases s.len(),
{
    if s.len() > 0 && s.last() == c {
        end_stripped(s.drop_last(), c)
    } else {
        s
    }
}

/// The text without the run of `c` at its end.
pub fn strip_end(text: &str, c: char) -> (r: &str)
    ensures
        r@ == end_stripped(text@, c),
{
    let cs: Vec<char> = chars_of(text);
    let n: usize = cs.len();
    let mut j: usize = n;
    assert(text@.subrange(0, n as int) =~= text@);
    while j > 0 && cs[j - 1] == c
        invariant
            j <= n,
            n == cs@.len(),
            cs@ == text@,
            end_stripped(text@, c) == end_stripped(text@.subrange(0, j as int), c),
        decreases j,
    {
        assert(text@.subrange(0, j as int).drop_last() =~= text@.subrange(0, j - 1));
        j = j - 1;
    }
    text.substring_char(0, j)
}

/// Where `c` first stands in a text; the text's length when it stands nowhere.
pub open spec fn first_at(s: Seq<char>, c: char) -> int
    decreases s.len(),
{
    if s.len() == 0 || s[0] == c {
        0
    } else {
        1 + first_at(s.drop_first(), c)
    }
}

/// `first_at` is a position of the text, and nothing before it is `c`.
pub proof fn lemma_first_at(s: Seq<char>, c: char)
    ensures
        0 <= first_at(s, c) <= s.len(),
        first_at(s, c) < s.len() ==> s[first_at(s, c)] == c,
        forall|i: int| 0 <= i < first_at(s, c) ==> s[i] != c,
    decreases s.len(),
{
    if s.len() != 0 && s[0] != c {
        lemma_first_at(s.drop_first(), c);
        assert forall|i: int| 0 <= i < first_at(s, c) implies s[i] != c by {
            if i > 0 {
                assert(s[i] == s.drop_first()[i - 1]);
            }
        }
    }
}

/// Where `c` first stands at or after `from`, counted from the text's start.
fn find(cs: &Vec<char>, c: char, from: usize) -> (r: usize)
    requires
        from <= cs@.len(),
    ensures
        r == from + first_at(cs@.skip(from as int), c),
        from <= r <= cs@.len(),
{
    let n: usize = cs.len();
    let mut i: usize = from;
    while i < n && cs[i] != c
        invariant
            from <= i <= n,
            n == cs@.len(),
            from + first_at(cs@.skip(from as int), c) == i + first_at(cs@.skip(i as int), c),
        decreases n - i,
    {
        assert(cs@.skip(i as int).drop_first() =~= cs@.skip(i + 1));
        i = i + 1;
    }
    i
}

/// The parts of a text between the occurrences of `c`.
pub open spec fn split_at_each(s: Seq<char>, c: char) -> Seq<Seq<char>>
    decreases s.len(),
    via split_at_each_shrinks
{
    let i = first_at(s, c);
    if i >= s.len() {
        seq![s]
    } else {
        seq![s.take(i)] + split_at_each(s.skip(i + 1), c)
    }
}

#[via_fn]
proof fn split_at_each_shrinks(s: Seq<char>, c: char) {
    lemma_first_at(s, c);
}

/// The text before the first `c` and the text after it.
pub open spec fn split_at_first(s: Seq<char>, c: char) -> Option<(Seq<char>, Seq<char>)> {
    let i = first_at(s, c);
    if i >= s.len() {
        None
    } else {
        Some((s.take(i), s.skip(i + 1)))
    }
}

/// Splits a text at the first `c`, which belongs to neither part.
pub fn split_once(text: &str, c: char) -> (r: Option<(&str, &str)>)
    ensures
        match r {
            Some((before, after)) => split_at_first(text@, c) == Some((before@, after@)),
            None => split_at_first(text@, c) is None,
        },
{
    let cs: Vec<char> = chars_of(text);
    let i: usize = find(&cs, c, 0);
    assert(cs@.skip(0) =~= cs@);
    if i >= cs.len() {
        None
    } else {
        let before: &str = text.substring_char(0, i);
        let after: &str = text.substring_char(i + 1, cs.len());
        assert(before@ =~= text@.take(i as int));
        assert(after@ =~= text@.skip(i + 1));
        Some((before, after))
    }
}

/// The views of a list of texts.
pub open spec fn texts(list: Seq<String>) -> Seq<Seq<char>> {
    list.map_values(|s: String| s@)
}

/// The view of a text that may be missing.
pub open spec fn opt_text(text: Option<String>) -> Option<Seq<char>> {
    match text {
        Some(s) => Some(s@),
        None => None,
    }
}

/// The view of a borrowed text that may be missing.
pub open spec fn opt_str(text: Option<&str>) -> Option<Seq<char>> {
    match text {
        Some(s) => Some(s@),
        None => None,
    }
}

/// A copy of a text that may be missing.
pub fn copy_opt(text: &Option<String>) -> (r: Option<String>)
    ensures
        r == *text,
{
    match text {
        Some(s) => Some(s.clone()),
        None => None,
    }
}

/// Splits a text at every `c`.
pub fn split(text: &str, c: char) -> (r: Vec<String>)
    ensures
        texts(r@) == split_at_each(text@, c),
{
    let cs: Vec<char> = chars_of(text);
    let n: usize = cs.len();
    let mut r: Vec<String> = Vec::new();
    let mut from: usize = 0;
    assert(cs@.skip(0) =~= cs@);
    assert(texts(r@) + split_at_each(text@.skip(0), c) =~= split_at_each(text@, c));
    loop
        invariant
            n == cs@.len(),
            cs@ == text@,
            from <= n,
            texts(r@) + split_at_each(text@.skip(from as int), c) == split_at_each(text@, c),
        decreases n - from,
    {
        let ghost rest = text@.skip(from as int);
        let ghost done = texts(r@);
        let i: usize = find(&cs, c, from);
        let part: &str = text.substring_char(from, i);
        proof {
            lemma_first_at(rest, c);
            assert(part@ =~= rest.take(i - from));
        }
        r.push(part.to_string());
        assert(texts(r@) =~= done.push(part@));
        if i >= n {
            assert(rest.take(i - from) =~= rest);
            assert(texts(r@) =~= split_at_each(text@, c));
            return r;
        }
        assert(rest.skip(i - from + 1) =~= text@.skip(i + 1));
        assert(done.push(part@) + split_at_each(text@.skip(i + 1), c) =~= done + (seq![part@]
            + split_at_each(text@.skip(i + 1), c)));
        from = i + 1;
    }
}

/// A list of texts with `sep` between each two.
pub open spec fn joined(parts: Seq<Seq<char>>, sep: Seq<char>) -> Seq<char>
    decreases parts.len(),
{
    if parts.len() == 0 {
        Seq::empty()
    } else if parts.len() == 1 {
        parts[0]
    } else {
        joined(parts.drop_last(), sep) + sep + parts.last()
    }
}

/// Joins the texts with `sep` between each two.
pub fn join(parts: &Vec<String>, sep: &str) -> (r: String)
    ensures
        r@ == joined(texts(parts@), sep@),
{
    let mut r: String = String::new();
    let mut i: usize = 0;
    let ghost all = texts(parts@);
    while i < parts.len()
        invariant
            i <= parts@.len(),
            all == texts(parts@),
            r@ == joined(all.take(i as int), sep@),
        decreases parts@.len() - i,
    {
        proof {
            assert(all.take(i + 1).drop_last() =~= all.take(i as int));
            assert(all.take(i + 1).last() == parts@[i as int]@);
            if i == 0 {
                assert(r@ + parts@[0]@ =~= parts@[0]@);
            }
        }
        if i > 0 {
            r.append(sep);
        }
        r.append(parts[i].as_str());
        i = i + 1;
    }
    assert(all.take(all.len() as int) =~= all);
    r
}

/// The decimal digit of a number below ten.
pub open spec fn digit(d: nat) -> char {
    ('0' as u32 + d) as char
}

/// A number in decimal.
pub open spec fn decimal(n: nat) -> Seq<char>
    decreases n,
{
    if n < 10 {
        seq![digit(n)]
    } else {
        decimal(n / 10).push(digit(n % 10))
    }
}

/// Writes a number in decimal.
pub fn number(n: u64) -> (r: String)
    ensures
        r@ == decimal(n as nat),
    decreases n,
{
    let mut r: String = if n < 10 {
        String::new()
    } else {
        number(n / 10)
    };
    let d: u64 = n % 10;
    let c: char = if d == 0 {
        '0'
    } else if d == 1 {
        '1'
    } else if d == 2 {
        '2'
    } else if d == 3 {
        '3'
    } else if d == 4 {
        '4'
    } else if d == 5 {
        '5'
    } else if d == 6 {
        '6'
    } else if d == 7 {
        '7'
    } else if d == 8 {
        '8'
    } else {
        '9'
    };
    r.push(c);
    assert(r@ =~= decimal(n as nat));
    r
}

/// Whether two texts hold the same characters.
pub fn same(a: &str, b: &str) -> (r: bool)
    ensures
        r == (a@ == b@),
{
    let x: Vec<char> = chars_of(a);
    let y: Vec<char> = chars_of(b);
    if x.len() != y.len() {
        return false;
    }
    let mut i: usize = 0;
    while i < x.len()
        invariant
            i <= x@.len(),
            x@ == a@,
            y@ == b@,
            x@.len() == y@.len(),
            forall|j: int| 0 <= j < i ==> x@[j] == y@[j],
        decreases x@.len() - i,
    {
        if x[i] != y[i] {
            return false;
        }
        i = i + 1;
    }
    assert(x@ =~= y@);
    true
}

/// Whether `wanted` is one of the texts.
pub fn contains(list: &[String], wanted: &str) -> (r: bool)
    ensures
        r == texts(list@).contains(wanted@),
{
    let mut i: usize = 0;
    while i < list.len()
        invariant
            i <= list@.len(),
            forall|j: int| 0 <= j < i ==> list@[j]@ != wanted@,
        decreases list@.len() - i,
    {
        if same(list[i].as_str(), wanted) {
            assert(texts(list@)[i as int] == wanted@);
            return true;
        }
        i = i + 1;
    }
    assert forall|j: int| 0 <= j < texts(list@).len() implies texts(list@)[j] != wanted@ by {}
    false
}

/// Whether `a` sorts before `b`: by the first character that differs, and a
/// proper prefix first.
pub open spec fn before(a: Seq<char>, b: Seq<char>) -> bool
    decreases a.len(),
{
    if b.len() == 0 {
        false
    } else if a.len() == 0 {
        true
    } else if a[0] == b[0] {
        before(a.drop_first(), b.drop_first())
    } else {
        a[0] < b[0]
    }
}

/// Whether `a` sorts before `b`.
pub fn sorts_before(a: &str, b: &str) -> (r: bool)
    ensures
        r == before(a@, b@),
{
    let x: Vec<char> = chars_of(a);
    let y: Vec<char> = chars_of(b);
    let mut i: usize = 0;
    assert(a@.skip(0) =~= a@);
    assert(b@.skip(0) =~= b@);
    while i < x.len() && i < y.len() && x[i] == y[i]
        invariant
            i <= x@.len(),
            i <= y@.len(),
            x@ == a@,
            y@ == b@,
            before(a@, b@) == before(a@.skip(i as int), b@.skip(i as int)),
        decreases x@.len() - i,
    {
        assert(a@.skip(i as int).drop_first() =~= a@.skip(i + 1));
        assert(b@.skip(i as int).drop_first() =~= b@.skip(i + 1));
        i = i + 1;
    }
    if i >= y.len() {
        false
    } else if i >= x.len() {
        true
    } else {
        x[i] < y[i]
    }
}

/// A text in the quoted form that Rust's `Debug` gives it.
pub uninterp spec fn debug_form(content: Seq<char>) -> Seq<char>;

/// `format!` with `{:?}`: the quoted form of a text, with what cannot be printed
/// escaped. What is escaped and how is left to the name.
#[verifier::external_body]
pub(crate) fn quoted(content: &str) -> (r: String)
    ensures
        r@ == debug_form(content@),
{
    format!("{content:?}")
}

/// A text that may be missing, as `Debug` writes it.
pub open spec fn debug_option(content: Option<Seq<char>>) -> Seq<char> {
    match content {
        Some(content) => "Some("@ + debug_form(content) + ")"@,
        None => "None"@,
    }
}

/// Writes a text that may be missing as `Debug` does.
pub fn quoted_option(content: &Option<String>) -> (r: String)
    ensures
        r@ == debug_option(opt_text(*content)),
{
    match content {
        Some(content) => "Some(".to_string().concat(quoted(content.as_str()).as_str()).concat(")"),
        None => "None".to_string(),
    }
}

/// A list of texts, as `Debug` writes it.
pub open spec fn debug_list(list: Seq<Seq<char>>) -> Seq<char> {
    "["@ + joined(list.map_values(|s: Seq<char>| debug_form(s)), ", "@) + "]"@
}

/// Writes a list of texts as `Debug` does.
pub fn quoted_list(list: &[String]) -> (r: String)
    ensures
        r@ == debug_list(texts(list@)),
{
    let mut parts: Vec<String> = Vec::new();
    let mut i: usize = 0;
    while i < list.len()
        invariant
            i <= list@.len(),
            parts@.len() == i,
            forall|j: int| 0 <= j < i ==> (#[trigger] parts@[j])@ == debug_form(list@[j]@),
        decreases list@.len() - i,
    {
        parts.push(quoted(list[i].as_str()));
        i = i + 1;
    }
    assert(texts(parts@) =~= texts(list@).map_values(|s: Seq<char>| debug_form(s)));
    "[".to_string().concat(join(&parts, ", ").as_str()).concat("]")
}

/// A copy of a list of texts.
pub fn copy_list(list: &Vec<String>) -> (r: Vec<String>)
    ensures
        r@ == list@,
{
    let mut r: Vec<String> = Vec::new();
    let mut i: usize = 0;
    while i < list.len()
        invariant
            i <= list@.len(),
            r@ == list@.take(i as int),
        decreases list@.len() - i,
    {
        r.push(list[i].clone());
        assert(list@.take(i + 1) =~= list@.take(i as int).push(list@[i as int]));
        i = i + 1;
    }
    assert(list@.take(list@.len() as int) =~= list@);
    r
}

/// Blanks, tabs and line ends are white space; no letter, digit or mark of ASCII is.
pub proof fn law_marks_are_no_white_space(c: char)
    ensures
        c == ' ' || c == '\t' || c == '\n' || c == '\r' ==> is_space(c),
        '!' <= c && c <= '~' ==> !is_space(c),
{
}

/// Trimming keeps one stretch of a text, with nothing but white space before it and behind
/// it, and with none at its ends.
pub proof fn law_trimming_takes_white_space_off(s: Seq<char>)
    ensures
        exists|i: int|
            {
                &&& 0 <= i
                &&& i + trimmed(s).len() <= s.len()
                &&& trimmed(s) == #[trigger] s.subrange(i, i + trimmed(s).len())
                &&& forall|j: int| 0 <= j < i ==> is_space(#[trigger] s[j])
                &&& forall|j: int| i + trimmed(s).len() <= j < s.len() ==> is_space(#[trigger] s[j])
            },
        trimmed(s).len() > 0 ==> !is_space(trimmed(s)[0]) && !is_space(trimmed(s).last()),
{
    let start = start_trimmed(s);
    let core = trimmed(s);
    lemma_start_trimmed(s);
    lemma_end_trimmed(start);
    let i = s.len() - start.len();
    assert(core =~= s.subrange(i, i + core.len()));
    assert forall|j: int| i + core.len() <= j < s.len() implies is_space(#[trigger] s[j]) by {
        assert(start[j - i] == s[j]);
    }
    if core.len() > 0 {
        assert(core[0] == start[0]);
    }
}

/// Trimming the start of a text takes only white space, and all of it.
proof fn lemma_start_trimmed(s: Seq<char>)
    ensures
        start_trimmed(s).len() <= s.len(),
        start_trimmed(s) == s.skip(s.len() - start_trimmed(s).len()),
        forall|j: int| 0 <= j < s.len() - start_trimmed(s).len() ==> is_space(#[trigger] s[j]),
        start_trimmed(s).len() > 0 ==> !is_space(start_trimmed(s)[0]),
    decreases s.len(),
{
    if s.len() > 0 && is_space(s[0]) {
        let rest = s.drop_first();
        lemma_start_trimmed(rest);
        assert(start_trimmed(s) =~= s.skip(s.len() - start_trimmed(s).len()));
        assert forall|j: int| 0 <= j < s.len() - start_trimmed(s).len() implies is_space(
            #[trigger] s[j],
        ) by {
            if j > 0 {
                assert(rest[j - 1] == s[j]);
            }
        }
    } else {
        assert(s.skip(0) =~= s);
    }
}

/// Trimming the end of a text takes only white space, and all of it.
proof fn lemma_end_trimmed(s: Seq<char>)
    ensures
        end_trimmed(s).len() <= s.len(),
        end_trimmed(s) == s.take(end_trimmed(s).len() as int),
        forall|j: int| end_trimmed(s).len() <= j < s.len() ==> is_space(#[trigger] s[j]),
        end_trimmed(s).len() > 0 ==> !is_space(end_trimmed(s).last()),
    decreases s.len(),
{
    if s.len() > 0 && is_space(s.last()) {
        let rest = s.drop_last();
        lemma_end_trimmed(rest);
        assert(end_trimmed(s) =~= s.take(end_trimmed(s).len() as int));
        assert forall|j: int| end_trimmed(s).len() <= j < s.len() implies is_space(
            #[trigger] s[j],
        ) by {
            if j < rest.len() {
                assert(rest[j] == s[j]);
            }
        }
    } else {
        assert(s.take(s.len() as int) =~= s);
    }
}

/// Only one stretch of a text can be what trimming keeps: whatever white space stands
/// around a text without any at its ends, trimming gives that text.
pub proof fn law_white_space_around_a_text_is_trimmed(
    head: Seq<char>,
    core: Seq<char>,
    tail: Seq<char>,
)
    requires
        forall|i: int| 0 <= i < head.len() ==> is_space(#[trigger] head[i]),
        forall|i: int| 0 <= i < tail.len() ==> is_space(#[trigger] tail[i]),
        core.len() > 0 ==> !is_space(core[0]) && !is_space(core.last()),
    ensures
        trimmed(head + core + tail) == core,
{
    let s = head + core + tail;
    law_trimming_takes_white_space_off(s);
    let kept = trimmed(s);
    let i = choose|i: int|
        {
            &&& 0 <= i
            &&& i + kept.len() <= s.len()
            &&& kept == #[trigger] s.subrange(i, i + kept.len())
            &&& forall|j: int| 0 <= j < i ==> is_space(#[trigger] s[j])
            &&& forall|j: int| i + kept.len() <= j < s.len() ==> is_space(#[trigger] s[j])
        };
    let from = head.len() as int;
    let to = from + core.len();
    assert(forall|j: int| 0 <= j < from ==> #[trigger] s[j] == head[j]);
    assert(forall|j: int| to <= j < s.len() ==> #[trigger] s[j] == tail[j - to]);
    assert(forall|j: int| from <= j < to ==> #[trigger] s[j] == core[j - from]);
    if core.len() > 0 {
        assert(s[from] == core[0]);
        assert(s[to - 1] == core.last());
        assert(i <= from);
        assert(to <= i + kept.len());
        assert(kept[0] == s[i]);
        assert(kept.last() == s[i + kept.len() - 1]);
        assert(i == from);
        assert(i + kept.len() == to);
    } else if kept.len() > 0 {
        assert(kept[0] == s[i]);
        assert(is_space(s[i]));
    }
    assert(kept =~= core);
}

/// Stripping a character off the end of a text keeps the start that does not end in it, and
/// takes nothing else away.
pub proof fn law_stripping_takes_only_the_character(s: Seq<char>, c: char)
    ensures
        end_stripped(s, c).len() <= s.len(),
        end_stripped(s, c) == s.take(end_stripped(s, c).len() as int),
        forall|j: int| end_stripped(s, c).len() <= j < s.len() ==> #[trigger] s[j] == c,
        end_stripped(s, c).len() > 0 ==> end_stripped(s, c).last() != c,
    decreases s.len(),
{
    if s.len() > 0 && s.last() == c {
        let rest = s.drop_last();
        law_stripping_takes_only_the_character(rest, c);
        assert(end_stripped(s, c) =~= s.take(end_stripped(s, c).len() as int));
        assert forall|j: int| end_stripped(s, c).len() <= j < s.len() implies #[trigger] s[j]
            == c by {
            if j < rest.len() {
                assert(rest[j] == s[j]);
            }
        }
    } else {
        assert(s.take(s.len() as int) =~= s);
    }
}

/// Splitting a text once splits it at the first place of the character: what stands before
/// it does not hold it, and the two parts with the character between them are the text.
pub proof fn law_splitting_once_loses_nothing(s: Seq<char>, c: char)
    ensures
        match split_at_first(s, c) {
            Some((key, rest)) => s == key + seq![c] + rest && !key.contains(c),
            None => !s.contains(c),
        },
{
    lemma_first_at(s, c);
    let i = first_at(s, c);
    if i < s.len() {
        assert(s =~= s.take(i) + seq![c] + s.skip(i + 1));
    }
}

/// However a text is put together from a part without the character, the character and
/// anything, splitting it once gives the two parts back.
pub proof fn law_splitting_once_finds_the_first(key: Seq<char>, c: char, rest: Seq<char>)
    requires
        !key.contains(c),
    ensures
        split_at_first(key + seq![c] + rest, c) == Some((key, rest)),
        split_at_first(key, c) is None,
{
    let s = key + seq![c] + rest;
    let n = key.len() as int;
    lemma_first_at(s, c);
    lemma_first_at(key, c);
    assert(s[n] == c);
    assert forall|j: int| 0 <= j < n implies #[trigger] s[j] != c by {
        assert(s[j] == key[j]);
        assert(key.contains(key[j]));
    }
    if first_at(key, c) < n {
        assert(key.contains(key[first_at(key, c)]));
    }
    assert(first_at(s, c) == n);
    assert(s.take(n) =~= key);
    assert(s.skip(n + 1) =~= rest);
}

/// Joining one more text in front.
proof fn lemma_joined_in_front(one: Seq<char>, parts: Seq<Seq<char>>, sep: Seq<char>)
    requires
        parts.len() > 0,
    ensures
        joined(seq![one] + parts, sep) == one + sep + joined(parts, sep),
    decreases parts.len(),
{
    let all = seq![one] + parts;
    if parts.len() == 1 {
        assert(all.drop_last() =~= seq![one]);
        assert(all.last() == parts[0]);
        assert(joined(all.drop_last(), sep) == one);
    } else {
        lemma_joined_in_front(one, parts.drop_last(), sep);
        assert(all.drop_last() =~= seq![one] + parts.drop_last());
        assert(all.last() == parts.last());
        assert(joined(all, sep) =~= one + sep + joined(parts, sep));
    }
}

/// Splitting a text at every place of a character loses nothing: none of the parts holds
/// the character, and joined by it they are the text.
pub proof fn law_splitting_loses_nothing(s: Seq<char>, c: char)
    ensures
        split_at_each(s, c).len() > 0,
        forall|i: int| 0 <= i < split_at_each(s, c).len() ==> !(#[trigger] split_at_each(s, c)[i]).contains(c),
        joined(split_at_each(s, c), seq![c]) == s,
    decreases s.len(),
{
    lemma_first_at(s, c);
    let k = first_at(s, c);
    let parts = split_at_each(s, c);
    if k >= s.len() {
        assert(parts =~= seq![s]);
        assert(!s.contains(c));
    } else {
        let rest = s.skip(k + 1);
        law_splitting_loses_nothing(rest, c);
        let more = split_at_each(rest, c);
        assert(parts =~= seq![s.take(k)] + more);
        assert(!s.take(k).contains(c));
        assert forall|i: int| 0 <= i < parts.len() implies !(#[trigger] parts[i]).contains(c) by {
            if i > 0 {
                assert(parts[i] == more[i - 1]);
            }
        }
        lemma_joined_in_front(s.take(k), more, seq![c]);
        assert(s.take(k) + seq![c] + rest =~= s);
    }
}

/// The number that decimal digits stand for.
pub open spec fn number_of(digits: Seq<char>) -> int
    decreases digits.len(),
{
    if digits.len() == 0 {
        0
    } else {
        10 * number_of(digits.drop_last()) + (digits.last() as int - '0' as int)
    }
}

/// A number is written in decimal digits that stand for it, without a zero in front.
pub proof fn law_numbers_are_written_in_decimal(n: nat)
    ensures
        number_of(decimal(n)) == n,
        forall|i: int| 0 <= i < decimal(n).len() ==> '0' <= #[trigger] decimal(n)[i] && decimal(n)[i] <= '9',
        decimal(n).len() > 0,
        n > 0 ==> decimal(n)[0] != '0',
    decreases n,
{
    let d = decimal(n);
    if n < 10 {
        assert(d.drop_last() =~= Seq::empty());
        assert(number_of(d.drop_last()) == 0);
    } else {
        law_numbers_are_written_in_decimal(n / 10);
        assert(d.drop_last() =~= decimal(n / 10));
        assert(d[0] == decimal(n / 10)[0]);
    }
}

/// Texts are ordered by the first place where they differ, and a text before its
/// continuations.
pub proof fn law_the_first_difference_orders(a: Seq<char>, b: Seq<char>, i: int)
    requires
        0 <= i <= a.len(),
        i < b.len(),
        a.take(i) == b.take(i),
        i == a.len() || a[i] < b[i],
    ensures
        before(a, b),
        !before(b, a),
    decreases i,
{
    if i > 0 {
        assert(a[0] == a.take(i)[0]);
        assert(b[0] == b.take(i)[0]);
        assert(a.drop_first().take(i - 1) =~= a.take(i).drop_first());
        assert(b.drop_first().take(i - 1) =~= b.take(i).drop_first());
        law_the_first_difference_orders(a.drop_first(), b.drop_first(), i - 1);
    }
}

/// Whether a text is a word with nothing but white space around it.
pub open spec fn spells(s: Seq<char>, word: Seq<char>) -> bool {
    exists|head: Seq<char>, tail: Seq<char>|
        {
            &&& s == #[trigger] (head + word + tail)
            &&& forall|i: int| 0 <= i < head.len() ==> is_space(#[trigger] head[i])
            &&& forall|i: int| 0 <= i < tail.len() ==> is_space(#[trigger] tail[i])
        }
}

/// A text that white space stands around, if at all.
pub open spec fn is_bare(word: Seq<char>) -> bool {
    word.len() > 0 ==> !is_space(word[0]) && !is_space(word.last())
}

/// A bare word is what trimming gives of exactly the texts that spell it.
pub proof fn law_trimming_gives_bare_words(s: Seq<char>, word: Seq<char>)
    ensures
        trimmed(s) == word <==> is_bare(word) && spells(s, word),
{
    law_trimming_takes_white_space_off(s);
    let kept = trimmed(s);
    if kept == word {
        let i = choose|i: int|
            {
                &&& 0 <= i
                &&& i + kept.len() <= s.len()
                &&& kept == #[trigger] s.subrange(i, i + kept.len())
                &&& forall|j: int| 0 <= j < i ==> is_space(#[trigger] s[j])
                &&& forall|j: int|
                    i + kept.len() <= j < s.len() ==> is_space(#[trigger] s[j])
            };
        let head = s.take(i);
        let tail = s.skip(i + kept.len());
        assert(s =~= head + word + tail);
        assert(spells(s, word));
    }
    if is_bare(word) && spells(s, word) {
        let (head, tail) = choose|head: Seq<char>, tail: Seq<char>|
            {
                &&& s == #[trigger] (head + word + tail)
                &&& forall|i: int| 0 <= i < head.len() ==> is_space(#[trigger] head[i])
                &&& forall|i: int| 0 <= i < tail.len() ==> is_space(#[trigger] tail[i])
            };
        law_white_space_around_a_text_is_trimmed(head, word, tail);
    }
}

} // verus!
