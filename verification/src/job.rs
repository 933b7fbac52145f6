//! The per-node Jobs: what they are called, how they are tracked and what became of them.

use crate::args::DEFAULT_TRACKING_LABEL_PREFIX;
use crate::labels;
use crate::nodes;
use crate::objects::{Condition, JobRecord};
use crate::text;
use vstd::prelude::*;
use vstd::string::*;

verus! {

/// The labels stamped on created Jobs. Two dispatchers sharing a namespace need different
/// prefixes to not read each other's Jobs.
#[derive(Debug)]
pub struct TrackingLabels {
    pub owner: String,
    pub node: String,
    pub node_name: String,
}

impl TrackingLabels {
    /// The labels below a prefix.
    pub fn with_prefix(prefix: &str) -> (r: Self)
        ensures
            r.owner@ == nodes::key_below(nodes::label_prefix(prefix@), "owner"@),
            r.node@ == nodes::key_below(nodes::label_prefix(prefix@), "node"@),
            r.node_name@ == nodes::key_below(nodes::label_prefix(prefix@), "node-name"@),
    {
        let prefix: &str = text::strip_end(text::trim(prefix), '/');
        TrackingLabels {
            owner: prefix.to_string().concat("/").concat("owner"),
            node: prefix.to_string().concat("/").concat("node"),
            node_name: prefix.to_string().concat("/").concat("node-name"),
        }
    }
}

impl Default for TrackingLabels {
    fn default() -> (r: Self)
        ensures
            r.owner@ == nodes::key_below(
                nodes::label_prefix(DEFAULT_TRACKING_LABEL_PREFIX@),
                "owner"@,
            ),
            r.node@ == nodes::key_below(
                nodes::label_prefix(DEFAULT_TRACKING_LABEL_PREFIX@),
                "node"@,
            ),
            r.node_name@ == nodes::key_below(
                nodes::label_prefix(DEFAULT_TRACKING_LABEL_PREFIX@),
                "node-name"@,
            ),
    {
        TrackingLabels::with_prefix(DEFAULT_TRACKING_LABEL_PREFIX)
    }
}

/// Whether a Job carries the owner label at this value.
pub open spec fn is_owned_by(job: JobRecord, tracking: TrackingLabels, owner: Seq<char>) -> bool {
    labels::lookup(labels::or_empty(job.labels), tracking.owner@) == Some(owner)
}

/// Whether a Job carries the owner label at this value.
pub fn job_owned_by(job: &JobRecord, tracking: &TrackingLabels, owner_value: &str) -> (r: bool)
    ensures
        r == is_owned_by(*job, *tracking, owner_value@),
{
    match nodes::get_from(&job.labels, tracking.owner.as_str()) {
        Some(value) => text::same(value, owner_value),
        None => false,
    }
}

/// What became of a Job.
#[derive(Debug, Clone, Copy, PartialEq, Eq, Structural)]
pub enum JobOutcome {
    Succeeded,
    Failed,
    Running,
}

/// What a list of conditions says became of a Job: the first of `Complete` and `Failed`
/// that holds.
pub open spec fn outcome_among(conditions: Seq<Condition>) -> JobOutcome
    decreases conditions.len(),
{
    if conditions.len() == 0 {
        JobOutcome::Running
    } else if conditions[0].status@ == "True"@ && conditions[0].type_@ == "Complete"@ {
        JobOutcome::Succeeded
    } else if conditions[0].status@ == "True"@ && conditions[0].type_@ == "Failed"@ {
        JobOutcome::Failed
    } else {
        outcome_among(conditions.drop_first())
    }
}

/// What became of a Job.
pub open spec fn outcome_of(job: JobRecord) -> JobOutcome {
    match job.conditions {
        Some(conditions) => outcome_among(conditions@),
        None => JobOutcome::Running,
    }
}

/// What became of a Job.
#[verifier::loop_isolation(false)]
pub fn interpret_status(job: &JobRecord) -> (r: JobOutcome)
    ensures
        r == outcome_of(*job),
{
    let conditions: &Vec<Condition> = match &job.conditions {
        Some(conditions) => conditions,
        None => {
            return JobOutcome::Running;
        },
    };
    let mut i: usize = 0;
    assert(conditions@.skip(0) =~= conditions@);
    while i < conditions.len()
        invariant
            i <= conditions@.len(),
            outcome_among(conditions@) == outcome_among(conditions@.skip(i as int)),
        decreases conditions@.len() - i,
    {
        assert(conditions@.skip(i as int).drop_first() =~= conditions@.skip(i + 1));
        if text::same(conditions[i].status.as_str(), "True") {
            if text::same(conditions[i].type_.as_str(), "Complete") {
                return JobOutcome::Succeeded;
            }
            if text::same(conditions[i].type_.as_str(), "Failed") {
                return JobOutcome::Failed;
            }
        }
        i = i + 1;
    }
    JobOutcome::Running
}

/// A lower-case letter or a digit.
pub open spec fn is_plain(c: char) -> bool {
    ('a' <= c && c <= 'z') || ('0' <= c && c <= '9')
}

/// A letter or a digit.
pub open spec fn is_alnum(c: char) -> bool {
    is_plain(c) || ('A' <= c && c <= 'Z')
}

/// A character of a DNS-1123 label: upper case goes to lower case, and everything else
/// that is not allowed goes to `-`.
pub open spec fn dns_char(c: char) -> char {
    if is_plain(c) {
        c
    } else if 'A' <= c && c <= 'Z' {
        ((c as u32) + 32) as char
    } else {
        '-'
    }
}

/// A text without the `-` at its start.
pub open spec fn without_leading_dashes(s: Seq<char>) -> Seq<char>
    decreases s.len(),
{
    if s.len() > 0 && s[0] == '-' {
        without_leading_dashes(s.drop_first())
    } else {
        s
    }
}

/// A text as a DNS-1123 label, whatever its length; nothing of it may be left.
pub open spec fn dns_text(s: Seq<char>) -> Seq<char> {
    text::end_stripped(without_leading_dashes(s.map_values(|c: char| dns_char(c))), '-')
}

/// A character of a DNS-1123 label.
fn to_dns_char(c: char) -> (r: char)
    ensures
        r == dns_char(c),
{
    if ('a' <= c && c <= 'z') || ('0' <= c && c <= '9') {
        c
    } else if 'A' <= c && c <= 'Z' {
        let small: u8 = (c as u8) + 32;
        small as char
    } else {
        '-'
    }
}

/// A text as a DNS-1123 label, whatever its length.
fn to_dns(content: &str) -> (r: String)
    ensures
        r@ == dns_text(content@),
{
    let cs: Vec<char> = text::chars_of(content);
    let mut mapped: String = String::new();
    let ghost f = |c: char| dns_char(c);
    let mut i: usize = 0;
    assert(mapped@ =~= content@.take(0).map_values(f));
    while i < cs.len()
        invariant
            i <= cs@.len(),
            cs@ == content@,
            f == (|c: char| dns_char(c)),
            mapped@ == content@.take(i as int).map_values(f),
        decreases cs@.len() - i,
    {
        mapped.push(to_dns_char(cs[i]));
        assert(content@.take(i + 1).map_values(f) =~= content@.take(i as int).map_values(f).push(
            f(cs@[i as int]),
        ));
        i = i + 1;
    }
    assert(content@.take(content@.len() as int) =~= content@);
    let start: &str = strip_start(mapped.as_str());
    text::strip_end(start, '-').to_string()
}

/// The text without the `-` at its start.
fn strip_start(content: &str) -> (r: &str)
    ensures
        r@ == without_leading_dashes(content@),
{
    let cs: Vec<char> = text::chars_of(content);
    let n: usize = cs.len();
    let mut i: usize = 0;
    assert(content@.subrange(0, n as int) =~= content@);
    while i < n && cs[i] == '-'
        invariant
            i <= n,
            n == cs@.len(),
            cs@ == content@,
            without_leading_dashes(content@) == without_leading_dashes(
                content@.subrange(i as int, n as int),
            ),
        decreases n - i,
    {
        assert(content@.subrange(i as int, n as int).drop_first() =~= content@.subrange(
            i + 1,
            n as int,
        ));
        i = i + 1;
    }
    content.substring_char(i, n)
}

/// A node's name as part of an object's name.
pub fn sanitize_node(name: &str) -> (r: String)
    ensures
        r@ == dns_text(name@),
{
    to_dns(name)
}

/// The longest name that a Job can have, and the longest value of a label.
pub const NAME_LIMIT: usize = 63;

/// A character of a label value: everything that is not allowed goes to `-`.
pub open spec fn value_char(c: char) -> char {
    if is_alnum(c) || c == '-' || c == '_' || c == '.' {
        c
    } else {
        '-'
    }
}

/// A text without what a label value may not end in.
pub open spec fn ends_alnum(s: Seq<char>) -> Seq<char>
    decreases s.len(),
{
    if s.len() > 0 && !is_alnum(s.last()) {
        ends_alnum(s.drop_last())
    } else {
        s
    }
}

/// A text without what a label value may not start with.
pub open spec fn starts_alnum(s: Seq<char>) -> Seq<char>
    decreases s.len(),
{
    if s.len() > 0 && !is_alnum(s[0]) {
        starts_alnum(s.drop_first())
    } else {
        s
    }
}

/// The start of a text, up to a length.
pub open spec fn clipped(s: Seq<char>, limit: nat) -> Seq<char> {
    if s.len() > limit {
        s.take(limit as int)
    } else {
        s
    }
}

/// A text as a label value.
pub open spec fn value_text(s: Seq<char>) -> Seq<char> {
    ends_alnum(clipped(starts_alnum(s.map_values(|c: char| value_char(c))), NAME_LIMIT as nat))
}

/// Whether a character is a letter or a digit.
fn alnum(c: char) -> (r: bool)
    ensures
        r == is_alnum(c),
{
    ('a' <= c && c <= 'z') || ('0' <= c && c <= '9') || ('A' <= c && c <= 'Z')
}

/// A text as a label value: callers pass raw values such as a Helm release name.
pub fn sanitize_label_value(content: &str) -> (r: String)
    ensures
        r@ == value_text(content@),
{
    let cs: Vec<char> = text::chars_of(content);
    let mut mapped: String = String::new();
    let ghost f = |c: char| value_char(c);
    let mut i: usize = 0;
    assert(mapped@ =~= content@.take(0).map_values(f));
    while i < cs.len()
        invariant
            i <= cs@.len(),
            cs@ == content@,
            f == (|c: char| value_char(c)),
            mapped@ == content@.take(i as int).map_values(f),
        decreases cs@.len() - i,
    {
        let c: char = cs[i];
        if alnum(c) || c == '-' || c == '_' || c == '.' {
            mapped.push(c);
        } else {
            mapped.push('-');
        }
        assert(content@.take(i + 1).map_values(f) =~= content@.take(i as int).map_values(f).push(
            f(c),
        ));
        i = i + 1;
    }
    assert(content@.take(content@.len() as int) =~= content@);
    let ms: Vec<char> = text::chars_of(mapped.as_str());
    let n: usize = ms.len();
    let mut from: usize = 0;
    assert(mapped@.subrange(0, n as int) =~= mapped@);
    while from < n && !alnum(ms[from])
        invariant
            from <= n,
            n == ms@.len(),
            ms@ == mapped@,
            starts_alnum(mapped@) == starts_alnum(mapped@.subrange(from as int, n as int)),
        decreases n - from,
    {
        assert(mapped@.subrange(from as int, n as int).drop_first() =~= mapped@.subrange(
            from + 1,
            n as int,
        ));
        from = from + 1;
    }
    let stop: usize = if n - from > NAME_LIMIT {
        from + NAME_LIMIT
    } else {
        n
    };
    let ghost rest = mapped@.subrange(from as int, n as int);
    assert(mapped@.subrange(from as int, stop as int) =~= clipped(rest, NAME_LIMIT as nat));
    let mut to: usize = stop;
    while to > from && !alnum(ms[to - 1])
        invariant
            from <= to <= stop,
            stop <= n,
            n == ms@.len(),
            ms@ == mapped@,
            ends_alnum(mapped@.subrange(from as int, stop as int)) == ends_alnum(
                mapped@.subrange(from as int, to as int),
            ),
        decreases to,
    {
        assert(mapped@.subrange(from as int, to as int).drop_last() =~= mapped@.subrange(
            from as int,
            to - 1,
        ));
        to = to - 1;
    }
    mapped.as_str().substring_char(from, to).to_string()
}

/// Where the hash of an identity starts.
pub const HASH_START: u64 = 0xcbf29ce484222325;

/// What the hash of an identity is multiplied by at each character.
pub const HASH_FACTOR: u64 = 0x100000001b3;

/// The hash of a text (FNV-1a over its characters).
pub open spec fn hashed(s: Seq<char>) -> u64
    decreases s.len(),
{
    if s.len() == 0 {
        HASH_START
    } else {
        (hashed(s.drop_last()) ^ (s.last() as u64)).wrapping_mul(HASH_FACTOR)
    }
}

/// The hash of a text.
fn hash(content: &str) -> (r: u64)
    ensures
        r == hashed(content@),
{
    let cs: Vec<char> = text::chars_of(content);
    let mut h: u64 = HASH_START;
    let mut i: usize = 0;
    while i < cs.len()
        invariant
            i <= cs@.len(),
            cs@ == content@,
            h == hashed(content@.take(i as int)),
        decreases cs@.len() - i,
    {
        proof {
            assert(content@.take(i + 1).drop_last() =~= content@.take(i as int));
            assert(content@.take(i + 1).last() == cs@[i as int]);
        }
        let c: u64 = cs[i] as u64;
        h = (h ^ c).wrapping_mul(HASH_FACTOR);
        i = i + 1;
    }
    assert(content@.take(content@.len() as int) =~= content@);
    h
}

/// A hexadecimal digit.
pub open spec fn hex_digit(d: int) -> char {
    if d < 10 {
        ('0' as u32 + d) as char
    } else {
        ('a' as u32 + d - 10) as char
    }
}

/// The last `count` hexadecimal digits of a number.
pub open spec fn hex_text(n: int, count: nat) -> Seq<char>
    decreases count,
{
    if count == 0 {
        Seq::empty()
    } else {
        hex_text(n / 16, (count - 1) as nat).push(hex_digit(n % 16))
    }
}

/// Writes the last `count` hexadecimal digits of a number.
fn hex(n: u64, count: u32) -> (r: String)
    ensures
        r@ == hex_text(n as int, count as nat),
    decreases count,
{
    if count == 0 {
        let r: String = String::new();
        assert(r@ =~= hex_text(n as int, 0));
        return r;
    }
    let mut r: String = hex(n / 16, count - 1);
    let d: u8 = (n % 16) as u8;
    let c: char = if d < 10 {
        (48 + d) as char
    } else {
        (87 + d) as char
    };
    r.push(c);
    r
}

/// How much of a name is kept before a hash.
pub const STEM_LIMIT: usize = 46;

/// What a node's Job is called: the prefix and the node, where that is a name already, and
/// otherwise what it sanitizes to, with a hash of the full identity behind it.
pub open spec fn job_name_text(prefix: Seq<char>, node: Seq<char>) -> Seq<char> {
    let whole = prefix + "-"@ + node;
    let safe = dns_text(whole);
    if safe == whole && whole.len() <= NAME_LIMIT {
        whole
    } else {
        let stem = text::end_stripped(clipped(safe, STEM_LIMIT as nat), '-');
        (if stem.len() > 0 {
            stem
        } else {
            "job"@
        }) + "-"@ + hex_text(hashed(prefix + "/"@ + node) as int, 16)
    }
}

/// What a node's Job is called.
pub fn job_name(prefix: &str, node: &str) -> (r: String)
    ensures
        r@ == job_name_text(prefix@, node@),
{
    let whole: String = prefix.to_string().concat("-").concat(node);
    let safe: String = to_dns(whole.as_str());
    if text::same(safe.as_str(), whole.as_str()) && whole.as_str().unicode_len() <= NAME_LIMIT {
        return whole;
    }
    let length: usize = safe.as_str().unicode_len();
    let kept: usize = if length > STEM_LIMIT {
        STEM_LIMIT
    } else {
        length
    };
    let clip: &str = safe.as_str().substring_char(0, kept);
    assert(clip@ =~= clipped(safe@, STEM_LIMIT as nat));
    let stem: &str = text::strip_end(clip, '-');
    let identity: String = prefix.to_string().concat("/").concat(node);
    let tail: String = hex(hash(identity.as_str()), 16);
    let start: &str = if stem.is_empty() {
        "job"
    } else {
        stem
    };
    start.to_string().concat("-").concat(tail.as_str())
}

/// A DNS-1123 label.
pub open spec fn is_dns_label(s: Seq<char>) -> bool {
    &&& 1 <= s.len() <= NAME_LIMIT
    &&& forall|i: int| 0 <= i < s.len() ==> is_plain(#[trigger] s[i]) || s[i] == '-'
    &&& is_plain(s[0])
    &&& is_plain(s.last())
}

/// Stripping the end of a text keeps a start of it that ends in something else.
proof fn lemma_end_stripped(s: Seq<char>, c: char)
    ensures
        text::end_stripped(s, c).len() <= s.len(),
        forall|i: int|
            0 <= i < text::end_stripped(s, c).len() ==> #[trigger] text::end_stripped(s, c)[i]
                == s[i],
        text::end_stripped(s, c).len() > 0 ==> text::end_stripped(s, c).last() != c,
    decreases s.len(),
{
    if s.len() > 0 && s.last() == c {
        lemma_end_stripped(s.drop_last(), c);
    }
}

/// Stripping the start of a text keeps an end of it that starts with something else.
proof fn lemma_without_leading_dashes(s: Seq<char>)
    ensures
        ({
            let t = without_leading_dashes(s);
            &&& t.len() <= s.len()
            &&& forall|i: int| 0 <= i < t.len() ==> #[trigger] t[i] == s[s.len() - t.len() + i]
            &&& t.len() > 0 ==> t[0] != '-'
        }),
    decreases s.len(),
{
    if s.len() > 0 && s[0] == '-' {
        lemma_without_leading_dashes(s.drop_first());
    }
}

/// What a text sanitizes to holds only what a DNS-1123 label may, and neither starts nor
/// ends with a dash.
pub proof fn law_sanitized_text_is_dns_safe(s: Seq<char>)
    ensures
        forall|i: int|
            0 <= i < dns_text(s).len() ==> is_plain(#[trigger] dns_text(s)[i]) || dns_text(s)[i]
                == '-',
        dns_text(s).len() > 0 ==> is_plain(dns_text(s)[0]) && is_plain(dns_text(s).last()),
{
    let mapped = s.map_values(|c: char| dns_char(c));
    let cut = without_leading_dashes(mapped);
    let t = dns_text(s);
    lemma_without_leading_dashes(mapped);
    lemma_end_stripped(cut, '-');
    assert forall|i: int| 0 <= i < t.len() implies is_plain(#[trigger] t[i]) || t[i] == '-' by {
        assert(t[i] == cut[i]);
        let k = mapped.len() - cut.len() + i;
        assert(cut[i] == mapped[k]);
        assert(mapped[k] == dns_char(s[k]));
    }
    if t.len() > 0 {
        assert(t[0] == cut[0]);
    }
}

/// The hexadecimal digits of a number are characters that a DNS-1123 label may hold.
proof fn lemma_hex_is_plain(n: int, count: nat)
    requires
        n >= 0,
    ensures
        hex_text(n, count).len() == count,
        forall|i: int| 0 <= i < count ==> is_plain(#[trigger] hex_text(n, count)[i]),
    decreases count,
{
    if count > 0 {
        lemma_hex_is_plain(n / 16, (count - 1) as nat);
        assert(is_plain(hex_digit(n % 16)));
    }
}

/// Every generated Job name is a DNS-1123 label.
pub proof fn law_job_names_are_dns_safe(prefix: Seq<char>, node: Seq<char>)
    ensures
        is_dns_label(job_name_text(prefix, node)),
{
    reveal_strlit("-");
    reveal_strlit("job");
    let whole = prefix + "-"@ + node;
    let safe = dns_text(whole);
    law_sanitized_text_is_dns_safe(whole);
    let name = job_name_text(prefix, node);
    if !(safe == whole && whole.len() <= NAME_LIMIT) {
        let clip = clipped(safe, STEM_LIMIT as nat);
        let stem = text::end_stripped(clip, '-');
        let start = if stem.len() > 0 {
            stem
        } else {
            "job"@
        };
        let h = hashed(prefix + "/"@ + node) as int;
        let tail = hex_text(h, 16);
        lemma_end_stripped(clip, '-');
        lemma_hex_is_plain(h, 16);
        assert(name == start + "-"@ + tail);
        assert forall|i: int| 0 <= i < start.len() implies is_plain(#[trigger] start[i]) || start[i]
            == '-' by {
            if stem.len() > 0 {
                assert(start[i] == clip[i]);
                assert(clip[i] == safe[i]);
            }
        }
        assert(is_plain(start[0])) by {
            if stem.len() > 0 {
                assert(stem[0] == clip[0]);
                assert(clip[0] == safe[0]);
            }
        }
        assert forall|i: int| 0 <= i < name.len() implies is_plain(#[trigger] name[i]) || name[i]
            == '-' by {
            if i < start.len() {
                assert(name[i] == start[i]);
            } else if i > start.len() {
                assert(name[i] == tail[i - start.len() - 1]);
            }
        }
        assert(name[0] == start[0]);
        assert(name.last() == tail[15]);
    }
}

/// Whether a node's Job is called by its prefix and node alone.
pub open spec fn is_verbatim(prefix: Seq<char>, node: Seq<char>) -> bool {
    let whole = prefix + "-"@ + node;
    dns_text(whole) == whole && whole.len() <= NAME_LIMIT
}

/// Of one prefix, two nodes whose Jobs are called by their names alone never share a Job.
pub proof fn law_verbatim_names_stay_distinct(prefix: Seq<char>, one: Seq<char>, other: Seq<char>)
    requires
        is_verbatim(prefix, one),
        is_verbatim(prefix, other),
        job_name_text(prefix, one) == job_name_text(prefix, other),
    ensures
        one == other,
{
    let head = prefix + "-"@;
    let a = prefix + "-"@ + one;
    let b = prefix + "-"@ + other;
    assert(a == b);
    assert(one =~= a.skip(head.len() as int));
    assert(other =~= b.skip(head.len() as int));
}

/// A number below a power of sixteen is told by so many hexadecimal digits.
proof fn lemma_hex_tells(a: int, b: int, count: nat)
    requires
        0 <= a < vstd::arithmetic::power::pow(16, count),
        0 <= b < vstd::arithmetic::power::pow(16, count),
        hex_text(a, count) == hex_text(b, count),
    ensures
        a == b,
    decreases count,
{
    reveal(vstd::arithmetic::power::pow);
    if count > 0 {
        let x = hex_text(a, count);
        let y = hex_text(b, count);
        assert(x.drop_last() =~= hex_text(a / 16, (count - 1) as nat));
        assert(y.drop_last() =~= hex_text(b / 16, (count - 1) as nat));
        assert(x.last() == hex_digit(a % 16));
        assert(y.last() == hex_digit(b % 16));
        lemma_hex_tells(a / 16, b / 16, (count - 1) as nat);
    }
}

/// Two Jobs that carry a hash share a name only where the hashes of their identities agree,
/// of one prefix or of two.
pub proof fn law_hashed_names_tell_their_identities(
    prefix: Seq<char>,
    node: Seq<char>,
    other_prefix: Seq<char>,
    other_node: Seq<char>,
)
    requires
        !is_verbatim(prefix, node),
        !is_verbatim(other_prefix, other_node),
        job_name_text(prefix, node) == job_name_text(other_prefix, other_node),
    ensures
        hashed(prefix + "/"@ + node) == hashed(other_prefix + "/"@ + other_node),
{
    let name = job_name_text(prefix, node);
    let h = hashed(prefix + "/"@ + node);
    let k = hashed(other_prefix + "/"@ + other_node);
    lemma_hex_is_plain(h as int, 16);
    lemma_hex_is_plain(k as int, 16);
    assert(hex_text(h as int, 16) =~= name.skip(name.len() - 16));
    assert(hex_text(k as int, 16) =~= name.skip(name.len() - 16));
    assert(vstd::arithmetic::power::pow(16, 16) == 0x1_0000_0000_0000_0000) by {
        reveal_with_fuel(vstd::arithmetic::power::pow, 17);
    }
    lemma_hex_tells(h as int, k as int, 16);
}

/// Two nodes whose Jobs carry a hash share a Job only where the hashes of their identities
/// agree.
pub proof fn law_hashed_names_differ_with_their_hashes(
    prefix: Seq<char>,
    one: Seq<char>,
    other: Seq<char>,
)
    requires
        !is_verbatim(prefix, one),
        !is_verbatim(prefix, other),
        job_name_text(prefix, one) == job_name_text(prefix, other),
    ensures
        hashed(prefix + "/"@ + one) == hashed(prefix + "/"@ + other),
{
    law_hashed_names_tell_their_identities(prefix, one, prefix, other);
}

/// Whether a text is a value that a label can have.
pub open spec fn is_label_value(s: Seq<char>) -> bool {
    &&& s.len() <= NAME_LIMIT
    &&& forall|i: int|
        0 <= i < s.len() ==> is_alnum(#[trigger] s[i]) || s[i] == '-' || s[i] == '_' || s[i] == '.'
    &&& s.len() > 0 ==> is_alnum(s[0]) && is_alnum(s.last())
}

/// What is left of a text between its first letter or digit and its end starts with it.
proof fn lemma_starts_alnum(s: Seq<char>)
    ensures
        starts_alnum(s).len() <= s.len(),
        starts_alnum(s) == s.skip(s.len() - starts_alnum(s).len()),
        starts_alnum(s).len() > 0 ==> is_alnum(starts_alnum(s)[0]),
    decreases s.len(),
{
    if s.len() > 0 && !is_alnum(s[0]) {
        lemma_starts_alnum(s.drop_first());
        let rest = starts_alnum(s.drop_first());
        assert(s.drop_first().skip(s.len() - 1 - rest.len()) =~= s.skip(s.len() - rest.len()));
    } else {
        assert(s.skip(0) =~= s);
    }
}

/// What is left of a text up to its last letter or digit ends with it.
proof fn lemma_ends_alnum(s: Seq<char>)
    ensures
        ends_alnum(s).len() <= s.len(),
        ends_alnum(s) == s.take(ends_alnum(s).len() as int),
        ends_alnum(s).len() > 0 ==> is_alnum(ends_alnum(s).last()),
    decreases s.len(),
{
    if s.len() > 0 && !is_alnum(s.last()) {
        lemma_ends_alnum(s.drop_last());
        let rest = ends_alnum(s.drop_last());
        assert(s.drop_last().take(rest.len() as int) =~= s.take(rest.len() as int));
    } else {
        assert(s.take(s.len() as int) =~= s);
    }
}

/// Whatever text a caller passes, what a label gets of it is a value that a label can have.
pub proof fn law_label_values_are_legal(s: Seq<char>)
    ensures
        is_label_value(value_text(s)),
{
    let mapped = s.map_values(|c: char| value_char(c));
    let started = starts_alnum(mapped);
    let short = clipped(started, NAME_LIMIT as nat);
    lemma_starts_alnum(mapped);
    lemma_ends_alnum(short);
    let out = value_text(s);
    assert forall|i: int| 0 <= i < out.len() implies is_alnum(#[trigger] out[i]) || out[i] == '-'
        || out[i] == '_' || out[i] == '.' by {
        let j = mapped.len() - started.len() + i;
        assert(out[i] == short[i]);
        assert(short[i] == started[i]);
        assert(started[i] == mapped[j]);
        assert(mapped[j] == value_char(s[j]));
    }
    if out.len() > 0 {
        assert(out[0] == short[0]);
        assert(short[0] == started[0]);
    }
}

/// The hash of an identity is FNV-1a over its characters, in 64 bits: it starts at the offset
/// basis, and each character is mixed in before the product with the prime is taken.
pub proof fn law_identities_are_hashed_by_fnv_1a(s: Seq<char>, c: char)
    ensures
        hashed(Seq::empty()) == 0xcbf29ce484222325u64,
        hashed(s.push(c)) as int == ((hashed(s) ^ (c as u64)) as int * 0x100000001b3) % (
        0x1_0000_0000_0000_0000int),
{
    assert(s.push(c).drop_last() =~= s);
}

/// Two numbers that agree but for their last bits differ by little.
proof fn lemma_close_bits(x: u64, y: u64)
    requires
        (x ^ y) < 0x20_0000u64,
    ensures
        -0x20_0000 < x - y < 0x20_0000,
{
    assert((x ^ y) < 0x20_0000u64 ==> x >> 21 == y >> 21) by (bit_vector);
    assert(x == (x >> 21) * 0x20_0000 + (x & 0x1f_ffff)) by (bit_vector);
    assert(y == (y >> 21) * 0x20_0000 + (y & 0x1f_ffff)) by (bit_vector);
    assert((x & 0x1f_ffff) < 0x20_0000) by (bit_vector);
    assert((y & 0x1f_ffff) < 0x20_0000) by (bit_vector);
}

/// One step of the hash spreads two numbers that differ in their last bits only: no
/// character makes up for the difference.
proof fn lemma_steps_spread(x: u64, y: u64)
    requires
        (x ^ y) < 0x20_0000u64,
        x != y,
    ensures
        (x.wrapping_mul(0x100000001b3) ^ y.wrapping_mul(0x100000001b3)) >= 0x20_0000u64,
{
    let a = x.wrapping_mul(0x100000001b3);
    let b = y.wrapping_mul(0x100000001b3);
    let whole = 0x1_0000_0000_0000_0000int;
    let p = 0x100000001b3int;
    lemma_close_bits(x, y);
    if (a ^ b) < 0x20_0000u64 {
        lemma_close_bits(a, b);
        let j = (x * p) / whole;
        let k = (y * p) / whole;
        assert(a == x * p - j * whole) by {
            vstd::arithmetic::div_mod::lemma_fundamental_div_mod(x * p, whole);
        }
        assert(b == y * p - k * whole) by {
            vstd::arithmetic::div_mod::lemma_fundamental_div_mod(y * p, whole);
        }
        let d = x - y;
        assert(a - b == d * p - (j - k) * whole);
    }
}

/// A step of the hash loses nothing: equal results come from equal starts.
proof fn lemma_steps_lose_nothing(x: u64, y: u64)
    requires
        x.wrapping_mul(0x100000001b3) == y.wrapping_mul(0x100000001b3),
    ensures
        x == y,
{
    let whole = 0x1_0000_0000_0000_0000int;
    let p = 0x100000001b3int;
    // The inverse of the prime.
    let q = 0xce965057aff6957bint;
    assert(p * q == 1 + (p * q / whole) * whole);
    lemma_undone(x, p, q);
    lemma_undone(y, p, q);
}

/// Multiplying by the inverse undoes the product.
proof fn lemma_undone(x: u64, p: int, q: int)
    requires
        p == 0x100000001b3int,
        q == 0xce965057aff6957bint,
    ensures
        ((x.wrapping_mul(0x100000001b3) as int) * q) % 0x1_0000_0000_0000_0000int == x,
{
    let whole = 0x1_0000_0000_0000_0000int;
    let a = x.wrapping_mul(0x100000001b3) as int;
    let j = (x * p) / whole;
    let n = p * q / whole;
    vstd::arithmetic::div_mod::lemma_fundamental_div_mod(x * p, whole);
    assert(a == x * p - j * whole);
    assert(p * q == 1 + n * whole);
    assert(a * q == x * (p * q) - (j * q) * whole) by (nonlinear_arith)
        requires
            a == x * p - j * whole,
    ;
    assert(x * (p * q) == x + (x * n) * whole) by (nonlinear_arith)
        requires
            p * q == 1 + n * whole,
    ;
    let m = x * n - j * q;
    assert(a * q == m * whole + x) by (nonlinear_arith)
        requires
            a * q == x * (p * q) - (j * q) * whole,
            x * (p * q) == x + (x * n) * whole,
            m == x * n - j * q,
    ;
    vstd::arithmetic::div_mod::lemma_fundamental_div_mod_converse(a * q, whole, m, x as int);
}

/// What follows two texts tells their hashes no less apart: the whole texts agree in their
/// hashes only where their starts do.
pub proof fn law_a_common_end_keeps_hashes_apart(one: Seq<char>, other: Seq<char>, tail: Seq<char>)
    ensures
        hashed(one + tail) == hashed(other + tail) <==> hashed(one) == hashed(other),
    decreases tail.len(),
{
    if tail.len() == 0 {
        assert(one + tail =~= one);
        assert(other + tail =~= other);
    } else {
        let rest = tail.drop_last();
        let c = tail.last() as u64;
        law_a_common_end_keeps_hashes_apart(one, other, rest);
        assert((one + tail).drop_last() =~= one + rest);
        assert((other + tail).drop_last() =~= other + rest);
        let x = hashed(one + rest);
        let y = hashed(other + rest);
        if hashed(one + tail) == hashed(other + tail) {
            lemma_steps_lose_nothing(x ^ c, y ^ c);
            assert(x ^ c == y ^ c ==> x == y) by (bit_vector);
        }
    }
}

/// Two identities that differ in nothing but two neighbouring characters never share a
/// hash, wherever these stand: neither a changed character nor two that changed places are
/// lost in it.
pub proof fn law_neighbouring_changes_change_the_hash(
    head: Seq<char>,
    a0: char,
    a1: char,
    b0: char,
    b1: char,
    tail: Seq<char>,
)
    requires
        a0 != b0 || a1 != b1,
    ensures
        hashed(head + seq![a0, a1] + tail) != hashed(head + seq![b0, b1] + tail),
{
    let a = head + seq![a0, a1];
    let b = head + seq![b0, b1];
    let h = hashed(head);
    let c0 = a0 as u64;
    let c1 = a1 as u64;
    let d0 = b0 as u64;
    let d1 = b1 as u64;
    assert(a.drop_last().drop_last() =~= head);
    assert(b.drop_last().drop_last() =~= head);
    assert(a.drop_last().last() == a0);
    assert(b.drop_last().last() == b0);
    assert(hashed(a.drop_last()) == (h ^ c0).wrapping_mul(0x100000001b3));
    assert(hashed(b.drop_last()) == (h ^ d0).wrapping_mul(0x100000001b3));
    let x = h ^ c0;
    let y = h ^ d0;
    let u = x.wrapping_mul(0x100000001b3);
    let v = y.wrapping_mul(0x100000001b3);
    if hashed(a) == hashed(b) {
        lemma_steps_lose_nothing(u ^ c1, v ^ d1);
        assert(u ^ c1 == v ^ d1 && c1 < 0x20_0000u64 && d1 < 0x20_0000u64 ==> (u ^ v)
            < 0x20_0000u64) by (bit_vector);
        assert(c0 < 0x20_0000u64 && d0 < 0x20_0000u64 && x == h ^ c0 && y == h ^ d0 ==> (x ^ y)
            < 0x20_0000u64) by (bit_vector);
        if x == y {
            assert(u ^ c1 == v ^ d1 && u == v ==> c1 == d1) by (bit_vector);
            assert(x == h ^ c0 && y == h ^ d0 && x == y ==> c0 == d0) by (bit_vector);
        } else {
            lemma_steps_spread(x, y);
        }
    }
    law_a_common_end_keeps_hashes_apart(a, b, tail);
}

/// Two nodes of one prefix whose Jobs carry a hash, and whose names differ in nothing but two
/// neighbouring characters, get a Job each.
pub proof fn law_neighbouring_names_get_a_job_each(
    prefix: Seq<char>,
    head: Seq<char>,
    a0: char,
    a1: char,
    b0: char,
    b1: char,
    tail: Seq<char>,
)
    requires
        a0 != b0 || a1 != b1,
        !is_verbatim(prefix, head + seq![a0, a1] + tail),
        !is_verbatim(prefix, head + seq![b0, b1] + tail),
    ensures
        job_name_text(prefix, head + seq![a0, a1] + tail) != job_name_text(
            prefix,
            head + seq![b0, b1] + tail,
        ),
{
    let start = prefix + "/"@ + head;
    let a = head + seq![a0, a1] + tail;
    let b = head + seq![b0, b1] + tail;
    law_neighbouring_changes_change_the_hash(start, a0, a1, b0, b1, tail);
    assert(start + seq![a0, a1] + tail =~= prefix + "/"@ + a);
    assert(start + seq![b0, b1] + tail =~= prefix + "/"@ + b);
    if job_name_text(prefix, a) == job_name_text(prefix, b) {
        law_hashed_names_differ_with_their_hashes(prefix, a, b);
    }
}

/// A condition of a Job that holds.
pub open spec fn holds(condition: Condition, type_: Seq<char>) -> bool {
    condition.type_@ == type_ && condition.status@ == "True"@
}

/// A Job has ended where one of its conditions says so, wherever that one stands and whatever
/// others there are: it succeeded where `Complete` holds and `Failed` does not, failed
/// where it is the other way round, and is running only where neither holds.
pub proof fn law_a_job_has_ended_where_it_says_so(job: JobRecord)
    requires
        job.conditions is Some,
    ensures
        ({
            let list = job.conditions->0@;
            let complete = exists|i: int| 0 <= i < list.len() && holds(#[trigger] list[i], "Complete"@);
            let failed = exists|i: int| 0 <= i < list.len() && holds(#[trigger] list[i], "Failed"@);
            &&& complete && !failed ==> outcome_of(job) == JobOutcome::Succeeded
            &&& failed && !complete ==> outcome_of(job) == JobOutcome::Failed
            &&& outcome_of(job) == JobOutcome::Running <==> !complete && !failed
        }),
{
    let list = job.conditions->0@;
    lemma_outcome_among(list);
}

/// What a Job says first is what became of it.
pub proof fn law_the_first_end_counts(job: JobRecord, at: int)
    requires
        job.conditions is Some,
        0 <= at < job.conditions->0@.len(),
        forall|j: int|
            0 <= j < at ==> !holds(#[trigger] job.conditions->0@[j], "Complete"@) && !holds(
                job.conditions->0@[j],
                "Failed"@,
            ),
    ensures
        holds(job.conditions->0@[at], "Complete"@) ==> outcome_of(job) == JobOutcome::Succeeded,
        holds(job.conditions->0@[at], "Failed"@) ==> outcome_of(job) == JobOutcome::Failed,
{
    lemma_first_end(job.conditions->0@, at);
}

/// What a list of conditions says first is what they say.
proof fn lemma_first_end(list: Seq<Condition>, at: int)
    requires
        0 <= at < list.len(),
        forall|j: int|
            0 <= j < at ==> !holds(#[trigger] list[j], "Complete"@) && !holds(list[j], "Failed"@),
    ensures
        holds(list[at], "Complete"@) ==> outcome_among(list) == JobOutcome::Succeeded,
        holds(list[at], "Failed"@) ==> outcome_among(list) == JobOutcome::Failed,
    decreases at,
{
    reveal_strlit("Complete");
    reveal_strlit("Failed");
    assert("Complete"@.len() != "Failed"@.len());
    if at > 0 {
        assert(!holds(list[0], "Complete"@));
        let rest = list.drop_first();
        assert forall|j: int| 0 <= j < at - 1 implies !holds(#[trigger] rest[j], "Complete"@)
            && !holds(rest[j], "Failed"@) by {
            assert(rest[j] == list[j + 1]);
        }
        assert(rest[at - 1] == list[at]);
        lemma_first_end(rest, at - 1);
    }
}

/// What a list of conditions says became of a Job.
proof fn lemma_outcome_among(list: Seq<Condition>)
    ensures
        ({
            let complete = exists|i: int| 0 <= i < list.len() && holds(#[trigger] list[i], "Complete"@);
            let failed = exists|i: int| 0 <= i < list.len() && holds(#[trigger] list[i], "Failed"@);
            &&& outcome_among(list) == JobOutcome::Succeeded ==> complete
            &&& outcome_among(list) == JobOutcome::Failed ==> failed
            &&& outcome_among(list) == JobOutcome::Running <==> !complete && !failed
        }),
    decreases list.len(),
{
    if list.len() > 0 {
        let rest = list.drop_first();
        lemma_outcome_among(rest);
        assert(forall|i: int| 0 <= i < rest.len() ==> #[trigger] rest[i] == list[i + 1]);
        assert(forall|i: int| 0 < i < list.len() ==> #[trigger] list[i] == rest[i - 1]);
        if outcome_among(list) == JobOutcome::Succeeded && !holds(list[0], "Complete"@) {
            let i = choose|i: int| 0 <= i < rest.len() && holds(#[trigger] rest[i], "Complete"@);
            assert(holds(list[i + 1], "Complete"@));
        }
        if outcome_among(list) == JobOutcome::Failed && !holds(list[0], "Failed"@) {
            let i = choose|i: int| 0 <= i < rest.len() && holds(#[trigger] rest[i], "Failed"@);
            assert(holds(list[i + 1], "Failed"@));
        }
        if outcome_among(list) != JobOutcome::Running {
            if outcome_among(list) == JobOutcome::Succeeded {
                assert(holds(list[0], "Complete"@) || exists|i: int|
                    0 <= i < rest.len() && holds(#[trigger] rest[i], "Complete"@));
            }
        } else {
            assert(!holds(list[0], "Complete"@));
            assert(!holds(list[0], "Failed"@));
            assert forall|i: int| 0 <= i < list.len() implies !holds(#[trigger] list[i], "Complete"@)
                && !holds(list[i], "Failed"@) by {
                if i > 0 {
                    assert(list[i] == rest[i - 1]);
                }
            }
        }
    }
}

/// Without conditions a Job is running.
pub proof fn law_a_job_that_says_nothing_is_running(job: JobRecord)
    requires
        job.conditions is None,
    ensures
        outcome_of(job) == JobOutcome::Running,
{
}

/// Letters and digits are those of ASCII.
pub proof fn law_letters_and_digits_are_ascii(c: char)
    ensures
        is_plain(c) <==> ('a' <= c && c <= 'z') || ('0' <= c && c <= '9'),
        is_alnum(c) <==> ('a' <= c && c <= 'z') || ('0' <= c && c <= '9') || ('A' <= c && c <= 'Z'),
{
}

/// Sanitizing a text that starts and ends with a letter or a digit goes character by
/// character: small letters and digits stay, capital letters become small, and everything
/// else becomes a dash.
pub proof fn law_sanitizing_goes_by_character(s: Seq<char>)
    requires
        s.len() > 0,
        is_alnum(s[0]),
        is_alnum(s.last()),
    ensures
        dns_text(s).len() == s.len(),
        forall|i: int|
            0 <= i < s.len() ==> {
                &&& is_plain(s[i]) ==> #[trigger] dns_text(s)[i] == s[i]
                &&& 'A' <= s[i] && s[i] <= 'Z' ==> dns_text(s)[i] as int == s[i] as int + 32
                &&& !is_alnum(s[i]) ==> dns_text(s)[i] == '-'
            },
{
    let mapped = s.map_values(|c: char| dns_char(c));
    assert(mapped[0] == dns_char(s[0]));
    assert(mapped.last() == dns_char(s.last()));
    assert(mapped[0] != '-');
    assert(mapped.last() != '-');
    assert(without_leading_dashes(mapped) == mapped);
    assert(dns_text(s) == mapped);
}

/// What is a DNS-1123 label already is left as it is, and a Job whose prefix and node make
/// one is called by them.
pub proof fn law_legal_names_are_used_verbatim(prefix: Seq<char>, node: Seq<char>)
    requires
        is_dns_label(prefix + "-"@ + node),
    ensures
        dns_text(prefix + "-"@ + node) == prefix + "-"@ + node,
        job_name_text(prefix, node) == prefix + "-"@ + node,
{
    let whole = prefix + "-"@ + node;
    law_sanitizing_goes_by_character(whole);
    assert(dns_text(whole) =~= whole);
}

/// What is a legal label value is left as it is.
pub proof fn law_legal_label_values_are_kept(s: Seq<char>)
    requires
        is_label_value(s),
    ensures
        value_text(s) == s,
{
    assert(s.map_values(|c: char| value_char(c)) =~= s);
    assert(starts_alnum(s) == s);
    assert(ends_alnum(s) == s);
}

/// A text of legal characters that starts with a letter or a digit is only cut: to the length
/// that a label value can have, and back to a letter or a digit.
pub proof fn law_long_label_values_are_only_cut(s: Seq<char>)
    requires
        s.len() > 0,
        is_alnum(s[0]),
        forall|i: int|
            0 <= i < s.len() ==> is_alnum(#[trigger] s[i]) || s[i] == '-' || s[i] == '_' || s[i]
                == '.',
    ensures
        value_text(s).len() <= 63,
        value_text(s) == s.take(value_text(s).len() as int),
        forall|j: int|
            value_text(s).len() <= j < s.len() && j < 63 ==> !is_alnum(#[trigger] s[j]),
{
    assert(s.map_values(|c: char| value_char(c)) =~= s);
    assert(starts_alnum(s) == s);
    let cut = clipped(s, 63);
    lemma_ends_alnum(cut);
    assert(value_text(s) =~= s.take(value_text(s).len() as int));
    lemma_cut_back(cut);
    assert forall|j: int| value_text(s).len() <= j < s.len() && j < 63 implies !is_alnum(
        #[trigger] s[j],
    ) by {
        assert(cut[j] == s[j]);
    }
}

/// Cutting back to a letter or a digit cuts nothing else.
proof fn lemma_cut_back(s: Seq<char>)
    ensures
        forall|j: int| ends_alnum(s).len() <= j < s.len() ==> !is_alnum(#[trigger] s[j]),
    decreases s.len(),
{
    if s.len() > 0 && !is_alnum(s.last()) {
        let rest = s.drop_last();
        lemma_cut_back(rest);
        assert forall|j: int| ends_alnum(s).len() <= j < s.len() implies !is_alnum(
            #[trigger] s[j],
        ) by {
            if j < rest.len() {
                assert(rest[j] == s[j]);
            }
        }
    }
}

/// A Job is owned by what its owner label says.
pub proof fn law_ownership_goes_by_the_owner_label(
    job: JobRecord,
    tracking: TrackingLabels,
    owner: Seq<char>,
)
    ensures
        is_owned_by(job, tracking, owner) <==> {
            &&& job.labels is Some
            &&& job.labels->0@.contains_key(tracking.owner@)
            &&& job.labels->0@[tracking.owner@] == owner
        },
{
}

/// A Job that carries a hash is still told by its prefix and node: its name starts with what
/// they sanitize to, cut to what fits before the hash and back from a dash, and ends in the
/// sixteen digits of the hash of both.
pub proof fn law_hashed_names_start_with_what_they_are_for(prefix: Seq<char>, node: Seq<char>)
    requires
        !is_verbatim(prefix, node),
        dns_text(prefix + "-"@ + node).len() > 0,
    ensures
        ({
            let safe = dns_text(prefix + "-"@ + node);
            let name = job_name_text(prefix, node);
            exists|n: int|
                {
                    &&& 0 < n <= safe.len()
                    &&& n <= 46
                    &&& forall|j: int| n <= j < safe.len() && j < 46 ==> safe[j] == '-'
                    &&& name == #[trigger] safe.take(n) + "-"@ + hex_text(
                        hashed(prefix + "/"@ + node) as int,
                        16,
                    )
                }
        }),
{
    let whole = prefix + "-"@ + node;
    let safe = dns_text(whole);
    law_sanitized_text_is_dns_safe(whole);
    let clip = clipped(safe, 46);
    let stem = text::end_stripped(clip, '-');
    text::law_stripping_takes_only_the_character(clip, '-');
    assert(clip[0] == safe[0]);
    let n = stem.len() as int;
    if n == 0 {
        assert(clip[0] == '-');
        assert(is_plain(safe[0]));
    }
    assert(stem =~= safe.take(n));
    assert forall|j: int| n <= j < safe.len() && j < 46 implies safe[j] == '-' by {
        assert(clip[j] == safe[j]);
    }
}

/// A number is written in small hexadecimal digits, one after the other from the highest.
pub proof fn law_hashes_are_written_in_hexadecimal(n: int, count: nat)
    requires
        n >= 0,
        count > 0,
    ensures
        hex_text(n, count).len() == count,
        hex_text(n, count).drop_last() == hex_text(n / 16, (count - 1) as nat),
        n % 16 < 10 ==> hex_text(n, count).last() as int == '0' as int + n % 16,
        n % 16 >= 10 ==> hex_text(n, count).last() as int == 'a' as int + n % 16 - 10,
{
    lemma_hex_is_plain(n, count);
    assert(hex_text(n, count).drop_last() =~= hex_text(n / 16, (count - 1) as nat));
}

} // verus!
