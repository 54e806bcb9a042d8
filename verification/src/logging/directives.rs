//! Which lists of log directives the logging library can be given, and which it reads.
//!
//! The logging library takes a list apart at its commas and reads one directive after the
//! other, up to the first that it refuses. It looks for the parts of a directive in the text
//! without the white space around it, but cuts them out of the text with that white space. A
//! place that is found so can lie inside a character of the longer text: then the library
//! panics.
use crate::text;
use tracing_subscriber::EnvFilter;
use vstd::prelude::*;

verus! {

/// Whether a list of directives is one that the logging library reads.
pub uninterp spec fn env_filter_accepts(directives: Seq<char>) -> bool;

/// The number of bytes that a character takes in a text.
pub open spec fn byte_width(c: char) -> nat {
    if (c as u32) < 0x80 {
        1
    } else if (c as u32) < 0x800 {
        2
    } else if (c as u32) < 0x10000 {
        3
    } else {
        4
    }
}

/// The number of bytes that a text takes.
pub open spec fn byte_len(s: Seq<char>) -> nat
    decreases s.len(),
{
    if s.len() == 0 {
        0
    } else {
        byte_len(s.drop_last()) + byte_width(s.last())
    }
}

/// Whether the text can be cut after so many bytes: no character lies across that place.
pub open spec fn is_boundary(s: Seq<char>, bytes: int) -> bool {
    exists|j: int| 0 <= j <= s.len() && #[trigger] byte_len(s.take(j)) == bytes
}

/// The number of characters of white space that a text starts with.
pub open spec fn lead_of(s: Seq<char>) -> nat
    decreases s.len(),
{
    if s.len() > 0 && text::is_white_space(s[0]) {
        1 + lead_of(s.skip(1))
    } else {
        0
    }
}

/// Where the reader of a directive sees character `k`, in bytes: it does not count the white
/// space in front.
pub open spec fn place_of(s: Seq<char>, k: int) -> int {
    byte_len(s.take(k)) - byte_len(s.take(lead_of(s) as int))
}

/// What the reader of a directive is in; a span and a field start at a place.
pub enum Reading {
    Start,
    /// A level, or the target before a level or a span.
    Word,
    Span(int),
    Field(int),
    /// The end of a field, before the end of its span.
    Fields,
    /// What follows a span.
    Target,
    Level,
    /// The directive was refused.
    Refused,
}

/// What the reader is in after character `k`. It refuses a first character that cannot begin
/// a directive, and a field that it cannot read: a directive that ends right there tells
/// whether it does.
pub open spec fn after_char(r: Reading, s: Seq<char>, k: int) -> Reading {
    let c = s[k];
    let at = place_of(s, k);
    match r {
        Reading::Start => if c == '[' {
            Reading::Span(at + 1)
        } else if env_filter_accepts(s.take(k + 1)) {
            Reading::Word
        } else {
            Reading::Refused
        },
        Reading::Word => if c == '=' {
            Reading::Level
        } else if c == '[' {
            Reading::Span(at + 1)
        } else {
            Reading::Word
        },
        Reading::Span(start) => if c == ']' {
            Reading::Target
        } else if c == '{' {
            Reading::Field(at + 1)
        } else {
            Reading::Span(start)
        },
        Reading::Field(start) => if c == '}' {
            if env_filter_accepts(s.take(k + 1).push(']')) {
                Reading::Fields
            } else {
                Reading::Refused
            }
        } else {
            Reading::Field(start)
        },
        Reading::Fields => if c == ']' {
            Reading::Target
        } else {
            Reading::Refused
        },
        Reading::Target => if c == '=' {
            Reading::Level
        } else {
            Reading::Refused
        },
        Reading::Level => Reading::Level,
        Reading::Refused => Reading::Refused,
    }
}

/// What the reader is in before character `k`.
pub open spec fn reading(s: Seq<char>, k: int) -> Reading
    decreases k,
{
    if k <= lead_of(s) {
        Reading::Start
    } else {
        after_char(reading(s, k - 1), s, k - 1)
    }
}

/// The places where the text is cut at character `k` are boundaries: those of the target
/// before an equals sign or a bracket, of the level after an equals sign, of a span and of a
/// field.
pub open spec fn cuts_fit(r: Reading, s: Seq<char>, k: int) -> bool {
    let c = s[k];
    let at = place_of(s, k);
    match r {
        Reading::Word => {
            &&& c == '=' ==> is_boundary(s, at) && is_boundary(s, at + 1)
            &&& c == '[' ==> is_boundary(s, at)
        },
        Reading::Span(start) => c == ']' || c == '{' ==> is_boundary(s, start) && is_boundary(
            s,
            at,
        ),
        Reading::Field(start) => c == '}' ==> is_boundary(s, start) && is_boundary(s, at),
        Reading::Target => c == '=' ==> is_boundary(s, at + 1),
        _ => true,
    }
}

/// The logging library can be given the directive: every place where it cuts the text is a
/// boundary.
pub open spec fn directive_can_be_parsed(s: Seq<char>) -> bool {
    forall|k: int| lead_of(s) <= k < s.len() ==> cuts_fit(#[trigger] reading(s, k), s, k)
}

/// The place of the last comma; -1 where there is none.
pub open spec fn last_comma(s: Seq<char>) -> int
    decreases s.len(),
{
    if s.len() == 0 {
        -1
    } else if s.last() == ',' {
        s.len() - 1
    } else {
        last_comma(s.drop_last())
    }
}

/// The logging library can be given the list: it can be given each directive that it comes
/// to, which it does where it reads what stands before.
pub open spec fn can_be_parsed(directives: Seq<char>) -> bool
    decreases directives.len(),
{
    let i = last_comma(directives);
    if 0 <= i < directives.len() {
        let front = directives.take(i);
        can_be_parsed(front) && (env_filter_accepts(front) ==> directive_can_be_parsed(
            directives.skip(i + 1),
        ))
    } else {
        directive_can_be_parsed(directives)
    }
}

/// Calls `EnvFilter::try_new` on the directives and tells whether it read them. Which lists
/// it reads is not said here. It panics where it cuts a directive inside a character; these
/// lists are left out.
#[verifier::external_body]
pub(crate) fn is_valid_filter(directives: &str) -> (r: bool)
    requires
        can_be_parsed(directives@),
    ensures
        r == env_filter_accepts(directives@),
{
    EnvFilter::try_new(directives).is_ok()
}

// ---------------------------------------------------------------------------
// Places in a text

proof fn lemma_lead(s: Seq<char>, n: nat)
    requires
        n <= s.len(),
        forall|j: int| 0 <= j < n ==> text::is_white_space(s[j]),
        n == s.len() || !text::is_white_space(s[n as int]),
    ensures
        lead_of(s) == n,
    decreases n,
{
    if n > 0 {
        assert forall|j: int| 0 <= j < n - 1 implies text::is_white_space(s.skip(1)[j]) by {
            assert(s.skip(1)[j] == s[j + 1]);
        }
        lemma_lead(s.skip(1), (n - 1) as nat);
    }
}

proof fn lemma_lead_bounds(s: Seq<char>)
    ensures
        lead_of(s) <= s.len(),
        forall|j: int| 0 <= j < lead_of(s) ==> text::is_white_space(s[j]),
        lead_of(s) < s.len() ==> !text::is_white_space(s[lead_of(s) as int]),
    decreases s.len(),
{
    if s.len() > 0 && text::is_white_space(s[0]) {
        lemma_lead_bounds(s.skip(1));
        assert forall|j: int| 0 <= j < lead_of(s) implies text::is_white_space(s[j]) by {
            if j > 0 {
                assert(s.skip(1)[j - 1] == s[j]);
            }
        }
    }
}

/// Each character adds its bytes.
proof fn lemma_next_place(s: Seq<char>, k: int)
    requires
        0 <= k < s.len(),
    ensures
        byte_len(s.take(k + 1)) == byte_len(s.take(k)) + byte_width(s[k]),
{
    assert(s.take(k + 1).drop_last() =~= s.take(k));
}

proof fn lemma_places_grow(s: Seq<char>, j: int, k: int)
    requires
        0 <= j <= k <= s.len(),
    ensures
        byte_len(s.take(j)) + (k - j) <= byte_len(s.take(k)),
        byte_len(s.take(k)) <= byte_len(s.take(j)) + 4 * (k - j),
    decreases k - j,
{
    if j < k {
        lemma_places_grow(s, j, k - 1);
        lemma_next_place(s, k - 1);
    }
}

/// Texts that start alike are cut alike, as far as they do.
proof fn lemma_boundary_of_front(s: Seq<char>, t: Seq<char>, m: int, bytes: int)
    requires
        0 <= m <= s.len(),
        m <= t.len(),
        s.take(m) == t.take(m),
        bytes <= byte_len(s.take(m)),
        is_boundary(s, bytes),
    ensures
        is_boundary(t, bytes),
{
    let j = choose|j: int| 0 <= j <= s.len() && #[trigger] byte_len(s.take(j)) == bytes;
    if j > m {
        lemma_places_grow(s, m, j);
    }
    assert(s.take(m).take(j) =~= s.take(j));
    assert(t.take(m).take(j) =~= t.take(j));
    assert(byte_len(t.take(j)) == bytes);
}

proof fn lemma_lead_of_front(s: Seq<char>, t: Seq<char>, m: int)
    requires
        0 <= m <= s.len(),
        m <= t.len(),
        s.take(m) == t.take(m),
        lead_of(s) < m,
    ensures
        lead_of(t) == lead_of(s),
        forall|k: int| 0 <= k < m ==> s[k] == t[k],
        forall|k: int| 0 <= k <= m ==> place_of(s, k) == place_of(t, k),
{
    lemma_lead_bounds(s);
    assert forall|k: int| 0 <= k < m implies s[k] == t[k] by {
        assert(s.take(m)[k] == s[k]);
        assert(t.take(m)[k] == t[k]);
    }
    lemma_lead(t, lead_of(s));
    assert forall|k: int| 0 <= k <= m implies place_of(s, k) == place_of(t, k) by {
        assert(s.take(m).take(k) =~= s.take(k));
        assert(t.take(m).take(k) =~= t.take(k));
        let n = lead_of(s) as int;
        assert(s.take(m).take(n) =~= s.take(n));
        assert(t.take(m).take(n) =~= t.take(n));
    }
}

/// Texts that start alike are read alike, as far as they do.
proof fn lemma_reading_of_front(s: Seq<char>, t: Seq<char>, m: int, k: int)
    requires
        0 <= m <= s.len(),
        m <= t.len(),
        s.take(m) == t.take(m),
        lead_of(s) < m,
        lead_of(s) <= k <= m,
    ensures
        reading(s, k) == reading(t, k),
    decreases k,
{
    lemma_lead_of_front(s, t, m);
    if k > lead_of(s) {
        lemma_reading_of_front(s, t, m, k - 1);
        assert(s.take(m).take(k) =~= s.take(k));
        assert(t.take(m).take(k) =~= t.take(k));
    }
}

/// A span or a field starts no later than where the reader is.
proof fn lemma_start_is_passed(s: Seq<char>, k: int)
    requires
        lead_of(s) <= k <= s.len(),
    ensures
        match reading(s, k) {
            Reading::Span(start) => start <= place_of(s, k),
            Reading::Field(start) => start <= place_of(s, k),
            _ => true,
        },
    decreases k,
{
    if k > lead_of(s) {
        lemma_start_is_passed(s, k - 1);
        lemma_next_place(s, k - 1);
    }
}

proof fn lemma_cuts_of_front(s: Seq<char>, t: Seq<char>, m: int, k: int)
    requires
        0 <= m <= s.len(),
        m <= t.len(),
        s.take(m) == t.take(m),
        lead_of(s) <= k < m,
        cuts_fit(reading(s, k), s, k),
    ensures
        cuts_fit(reading(t, k), t, k),
{
    lemma_lead_of_front(s, t, m);
    lemma_reading_of_front(s, t, m, k);
    lemma_start_is_passed(s, k);
    lemma_next_place(s, k);
    lemma_places_grow(s, k + 1, m);
    let at = place_of(s, k);
    assert(at + 1 <= byte_len(s.take(m)));
    if is_boundary(s, at) {
        lemma_boundary_of_front(s, t, m, at);
    }
    if is_boundary(s, at + 1) {
        lemma_boundary_of_front(s, t, m, at + 1);
    }
    match reading(s, k) {
        Reading::Span(start) => {
            if is_boundary(s, start) {
                lemma_boundary_of_front(s, t, m, start);
            }
        },
        Reading::Field(start) => {
            if is_boundary(s, start) {
                lemma_boundary_of_front(s, t, m, start);
            }
        },
        _ => {},
    }
}

/// Without white space in front, a directive is cut where it is read.
proof fn lemma_reading_without_lead(s: Seq<char>, k: int)
    requires
        lead_of(s) == 0,
        0 <= k <= s.len(),
    ensures
        match reading(s, k) {
            Reading::Span(start) => is_boundary(s, start),
            Reading::Field(start) => is_boundary(s, start),
            _ => true,
        },
    decreases k,
{
    if k > 0 {
        lemma_reading_without_lead(s, k - 1);
        lemma_next_place(s, k - 1);
        assert(byte_len(s.take(0)) == 0);
        assert(byte_len(s.take(k)) == byte_len(s.take(k)));
    }
}

/// Every directive without white space in front can be given to the logging library.
pub proof fn law_plain_directive_can_be_parsed(directive: Seq<char>)
    requires
        directive.len() > 0 ==> !text::is_white_space(directive[0]),
    ensures
        directive_can_be_parsed(directive),
{
    assert forall|k: int| lead_of(directive) <= k < directive.len() implies cuts_fit(
        #[trigger] reading(directive, k),
        directive,
        k,
    ) by {
        lemma_reading_without_lead(directive, k);
        lemma_next_place(directive, k);
        assert(byte_len(directive.take(0)) == 0);
        assert(byte_len(directive.take(k)) == place_of(directive, k));
        assert(is_boundary(directive, place_of(directive, k)));
        if byte_width(directive[k]) == 1 {
            assert(byte_len(directive.take(k + 1)) == place_of(directive, k) + 1);
        }
    }
}

// ---------------------------------------------------------------------------
// Asking beforehand

/// A [`Reading`] at run time.
#[derive(Clone, Copy)]
enum Scan {
    Start,
    Word,
    Span(u128),
    Field(u128),
    Fields,
    Target,
    Level,
    Refused,
}

impl View for Scan {
    type V = Reading;

    closed spec fn view(&self) -> Reading {
        match *self {
            Scan::Start => Reading::Start,
            Scan::Word => Reading::Word,
            Scan::Span(start) => Reading::Span(start as int),
            Scan::Field(start) => Reading::Field(start as int),
            Scan::Fields => Reading::Fields,
            Scan::Target => Reading::Target,
            Scan::Level => Reading::Level,
            Scan::Refused => Reading::Refused,
        }
    }
}

fn width(c: char) -> (r: u128)
    ensures
        r == byte_width(c),
        1 <= r <= 4,
{
    let u: u32 = c as u32;
    if u < 0x80 {
        1
    } else if u < 0x800 {
        2
    } else if u < 0x10000 {
        3
    } else {
        4
    }
}

/// The most bytes that a text takes.
const MOST_BYTES: u128 = 0x4_0000_0000_0000_0000;

fn boundary(x: &Vec<char>, bytes: u128) -> (r: bool)
    ensures
        r == is_boundary(x@, bytes as int),
{
    let mut at: u128 = 0;
    let mut j: usize = 0;
    assert(byte_len(x@.take(0)) == 0);
    while j < x.len() && at < bytes
        invariant
            j <= x.len(),
            at == byte_len(x@.take(j as int)),
            at <= 4 * j,
            forall|i: int| 0 <= i < j ==> #[trigger] byte_len(x@.take(i)) < bytes,
        decreases x.len() - j,
    {
        proof {
            lemma_next_place(x@, j as int);
        }
        at = at + width(x[j]);
        j += 1;
    }
    proof {
        if is_boundary(x@, bytes as int) {
            let i = choose|i: int|
                0 <= i <= x@.len() && #[trigger] byte_len(x@.take(i)) == bytes as int;
            if i > j {
                lemma_places_grow(x@, j as int, i);
            }
            assert(i >= j);
        }
    }
    at == bytes
}

fn lead(x: &Vec<char>) -> (r: usize)
    ensures
        r == lead_of(x@),
        r <= x@.len(),
{
    let mut n: usize = 0;
    while n < x.len() && text::white_space(x[n])
        invariant
            n <= x.len(),
            forall|j: int| 0 <= j < n ==> text::is_white_space(x@[j]),
        decreases x.len() - n,
    {
        n += 1;
    }
    proof {
        lemma_lead(x@, n as nat);
    }
    n
}

fn fits_here(scan: Scan, x: &Vec<char>, k: usize, at: u128) -> (r: bool)
    requires
        k < x@.len(),
        at == place_of(x@, k as int),
        at < MOST_BYTES,
    ensures
        r == cuts_fit(scan@, x@, k as int),
{
    let c: char = x[k];
    match scan {
        Scan::Word => if c == '=' {
            boundary(x, at) && boundary(x, at + 1)
        } else if c == '[' {
            boundary(x, at)
        } else {
            true
        },
        Scan::Span(start) => if c == ']' || c == '{' {
            boundary(x, start) && boundary(x, at)
        } else {
            true
        },
        Scan::Field(start) => if c == '}' {
            boundary(x, start) && boundary(x, at)
        } else {
            true
        },
        Scan::Target => if c == '=' {
            boundary(x, at + 1)
        } else {
            true
        },
        _ => true,
    }
}

/// A list without a comma is a single directive.
pub proof fn lemma_single_directive(s: Seq<char>)
    requires
        !s.contains(','),
    ensures
        can_be_parsed(s) == directive_can_be_parsed(s),
{
    lemma_no_comma(s);
}

proof fn lemma_no_comma(s: Seq<char>)
    requires
        !s.contains(','),
    ensures
        last_comma(s) == -1,
    decreases s.len(),
{
    if s.len() > 0 {
        assert(s.contains(s.last()));
        assert(!s.drop_last().contains(',')) by {
            if s.drop_last().contains(',') {
                let i = choose|i: int| 0 <= i < s.drop_last().len() && s.drop_last()[i] == ',';
                assert(s[i] == ',');
            }
        }
        lemma_no_comma(s.drop_last());
    }
}

/// The directive up to its first character can be given to the logging library.
proof fn lemma_first_can_be_parsed(s: Seq<char>, k: int)
    requires
        !s.contains(','),
        0 <= k < s.len(),
        k == lead_of(s),
    ensures
        can_be_parsed(s.take(k + 1)),
{
    let t = s.take(k + 1);
    assert(t.take(k + 1) =~= s.take(k + 1));
    lemma_lead_of_front(s, t, k + 1);
    assert(!t.contains(',')) by {
        if t.contains(',') {
            let i = choose|i: int| 0 <= i < t.len() && t[i] == ',';
            assert(s[i] == ',');
        }
    }
    lemma_no_comma(t);
    assert(directive_can_be_parsed(t));
}

/// The directive up to the end of a field, closed there, can be given to the logging library.
proof fn lemma_field_can_be_parsed(s: Seq<char>, k: int)
    requires
        !s.contains(','),
        lead_of(s) <= k < s.len(),
        reading(s, k) is Field,
        s[k] == '}',
        forall|j: int| lead_of(s) <= j <= k ==> cuts_fit(#[trigger] reading(s, j), s, j),
    ensures
        can_be_parsed(s.take(k + 1).push(']')),
{
    let t = s.take(k + 1).push(']');
    assert(t.take(k + 1) =~= s.take(k + 1));
    lemma_lead_of_front(s, t, k + 1);
    assert(!t.contains(',')) by {
        if t.contains(',') {
            let i = choose|i: int| 0 <= i < t.len() && t[i] == ',';
            if i <= k {
                assert(s[i] == ',');
            }
        }
    }
    lemma_no_comma(t);
    assert forall|j: int| lead_of(t) <= j < t.len() implies cuts_fit(
        #[trigger] reading(t, j),
        t,
        j,
    ) by {
        if j <= k {
            assert(cuts_fit(reading(s, j), s, j));
            lemma_cuts_of_front(s, t, k + 1, j);
        } else {
            lemma_reading_of_front(s, t, k + 1, k + 1);
            assert(reading(s, k + 1) == after_char(reading(s, k), s, k));
        }
    }
}

fn next_scan(scan: Scan, s: &str, x: &Vec<char>, k: usize, at: u128) -> (r: Scan)
    requires
        x@ == s@,
        !s@.contains(','),
        lead_of(s@) <= k < s@.len(),
        at == place_of(s@, k as int),
        at < MOST_BYTES,
        scan@ == reading(s@, k as int),
        scan@ is Start <==> k == lead_of(s@),
        forall|j: int| lead_of(s@) <= j <= k ==> cuts_fit(#[trigger] reading(s@, j), s@, j),
    ensures
        r@ == after_char(scan@, s@, k as int),
{
    let c: char = x[k];
    assert(k < x.len());
    match scan {
        Scan::Start => if c == '[' {
            Scan::Span(at + 1)
        } else {
            proof {
                lemma_first_can_be_parsed(s@, k as int);
            }
            let front = s.substring_char(0, k + 1);
            assert(front@ =~= s@.take(k + 1));
            if is_valid_filter(front) {
                Scan::Word
            } else {
                Scan::Refused
            }
        },
        Scan::Word => if c == '=' {
            Scan::Level
        } else if c == '[' {
            Scan::Span(at + 1)
        } else {
            Scan::Word
        },
        Scan::Span(start) => if c == ']' {
            Scan::Target
        } else if c == '{' {
            Scan::Field(at + 1)
        } else {
            Scan::Span(start)
        },
        Scan::Field(start) => if c == '}' {
            proof {
                lemma_field_can_be_parsed(s@, k as int);
                reveal_strlit("]");
            }
            let front = text::join(s.substring_char(0, k + 1), "]");
            assert(front@ =~= s@.take(k + 1).push(']'));
            if is_valid_filter(front.as_str()) {
                Scan::Fields
            } else {
                Scan::Refused
            }
        } else {
            Scan::Field(start)
        },
        Scan::Fields => if c == ']' {
            Scan::Target
        } else {
            Scan::Refused
        },
        Scan::Target => if c == '=' {
            Scan::Level
        } else {
            Scan::Refused
        },
        Scan::Level => Scan::Level,
        Scan::Refused => Scan::Refused,
    }
}

/// Whether the logging library can be given the directive.
fn can_parse_directive(s: &str) -> (r: bool)
    requires
        !s@.contains(','),
    ensures
        r == directive_can_be_parsed(s@),
{
    let x = text::chars_of(s);
    let start: usize = lead(&x);
    let mut scan = Scan::Start;
    let mut at: u128 = 0;
    let mut k: usize = start;
    while k < x.len()
        invariant
            x@ == s@,
            !s@.contains(','),
            start == lead_of(s@),
            start <= k <= x.len(),
            at == place_of(s@, k as int),
            at <= 4 * (k - start),
            scan@ == reading(s@, k as int),
            scan@ is Start <==> k == start,
            forall|j: int| start <= j < k ==> cuts_fit(#[trigger] reading(s@, j), s@, j),
        decreases x.len() - k,
    {
        assert(at < MOST_BYTES);
        if !fits_here(scan, &x, k, at) {
            assert(!cuts_fit(reading(s@, k as int), s@, k as int));
            return false;
        }
        let next = next_scan(scan, s, &x, k, at);
        proof {
            lemma_next_place(s@, k as int);
            assert(reading(s@, k + 1) == after_char(reading(s@, k as int), s@, k as int));
        }
        scan = next;
        at = at + width(x[k]);
        k += 1;
    }
    true
}

proof fn lemma_last_comma(s: Seq<char>, start: int, end: int)
    requires
        0 <= start <= end <= s.len(),
        start == 0 || s[start - 1] == ',',
        forall|j: int| start <= j < end ==> s[j] != ',',
    ensures
        last_comma(s.take(end)) == start - 1,
    decreases end - start,
{
    let t = s.take(end);
    if start < end {
        assert(t.last() == s[end - 1]);
        assert(t.drop_last() =~= s.take(end - 1));
        lemma_last_comma(s, start, end - 1);
    } else if start > 0 {
        assert(t.last() == s[start - 1]);
    }
}

proof fn lemma_last_comma_bounds(s: Seq<char>)
    ensures
        -1 <= last_comma(s) < s.len(),
        last_comma(s) >= 0 ==> s[last_comma(s)] == ',',
        forall|j: int| last_comma(s) < j < s.len() ==> s[j] != ',',
    decreases s.len(),
{
    if s.len() > 0 && s.last() != ',' {
        lemma_last_comma_bounds(s.drop_last());
        assert forall|j: int| last_comma(s) < j < s.len() implies s[j] != ',' by {
            if j < s.len() - 1 {
                assert(s.drop_last()[j] == s[j]);
            }
        }
    }
}

/// Where the logging library can be given a list, it can be given the front of it.
proof fn lemma_front_can_be_parsed(s: Seq<char>, i: int)
    requires
        0 <= i < s.len(),
        s[i] == ',',
        can_be_parsed(s),
    ensures
        can_be_parsed(s.take(i)),
    decreases s.len(),
{
    lemma_last_comma_bounds(s);
    let l = last_comma(s);
    assert(i <= l);
    if i < l {
        assert(s.take(l)[i] == ',');
        lemma_front_can_be_parsed(s.take(l), i);
        assert(s.take(l).take(i) =~= s.take(i));
    }
}

/// Whether the logging library can be given the directives: it panics on some texts.
pub fn can_parse(directives: &str) -> (r: bool)
    ensures
        r == can_be_parsed(directives@),
{
    let x = text::chars_of(directives);
    let ghost s = directives@;
    let mut start: usize = 0;
    let mut reached = true;
    let mut i: usize = 0;
    loop
        invariant
            x@ == s,
            s == directives@,
            start <= i <= x.len(),
            start == 0 || s[start - 1] == ',',
            forall|j: int| start <= j < i ==> s[j] != ',',
            start > 0 ==> can_be_parsed(s.take(start - 1)),
            start > 0 ==> reached == env_filter_accepts(s.take(start - 1)),
            start == 0 ==> reached,
        decreases x.len() - i,
    {
        if i == x.len() || x[i] == ',' {
            let piece = directives.substring_char(start, i);
            let ghost upto = s.take(i as int);
            proof {
                lemma_last_comma(s, start as int, i as int);
                if start > 0 {
                    assert(upto.take(start - 1) =~= s.take(start - 1));
                }
                assert(upto.skip(start as int) =~= piece@);
                assert(start == 0 ==> upto =~= piece@);
                assert(!piece@.contains(',')) by {
                    if piece@.contains(',') {
                        let j = choose|j: int| 0 <= j < piece@.len() && piece@[j] == ',';
                        assert(s[start + j] == ',');
                    }
                }
                assert(can_be_parsed(upto) == (reached ==> directive_can_be_parsed(piece@)));
                if i == x.len() {
                    assert(upto =~= s);
                } else if can_be_parsed(s) {
                    lemma_front_can_be_parsed(s, i as int);
                }
            }
            if reached && !can_parse_directive(piece) {
                return false;
            }
            if i == x.len() {
                return true;
            }
            let front = directives.substring_char(0, i);
            assert(front@ =~= upto);
            reached = is_valid_filter(front);
            start = i + 1;
            assert(s.take(start - 1) =~= upto);
        }
        i += 1;
    }
}

proof fn lemma_first_adds(s: Seq<char>)
    requires
        s.len() > 0,
    ensures
        byte_len(s) == byte_width(s[0]) + byte_len(s.skip(1)),
    decreases s.len(),
{
    if s.len() == 1 {
        assert(s.drop_last() =~= Seq::empty());
        assert(s.skip(1) =~= Seq::empty());
    } else {
        lemma_first_adds(s.drop_last());
        assert(s.drop_last().skip(1) =~= s.skip(1).drop_last());
        assert(s.skip(1).last() == s.last());
    }
}

/// The bytes of a text are those of its UTF-8 encoding.
pub proof fn law_bytes_are_those_of_the_encoding(s: Seq<char>)
    ensures
        byte_len(s) == vstd::utf8::encode_utf8(s).len(),
    decreases s.len(),
{
    if s.len() > 0 {
        lemma_first_adds(s);
        law_bytes_are_those_of_the_encoding(s.drop_first());
        assert(s.drop_first() =~= s.skip(1));
        let c = s[0];
        let v = c as u32;
        assert(vstd::utf8::is_scalar(v)) by {
            vstd::utf8::char_is_scalar(c);
        }
        assert(vstd::utf8::encode_scalar(v).len() == byte_width(c));
    }
}

/// A text can be cut exactly between two of its characters.
pub proof fn law_cuts_are_between_characters(s: Seq<char>, t: Seq<char>, bytes: int)
    ensures
        is_boundary(s + t, vstd::utf8::encode_utf8(s).len() as int),
        is_boundary(s, bytes) ==> 0 <= bytes <= vstd::utf8::encode_utf8(s).len(),
{
    assert((s + t).take(s.len() as int) =~= s);
    law_bytes_are_those_of_the_encoding(s);
    assert(byte_len((s + t).take(s.len() as int)) == byte_len(s));
    if is_boundary(s, bytes) {
        let j = choose|j: int| 0 <= j <= s.len() && #[trigger] byte_len(s.take(j)) == bytes;
        lemma_places_grow(s, j, s.len() as int);
        assert(s.take(s.len() as int) =~= s);
    }
}

/// A span after white space of more than one byte cannot be given to the logging library: it
/// would cut the text inside that character.
pub proof fn law_span_after_wide_white_space_is_not_parsed(w: char, rest: Seq<char>)
    requires
        text::is_white_space(w),
        w as u32 >= 0x80,
    ensures
        !directive_can_be_parsed(seq![w, '[', ']'] + rest),
{
    let s = seq![w, '[', ']'] + rest;
    text::law_white_space('[');
    lemma_lead(s, 1);
    assert(s.take(0) =~= Seq::empty());
    lemma_next_place(s, 0);
    lemma_next_place(s, 1);
    assert(place_of(s, 1) == 0);
    assert(reading(s, 1) == Reading::Start);
    assert(reading(s, 2) == after_char(reading(s, 1), s, 1));
    assert(reading(s, 2) == Reading::Span(1));
    if is_boundary(s, 1) {
        let j = choose|j: int| 0 <= j <= s.len() && #[trigger] byte_len(s.take(j)) == 1;
        if j >= 1 {
            lemma_places_grow(s, 1, j);
        }
        assert(false);
    }
    assert(!cuts_fit(reading(s, 2), s, 2));
}

/// A list can be given to the logging library where its front can be, and so can the last
/// directive where the library comes to it: it does where it reads the front.
pub proof fn law_last_directive_counts_where_it_is_reached(front: Seq<char>, last: Seq<char>)
    requires
        !last.contains(','),
    ensures
        can_be_parsed(last) == directive_can_be_parsed(last),
        can_be_parsed(front + seq![','] + last) <==> can_be_parsed(front) && (env_filter_accepts(
            front,
        ) ==> can_be_parsed(last)),
{
    lemma_single_directive(last);
    let s = front + seq![','] + last;
    let start = front.len() + 1;
    assert forall|j: int| start <= j < s.len() implies s[j] != ',' by {
        assert(s[j] == last[j - start]);
        assert(last.contains(last[j - start]));
    }
    assert(s[start - 1] == ',');
    lemma_last_comma(s, start as int, s.len() as int);
    assert(s.take(s.len() as int) =~= s);
    assert(s.take(front.len() as int) =~= front);
    assert(s.skip(front.len() as int + 1) =~= last);
}

/// Nor can a target or a level after such white space, or the fields of a span: where the
/// library takes the first character of the word, it would cut before the equals sign.
pub proof fn law_word_after_wide_white_space_is_not_parsed(w: char, c: char, rest: Seq<char>)
    requires
        text::is_white_space(w),
        w as u32 >= 0x80,
        !text::is_white_space(c),
        c as u32 != '[' as u32,
        (c as u32) < 0x80,
    ensures
        env_filter_accepts(seq![w, c]) ==> !directive_can_be_parsed(seq![w, c, '='] + rest),
        env_filter_accepts(seq![w, c]) ==> !directive_can_be_parsed(seq![w, c, '['] + rest),
        !directive_can_be_parsed(seq![w, '[', '{'] + rest),
{
    text::law_white_space('[');
    lemma_wide_white_space(w, c, '=', rest);
    lemma_wide_white_space(w, c, '[', rest);
    lemma_wide_white_space(w, '[', '{', rest);
}

proof fn lemma_wide_white_space(w: char, c: char, d: char, rest: Seq<char>)
    requires
        text::is_white_space(w),
        w as u32 >= 0x80,
        !text::is_white_space(c),
        (c as u32) < 0x80,
        (c != '[' && (d == '=' || d == '[')) || (c == '[' && d == '{'),
    ensures
        c == '[' || env_filter_accepts(seq![w, c]) ==> !directive_can_be_parsed(
            seq![w, c, d] + rest,
        ),
{
    let s = seq![w, c, d] + rest;
    lemma_lead(s, 1);
    assert(s.take(0) =~= Seq::empty());
    lemma_next_place(s, 0);
    lemma_next_place(s, 1);
    assert(s.take(2) =~= seq![w, c]);
    assert(place_of(s, 1) == 0);
    assert(place_of(s, 2) == 1);
    assert(reading(s, 1) == Reading::Start);
    assert(reading(s, 2) == after_char(reading(s, 1), s, 1));
    if is_boundary(s, 1) {
        let j = choose|j: int| 0 <= j <= s.len() && #[trigger] byte_len(s.take(j)) == 1;
        if j >= 1 {
            lemma_places_grow(s, 1, j);
        }
        assert(false);
    }
    if c == '[' || env_filter_accepts(seq![w, c]) {
        assert(!cuts_fit(reading(s, 2), s, 2));
    }
}

/// How a directive is read: a span goes from an opening to a closing bracket, its fields from an
/// opening to a closing brace that the closing bracket must follow; an equals sign outside them
/// starts the level, which goes to the end, and behind a span nothing else may stand.
pub proof fn law_parts_of_a_directive(s: Seq<char>, k: int, start: int)
    ensures
        ({
            let at = byte_len(s.take(k)) - byte_len(s.take(lead_of(s) as int));
            let c = s[k];
            &&& c == '[' ==> after_char(Reading::Start, s, k) == Reading::Span(at + 1)
            &&& c == '[' ==> after_char(Reading::Word, s, k) == Reading::Span(at + 1)
            &&& c != '[' ==> after_char(Reading::Start, s, k) == if env_filter_accepts(
                s.take(k + 1),
            ) {
                Reading::Word
            } else {
                Reading::Refused
            }
            &&& c == '=' ==> after_char(Reading::Word, s, k) == Reading::Level
            &&& c == '=' ==> after_char(Reading::Target, s, k) == Reading::Level
            &&& c != '=' ==> after_char(Reading::Target, s, k) == Reading::Refused
            &&& c != '=' && c != '[' ==> after_char(Reading::Word, s, k) == Reading::Word
            &&& c == ']' ==> after_char(Reading::Span(start), s, k) == Reading::Target
            &&& c == '{' ==> after_char(Reading::Span(start), s, k) == Reading::Field(at + 1)
            &&& c != ']' && c != '{' ==> after_char(Reading::Span(start), s, k) == Reading::Span(
                start,
            )
            &&& c != '}' ==> after_char(Reading::Field(start), s, k) == Reading::Field(start)
            &&& c == '}' ==> after_char(Reading::Field(start), s, k) == if env_filter_accepts(
                s.take(k + 1).push(']'),
            ) {
                Reading::Fields
            } else {
                Reading::Refused
            }
            &&& c == ']' ==> after_char(Reading::Fields, s, k) == Reading::Target
            &&& c != ']' ==> after_char(Reading::Fields, s, k) == Reading::Refused
            &&& after_char(Reading::Level, s, k) == Reading::Level
            &&& after_char(Reading::Refused, s, k) == Reading::Refused
        }),
{
}

/// Where a directive is cut: at the ends of a span and of a field when they close, before a
/// span or an equals sign that follows a word, and behind the equals sign. No other character
/// cuts it.
pub proof fn law_where_a_directive_is_cut(s: Seq<char>, k: int, start: int)
    ensures
        ({
            let at = byte_len(s.take(k)) - byte_len(s.take(lead_of(s) as int));
            let c = s[k];
            &&& c == '=' ==> (cuts_fit(Reading::Word, s, k) <==> is_boundary(s, at) && is_boundary(
                s,
                at + 1,
            ))
            &&& c == '[' ==> (cuts_fit(Reading::Word, s, k) <==> is_boundary(s, at))
            &&& c != '=' && c != '[' ==> cuts_fit(Reading::Word, s, k)
            &&& c == ']' || c == '{' ==> (cuts_fit(Reading::Span(start), s, k) <==> is_boundary(
                s,
                start,
            ) && is_boundary(s, at))
            &&& c != ']' && c != '{' ==> cuts_fit(Reading::Span(start), s, k)
            &&& c == '}' ==> (cuts_fit(Reading::Field(start), s, k) <==> is_boundary(s, start)
                && is_boundary(s, at))
            &&& c != '}' ==> cuts_fit(Reading::Field(start), s, k)
            &&& c == '=' ==> (cuts_fit(Reading::Target, s, k) <==> is_boundary(s, at + 1))
            &&& c != '=' ==> cuts_fit(Reading::Target, s, k)
            &&& cuts_fit(Reading::Start, s, k) && cuts_fit(Reading::Fields, s, k)
            &&& cuts_fit(Reading::Level, s, k) && cuts_fit(Reading::Refused, s, k)
        }),
{
}

} // verus!
