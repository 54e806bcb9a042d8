//! Text as sequences of characters: comparison, splitting, trimming and
//! decimal numbers.
use vstd::prelude::*;

verus! {

/// The position of the first `sep` in `s`, or the length of `s` when there is none.
pub open spec fn first_index(s: Seq<char>, sep: char) -> nat
    decreases s.len(),
{
    if s.len() == 0 || s[0] == sep {
        0
    } else {
        1 + first_index(s.skip(1), sep)
    }
}

/// The pieces of `s` between the occurrences of `sep`; always at least one.
pub open spec fn split_on(s: Seq<char>, sep: char) -> Seq<Seq<char>>
    decreases s.len(),
{
    let i = first_index(s, sep);
    if i >= s.len() {
        seq![s]
    } else {
        seq![s.take(i as int)] + split_on(s.skip(i as int + 1), sep)
    }
}

/// The characters with the Unicode property `White_Space`.
pub open spec fn is_white_space(c: char) -> bool {
    ||| 0x9 <= c as u32 <= 0xd
    ||| c as u32 == 0x20
    ||| c as u32 == 0x85
    ||| c as u32 == 0xa0
    ||| c as u32 == 0x1680
    ||| 0x2000 <= c as u32 <= 0x200a
    ||| c as u32 == 0x2028
    ||| c as u32 == 0x2029
    ||| c as u32 == 0x202f
    ||| c as u32 == 0x205f
    ||| c as u32 == 0x3000
}

/// `s` without its leading white space.
pub open spec fn trim_start_of(s: Seq<char>) -> Seq<char>
    decreases s.len(),
{
    if s.len() > 0 && is_white_space(s[0]) {
        trim_start_of(s.skip(1))
    } else {
        s
    }
}

/// `s` without its trailing white space.
pub open spec fn trim_end_of(s: Seq<char>) -> Seq<char>
    decreases s.len(),
{
    if s.len() > 0 && is_white_space(s.last()) {
        trim_end_of(s.drop_last())
    } else {
        s
    }
}

/// `s` without its leading and trailing white space.
pub open spec fn trim_of(s: Seq<char>) -> Seq<char> {
    trim_end_of(trim_start_of(s))
}

pub open spec fn is_digit(c: char) -> bool {
    '0' <= c <= '9'
}

pub open spec fn digit_value(c: char) -> nat {
    (c as u32 - 48) as nat
}

/// The number that the digits of `s` write in base ten.
pub open spec fn decimal_value(s: Seq<char>) -> nat
    decreases s.len(),
{
    if s.len() == 0 {
        0
    } else {
        decimal_value(s.drop_last()) * 10 + digit_value(s.last())
    }
}

/// `s` without the one plus sign it may start with.
pub open spec fn strip_plus(s: Seq<char>) -> Seq<char> {
    if s.len() > 0 && s[0] == '+' {
        s.skip(1)
    } else {
        s
    }
}

/// Reads an optional plus sign followed by one or more digits, as a number of at most `max`.
pub open spec fn parse_decimal(s: Seq<char>, max: nat) -> Option<nat> {
    let digits = strip_plus(s);
    if digits.len() > 0 && (forall|i: int| 0 <= i < digits.len() ==> is_digit(digits[i]))
        && decimal_value(digits) <= max {
        Some(decimal_value(digits))
    } else {
        None
    }
}

/// The digit for `d`, where `d` is below ten.
pub open spec fn digit_char(d: nat) -> char {
    (48 + d) as u8 as char
}

/// `n` in base ten, without leading zeros.
pub open spec fn decimal(n: nat) -> Seq<char>
    decreases n,
{
    if n < 10 {
        seq![digit_char(n)]
    } else {
        decimal(n / 10).push(digit_char(n % 10))
    }
}

/// `n` in base ten, with a minus sign where it is negative.
pub open spec fn signed_decimal(n: int) -> Seq<char> {
    if n < 0 {
        seq!['-'] + decimal((-n) as nat)
    } else {
        decimal(n as nat)
    }
}

pub open spec fn starts_with_seq(s: Seq<char>, prefix: Seq<char>) -> bool {
    s.len() >= prefix.len() && s.take(prefix.len() as int) == prefix
}

/// The characters of `s`.
pub fn chars_of(s: &str) -> (r: Vec<char>)
    ensures
        r@ == s@,
{
    let mut r: Vec<char> = Vec::new();
    let n: usize = s.unicode_len();
    let mut it = s.chars();
    let mut i: usize = 0;
    while i < n
        invariant
            n == s@.len(),
            i <= n,
            r@ == s@.take(i as int),
            vstd::std_specs::iter::IteratorSpec::remaining(&it) == s@.skip(i as int),
            vstd::std_specs::iter::IteratorSpec::obeys_prophetic_iter_laws(&it),
        decreases n - i,
    {
        match it.next() {
            Some(c) => {
                r.push(c);
            },
            None => {},
        }
        assert(s@.take(i as int).push(s@[i as int]) =~= s@.take(i + 1));
        assert(s@.skip(i as int).drop_first() =~= s@.skip(i + 1));
        i += 1;
    }
    assert(s@.take(n as int) =~= s@);
    r
}

/// Whether two texts hold the same characters.
pub fn same(a: &str, b: &str) -> (r: bool)
    ensures
        r == (a@ == b@),
{
    let x = chars_of(a);
    let y = chars_of(b);
    if x.len() != y.len() {
        return false;
    }
    let mut i: usize = 0;
    while i < x.len()
        invariant
            x@ == a@,
            y@ == b@,
            x.len() == y.len(),
            i <= x.len(),
            forall|j: int| 0 <= j < i ==> x@[j] == y@[j],
        decreases x.len() - i,
    {
        if x[i] != y[i] {
            return false;
        }
        i += 1;
    }
    assert(x@ =~= y@);
    true
}

/// Whether `s` starts with `prefix`.
pub fn starts_with(s: &str, prefix: &str) -> (r: bool)
    ensures
        r == starts_with_seq(s@, prefix@),
{
    let n: usize = prefix.unicode_len();
    if s.unicode_len() < n {
        return false;
    }
    same(s.substring_char(0, n), prefix)
}

/// Whether `c` occurs in `s`.
pub fn contains_char(s: &str, c: char) -> (r: bool)
    ensures
        r == s@.contains(c),
{
    let x = chars_of(s);
    let mut i: usize = 0;
    while i < x.len()
        invariant
            x@ == s@,
            i <= x.len(),
            forall|j: int| 0 <= j < i ==> x@[j] != c,
        decreases x.len() - i,
    {
        if x[i] == c {
            assert(s@[i as int] == c);
            return true;
        }
        i += 1;
    }
    false
}

/// Whether `name` is one of `names`.
pub fn contains_name(names: &Vec<String>, name: &str) -> (r: bool)
    ensures
        r == names.deep_view().contains(name@),
{
    let mut i: usize = 0;
    while i < names.len()
        invariant
            i <= names.len(),
            forall|j: int| 0 <= j < i ==> names@[j]@ != name@,
        decreases names.len() - i,
    {
        if same(names[i].as_str(), name) {
            assert(names.deep_view()[i as int] == name@);
            return true;
        }
        i += 1;
    }
    assert forall|j: int| 0 <= j < names.deep_view().len() implies names.deep_view()[j] != name@ by {
        assert(names.deep_view()[j] == names@[j]@);
    }
    false
}

proof fn lemma_first_index(s: Seq<char>, sep: char, k: nat)
    requires
        k <= s.len(),
        forall|j: int| 0 <= j < k ==> s[j] != sep,
        k == s.len() || s[k as int] == sep,
    ensures
        first_index(s, sep) == k,
    decreases k,
{
    if k > 0 {
        assert(s[0] != sep);
        assert forall|j: int| 0 <= j < k - 1 implies s.skip(1)[j] != sep by {
            assert(s.skip(1)[j] == s[j + 1]);
        }
        lemma_first_index(s.skip(1), sep, (k - 1) as nat);
    }
}

/// The pieces of `s` between the occurrences of `sep`.
pub fn split(s: &str, sep: char) -> (r: Vec<String>)
    ensures
        r.deep_view() == split_on(s@, sep),
{
    let x = chars_of(s);
    let mut r: Vec<String> = Vec::new();
    let mut start: usize = 0;
    let mut i: usize = 0;
    assert(s@.skip(0) =~= s@);
    assert(r.deep_view() + split_on(s@.skip(0), sep) =~= split_on(s@, sep));
    while i < x.len()
        invariant
            x@ == s@,
            start <= i <= x.len(),
            forall|j: int| start <= j < i ==> s@[j] != sep,
            r.deep_view() + split_on(s@.skip(start as int), sep) == split_on(s@, sep),
        decreases x.len() - i,
    {
        if x[i] == sep {
            let ghost before = r.deep_view();
            let ghost rest = s@.skip(start as int);
            let piece = s.substring_char(start, i).to_string();
            proof {
                assert forall|j: int| 0 <= j < i - start implies rest[j] != sep by {
                    assert(rest[j] == s@[start + j]);
                }
                assert(rest[i - start] == s@[i as int]);
                lemma_first_index(rest, sep, (i - start) as nat);
                assert(rest.take(i - start) =~= s@.subrange(start as int, i as int));
                assert(rest.skip(i - start + 1) =~= s@.skip(i + 1));
                assert(split_on(rest, sep) == seq![piece@] + split_on(s@.skip(i + 1), sep));
            }
            r.push(piece);
            assert(r.deep_view() =~= before.push(piece@));
            assert(before + (seq![piece@] + split_on(s@.skip(i + 1), sep)) =~= r.deep_view()
                + split_on(s@.skip(i + 1), sep));
            start = i + 1;
        }
        i += 1;
    }
    let ghost before = r.deep_view();
    let ghost rest = s@.skip(start as int);
    let piece = s.substring_char(start, i).to_string();
    proof {
        assert forall|j: int| 0 <= j < rest.len() implies rest[j] != sep by {
            assert(rest[j] == s@[start + j]);
        }
        lemma_first_index(rest, sep, rest.len());
        assert(rest =~= s@.subrange(start as int, i as int));
        assert(split_on(rest, sep) == seq![piece@]);
    }
    r.push(piece);
    assert(r.deep_view() =~= before + seq![piece@]);
    r
}

/// Whether the character is white space.
pub fn white_space(c: char) -> (r: bool)
    ensures
        r == is_white_space(c),
{
    let u: u32 = c as u32;
    (0x9 <= u && u <= 0xd) || u == 0x20 || u == 0x85 || u == 0xa0 || u == 0x1680 || (0x2000 <= u
        && u <= 0x200a) || u == 0x2028 || u == 0x2029 || u == 0x202f || u == 0x205f || u == 0x3000
}

/// `s` without its leading and trailing white space.
pub fn trim(s: &str) -> (r: &str)
    ensures
        r@ == trim_of(s@),
{
    let x = chars_of(s);
    let mut a: usize = 0;
    assert(s@.skip(0) =~= s@);
    while a < x.len() && white_space(x[a])
        invariant
            x@ == s@,
            a <= x.len(),
            trim_start_of(s@.skip(a as int)) == trim_start_of(s@),
        decreases x.len() - a,
    {
        assert(s@.skip(a as int).skip(1) =~= s@.skip(a + 1));
        a += 1;
    }
    let mut b: usize = x.len();
    let ghost t = s@.skip(a as int);
    assert(trim_start_of(s@) == t);
    assert(s@.subrange(a as int, b as int) =~= t);
    while b > a && white_space(x[b - 1])
        invariant
            x@ == s@,
            a <= b <= x.len(),
            trim_end_of(s@.subrange(a as int, b as int)) == trim_end_of(t),
        decreases b,
    {
        assert(s@.subrange(a as int, b as int).drop_last() =~= s@.subrange(a as int, b - 1));
        assert(s@.subrange(a as int, b as int).last() == s@[b - 1]);
        b -= 1;
    }
    assert(b > a ==> s@.subrange(a as int, b as int).last() == s@[b - 1]);
    s.substring_char(a, b)
}

proof fn lemma_value_grows(s: Seq<char>, k: int)
    requires
        0 <= k <= s.len(),
    ensures
        decimal_value(s.take(k)) <= decimal_value(s),
    decreases s.len(),
{
    if k == s.len() {
        assert(s.take(k) =~= s);
    } else {
        lemma_value_grows(s.drop_last(), k);
        assert(s.drop_last().take(k) =~= s.take(k));
    }
}

/// Reads an optional plus sign followed by one or more digits.
pub fn parse_u64(s: &str) -> (r: Option<u64>)
    ensures
        r == match parse_decimal(s@, u64::MAX as nat) {
            Some(n) => Some(n as u64),
            None => None,
        },
{
    let x = chars_of(s);
    let start: usize = if x.len() > 0 && x[0] == '+' {
        1
    } else {
        0
    };
    let ghost digits = strip_plus(s@);
    assert(digits =~= s@.skip(start as int));
    if x.len() == start {
        return None;
    }
    let mut value: u64 = 0;
    let mut i: usize = start;
    while i < x.len()
        invariant
            x@ == s@,
            start <= i <= x.len(),
            digits == strip_plus(s@),
            digits == s@.skip(start as int),
            forall|j: int| 0 <= j < i - start ==> is_digit(digits[j]),
            value as nat == decimal_value(digits.take(i - start)),
        decreases x.len() - i,
    {
        let c: char = x[i];
        assert(digits[i - start] == c);
        if !('0' <= c && c <= '9') {
            return None;
        }
        let d: u64 = (c as u32 - 48) as u64;
        proof {
            assert(digits.take(i - start + 1).drop_last() =~= digits.take(i - start));
            assert(digits.take(i - start + 1).last() == c);
            lemma_value_grows(digits, i - start + 1);
        }
        if value > (u64::MAX - d) / 10 {
            assert(value * 10 + d > u64::MAX);
            return None;
        }
        value = value * 10 + d;
        i += 1;
    }
    assert(digits.take(digits.len() as int) =~= digits);
    Some(value)
}

/// Reads an optional plus sign followed by one or more digits.
pub fn parse_u32(s: &str) -> (r: Option<u32>)
    ensures
        r == match parse_decimal(s@, u32::MAX as nat) {
            Some(n) => Some(n as u32),
            None => None,
        },
{
    match parse_u64(s) {
        Some(n) => if n <= u32::MAX as u64 {
            Some(n as u32)
        } else {
            None
        },
        None => None,
    }
}

fn digit_text(d: u64) -> (r: &'static str)
    requires
        d < 10,
    ensures
        r@ == seq![digit_char(d as nat)],
{
    proof {
        reveal_strlit("0");
        reveal_strlit("1");
        reveal_strlit("2");
        reveal_strlit("3");
        reveal_strlit("4");
        reveal_strlit("5");
        reveal_strlit("6");
        reveal_strlit("7");
        reveal_strlit("8");
        reveal_strlit("9");
    }
    let r = if d == 0 {
        "0"
    } else if d == 1 {
        "1"
    } else if d == 2 {
        "2"
    } else if d == 3 {
        "3"
    } else if d == 4 {
        "4"
    } else if d == 5 {
        "5"
    } else if d == 6 {
        "6"
    } else if d == 7 {
        "7"
    } else if d == 8 {
        "8"
    } else {
        "9"
    };
    assert(r@ =~= seq![digit_char(d as nat)]);
    r
}

/// Appends `n` in base ten to `s`.
pub fn push_decimal(s: &mut String, n: u64)
    ensures
        final(s)@ == old(s)@ + decimal(n as nat),
    decreases n,
{
    let ghost start = s@;
    if n < 10 {
        s.append(digit_text(n));
    } else {
        push_decimal(s, n / 10);
        s.append(digit_text(n % 10));
        assert(s@ =~= start + decimal(n as nat));
    }
}

/// Appends `n` in base ten to `s`, with a minus sign where it is negative.
pub fn push_signed(s: &mut String, n: i32)
    ensures
        final(s)@ == old(s)@ + signed_decimal(n as int),
{
    let ghost start = s@;
    if n < 0 {
        proof {
            reveal_strlit("-");
            assert("-"@ =~= seq!['-']);
        }
        s.append("-");
        push_decimal(s, (-(n as i64)) as u64);
        assert(s@ =~= start + signed_decimal(n as int));
    } else {
        push_decimal(s, n as u64);
    }
}

/// `a` followed by `b`.
pub fn join(a: &str, b: &str) -> (r: String)
    ensures
        r@ == a@ + b@,
{
    let mut r: String = a.to_string();
    r.append(b);
    r
}

/// The texts one after another, with a comma and a space between two.
pub open spec fn comma_joined(items: Seq<Seq<char>>) -> Seq<char>
    decreases items.len(),
{
    if items.len() == 0 {
        Seq::empty()
    } else if items.len() == 1 {
        items[0]
    } else {
        comma_joined(items.drop_last()) + ", "@ + items.last()
    }
}

/// The texts as a list in square brackets.
pub open spec fn list_of(items: Seq<Seq<char>>) -> Seq<char> {
    "["@ + comma_joined(items) + "]"@
}

/// Writes the texts as a list in square brackets.
pub fn list_text(items: &Vec<String>) -> (r: String)
    ensures
        r@ == list_of(items.deep_view()),
{
    let ghost all = items.deep_view();
    let mut r: String = "[".to_string();
    let mut i: usize = 0;
    assert(r@ =~= "["@ + comma_joined(all.take(0)));
    while i < items.len()
        invariant
            i <= items.len(),
            all == items.deep_view(),
            r@ == "["@ + comma_joined(all.take(i as int)),
        decreases items.len() - i,
    {
        let ghost next = all.take(i + 1);
        assert(next.drop_last() =~= all.take(i as int));
        assert(next.last() == items@[i as int]@);
        if i > 0 {
            r.append(", ");
        }
        r.append(items[i].as_str());
        if i == 0 {
            assert(comma_joined(all.take(0)) =~= Seq::<char>::empty());
            assert(next[0] == items@[0]@);
        }
        assert(r@ =~= "["@ + comma_joined(next));
        i += 1;
    }
    r.append("]");
    assert(all.take(all.len() as int) =~= all);
    r
}

/// A text as `{:?}` shows it, in quotes.
pub uninterp spec fn debug_text(s: Seq<char>) -> Seq<char>;

/// A path as `{:?}` shows it, in quotes.
pub uninterp spec fn debug_path_text(path: Seq<char>) -> Seq<char>;

/// Formats a `str` with `{:?}`. Which characters are escaped, and how, is not said here.
#[verifier::external_body]
pub(crate) fn debug_str(s: &str) -> (r: String)
    ensures
        r@ == debug_text(s@),
{
    format!("{:?}", s)
}

/// Formats a `std::path::Path` with `{:?}`. Which characters are escaped, and how, is not
/// said here.
#[verifier::external_body]
pub(crate) fn debug_path(path: &str) -> (r: String)
    ensures
        r@ == debug_path_text(path@),
{
    format!("{:?}", std::path::Path::new(path))
}

pub proof fn lemma_decimal_digits(n: nat)
    ensures
        decimal(n).len() > 0,
        forall|i: int| 0 <= i < decimal(n).len() ==> is_digit(#[trigger] decimal(n)[i]),
        decimal_value(decimal(n)) == n,
    decreases n,
{
    if n < 10 {
        assert(decimal(n).drop_last() =~= Seq::<char>::empty());
        assert(decimal_value(Seq::<char>::empty()) == 0);
    } else {
        lemma_decimal_digits(n / 10);
        assert(decimal(n).drop_last() =~= decimal(n / 10));
    }
}

/// Reading back the decimal text of a number gives that number, whatever upper
/// bound the reader has, as long as the number is within it.
pub proof fn law_decimal_reads_back(n: nat, max: nat)
    requires
        n <= max,
    ensures
        parse_decimal(decimal(n), max) == Some(n),
{
    lemma_decimal_digits(n);
    assert(is_digit(decimal(n)[0]));
    assert(strip_plus(decimal(n)) == decimal(n));
}

pub proof fn lemma_absent_index(s: Seq<char>, sep: char)
    requires
        !s.contains(sep),
    ensures
        first_index(s, sep) == s.len(),
{
    lemma_first_index(s, sep, s.len());
}

proof fn lemma_first_index_bounds(s: Seq<char>, sep: char)
    ensures
        first_index(s, sep) <= s.len(),
        forall|j: int| 0 <= j < first_index(s, sep) ==> s[j] != sep,
        first_index(s, sep) < s.len() ==> s[first_index(s, sep) as int] == sep,
    decreases s.len(),
{
    if s.len() > 0 && s[0] != sep {
        lemma_first_index_bounds(s.skip(1), sep);
        assert forall|j: int| 0 <= j < first_index(s, sep) implies s[j] != sep by {
            if j > 0 {
                assert(s.skip(1)[j - 1] == s[j]);
            }
        }
    }
}

/// Splitting two texts joined by the separator gives the pieces of the one
/// followed by the pieces of the other.
pub proof fn law_split_concat(a: Seq<char>, b: Seq<char>, sep: char)
    ensures
        split_on(a + seq![sep] + b, sep) == split_on(a, sep) + split_on(b, sep),
    decreases a.len(),
{
    let whole = a + seq![sep] + b;
    let i = first_index(a, sep);
    lemma_first_index_bounds(a, sep);
    lemma_first_index(whole, sep, i);
    if i >= a.len() {
        assert(whole.take(i as int) =~= a);
        assert(whole.skip(i as int + 1) =~= b);
    } else {
        assert(whole.take(i as int) =~= a.take(i as int));
        assert(whole.skip(i as int + 1) =~= a.skip(i as int + 1) + seq![sep] + b);
        law_split_concat(a.skip(i as int + 1), b, sep);
    }
    assert(split_on(whole, sep) =~= split_on(a, sep) + split_on(b, sep));
}

/// Trimming leaves no white space at either end.
pub proof fn law_trim_ends(s: Seq<char>)
    ensures
        trim_of(s).len() > 0 ==> !is_white_space(trim_of(s)[0]) && !is_white_space(
            trim_of(s).last(),
        ),
{
    lemma_trim_start_ends(s);
    lemma_trim_end_ends(trim_start_of(s));
}

proof fn lemma_trim_start_ends(s: Seq<char>)
    ensures
        trim_start_of(s).len() > 0 ==> !is_white_space(trim_start_of(s)[0]),
    decreases s.len(),
{
    if s.len() > 0 && is_white_space(s[0]) {
        lemma_trim_start_ends(s.skip(1));
    }
}

proof fn lemma_trim_end_ends(s: Seq<char>)
    ensures
        trim_end_of(s).len() > 0 ==> !is_white_space(trim_end_of(s).last()) && trim_end_of(s)[0]
            == s[0],
    decreases s.len(),
{
    if s.len() > 0 && is_white_space(s.last()) {
        lemma_trim_end_ends(s.drop_last());
    }
}

/// The pieces with the separator between two of them.
pub open spec fn rejoined(pieces: Seq<Seq<char>>, sep: char) -> Seq<char>
    decreases pieces.len(),
{
    if pieces.len() == 0 {
        Seq::empty()
    } else if pieces.len() == 1 {
        pieces[0]
    } else {
        pieces[0] + seq![sep] + rejoined(pieces.skip(1), sep)
    }
}

/// No piece of a text holds the separator, and the pieces with the separator between them are
/// the text again.
pub proof fn law_pieces_rejoin(s: Seq<char>, sep: char)
    ensures
        split_on(s, sep).len() > 0,
        rejoined(split_on(s, sep), sep) == s,
        forall|i: int| 0 <= i < split_on(s, sep).len() ==> !(#[trigger] split_on(s, sep)[i]).contains(sep),
    decreases s.len(),
{
    let i = first_index(s, sep) as int;
    lemma_first_index_bounds(s, sep);
    let all = split_on(s, sep);
    if i < s.len() {
        let rest = split_on(s.skip(i + 1), sep);
        law_pieces_rejoin(s.skip(i + 1), sep);
        assert(all.skip(1) =~= rest);
        assert(s =~= s.take(i) + seq![sep] + s.skip(i + 1));
        assert(all.len() == 1 + rest.len());
        assert(rejoined(all, sep) == s.take(i) + seq![sep] + rejoined(rest, sep));
        assert forall|k: int| 0 <= k < all.len() implies !(#[trigger] all[k]).contains(sep) by {
            if k > 0 {
                assert(all[k] == rest[k - 1]);
            }
        }
    }
}

proof fn lemma_trim_start_cut(s: Seq<char>) -> (a: int)
    ensures
        0 <= a <= s.len(),
        trim_start_of(s) == s.skip(a),
        forall|j: int| 0 <= j < a ==> is_white_space(#[trigger] s[j]),
    decreases s.len(),
{
    if s.len() > 0 && is_white_space(s[0]) {
        let a = lemma_trim_start_cut(s.skip(1));
        assert(s.skip(1).skip(a) =~= s.skip(a + 1));
        assert forall|j: int| 0 <= j < a + 1 implies is_white_space(#[trigger] s[j]) by {
            if j > 0 {
                assert(s.skip(1)[j - 1] == s[j]);
            }
        }
        a + 1
    } else {
        assert(s.skip(0) =~= s);
        0
    }
}

proof fn lemma_trim_end_cut(s: Seq<char>) -> (b: int)
    ensures
        0 <= b <= s.len(),
        trim_end_of(s) == s.take(b),
        forall|j: int| b <= j < s.len() ==> is_white_space(#[trigger] s[j]),
    decreases s.len(),
{
    if s.len() > 0 && is_white_space(s.last()) {
        let b = lemma_trim_end_cut(s.drop_last());
        assert(s.drop_last().take(b) =~= s.take(b));
        assert forall|j: int| b <= j < s.len() implies is_white_space(#[trigger] s[j]) by {
            if j < s.len() - 1 {
                assert(s.drop_last()[j] == s[j]);
            }
        }
        b
    } else {
        assert(s.take(s.len() as int) =~= s);
        s.len() as int
    }
}

/// Trimming cuts off nothing but white space, at the two ends.
pub proof fn law_trim_cuts_only_white_space(s: Seq<char>)
    ensures
        exists|a: int, b: int|
            {
                &&& 0 <= a <= b <= s.len()
                &&& trim_of(s) == #[trigger] s.subrange(a, b)
                &&& forall|j: int| 0 <= j < a ==> is_white_space(#[trigger] s[j])
                &&& forall|j: int| b <= j < s.len() ==> is_white_space(#[trigger] s[j])
            },
{
    let a = lemma_trim_start_cut(s);
    let t = s.skip(a);
    let n = lemma_trim_end_cut(t);
    let b = a + n;
    assert(t.take(n) =~= s.subrange(a, b));
    assert forall|j: int| b <= j < s.len() implies is_white_space(#[trigger] s[j]) by {
        assert(t[j - a] == s[j]);
    }
}

/// White space is the tabulator, the four line breaks after it, the space, and what Unicode
/// has besides: no visible character of ASCII is.
pub proof fn law_white_space(c: char)
    ensures
        c as u32 <= 0x7f ==> (is_white_space(c) <==> c == ' ' || 9 <= c as u32 <= 13),
        c as u32 > 0x7f ==> (is_white_space(c) <==> seq![
            0x85u32,
            0xa0,
            0x1680,
            0x2000,
            0x2001,
            0x2002,
            0x2003,
            0x2004,
            0x2005,
            0x2006,
            0x2007,
            0x2008,
            0x2009,
            0x200a,
            0x2028,
            0x2029,
            0x202f,
            0x205f,
            0x3000,
        ].contains(c as u32)),
{
    let all = seq![
        0x85u32,
        0xa0,
        0x1680,
        0x2000,
        0x2001,
        0x2002,
        0x2003,
        0x2004,
        0x2005,
        0x2006,
        0x2007,
        0x2008,
        0x2009,
        0x200a,
        0x2028,
        0x2029,
        0x202f,
        0x205f,
        0x3000,
    ];
    if c as u32 > 0x7f && is_white_space(c) {
        let u = c as u32;
        if 0x2000 <= u <= 0x200a {
            assert(all[u - 0x2000 + 3] == u);
        } else if u == 0x85 {
            assert(all[0] == u);
        } else if u == 0xa0 {
            assert(all[1] == u);
        } else if u == 0x1680 {
            assert(all[2] == u);
        } else if u == 0x2028 {
            assert(all[14] == u);
        } else if u == 0x2029 {
            assert(all[15] == u);
        } else if u == 0x202f {
            assert(all[16] == u);
        } else if u == 0x205f {
            assert(all[17] == u);
        } else {
            assert(all[18] == u);
        }
    }
}

/// A text starts with another exactly where the other, followed by something, makes it up.
pub proof fn law_starts_with(s: Seq<char>, prefix: Seq<char>, rest: Seq<char>)
    ensures
        starts_with_seq(prefix + rest, prefix),
        starts_with_seq(s, prefix) ==> s == prefix + s.skip(prefix.len() as int),
{
    assert((prefix + rest).take(prefix.len() as int) =~= prefix);
    if starts_with_seq(s, prefix) {
        assert(s =~= prefix + s.skip(prefix.len() as int));
    }
}

/// Numbers are written in base ten: the text of `10 * n + d` is that of `n` followed by the
/// digit `d`, and a number below ten is one digit. A negative one has a minus sign in front.
pub proof fn law_decimal_is_base_ten(n: nat, d: nat)
    requires
        d < 10,
    ensures
        decimal(d) == seq![seq!['0', '1', '2', '3', '4', '5', '6', '7', '8', '9'][d as int]],
        n > 0 ==> decimal(10 * n + d) == decimal(n).push(
            seq!['0', '1', '2', '3', '4', '5', '6', '7', '8', '9'][d as int],
        ),
        signed_decimal(n as int) == decimal(n),
        n > 0 ==> signed_decimal(-n) == seq!['-'] + decimal(n),
{
    assert((10 * n + d) / 10 == n);
    assert((10 * n + d) % 10 == d);
    assert(digit_char(d) == seq!['0', '1', '2', '3', '4', '5', '6', '7', '8', '9'][d as int]);
}

/// Digits are read in base ten: one more digit at the end is ten times the number, and that
/// digit. Nothing but digits is read, behind at most one plus sign, and no number beyond the
/// bound.
pub proof fn law_numbers_are_read_in_base_ten(s: Seq<char>, c: char, max: nat)
    ensures
        parse_decimal(s, max) matches Some(v) ==> v <= max,
        s.len() == 0 ==> parse_decimal(s, max) is None,
        !('0' <= c <= '9') ==> parse_decimal(s.push(c), max) is None,
        '0' <= c <= '9' && s.len() == 0 ==> parse_decimal(s.push(c), max) == if c as u32 - 48
            <= max {
            Some((c as u32 - 48) as nat)
        } else {
            None
        },
        '0' <= c <= '9' && parse_decimal(s, max) is Some ==> {
            let v = 10 * parse_decimal(s, max)->0 + (c as u32 - 48);
            parse_decimal(s.push(c), max) == if v <= max {
                Some(v as nat)
            } else {
                None
            }
        },
        s.len() > 0 && s[0] != '+' ==> parse_decimal(seq!['+'] + s, max) == parse_decimal(s, max),
        parse_decimal(seq!['+', '+'] + s, max) is None,
{
    let digits = strip_plus(s);
    let more = strip_plus(s.push(c));
    if s.len() > 0 {
        assert(more =~= digits.push(c));
    } else if c != '+' {
        assert(more =~= seq![c]);
        assert(more.drop_last() =~= Seq::<char>::empty());
        assert(decimal_value(Seq::<char>::empty()) == 0);
        assert(more.last() == c);
        if is_digit(c) {
            assert(forall|i: int| 0 <= i < more.len() ==> is_digit(more[i]));
        }
    }
    if more.len() > 0 {
        assert(more.last() == c);
        assert(more[more.len() - 1] == c);
        if s.len() > 0 {
            assert(more.drop_last() =~= digits);
            if is_digit(c) && parse_decimal(s, max) is Some {
                assert forall|i: int| 0 <= i < more.len() implies is_digit(more[i]) by {
                    if i < digits.len() {
                        assert(is_digit(digits[i]));
                    }
                }
            }
        }
    }
    assert((seq!['+'] + s).skip(1) =~= s);
    let twice = strip_plus(seq!['+', '+'] + s);
    assert(twice[0] == '+');
    assert(!is_digit(twice[0]));
}

/// A list stands in square brackets, with a comma and a space between two texts: one more text
/// comes before the closing bracket.
pub proof fn law_list_of_texts(items: Seq<Seq<char>>, item: Seq<char>)
    ensures
        list_of(Seq::empty()) == seq!['[', ']'],
        list_of(seq![item]) == seq!['['] + item + seq![']'],
        items.len() > 0 ==> list_of(items.push(item)) == list_of(items).drop_last() + seq![',', ' ']
            + item + seq![']'],
{
    reveal_strlit("[");
    reveal_strlit("]");
    reveal_strlit(", ");
    let none = Seq::<Seq<char>>::empty();
    assert(comma_joined(none) =~= Seq::empty());
    assert(list_of(none) =~= seq!['[', ']']);
    assert(comma_joined(seq![item]) == item);
    assert(list_of(seq![item]) =~= seq!['['] + item + seq![']']);
    if items.len() > 0 {
        assert(items.push(item).drop_last() =~= items);
        assert(items.push(item).last() == item);
        assert(list_of(items).drop_last() =~= "["@ + comma_joined(items));
        assert(list_of(items.push(item)) =~= list_of(items).drop_last() + seq![',', ' '] + item
            + seq![']']);
    }
}

/// A negative number is its opposite with a minus sign in front.
pub proof fn law_minus_sign(n: nat)
    ensures
        signed_decimal(n as int) == decimal(n),
        n > 0 ==> signed_decimal(-n) == seq!['-'] + decimal(n),
{
}

} // verus!
