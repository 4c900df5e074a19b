//! Text operations that the harness applies to log entries, table cells,
//! paths and command-line arguments, each with its meaning over `Seq<char>`.

use vstd::prelude::*;
use vstd::std_specs::iter::IteratorSpec;

verus! {

/// Whether `c` has the Unicode property `White_Space`, as
/// `char::is_whitespace` reports it.
pub uninterp spec fn is_white_space(c: char) -> bool;

/// The lowercase form of a text, as `str::to_lowercase` returns it.
pub uninterp spec fn lowercase_of(text: Seq<char>) -> Seq<char>;

/// `char::is_whitespace` decides the Unicode property `White_Space`; the
/// contract only names that decision.
pub assume_specification[ char::is_whitespace ](c: char) -> (blank: bool)
    ensures
        blank == is_white_space(c),
;

/// `str::to_lowercase` returns the text in lowercase, by Unicode's rules and
/// whatever the locale is; the contract only names that text.
pub assume_specification[ str::to_lowercase ](text: &str) -> (lowered: String)
    ensures
        lowered@ == lowercase_of(text@),
;

/// The text without its leading whitespace.
pub open spec fn trim_start_of(text: Seq<char>) -> Seq<char>
    decreases text.len(),
{
    if text.len() > 0 && is_white_space(text.first()) {
        trim_start_of(text.drop_first())
    } else {
        text
    }
}

/// The text without its trailing whitespace.
pub open spec fn trim_end_of(text: Seq<char>) -> Seq<char>
    decreases text.len(),
{
    if text.len() > 0 && is_white_space(text.last()) {
        trim_end_of(text.drop_last())
    } else {
        text
    }
}

/// The text without leading and trailing whitespace.
pub open spec fn trimmed(text: Seq<char>) -> Seq<char> {
    trim_end_of(trim_start_of(text))
}

/// Leading whitespace ends at `start`: all before it is whitespace, and what
/// stands there is not.
pub proof fn lemma_trim_start(text: Seq<char>, start: int)
    requires
        0 <= start <= text.len(),
        forall|i: int| 0 <= i < start ==> is_white_space(text[i]),
        start < text.len() ==> !is_white_space(text[start]),
    ensures
        trim_start_of(text) == text.subrange(start, text.len() as int),
    decreases start,
{
    if start == 0 {
        assert(text.subrange(0, text.len() as int) == text);
    } else {
        let rest = text.drop_first();
        assert forall|i: int| 0 <= i < start - 1 implies is_white_space(rest[i]) by {
            assert(rest[i] == text[i + 1]);
        }
        lemma_trim_start(rest, start - 1);
        assert(rest.subrange(start - 1, rest.len() as int) == text.subrange(
            start,
            text.len() as int,
        ));
    }
}

/// Trailing whitespace begins at `end`: all from it on is whitespace, and
/// what stands before it is not.
pub proof fn lemma_trim_end(text: Seq<char>, end: int)
    requires
        0 <= end <= text.len(),
        forall|i: int| end <= i < text.len() ==> is_white_space(text[i]),
        0 < end ==> !is_white_space(text[end - 1]),
    ensures
        trim_end_of(text) == text.subrange(0, end),
    decreases text.len() - end,
{
    if end == text.len() {
        assert(text.subrange(0, end) == text);
    } else {
        let rest = text.drop_last();
        lemma_trim_end(rest, end);
        assert(rest.subrange(0, end) == text.subrange(0, end));
    }
}

/// Trimming a trimmed text changes nothing.
pub proof fn lemma_trimmed_is_idempotent(text: Seq<char>)
    ensures
        trimmed(trimmed(text)) == trimmed(text),
{
    let once = trimmed(text);
    lemma_trimmed_has_no_margin(text);
    lemma_trim_start(once, 0);
    assert(once.subrange(0, once.len() as int) == once);
    lemma_trim_end(once, once.len() as int);
}

/// A trimmed text neither begins nor ends with whitespace.
pub proof fn lemma_trimmed_has_no_margin(text: Seq<char>)
    ensures
        trimmed(text).len() > 0 ==> !is_white_space(trimmed(text).first()) && !is_white_space(
            trimmed(text).last(),
        ),
{
    lemma_trim_start_has_no_lead(text);
    lemma_trim_end_keeps_prefix(trim_start_of(text));
}

/// A text trimmed at the start does not begin with whitespace.
proof fn lemma_trim_start_has_no_lead(text: Seq<char>)
    ensures
        trim_start_of(text).len() > 0 ==> !is_white_space(trim_start_of(text).first()),
    decreases text.len(),
{
    if text.len() > 0 && is_white_space(text.first()) {
        lemma_trim_start_has_no_lead(text.drop_first());
    }
}

/// Trimming the end leaves a prefix that does not end with whitespace.
proof fn lemma_trim_end_keeps_prefix(text: Seq<char>)
    ensures
        trim_end_of(text).len() <= text.len(),
        trim_end_of(text) == text.subrange(0, trim_end_of(text).len() as int),
        trim_end_of(text).len() > 0 ==> !is_white_space(trim_end_of(text).last()),
    decreases text.len(),
{
    if text.len() > 0 && is_white_space(text.last()) {
        let rest = text.drop_last();
        lemma_trim_end_keeps_prefix(rest);
        let n = trim_end_of(rest).len() as int;
        assert(rest.subrange(0, n) == text.subrange(0, n));
    } else {
        assert(text.subrange(0, text.len() as int) == text);
    }
}

/// Removes leading and trailing whitespace.
pub fn trim(text: &str) -> (kept: String)
    ensures
        kept@ == trimmed(text@),
{
    let len: usize = text.unicode_len();
    let mut start: usize = 0;
    let mut end: usize = 0;
    let mut at: usize = 0;
    let mut found: bool = false;
    for c in it: text.chars()
        invariant
            it.seq() == text@,
            len == text@.len(),
            at == it.index(),
            !found ==> forall|i: int| 0 <= i < at ==> is_white_space(text@[i]),
            found ==> {
                &&& start < end <= at
                &&& forall|i: int| 0 <= i < start ==> is_white_space(text@[i])
                &&& !is_white_space(text@[start as int])
                &&& !is_white_space(text@[end - 1])
                &&& forall|i: int| end <= i < at ==> is_white_space(text@[i])
            },
    {
        if !c.is_whitespace() {
            if !found {
                start = at;
                found = true;
            }
            end = at + 1;
        }
        at = at + 1;
    }
    if found {
        proof {
            lemma_trim_start(text@, start as int);
            let tail = text@.subrange(start as int, len as int);
            lemma_trim_end(tail, end - start);
            assert(tail.subrange(0, end - start) == text@.subrange(start as int, end as int));
        }
        text.substring_char(start, end).to_owned()
    } else {
        proof {
            lemma_trim_start(text@, len as int);
            assert(text@.subrange(len as int, len as int) == Seq::<char>::empty());
        }
        String::new()
    }
}

/// Whether two texts hold the same characters.
pub fn same_text(a: &str, b: &str) -> (same: bool)
    ensures
        same == (a@ == b@),
{
    let left = a.to_owned();
    let right = b.to_owned();
    left == right
}

/// The two texts, one after the other.
pub fn join(head: &str, tail: &str) -> (joined: String)
    ensures
        joined@ == head@ + tail@,
{
    let mut joined = head.to_owned();
    joined.append(tail);
    joined
}

/// The character that writes the decimal digit `d`.
pub open spec fn digit(d: int) -> char {
    if d == 0 {
        '0'
    } else if d == 1 {
        '1'
    } else if d == 2 {
        '2'
    } else if d == 3 {
        '3'
    } else if d == 4 {
        '4'
    } else if d == 5 {
        '5'
    } else if d == 6 {
        '6'
    } else if d == 7 {
        '7'
    } else if d == 8 {
        '8'
    } else {
        '9'
    }
}

/// Decimal notation of a natural number, without leading zeros.
pub open spec fn decimal(n: nat) -> Seq<char>
    decreases n,
{
    if n < 10 {
        seq![digit(n as int)]
    } else {
        decimal(n / 10).push(digit((n % 10) as int))
    }
}

/// Decimal notation of an integer: a minus sign before the digits of a
/// negative number.
pub open spec fn signed_decimal(n: int) -> Seq<char> {
    if n < 0 {
        seq!['-'] + decimal((-n) as nat)
    } else {
        decimal(n as nat)
    }
}

/// The digits of a number, least significant first, written most significant
/// first.
spec fn spelled(digits: Seq<u8>) -> Seq<char>
    decreases digits.len(),
{
    if digits.len() == 0 {
        Seq::empty()
    } else {
        seq![digit(digits.last() as int)] + spelled(digits.drop_last())
    }
}

/// One decimal digit as a text.
fn digit_text(d: u8) -> (text: &'static str)
    requires
        d < 10,
    ensures
        text@ == seq![digit(d as int)],
{
    proof {
        reveal_strlit("0");
        reveal_strlit("1");
        reveal_strlit("2");
        reveal_strlit("3");
        reveal_strlit("4");
        reveal_strlit("5");
        reveal_strlit("6");
        reveal_strlit("7");
        reveal_strlit("8");
        reveal_strlit("9");
    }
    let text = if d == 0 {
        "0"
    } else if d == 1 {
        "1"
    } else if d == 2 {
        "2"
    } else if d == 3 {
        "3"
    } else if d == 4 {
        "4"
    } else if d == 5 {
        "5"
    } else if d == 6 {
        "6"
    } else if d == 7 {
        "7"
    } else if d == 8 {
        "8"
    } else {
        "9"
    };
    assert(text@ =~= seq![digit(d as int)]);
    text
}

/// Writes a number in decimal notation.
pub fn decimal_text(n: u128) -> (text: String)
    ensures
        text@ == decimal(n as nat),
{
    let mut digits: Vec<u8> = Vec::new();
    let mut rest: u128 = n;
    assert(decimal(rest as nat) + spelled(digits@) == decimal(n as nat));
    while rest >= 10
        invariant
            decimal(n as nat) == decimal(rest as nat) + spelled(digits@),
            forall|i: int| 0 <= i < digits@.len() ==> digits@[i] < 10,
        decreases rest,
    {
        let d: u8 = (rest % 10) as u8;
        let ghost before = digits@;
        digits.push(d);
        proof {
            assert(digits@.drop_last() == before);
            assert(decimal(rest as nat) == decimal((rest / 10) as nat).push(digit(d as int)));
            assert(decimal((rest / 10) as nat).push(digit(d as int)) + spelled(before) == decimal(
                (rest / 10) as nat,
            ) + (seq![digit(d as int)] + spelled(before)));
        }
        rest = rest / 10;
    }
    let ghost before = digits@;
    digits.push(rest as u8);
    proof {
        assert(digits@.drop_last() == before);
        assert(decimal(rest as nat) + spelled(before) == spelled(digits@));
    }
    let mut text = String::new();
    let mut i: usize = digits.len();
    assert(digits@.take(i as int) == digits@);
    while i > 0
        invariant
            i <= digits@.len(),
            forall|k: int| 0 <= k < digits@.len() ==> digits@[k] < 10,
            text@ + spelled(digits@.take(i as int)) == spelled(digits@),
        decreases i,
    {
        let ghost longer = digits@.take(i as int);
        i = i - 1;
        let ghost written = text@;
        text.append(digit_text(digits[i]));
        proof {
            assert(longer.drop_last() == digits@.take(i as int));
            assert(longer.last() == digits@[i as int]);
            assert(written + (seq![digit(digits@[i as int] as int)] + spelled(
                digits@.take(i as int),
            )) == (written + seq![digit(digits@[i as int] as int)]) + spelled(
                digits@.take(i as int),
            ));
        }
    }
    assert(text@ + Seq::<char>::empty() == text@);
    text
}

/// Writes an integer in decimal notation, with a minus sign if it is
/// negative.
pub fn signed_decimal_text(n: i32) -> (text: String)
    ensures
        text@ == signed_decimal(n as int),
{
    if n < 0 {
        proof {
            reveal_strlit("-");
            assert("-"@ =~= seq!['-']);
        }
        let magnitude: u128 = (-(n as i64)) as u128;
        let digits = decimal_text(magnitude);
        join("-", digits.as_str())
    } else {
        decimal_text(n as u128)
    }
}

/// Whether `a` comes before `b` in a dictionary that orders characters by
/// their code points, or is the same text.
pub open spec fn precedes(a: Seq<char>, b: Seq<char>) -> bool
    decreases a.len(),
{
    if a.len() == 0 {
        true
    } else if b.len() == 0 {
        false
    } else if a.first() != b.first() {
        (a.first() as u32) < (b.first() as u32)
    } else {
        precedes(a.drop_first(), b.drop_first())
    }
}

/// Of two texts one precedes the other.
pub proof fn lemma_precedes_is_total(a: Seq<char>, b: Seq<char>)
    ensures
        precedes(a, b) || precedes(b, a),
    decreases a.len(),
{
    if a.len() == 0 || b.len() == 0 {
    } else if a.first() == b.first() {
        lemma_precedes_is_total(a.drop_first(), b.drop_first());
    } else {
        lemma_code_points_differ(a.first(), b.first());
    }
}

/// Different characters have different code points.
proof fn lemma_code_points_differ(x: char, y: char)
    requires
        x != y,
    ensures
        (x as u32) != (y as u32),
{
}

/// What precedes a text precedes all that the text precedes.
pub proof fn lemma_precedes_is_transitive(a: Seq<char>, b: Seq<char>, c: Seq<char>)
    requires
        precedes(a, b),
        precedes(b, c),
    ensures
        precedes(a, c),
    decreases a.len(),
{
    if a.len() > 0 && b.len() > 0 && c.len() > 0 && a.first() == b.first() && b.first()
        == c.first() {
        lemma_precedes_is_transitive(a.drop_first(), b.drop_first(), c.drop_first());
    }
}

/// Two texts that precede each other are the same text.
pub proof fn lemma_precedes_is_antisymmetric(a: Seq<char>, b: Seq<char>)
    requires
        precedes(a, b),
        precedes(b, a),
    ensures
        a == b,
    decreases a.len(),
{
    if a.len() > 0 && b.len() > 0 {
        if a.first() != b.first() {
            lemma_code_points_differ(a.first(), b.first());
        }
        lemma_precedes_is_antisymmetric(a.drop_first(), b.drop_first());
        assert(a =~= seq![a.first()] + a.drop_first());
        assert(b =~= seq![b.first()] + b.drop_first());
    } else {
        assert(a =~= b);
    }
}

/// The characters of a text.
pub fn chars_of(text: &str) -> (chars: Vec<char>)
    ensures
        chars@ == text@,
{
    let mut chars: Vec<char> = Vec::new();
    for c in it: text.chars()
        invariant
            it.seq() == text@,
            chars@ == text@.take(it.index() as int),
    {
        chars.push(c);
    }
    chars
}

/// Whether `a` comes before `b` in the order of `precedes`, or is the same
/// text.
pub fn text_precedes(a: &str, b: &str) -> (before: bool)
    ensures
        before == precedes(a@, b@),
{
    let left = chars_of(a);
    let right = chars_of(b);
    let mut i: usize = 0;
    assert(left@.skip(0) == left@ && right@.skip(0) == right@);
    while i < left.len() && i < right.len() && left[i] == right[i]
        invariant
            i <= left@.len(),
            i <= right@.len(),
            left@ == a@,
            right@ == b@,
            precedes(a@, b@) == precedes(left@.skip(i as int), right@.skip(i as int)),
        decreases left@.len() - i,
    {
        assert(left@.skip(i as int).drop_first() == left@.skip(i + 1));
        assert(right@.skip(i as int).drop_first() == right@.skip(i + 1));
        assert(left@.skip(i as int).first() == left@[i as int]);
        assert(right@.skip(i as int).first() == right@[i as int]);
        i = i + 1;
    }
    if i >= left.len() {
        true
    } else if i >= right.len() {
        false
    } else {
        assert(left@.skip(i as int).first() == left@[i as int]);
        assert(right@.skip(i as int).first() == right@[i as int]);
        (left[i] as u32) < (right[i] as u32)
    }
}

} // verus!
