//! Text: trimming, comparing, reading numbers and laying out columns.
//!
//! Strings are modelled by the sequence of their characters.

use vstd::prelude::*;
use vstd::string::*;

verus! {

/// An optional text as mathematics.
pub open spec fn text_of(text: Option<String>) -> Option<Seq<char>> {
    match text {
        Some(text) => Some(text@),
        None => None,
    }
}

/// The characters with the Unicode property `White_Space`.
pub open spec fn is_white_space(c: char) -> bool {
    let code = c as u32;
    ||| 0x9 <= code <= 0xd
    ||| code == 0x20
    ||| code == 0x85
    ||| code == 0xa0
    ||| code == 0x1680
    ||| 0x2000 <= code <= 0x200a
    ||| code == 0x2028
    ||| code == 0x2029
    ||| code == 0x202f
    ||| code == 0x205f
    ||| code == 0x3000
}

/// The text without its leading white space.
pub open spec fn trimmed_start(s: Seq<char>) -> Seq<char>
    decreases s.len(),
{
    if s.len() > 0 && is_white_space(s[0]) {
        trimmed_start(s.subrange(1, s.len() as int))
    } else {
        s
    }
}

/// The text without its trailing white space.
pub open spec fn trimmed_end(s: Seq<char>) -> Seq<char>
    decreases s.len(),
{
    if s.len() > 0 && is_white_space(s[s.len() - 1]) {
        trimmed_end(s.subrange(0, s.len() - 1))
    } else {
        s
    }
}

/// The text without the white space around it.
pub open spec fn trimmed(s: Seq<char>) -> Seq<char> {
    trimmed_end(trimmed_start(s))
}

/// Whether the text is white space alone.
pub open spec fn is_blank(s: Seq<char>) -> bool {
    trimmed(s).len() == 0
}

/// Whether `c` has the Unicode property `White_Space`.
pub fn white_space(c: char) -> (found: bool)
    ensures
        found == is_white_space(c),
{
    let code: u32 = c as u32;
    (0x9 <= code && code <= 0xd) || code == 0x20 || code == 0x85 || code == 0xa0 || code == 0x1680
        || (0x2000 <= code && code <= 0x200a) || code == 0x2028 || code == 0x2029 || code == 0x202f
        || code == 0x205f || code == 0x3000
}

/// The text without the white space around it.
pub fn trim<'a>(s: &'a str) -> (t: &'a str)
    ensures
        t@ == trimmed(s@),
{
    let len: usize = s.unicode_len();
    let mut from: usize = 0;
    assert(s@.subrange(0, len as int) =~= s@);
    while from < len && white_space(s.get_char(from))
        invariant
            from <= len,
            len == s@.len(),
            trimmed_start(s@.subrange(from as int, len as int)) == trimmed_start(s@),
        decreases len - from,
    {
        let ghost rest = s@.subrange(from as int, len as int);
        assert(rest.subrange(1, rest.len() as int) =~= s@.subrange(from + 1, len as int));
        from = from + 1;
    }
    let ghost head = s@.subrange(from as int, len as int);
    assert(trimmed_start(s@) == head);
    let mut to: usize = len;
    while to > from && white_space(s.get_char(to - 1))
        invariant
            from <= to <= len,
            len == s@.len(),
            trimmed_end(s@.subrange(from as int, to as int)) == trimmed_end(head),
        decreases to,
    {
        let ghost rest = s@.subrange(from as int, to as int);
        assert(rest.subrange(0, rest.len() - 1) =~= s@.subrange(from as int, to - 1));
        to = to - 1;
    }
    assert(trimmed_end(head) == s@.subrange(from as int, to as int));
    s.substring_char(from, to)
}

/// Whether the text is white space alone.
pub fn blank(s: &str) -> (found: bool)
    ensures
        found == is_blank(s@),
{
    trim(s).is_empty()
}

/// Whether the two texts are the same.
pub fn same(a: &str, b: &str) -> (equal: bool)
    ensures
        equal == (a@ == b@),
{
    let len: usize = a.unicode_len();
    if len != b.unicode_len() {
        return false;
    }
    let mut i: usize = 0;
    while i < len
        invariant
            i <= len,
            len == a@.len(),
            len == b@.len(),
            a@.subrange(0, i as int) == b@.subrange(0, i as int),
        decreases len - i,
    {
        if a.get_char(i) != b.get_char(i) {
            return false;
        }
        assert(a@.subrange(0, i + 1) =~= a@.subrange(0, i as int).push(a@[i as int]));
        assert(b@.subrange(0, i + 1) =~= b@.subrange(0, i as int).push(b@[i as int]));
        i = i + 1;
    }
    assert(a@.subrange(0, len as int) =~= a@);
    assert(b@.subrange(0, len as int) =~= b@);
    true
}

/// The code of a character, with the capital ASCII letters taken as small ones.
pub open spec fn folded(c: char) -> int {
    if 'A' <= c && c <= 'Z' {
        c as int + 32
    } else {
        c as int
    }
}

/// Whether two texts are the same but for the case of ASCII letters.
pub open spec fn same_but_for_case(a: Seq<char>, b: Seq<char>) -> bool {
    &&& a.len() == b.len()
    &&& forall|i: int| #![trigger a[i], b[i]] 0 <= i < a.len() ==> folded(a[i]) == folded(b[i])
}

fn fold(c: char) -> (code: u32)
    ensures
        code == folded(c),
{
    if 'A' <= c && c <= 'Z' {
        c as u32 + 32
    } else {
        c as u32
    }
}

/// Whether two texts are the same but for the case of ASCII letters.
pub fn eq_ignore_ascii_case(a: &str, b: &str) -> (equal: bool)
    ensures
        equal == same_but_for_case(a@, b@),
{
    let len: usize = a.unicode_len();
    if len != b.unicode_len() {
        return false;
    }
    let mut i: usize = 0;
    while i < len
        invariant
            i <= len,
            len == a@.len(),
            len == b@.len(),
            forall|k: int| #![trigger a@[k], b@[k]] 0 <= k < i ==> folded(a@[k]) == folded(b@[k]),
        decreases len - i,
    {
        if fold(a.get_char(i)) != fold(b.get_char(i)) {
            return false;
        }
        i = i + 1;
    }
    true
}

/// Whether the text holds the character.
pub fn contains(s: &str, c: char) -> (found: bool)
    ensures
        found == s@.contains(c),
{
    let len: usize = s.unicode_len();
    let mut i: usize = 0;
    while i < len
        invariant
            i <= len,
            len == s@.len(),
            forall|k: int| 0 <= k < i ==> s@[k] != c,
        decreases len - i,
    {
        if s.get_char(i) == c {
            return true;
        }
        i = i + 1;
    }
    false
}

/// Whether `a` comes before `b` in dictionary order, characters being ordered
/// by their codes.
pub open spec fn precedes(a: Seq<char>, b: Seq<char>) -> bool
    decreases a.len(),
{
    if a.len() == 0 || b.len() == 0 {
        a.len() == 0 && b.len() > 0
    } else if a[0] == b[0] {
        precedes(a.subrange(1, a.len() as int), b.subrange(1, b.len() as int))
    } else {
        a[0] < b[0]
    }
}

/// Whether `a` comes before `b` in dictionary order.
pub fn before(a: &str, b: &str) -> (found: bool)
    ensures
        found == precedes(a@, b@),
{
    let a_len: usize = a.unicode_len();
    let b_len: usize = b.unicode_len();
    let mut i: usize = 0;
    assert(a@.subrange(0, a_len as int) =~= a@);
    assert(b@.subrange(0, b_len as int) =~= b@);
    while i < a_len && i < b_len && a.get_char(i) == b.get_char(i)
        invariant
            i <= a_len,
            i <= b_len,
            a_len == a@.len(),
            b_len == b@.len(),
            precedes(a@, b@) == precedes(
                a@.subrange(i as int, a_len as int),
                b@.subrange(i as int, b_len as int),
            ),
        decreases a_len - i,
    {
        let ghost rest_a = a@.subrange(i as int, a_len as int);
        let ghost rest_b = b@.subrange(i as int, b_len as int);
        assert(rest_a.subrange(1, rest_a.len() as int) =~= a@.subrange(i + 1, a_len as int));
        assert(rest_b.subrange(1, rest_b.len() as int) =~= b@.subrange(i + 1, b_len as int));
        i = i + 1;
    }
    if i < a_len && i < b_len {
        a.get_char(i) < b.get_char(i)
    } else {
        i < b_len
    }
}

/// Dictionary order is transitive.
pub proof fn precedes_is_transitive(a: Seq<char>, b: Seq<char>, c: Seq<char>)
    requires
        precedes(a, b),
        precedes(b, c),
    ensures
        precedes(a, c),
    decreases a.len(),
{
    if a.len() > 0 && b.len() > 0 && c.len() > 0 && a[0] == b[0] && b[0] == c[0] {
        precedes_is_transitive(
            a.subrange(1, a.len() as int),
            b.subrange(1, b.len() as int),
            c.subrange(1, c.len() as int),
        );
    }
}

/// No text comes before itself in dictionary order.
pub proof fn precedes_is_irreflexive(a: Seq<char>)
    ensures
        !precedes(a, a),
    decreases a.len(),
{
    if a.len() > 0 {
        precedes_is_irreflexive(a.subrange(1, a.len() as int));
    }
}

/// Of two different texts one comes before the other in dictionary order.
pub proof fn precedes_is_total(a: Seq<char>, b: Seq<char>)
    ensures
        a == b || precedes(a, b) || precedes(b, a),
    decreases a.len(),
{
    if a.len() > 0 && b.len() > 0 && a[0] == b[0] {
        let rest_a = a.subrange(1, a.len() as int);
        let rest_b = b.subrange(1, b.len() as int);
        precedes_is_total(rest_a, rest_b);
        if rest_a == rest_b {
            assert(a =~= seq![a[0]] + rest_a);
            assert(b =~= seq![b[0]] + rest_b);
        }
    } else if a.len() == 0 && b.len() == 0 {
        assert(a =~= b);
    }
}

/// Whether the character is a decimal digit.
pub open spec fn is_decimal_digit(c: char) -> bool {
    '0' <= c && c <= '9'
}

/// The number that decimal digits write.
pub open spec fn decimal(digits: Seq<char>) -> nat
    decreases digits.len(),
{
    if digits.len() == 0 {
        0
    } else {
        decimal(digits.subrange(0, digits.len() - 1)) * 10 + (digits[digits.len() - 1] as nat - '0' as nat) as nat
    }
}

/// Whether the text is decimal digits alone.
pub open spec fn all_decimal(s: Seq<char>) -> bool {
    forall|i: int| 0 <= i < s.len() ==> is_decimal_digit(s[i])
}

/// Why a text is no unsigned integer.
#[derive(Clone, Copy, Debug, PartialEq)]
pub enum NumberError {
    /// There is no text.
    Empty,
    /// The text holds something else than digits, or no digit.
    InvalidDigit,
    /// The number does not fit.
    TooLarge,
}

/// The sentence that tells the user why a text is no unsigned integer.
pub open spec fn number_error_text(error: NumberError) -> Seq<char> {
    match error {
        NumberError::Empty => "cannot parse integer from empty string"@,
        NumberError::InvalidDigit => "invalid digit found in string"@,
        NumberError::TooLarge => "number too large to fit in target type"@,
    }
}

/// Whether the digits at the front of a text alone write a number that does not
/// fit.
pub open spec fn starts_too_large(digits: Seq<char>) -> bool {
    exists|n: int|
        0 <= n <= digits.len() && all_decimal(#[trigger] digits.subrange(0, n)) && decimal(digits.subrange(0, n))
            > u64::MAX
}

/// The number that a text writes: decimal digits, after one `+` at most, whose
/// value fits; or what is found wrong first, from the left.
pub open spec fn unsigned(s: Seq<char>) -> Result<u64, NumberError> {
    let digits = if s.len() > 0 && s[0] == '+' {
        s.subrange(1, s.len() as int)
    } else {
        s
    };
    if s.len() == 0 {
        Err(NumberError::Empty)
    } else if digits.len() > 0 && all_decimal(digits) && decimal(digits) <= u64::MAX {
        Ok(decimal(digits) as u64)
    } else if starts_too_large(digits) {
        Err(NumberError::TooLarge)
    } else {
        Err(NumberError::InvalidDigit)
    }
}

proof fn decimal_grows(digits: Seq<char>, i: int)
    requires
        0 <= i <= digits.len(),
        all_decimal(digits),
    ensures
        decimal(digits.subrange(0, i)) <= decimal(digits),
    decreases digits.len(),
{
    if i == digits.len() {
        assert(digits.subrange(0, i) =~= digits);
    } else {
        let front = digits.subrange(0, digits.len() - 1);
        decimal_grows(front, i);
        assert(front.subrange(0, i) =~= digits.subrange(0, i));
    }
}

proof fn fits_before_another_character(digits: Seq<char>, i: int)
    requires
        0 <= i < digits.len(),
        all_decimal(digits.subrange(0, i)),
        decimal(digits.subrange(0, i)) <= u64::MAX,
        !is_decimal_digit(digits[i]),
    ensures
        !starts_too_large(digits),
{
    assert forall|n: int|
        0 <= n <= digits.len() && all_decimal(#[trigger] digits.subrange(0, n)) implies decimal(digits.subrange(0, n))
        <= u64::MAX by {
        if n > i {
            assert(digits.subrange(0, n)[i] == digits[i]);
        } else {
            decimal_grows(digits.subrange(0, i), n);
            assert(digits.subrange(0, i).subrange(0, n) =~= digits.subrange(0, n));
        }
    }
}

/// Reads an unsigned number: decimal digits, after one `+` at most.
pub fn parse_u64(s: &str) -> (number: Result<u64, NumberError>)
    ensures
        number == unsigned(s@),
{
    let len: usize = s.unicode_len();
    if len == 0 {
        return Err(NumberError::Empty);
    }
    let start: usize = if s.get_char(0) == '+' {
        1
    } else {
        0
    };
    let ghost digits = s@.subrange(start as int, len as int);
    assert(start == 0 ==> digits =~= s@);
    if start == len {
        return Err(NumberError::InvalidDigit);
    }
    let mut value: u64 = 0;
    let mut i: usize = start;
    while i < len
        invariant
            start <= i <= len,
            len == s@.len(),
            digits == s@.subrange(start as int, len as int),
            forall|k: int| 0 <= k < i - start ==> is_decimal_digit(digits[k]),
            value == decimal(digits.subrange(0, i - start)),
            s@.len() > 0,
            start < len,
            start == (if s@[0] == '+' { 1int } else { 0 }),
            start == 0 ==> digits == s@,
        decreases len - i,
    {
        let c = s.get_char(i);
        assert(digits[i - start] == c);
        if c < '0' || '9' < c {
            proof {
                fits_before_another_character(digits, i - start);
            }
            return Err(NumberError::InvalidDigit);
        }
        let digit: u64 = c as u64 - '0' as u64;
        let ghost longer = digits.subrange(0, i - start + 1);
        assert(longer.subrange(0, longer.len() - 1) =~= digits.subrange(0, i - start));
        assert(all_decimal(longer));
        if value > (u64::MAX - digit) / 10 {
            proof {
                if all_decimal(digits) {
                    decimal_grows(digits, i - start + 1);
                }
            }
            return Err(NumberError::TooLarge);
        }
        value = value * 10 + digit;
        i = i + 1;
    }
    assert(digits.subrange(0, len - start) =~= digits);
    Ok(value)
}

/// As many spaces.
pub open spec fn spaces(count: nat) -> Seq<char> {
    Seq::new(count, |i: int| ' ')
}

/// The text moved right until it is `width` characters wide.
pub open spec fn right_aligned(s: Seq<char>, width: nat) -> Seq<char> {
    if s.len() < width {
        spaces((width - s.len()) as nat) + s
    } else {
        s
    }
}

/// The text filled up with spaces until it is `width` characters wide.
pub open spec fn left_aligned(s: Seq<char>, width: nat) -> Seq<char> {
    if s.len() < width {
        s + spaces((width - s.len()) as nat)
    } else {
        s
    }
}

fn append_spaces(line: &mut String, count: usize)
    ensures
        final(line)@ == old(line)@ + spaces(count as nat),
{
    let mut i: usize = 0;
    assert(line@ =~= old(line)@ + spaces(0));
    while i < count
        invariant
            i <= count,
            line@ == old(line)@ + spaces(i as nat),
        decreases count - i,
    {
        proof {
            reveal_strlit(" ");
        }
        assert(line@ + " "@ =~= old(line)@ + spaces((i + 1) as nat));
        line.append(" ");
        i = i + 1;
    }
}

/// Appends the text, moved right until it is `width` characters wide.
pub fn append_right_aligned(line: &mut String, s: &str, width: usize)
    ensures
        final(line)@ == old(line)@ + right_aligned(s@, width as nat),
{
    let len: usize = s.unicode_len();
    if len < width {
        append_spaces(line, width - len);
    }
    line.append(s);
    assert(line@ =~= old(line)@ + right_aligned(s@, width as nat));
}

/// Appends the text, filled up with spaces until it is `width` characters wide.
pub fn append_left_aligned(line: &mut String, s: &str, width: usize)
    ensures
        final(line)@ == old(line)@ + left_aligned(s@, width as nat),
{
    let len: usize = s.unicode_len();
    line.append(s);
    if len < width {
        append_spaces(line, width - len);
    }
    assert(line@ =~= old(line)@ + left_aligned(s@, width as nat));
}

/// An optional text is there exactly where its model is, and with the same
/// characters.
pub proof fn an_optional_text_is_kept(text: String)
    ensures
        text_of(Some(text)) == Some(text@),
        text_of(None) is None,
{
}

proof fn start_is_cut_at_the_first_other(s: Seq<char>) -> (from: int)
    ensures
        0 <= from <= s.len(),
        trimmed_start(s) == s.subrange(from, s.len() as int),
        forall|i: int| 0 <= i < from ==> is_white_space(#[trigger] s[i]),
        from < s.len() ==> !is_white_space(s[from]),
    decreases s.len(),
{
    if s.len() > 0 && is_white_space(s[0]) {
        let rest = s.subrange(1, s.len() as int);
        let from = start_is_cut_at_the_first_other(rest);
        assert(rest.subrange(from, rest.len() as int) =~= s.subrange(from + 1, s.len() as int));
        assert forall|i: int| 0 <= i < from + 1 implies is_white_space(#[trigger] s[i]) by {
            if i > 0 {
                assert(rest[i - 1] == s[i]);
            }
        }
        from + 1
    } else {
        assert(s.subrange(0, s.len() as int) =~= s);
        0
    }
}

proof fn end_is_cut_after_the_last_other(s: Seq<char>) -> (to: int)
    ensures
        0 <= to <= s.len(),
        trimmed_end(s) == s.subrange(0, to),
        forall|i: int| to <= i < s.len() ==> is_white_space(#[trigger] s[i]),
        0 < to ==> !is_white_space(s[to - 1]),
    decreases s.len(),
{
    if s.len() > 0 && is_white_space(s[s.len() - 1]) {
        let rest = s.subrange(0, s.len() - 1);
        let to = end_is_cut_after_the_last_other(rest);
        assert(rest.subrange(0, to) =~= s.subrange(0, to));
        assert forall|i: int| to <= i < s.len() implies is_white_space(#[trigger] s[i]) by {
            if i < s.len() - 1 {
                assert(rest[i] == s[i]);
            }
        }
        to
    } else {
        assert(s.subrange(0, s.len() as int) =~= s);
        s.len() as int
    }
}

/// Trimming leaves one stretch of the text: all that it takes away before and
/// behind it is white space, and it neither begins nor ends with any.
pub proof fn trimming_takes_the_white_space_around_a_text(s: Seq<char>) -> (cut: (int, int))
    ensures
        0 <= cut.0 <= cut.1 <= s.len(),
        trimmed(s) == s.subrange(cut.0, cut.1),
        forall|i: int| 0 <= i < cut.0 ==> is_white_space(#[trigger] s[i]),
        forall|i: int| cut.1 <= i < s.len() ==> is_white_space(#[trigger] s[i]),
        cut.0 < cut.1 ==> !is_white_space(s[cut.0]) && !is_white_space(s[cut.1 - 1]),
{
    let from = start_is_cut_at_the_first_other(s);
    let head = s.subrange(from, s.len() as int);
    let to = end_is_cut_after_the_last_other(head);
    assert(head.subrange(0, to) =~= s.subrange(from, from + to));
    assert forall|i: int| from + to <= i < s.len() implies is_white_space(#[trigger] s[i]) by {
        assert(head[i - from] == s[i]);
    }
    if 0 < to {
        assert(head[to - 1] == s[from + to - 1]);
    }
    (from, from + to)
}

/// A text is blank exactly where each of its characters is white space.
pub proof fn a_blank_text_is_white_space_alone(s: Seq<char>)
    ensures
        is_blank(s) <==> forall|i: int| 0 <= i < s.len() ==> is_white_space(#[trigger] s[i]),
{
    let (from, to) = trimming_takes_the_white_space_around_a_text(s);
    if from < to {
        assert(!is_white_space(s[from]));
    }
}

/// Two texts are the same but for case exactly where they are as long as each
/// other and at each place hold the same character, or a capital letter from A
/// to Z and the small one of it.
pub proof fn only_the_case_of_letters_is_passed_over(a: Seq<char>, b: Seq<char>)
    ensures
        same_but_for_case(a, b) <==> {
            &&& a.len() == b.len()
            &&& forall|i: int|
                #![trigger a[i], b[i]]
                0 <= i < a.len() ==> {
                    ||| a[i] == b[i]
                    ||| 'A' <= a[i] && a[i] <= 'Z' && b[i] as int == a[i] as int + 32
                    ||| 'A' <= b[i] && b[i] <= 'Z' && a[i] as int == b[i] as int + 32
                }
        },
{
    if same_but_for_case(a, b) {
        assert forall|i: int| #![trigger a[i], b[i]] 0 <= i < a.len() implies {
            ||| a[i] == b[i]
            ||| 'A' <= a[i] && a[i] <= 'Z' && b[i] as int == a[i] as int + 32
            ||| 'A' <= b[i] && b[i] <= 'Z' && a[i] as int == b[i] as int + 32
        } by {
            assert(folded(a[i]) == folded(b[i]));
        }
    }
}

/// One text comes before another exactly where, behind all that they have in
/// common, the first is over and the second is not, or has the lower character.
pub proof fn the_first_difference_decides_the_order(a: Seq<char>, b: Seq<char>, common: nat)
    requires
        common <= a.len(),
        common <= b.len(),
        forall|i: int| 0 <= i < common ==> a[i] == b[i],
        common < a.len() && common < b.len() ==> a[common as int] != b[common as int],
    ensures
        precedes(a, b) <==> (if common < a.len() && common < b.len() {
            a[common as int] < b[common as int]
        } else {
            common == a.len() && common < b.len()
        }),
    decreases common,
{
    if common > 0 {
        assert(a[0] == b[0]);
        let rest_a = a.subrange(1, a.len() as int);
        let rest_b = b.subrange(1, b.len() as int);
        assert forall|i: int| 0 <= i < common - 1 implies rest_a[i] == rest_b[i] by {
            assert(rest_a[i] == a[i + 1] && rest_b[i] == b[i + 1]);
        }
        the_first_difference_decides_the_order(rest_a, rest_b, (common - 1) as nat);
    }
}

proof fn one_more_digit(digits: Seq<char>, c: char)
    ensures
        digits.push(c).subrange(0, digits.len() as int) == digits,
        decimal(digits.push(c)) == decimal(digits) * 10 + (c as nat - '0' as nat) as nat,
        is_decimal_digit(c) ==> all_decimal(digits.push(c)) == all_decimal(digits),
        !is_decimal_digit(c) ==> !all_decimal(digits.push(c)),
        forall|n: int|
            0 <= n <= digits.len() ==> #[trigger] digits.push(c).subrange(0, n) == digits.subrange(0, n),
{
    let longer = digits.push(c);
    assert(longer.subrange(0, digits.len() as int) =~= digits);
    assert forall|n: int| 0 <= n <= digits.len() implies #[trigger] longer.subrange(0, n) == digits.subrange(0, n) by {
        assert(longer.subrange(0, n) =~= digits.subrange(0, n));
    }
    if is_decimal_digit(c) {
        if all_decimal(longer) {
            assert forall|i: int| 0 <= i < digits.len() implies is_decimal_digit(digits[i]) by {
                assert(longer[i] == digits[i]);
            }
        }
    } else {
        assert(longer[digits.len() as int] == c);
    }
}

/// A number is read digit by digit. Of one character, a digit is its value and
/// anything else is no number. A further digit makes ten times the number and
/// the digit, unless that does not fit, and a further character that is no digit
/// makes the text no number; what was found wrong stays wrong, except that a
/// sign alone may still get digits.
pub proof fn a_number_is_read_digit_by_digit(s: Seq<char>, c: char)
    ensures
        unsigned(Seq::empty()) == (Err::<u64, NumberError>(NumberError::Empty)),
        unsigned(seq![c]) == (if '0' <= c && c <= '9' {
            Ok::<u64, NumberError>((c as int - '0' as int) as u64)
        } else {
            Err(NumberError::InvalidDigit)
        }),
        s.len() > 0 ==> unsigned(s.push(c)) == (match unsigned(s) {
            Ok(number) => if c < '0' || '9' < c {
                Err::<u64, NumberError>(NumberError::InvalidDigit)
            } else if number * 10 + (c as int - '0' as int) > u64::MAX {
                Err(NumberError::TooLarge)
            } else {
                Ok((number * 10 + (c as int - '0' as int)) as u64)
            },
            Err(reason) => if s == seq!['+'] && '0' <= c && c <= '9' {
                Ok((c as int - '0' as int) as u64)
            } else {
                Err(reason)
            },
        }),
{
    let none = Seq::<char>::empty();
    one_more_digit(none, c);
    assert(seq![c] =~= none.push(c));
    assert(seq!['+'].subrange(1, 1) =~= none);
    reveal_with_fuel(decimal, 2);
    if c < '0' || '9' < c {
        fits_before_another_character(seq![c], 0);
        assert(!all_decimal(seq![c])) by {
            assert(seq![c][0] == c);
        }
        assert(!starts_too_large(none));
    }
    if s.len() > 0 {
        let digits = if s[0] == '+' {
            s.subrange(1, s.len() as int)
        } else {
            s
        };
        let longer = digits.push(c);
        assert(s[0] == '+' ==> s.push(c).subrange(1, s.push(c).len() as int) =~= longer);
        assert(s.push(c)[0] == s[0]);
        one_more_digit(digits, c);
        assert(longer.subrange(0, longer.len() as int) =~= longer);
        assert(digits.subrange(0, digits.len() as int) =~= digits);
        match unsigned(s) {
            Ok(_) => {
                if !is_decimal_digit(c) {
                    fits_before_another_character(longer, digits.len() as int);
                } else if decimal(longer) > u64::MAX {
                    assert(all_decimal(longer.subrange(0, longer.len() as int)));
                    assert(starts_too_large(longer));
                }
            },
            Err(NumberError::TooLarge) => {
                let n = choose|n: int|
                    0 <= n <= digits.len() && all_decimal(#[trigger] digits.subrange(0, n)) && decimal(
                        digits.subrange(0, n),
                    ) > u64::MAX;
                assert(longer.subrange(0, n) == digits.subrange(0, n));
                assert(starts_too_large(longer));
                if all_decimal(longer) {
                    decimal_grows(longer, n);
                }
                assert(s != seq!['+']) by {
                    if s == seq!['+'] {
                        assert(digits =~= none);
                        assert(digits.subrange(0, n) =~= none);
                    }
                }
            },
            Err(NumberError::InvalidDigit) => {
                if digits.len() == 0 {
                    assert(s =~= seq!['+']);
                    assert(digits =~= none);
                    assert(longer =~= seq![c]);
                } else {
                    assert(!all_decimal(digits)) by {
                        if all_decimal(digits) {
                            assert(all_decimal(digits.subrange(0, digits.len() as int)));
                            assert(starts_too_large(digits));
                        }
                    }
                    assert(!all_decimal(longer)) by {
                        let i = choose|i: int| 0 <= i < digits.len() && !is_decimal_digit(digits[i]);
                        assert(longer[i] == digits[i]);
                    }
                    assert forall|n: int|
                        0 <= n <= longer.len() && all_decimal(#[trigger] longer.subrange(0, n)) implies decimal(
                        longer.subrange(0, n),
                    ) <= u64::MAX by {
                        if n <= digits.len() {
                            assert(longer.subrange(0, n) == digits.subrange(0, n));
                        }
                    }
                    assert(s != seq!['+']);
                }
            },
            Err(NumberError::Empty) => {},
        }
    }
}

/// A text that is moved right or filled up is as wide as it should be, or as it
/// was where that is wider; it stands at the right or at the left end of that,
/// and the rest is spaces.
pub proof fn columns_are_filled_with_spaces(s: Seq<char>, width: nat, i: int)
    ensures
        ({
            let right = right_aligned(s, width);
            let left = left_aligned(s, width);
            let wide = if s.len() < width {
                width
            } else {
                s.len()
            };
            &&& right.len() == wide
            &&& left.len() == wide
            &&& 0 <= i < s.len() ==> right[wide - s.len() + i] == s[i] && left[i] == s[i]
            &&& 0 <= i < wide - s.len() ==> right[i] == ' ' && left[s.len() + i] == ' '
        }),
{
}

} // verus!
