//! Text primitives: every other module reads and builds strings through these.

use vstd::prelude::*;

verus! {

/// `String::push`: appends one character to the end of the string.
pub assume_specification[ std::string::String::push ](text: &mut std::string::String, character: char)
    ensures
        final(text)@ == old(text)@.push(character),
;

/// The characters of a string, in order.
pub fn chars_of(text: &str) -> (chars: Vec<char>)
    ensures
        chars@ == text@,
{
    let mut chars: Vec<char> = Vec::new();
    for character in it: text.chars()
        invariant
            chars@ == it.seq().take(it.index()),
            it.seq() == text@,
    {
        chars.push(character);
        assert(it.seq().take(it.index() + 1) =~= it.seq().take(it.index()).push(character));
    }
    assert(text@.take(text@.len() as int) =~= text@);
    chars
}

/// The string made of `chars[from..to]`.
pub fn text_between(chars: &Vec<char>, from: usize, to: usize) -> (text: String)
    requires
        from <= to <= chars@.len(),
    ensures
        text@ == chars@.subrange(from as int, to as int),
{
    let mut text = String::new();
    let mut index: usize = from;
    while index < to
        invariant
            from <= index <= to <= chars@.len(),
            text@ == chars@.subrange(from as int, index as int),
        decreases to - index,
    {
        text.push(chars[index]);
        index += 1;
        assert(chars@.subrange(from as int, index as int) =~= chars@.subrange(
            from as int,
            index - 1,
        ).push(chars@[index - 1]));
    }
    text
}

/// Whether two strings hold the same characters.
pub fn same_text(left: &str, right: &str) -> (same: bool)
    ensures
        same == (left@ == right@),
{
    left.to_owned() == right.to_owned()
}

/// `left` followed by `right`.
pub fn joined(left: &str, right: &str) -> (text: String)
    ensures
        text@ == left@ + right@,
{
    let mut text = left.to_owned();
    text.append(right);
    text
}

/// `first`, `second` and `third`, one after the other.
pub fn joined3(first: &str, second: &str, third: &str) -> (text: String)
    ensures
        text@ == first@ + second@ + third@,
{
    let mut text = first.to_owned();
    text.append(second);
    text.append(third);
    text
}

/// Characters with Unicode's `White_Space` property.
pub open spec fn is_white(character: char) -> bool {
    let point = character as u32;
    ||| 0x09 <= point <= 0x0d
    ||| point == 0x20
    ||| point == 0x85
    ||| point == 0xa0
    ||| point == 0x1680
    ||| 0x2000 <= point <= 0x200a
    ||| point == 0x2028
    ||| point == 0x2029
    ||| point == 0x202f
    ||| point == 0x205f
    ||| point == 0x3000
}

/// Whether a character has Unicode's `White_Space` property.
pub fn is_whitespace(character: char) -> (white: bool)
    ensures
        white == is_white(character),
{
    let point: u32 = character as u32;
    (0x09 <= point && point <= 0x0d) || point == 0x20 || point == 0x85 || point == 0xa0 || point
        == 0x1680 || (0x2000 <= point && point <= 0x200a) || point == 0x2028 || point == 0x2029
        || point == 0x202f || point == 0x205f || point == 0x3000
}

/// `text` without its leading whitespace.
pub open spec fn trimmed_start(text: Seq<char>) -> Seq<char>
    decreases text.len(),
{
    if text.len() > 0 && is_white(text[0]) {
        trimmed_start(text.skip(1))
    } else {
        text
    }
}

/// `text` without its trailing whitespace.
pub open spec fn trimmed_end(text: Seq<char>) -> Seq<char>
    decreases text.len(),
{
    if text.len() > 0 && is_white(text.last()) {
        trimmed_end(text.drop_last())
    } else {
        text
    }
}

/// `text` without the whitespace around it.
pub open spec fn trimmed(text: Seq<char>) -> Seq<char> {
    trimmed_end(trimmed_start(text))
}

/// The first position in `from..to` that is not whitespace, or `to`.
pub fn skip_white(chars: &Vec<char>, from: usize, to: usize) -> (start: usize)
    requires
        from <= to <= chars@.len(),
    ensures
        from <= start <= to,
        chars@.subrange(start as int, to as int) == trimmed_start(
            chars@.subrange(from as int, to as int),
        ),
{
    let mut start: usize = from;
    while start < to && is_whitespace(chars[start])
        invariant
            from <= start <= to <= chars@.len(),
            trimmed_start(chars@.subrange(start as int, to as int)) == trimmed_start(
                chars@.subrange(from as int, to as int),
            ),
        decreases to - start,
    {
        assert(chars@.subrange(start as int, to as int).skip(1) =~= chars@.subrange(
            start + 1,
            to as int,
        ));
        start += 1;
    }
    start
}

/// One past the last position in `from..to` that is not whitespace, or `from`.
pub fn skip_white_back(chars: &Vec<char>, from: usize, to: usize) -> (end: usize)
    requires
        from <= to <= chars@.len(),
    ensures
        from <= end <= to,
        chars@.subrange(from as int, end as int) == trimmed_end(
            chars@.subrange(from as int, to as int),
        ),
{
    let mut end: usize = to;
    while from < end && is_whitespace(chars[end - 1])
        invariant
            from <= end <= to <= chars@.len(),
            trimmed_end(chars@.subrange(from as int, end as int)) == trimmed_end(
                chars@.subrange(from as int, to as int),
            ),
        decreases end - from,
    {
        assert(chars@.subrange(from as int, end as int).drop_last() =~= chars@.subrange(
            from as int,
            end - 1,
        ));
        end -= 1;
    }
    end
}

/// The string without the whitespace around it.
pub fn trim(text: &str) -> (inner: String)
    ensures
        inner@ == trimmed(text@),
{
    let chars = chars_of(text);
    assert(chars@.subrange(0, chars@.len() as int) =~= text@);
    let start: usize = skip_white(&chars, 0, chars.len());
    let end: usize = skip_white_back(&chars, start, chars.len());
    text_between(&chars, start, end)
}

/// `needle` stands in `text` at position `at`.
pub open spec fn occurs_at(text: Seq<char>, needle: Seq<char>, at: int) -> bool {
    0 <= at && at + needle.len() <= text.len() && text.subrange(at, at + needle.len()) == needle
}

/// The first position from `from` on at which `needle` stands in `text`.
pub open spec fn first_from(text: Seq<char>, needle: Seq<char>, from: int) -> Option<int>
    decreases text.len() + 1 - from,
{
    if from < 0 || from + needle.len() > text.len() {
        None
    } else if occurs_at(text, needle, from) {
        Some(from)
    } else {
        first_from(text, needle, from + 1)
    }
}

/// The first position at which `needle` stands in `text`.
pub open spec fn first_in(text: Seq<char>, needle: Seq<char>) -> Option<int> {
    first_from(text, needle, 0)
}

/// `first_from` finds the least position, and finds one exactly where there is one.
pub proof fn lemma_first_from(text: Seq<char>, needle: Seq<char>, from: int)
    requires
        0 <= from,
    ensures
        match first_from(text, needle, from) {
            Some(at) => from <= at && occurs_at(text, needle, at) && forall|other: int|
                from <= other < at ==> !occurs_at(text, needle, other),
            None => forall|other: int| from <= other ==> !occurs_at(text, needle, other),
        },
    decreases text.len() + 1 - from,
{
    if from + needle.len() <= text.len() && !occurs_at(text, needle, from) {
        lemma_first_from(text, needle, from + 1);
    }
}

/// Whether `needle` stands in `chars` at `at`.
pub fn stands_at(chars: &Vec<char>, needle: &Vec<char>, at: usize) -> (found: bool)
    ensures
        found == occurs_at(chars@, needle@, at as int),
{
    if at > chars.len() || chars.len() - at < needle.len() {
        return false;
    }
    let total: usize = chars.len();
    let mut offset: usize = 0;
    while offset < needle.len()
        invariant
            offset <= needle@.len(),
            at + needle@.len() <= total == chars@.len(),
            forall|i: int| 0 <= i < offset ==> chars@[at + i] == needle@[i],
        decreases needle@.len() - offset,
    {
        if chars[at + offset] != needle[offset] {
            assert(chars@.subrange(at as int, at + needle@.len())[offset as int]
                != needle@[offset as int]);
            return false;
        }
        offset += 1;
    }
    assert(chars@.subrange(at as int, at + needle@.len()) =~= needle@);
    true
}

/// The first position at which `needle` stands in `chars`.
pub fn find(chars: &Vec<char>, needle: &Vec<char>) -> (found: Option<usize>)
    ensures
        match found {
            Some(at) => first_in(chars@, needle@) == Some(at as int) && occurs_at(
                chars@,
                needle@,
                at as int,
            ),
            None => first_in(chars@, needle@) is None,
        },
{
    let mut at: usize = 0;
    while at <= chars.len() && needle.len() <= chars.len() - at
        invariant
            at <= chars@.len() + 1,
            first_in(chars@, needle@) == first_from(chars@, needle@, at as int),
        decreases chars@.len() + 1 - at,
    {
        if stands_at(chars, needle, at) {
            return Some(at);
        }
        if at == chars.len() {
            assert(first_from(chars@, needle@, at + 1) is None);
            return None;
        }
        at += 1;
    }
    None
}

/// Whether `text` begins with `prefix`.
pub open spec fn starts(text: Seq<char>, prefix: Seq<char>) -> bool {
    occurs_at(text, prefix, 0)
}

/// Whether `text` ends with `suffix`.
pub open spec fn ends(text: Seq<char>, suffix: Seq<char>) -> bool {
    occurs_at(text, suffix, text.len() - suffix.len())
}

/// Whether `text` begins with `prefix`.
pub fn starts_with(text: &str, prefix: &str) -> (yes: bool)
    ensures
        yes == starts(text@, prefix@),
{
    stands_at(&chars_of(text), &chars_of(prefix), 0)
}

/// Whether `text` ends with `suffix`.
pub fn ends_with(text: &str, suffix: &str) -> (yes: bool)
    ensures
        yes == ends(text@, suffix@),
{
    let chars = chars_of(text);
    let tail = chars_of(suffix);
    tail.len() <= chars.len() && stands_at(&chars, &tail, chars.len() - tail.len())
}

/// What follows `prefix` at the start of `text`.
pub open spec fn after_prefix(text: Seq<char>, prefix: Seq<char>) -> Option<Seq<char>> {
    if starts(text, prefix) {
        Some(text.skip(prefix.len() as int))
    } else {
        None
    }
}

/// What stands before `suffix` at the end of `text`.
pub open spec fn before_suffix(text: Seq<char>, suffix: Seq<char>) -> Option<Seq<char>> {
    if ends(text, suffix) {
        Some(text.take(text.len() - suffix.len()))
    } else {
        None
    }
}

/// The text of an optional string.
pub open spec fn option_text(text: Option<String>) -> Option<Seq<char>> {
    match text {
        Some(inner) => Some(inner@),
        None => None,
    }
}

/// What follows `prefix` at the start of `text`.
pub fn strip_prefix(text: &str, prefix: &str) -> (rest: Option<String>)
    ensures
        option_text(rest) == after_prefix(text@, prefix@),
{
    let chars = chars_of(text);
    let head = chars_of(prefix);
    if stands_at(&chars, &head, 0) {
        assert(chars@.subrange(head@.len() as int, chars@.len() as int) =~= text@.skip(
            prefix@.len() as int,
        ));
        Some(text_between(&chars, head.len(), chars.len()))
    } else {
        None
    }
}

/// What stands before `suffix` at the end of `text`.
pub fn strip_suffix(text: &str, suffix: &str) -> (rest: Option<String>)
    ensures
        option_text(rest) == before_suffix(text@, suffix@),
{
    let chars = chars_of(text);
    let tail = chars_of(suffix);
    if tail.len() <= chars.len() && stands_at(&chars, &tail, chars.len() - tail.len()) {
        assert(chars@.subrange(0, chars@.len() - tail@.len()) =~= text@.take(
            text@.len() - suffix@.len(),
        ));
        Some(text_between(&chars, 0, chars.len() - tail.len()))
    } else {
        None
    }
}

/// The two sides of the first `separator` in `text`.
pub open spec fn parted(text: Seq<char>, separator: Seq<char>) -> Option<(Seq<char>, Seq<char>)> {
    match first_in(text, separator) {
        Some(at) => Some((text.take(at), text.skip(at + separator.len()))),
        None => None,
    }
}

/// The two sides of the first `separator` in `text`.
pub fn split_once(text: &str, separator: &str) -> (sides: Option<(String, String)>)
    ensures
        match sides {
            Some((left, right)) => parted(text@, separator@) == Some((left@, right@)),
            None => parted(text@, separator@) is None,
        },
{
    let chars = chars_of(text);
    let needle = chars_of(separator);
    let total: usize = chars.len();
    match find(&chars, &needle) {
        Some(at) => {
            assert(at + needle@.len() <= total);
            assert(chars@.subrange(0, at as int) =~= text@.take(at as int));
            assert(chars@.subrange(at + needle@.len(), chars@.len() as int) =~= text@.skip(
                at + needle@.len(),
            ));
            Some((text_between(&chars, 0, at), text_between(&chars, at + needle.len(), chars.len())))
        },
        None => None,
    }
}

/// Whether `wanted` stands anywhere in `text`.
pub open spec fn has_char(text: Seq<char>, wanted: char) -> bool {
    exists|i: int| 0 <= i < text.len() && text[i] == wanted
}

/// Whether `wanted` stands anywhere in `text`.
pub fn contains_char(text: &str, wanted: char) -> (found: bool)
    ensures
        found == has_char(text@, wanted),
{
    let chars = chars_of(text);
    let mut index: usize = 0;
    while index < chars.len()
        invariant
            index <= chars@.len(),
            chars@ == text@,
            forall|i: int| 0 <= i < index ==> text@[i] != wanted,
        decreases chars@.len() - index,
    {
        if chars[index] == wanted {
            return true;
        }
        index += 1;
    }
    false
}

/// The decimal digit characters.
pub open spec fn is_digit(character: char) -> bool {
    '0' <= character <= '9'
}

/// Whether a character is a decimal digit.
pub fn is_ascii_digit(character: char) -> (digit: bool)
    ensures
        digit == is_digit(character),
{
    '0' <= character && character <= '9'
}

/// The character of a digit below ten.
pub open spec fn digit_char(digit: nat) -> char {
    (0x30 + digit) as char
}

/// A number in decimal, without leading zeros.
pub open spec fn decimal_of(number: nat) -> Seq<char>
    decreases number,
{
    if number < 10 {
        seq![digit_char(number)]
    } else {
        decimal_of(number / 10).push(digit_char(number % 10))
    }
}

/// A number in decimal, without leading zeros.
pub fn decimal(number: u64) -> (text: String)
    ensures
        text@ == decimal_of(number as nat),
    decreases number,
{
    let digit: u8 = (number % 10) as u8;
    let character = (0x30u8 + digit) as char;
    if number < 10 {
        let mut text = String::new();
        text.push(character);
        assert(text@ =~= seq![digit_char(number as nat)]);
        text
    } else {
        let mut text = decimal(number / 10);
        text.push(character);
        text
    }
}

/// The number that a run of decimal digits stands for.
pub open spec fn number_of(digits: Seq<char>) -> nat
    decreases digits.len(),
{
    if digits.len() == 0 {
        0
    } else {
        number_of(digits.drop_last()) * 10 + ((digits.last() as u32 - 0x30) as nat)
    }
}

/// Whether `text` is a non-empty run of decimal digits.
pub open spec fn all_digits(text: Seq<char>) -> bool {
    text.len() > 0 && forall|i: int| 0 <= i < text.len() ==> is_digit(#[trigger] text[i])
}

/// A number in decimal is a run of digits that reads back as the number.
pub proof fn lemma_decimal_reads_back(number: nat)
    ensures
        all_digits(decimal_of(number)),
        number_of(decimal_of(number)) == number,
    decreases number,
{
    if number < 10 {
        assert(decimal_of(number).drop_last() =~= Seq::<char>::empty());
        assert(number_of(Seq::<char>::empty()) == 0);
        assert(digit_char(number) as u32 - 0x30 == number);
    } else {
        lemma_decimal_reads_back(number / 10);
        assert(digit_char(number % 10) as u32 - 0x30 == number % 10);
        let shorter = decimal_of(number / 10);
        assert(decimal_of(number).drop_last() =~= shorter);
        assert forall|i: int| 0 <= i < decimal_of(number).len() implies is_digit(
            #[trigger] decimal_of(number)[i],
        ) by {
            if i < shorter.len() {
                assert(decimal_of(number)[i] == shorter[i]);
            }
        }
    }
}

/// Dropping digits from the end never makes the number larger.
proof fn lemma_number_grows(digits: Seq<char>, count: int)
    requires
        0 <= count <= digits.len(),
    ensures
        number_of(digits.take(count)) <= number_of(digits),
    decreases digits.len(),
{
    if count == digits.len() {
        assert(digits.take(count) =~= digits);
    } else {
        lemma_number_grows(digits.drop_last(), count);
        assert(digits.drop_last().take(count) =~= digits.take(count));
    }
}

/// Reads a non-empty run of decimal digits that fits in a `usize`.
pub fn parse_decimal(chars: &Vec<char>) -> (number: Option<usize>)
    ensures
        match number {
            Some(value) => all_digits(chars@) && number_of(chars@) == value,
            None => !all_digits(chars@) || number_of(chars@) > usize::MAX,
        },
{
    if chars.len() == 0 {
        return None;
    }
    let mut value: usize = 0;
    let mut index: usize = 0;
    let mut fits = true;
    while index < chars.len()
        invariant
            index <= chars@.len(),
            fits ==> value == number_of(chars@.take(index as int)),
            !fits ==> number_of(chars@.take(index as int)) > usize::MAX,
            forall|i: int| 0 <= i < index ==> is_digit(#[trigger] chars@[i]),
        decreases chars@.len() - index,
    {
        let character = chars[index];
        if !is_ascii_digit(character) {
            return None;
        }
        let digit: usize = (character as u32 - 0x30) as usize;
        proof {
            let longer = chars@.take(index + 1);
            assert(longer.drop_last() =~= chars@.take(index as int));
            assert(longer.last() == character);
            lemma_number_grows(longer, index as int);
            assert(longer.take(index as int) =~= chars@.take(index as int));
        }
        if fits {
            match value.checked_mul(10) {
                Some(tens) => match tens.checked_add(digit) {
                    Some(sum) => {
                        value = sum;
                    },
                    None => {
                        fits = false;
                    },
                },
                None => {
                    fits = false;
                },
            }
        }
        index += 1;
    }
    assert(chars@.take(chars@.len() as int) =~= chars@);
    if fits {
        Some(value)
    } else {
        None
    }
}

/// The lower-case form of an ASCII letter; any other character unchanged.
pub open spec fn lowered(character: char) -> char {
    if 'A' <= character <= 'Z' {
        (character as u32 + 0x20) as char
    } else {
        character
    }
}

/// The two texts differ at most in the case of ASCII letters.
pub open spec fn alike(left: Seq<char>, right: Seq<char>) -> bool {
    left.len() == right.len() && forall|i: int|
        0 <= i < left.len() ==> lowered(#[trigger] left[i]) == lowered(right[i])
}

/// The lower-case form of an ASCII letter; any other character unchanged.
pub fn to_lower(character: char) -> (lower: char)
    ensures
        lower == lowered(character),
{
    if 'A' <= character && character <= 'Z' {
        ((character as u8) + 0x20) as char
    } else {
        character
    }
}

/// Compares two strings, ignoring the case of ASCII letters.
pub fn same_ignoring_case(left: &str, right: &str) -> (same: bool)
    ensures
        same == alike(left@, right@),
{
    let one = chars_of(left);
    let other = chars_of(right);
    if one.len() != other.len() {
        return false;
    }
    let mut index: usize = 0;
    while index < one.len()
        invariant
            index <= one@.len(),
            one@.len() == other@.len(),
            one@ == left@,
            other@ == right@,
            forall|i: int| 0 <= i < index ==> lowered(#[trigger] left@[i]) == lowered(right@[i]),
        decreases one@.len() - index,
    {
        if to_lower(one[index]) != to_lower(other[index]) {
            assert(lowered(left@[index as int]) != lowered(right@[index as int]));
            return false;
        }
        index += 1;
    }
    true
}

/// The decimal digits of `text`, in order.
pub open spec fn digits_of(text: Seq<char>) -> Seq<char> {
    text.filter(|character: char| is_digit(character))
}

/// Keeps only the decimal digits of a string.
pub fn keep_digits(text: &str) -> (digits: String)
    ensures
        digits@ == digits_of(text@),
{
    let chars = chars_of(text);
    let mut digits = String::new();
    let mut index: usize = 0;
    let ghost keep = |character: char| is_digit(character);
    assert(chars@.take(0).filter(keep) =~= Seq::<char>::empty()) by {
        reveal(Seq::filter);
    }
    while index < chars.len()
        invariant
            index <= chars@.len(),
            keep == (|character: char| is_digit(character)),
            digits@ == chars@.take(index as int).filter(keep),
        decreases chars@.len() - index,
    {
        if is_ascii_digit(chars[index]) {
            digits.push(chars[index]);
        }
        index += 1;
        proof {
            reveal(Seq::filter);
            assert(chars@.take(index as int).drop_last() =~= chars@.take(index - 1));
        }
    }
    assert(chars@.take(chars@.len() as int) =~= chars@);
    digits
}

/// The texts of a list of strings.
pub open spec fn texts(list: Seq<String>) -> Seq<Seq<char>> {
    list.map_values(|text: String| text@)
}

/// The texts of `list`, with `separator` between each two.
pub open spec fn join_of(list: Seq<Seq<char>>, separator: Seq<char>) -> Seq<char>
    decreases list.len(),
{
    if list.len() == 0 {
        Seq::empty()
    } else if list.len() == 1 {
        list[0]
    } else {
        join_of(list.drop_last(), separator) + separator + list.last()
    }
}

/// Joins a list of strings, with `separator` between each two.
pub fn join(list: &Vec<String>, separator: &str) -> (text: String)
    ensures
        text@ == join_of(texts(list@), separator@),
{
    let mut text = String::new();
    let mut index: usize = 0;
    assert(texts(list@).take(0) =~= Seq::empty());
    while index < list.len()
        invariant
            index <= list@.len(),
            text@ == join_of(texts(list@).take(index as int), separator@),
        decreases list@.len() - index,
    {
        if index > 0 {
            text.append(separator);
        }
        text.append(list[index].as_str());
        index += 1;
        proof {
            let longer = texts(list@).take(index as int);
            assert(longer.drop_last() =~= texts(list@).take(index - 1));
            assert(longer.last() == list@[index - 1]@);
            if index == 1 {
                assert(longer[0] == list@[0]@);
                assert(texts(list@).take(0) =~= Seq::empty());
                assert(text@ =~= list@[0]@);
            }
        }
    }
    assert(texts(list@).take(list@.len() as int) =~= texts(list@));
    text
}

/// The text of an optional string, or nothing.
pub open spec fn text_or_empty(text: Option<String>) -> Seq<char> {
    match text {
        Some(inner) => inner@,
        None => Seq::empty(),
    }
}

/// A copy of a list of strings.
pub fn copy_texts(list: &Vec<String>) -> (copy: Vec<String>)
    ensures
        copy@ == list@,
{
    let copy = list.clone();
    assert(copy@ =~= list@);
    copy
}

/// The order of strings: by the first character in which they differ, a shorter
/// string before its extensions.
pub open spec fn text_less(left: Seq<char>, right: Seq<char>) -> bool
    decreases right.len(),
{
    if right.len() == 0 {
        false
    } else if left.len() == 0 {
        true
    } else if left[0] != right[0] {
        (left[0] as int) < (right[0] as int)
    } else {
        text_less(left.skip(1), right.skip(1))
    }
}

/// Of two strings, exactly one comes first, unless they are the same.
pub proof fn lemma_text_order_is_total(left: Seq<char>, right: Seq<char>)
    ensures
        left == right || text_less(left, right) || text_less(right, left),
        !(text_less(left, right) && text_less(right, left)),
        left == right ==> !text_less(left, right),
    decreases right.len(),
{
    if left.len() == 0 || right.len() == 0 {
        if left.len() == 0 && right.len() == 0 {
            assert(left =~= right);
        }
    } else if left[0] == right[0] {
        lemma_text_order_is_total(left.skip(1), right.skip(1));
        if left.skip(1) == right.skip(1) {
            assert(left =~= seq![left[0]] + left.skip(1));
            assert(right =~= seq![right[0]] + right.skip(1));
        }
    }
}

/// The order of strings is transitive.
pub proof fn lemma_text_order_is_transitive(first: Seq<char>, second: Seq<char>, third: Seq<char>)
    requires
        text_less(first, second),
        text_less(second, third),
    ensures
        text_less(first, third),
    decreases third.len(),
{
    if first.len() > 0 && second.len() > 0 && third.len() > 0 && first[0] == second[0] && second[0]
        == third[0] {
        lemma_text_order_is_transitive(first.skip(1), second.skip(1), third.skip(1));
    }
}

/// Whether `left` comes before `right`.
pub fn comes_before(left: &str, right: &str) -> (before: bool)
    ensures
        before == text_less(left@, right@),
{
    let one = chars_of(left);
    let other = chars_of(right);
    let mut index: usize = 0;
    assert(one@.skip(0) =~= left@);
    assert(other@.skip(0) =~= right@);
    while index < one.len() && index < other.len()
        invariant
            one@ == left@,
            other@ == right@,
            index <= one@.len(),
            index <= other@.len(),
            text_less(left@, right@) == text_less(
                one@.skip(index as int),
                other@.skip(index as int),
            ),
        decreases one@.len() - index,
    {
        let here: char = one[index];
        let there: char = other[index];
        if here != there {
            return here < there;
        }
        proof {
            assert(one@.skip(index as int).skip(1) =~= one@.skip(index + 1));
            assert(other@.skip(index as int).skip(1) =~= other@.skip(index + 1));
        }
        index += 1;
    }
    index < other.len()
}

/// A relative path below a directory.
pub open spec fn path_under(directory: Seq<char>, name: Seq<char>) -> Seq<char> {
    if directory.len() == 0 || ends(directory, "/"@) {
        directory + name
    } else {
        directory + "/"@ + name
    }
}

/// A relative path below a directory.
pub fn joined_path(directory: &str, name: &str) -> (path: String)
    ensures
        path@ == path_under(directory@, name@),
{
    if directory.is_empty() || ends_with(directory, "/") {
        joined(directory, name)
    } else {
        joined3(directory, "/", name)
    }
}

/// Whether a text is nothing but whitespace.
pub open spec fn is_blank(text: Seq<char>) -> bool {
    forall|i: int| 0 <= i < text.len() ==> is_white(#[trigger] text[i])
}

/// Dropping leading whitespace drops nothing else and leaves none.
pub proof fn trimming_the_start_drops_only_space(text: Seq<char>)
    ensures
        ({
            let rest = trimmed_start(text);
            &&& rest.len() <= text.len()
            &&& rest == text.skip(text.len() - rest.len())
            &&& is_blank(text.take(text.len() - rest.len()))
            &&& rest.len() > 0 ==> !is_white(rest[0])
        }),
    decreases text.len(),
{
    if text.len() > 0 && is_white(text[0]) {
        let shorter = text.skip(1);
        trimming_the_start_drops_only_space(shorter);
        let rest = trimmed_start(text);
        let gone = shorter.len() - rest.len();
        assert(shorter.skip(gone) =~= text.skip(gone + 1));
        assert forall|i: int| 0 <= i < gone + 1 implies is_white(
            #[trigger] text.take(gone + 1)[i],
        ) by {
            if i > 0 {
                assert(shorter.take(gone)[i - 1] == text[i]);
            }
        }
    } else {
        assert(text.skip(0) =~= text);
    }
}

/// Dropping trailing whitespace drops nothing else and leaves none.
pub proof fn trimming_the_end_drops_only_space(text: Seq<char>)
    ensures
        ({
            let rest = trimmed_end(text);
            &&& rest.len() <= text.len()
            &&& rest == text.take(rest.len() as int)
            &&& is_blank(text.skip(rest.len() as int))
            &&& rest.len() > 0 ==> !is_white(rest.last())
        }),
    decreases text.len(),
{
    if text.len() > 0 && is_white(text.last()) {
        let shorter = text.drop_last();
        trimming_the_end_drops_only_space(shorter);
        let kept = trimmed_end(text).len() as int;
        assert(shorter.take(kept) =~= text.take(kept));
        assert forall|i: int| 0 <= i < text.skip(kept).len() implies is_white(
            #[trigger] text.skip(kept)[i],
        ) by {
            if i + kept < shorter.len() {
                assert(shorter.skip(kept)[i] == text[i + kept]);
            }
        }
    } else {
        assert(text.take(text.len() as int) =~= text);
    }
}

/// Trimming a text that has no whitespace around it changes nothing.
pub proof fn trimmed_texts_stay(text: Seq<char>)
    requires
        text.len() > 0 ==> !is_white(text[0]) && !is_white(text.last()),
    ensures
        trimmed(text) == text,
{
}

/// Parting a text at a separator gives what stands on either side of its first
/// occurrence, and nothing exactly where it does not occur.
pub proof fn parting_is_at_the_first_separator(text: Seq<char>, separator: Seq<char>)
    ensures
        match parted(text, separator) {
            Some((left, right)) => text == left + separator + right && forall|at: int|
                0 <= at < left.len() ==> !(#[trigger] occurs_at(text, separator, at)),
            None => forall|at: int| !(#[trigger] occurs_at(text, separator, at)),
        },
{
    lemma_first_from(text, separator, 0);
    match first_in(text, separator) {
        Some(at) => {
            let left = text.take(at);
            let right = text.skip(at + separator.len());
            assert(text =~= left + separator + right) by {
                assert(text.subrange(at, at + separator.len()) == separator);
                assert forall|i: int| 0 <= i < text.len() implies text[i] == (left + separator
                    + right)[i] by {
                    if at <= i < at + separator.len() {
                        assert(text.subrange(at, at + separator.len())[i - at] == text[i]);
                    }
                }
            }
        },
        None => {},
    }
}

/// Whether a text says a part somewhere.
pub open spec fn mentions(text: Seq<char>, part: Seq<char>) -> bool {
    exists|at: int| #[trigger] occurs_at(text, part, at)
}

/// What a part of a text mentions, the text mentions.
pub proof fn lemma_mentions_within(before: Seq<char>, inner: Seq<char>, after: Seq<char>, part: Seq<
    char,
>)
    requires
        mentions(inner, part),
    ensures
        mentions(before + inner + after, part),
{
    let at = choose|at: int| #[trigger] occurs_at(inner, part, at);
    let whole = before + inner + after;
    let place = before.len() + at;
    assert(whole.subrange(place, place + part.len()) =~= inner.subrange(at, at + part.len()));
    assert(occurs_at(whole, part, place));
}

/// A text mentions itself.
pub proof fn lemma_mentions_itself(text: Seq<char>)
    ensures
        mentions(text, text),
{
    assert(text.subrange(0, text.len() as int) =~= text);
    assert(occurs_at(text, text, 0));
}

/// Joined texts mention each of them.
pub proof fn joined_texts_mention_each(list: Seq<Seq<char>>, separator: Seq<char>, index: int)
    requires
        0 <= index < list.len(),
    ensures
        mentions(join_of(list, separator), list[index]),
    decreases list.len(),
{
    let whole = join_of(list, separator);
    lemma_mentions_itself(list[index]);
    if list.len() > 1 {
        let earlier = join_of(list.drop_last(), separator);
        if index < list.len() - 1 {
            joined_texts_mention_each(list.drop_last(), separator, index);
            lemma_mentions_within(
                Seq::empty(),
                earlier,
                separator + list.last(),
                list[index],
            );
            assert(Seq::<char>::empty() + earlier + (separator + list.last()) =~= whole);
        } else {
            lemma_mentions_within(earlier + separator, list[index], Seq::empty(), list[index]);
            assert((earlier + separator) + list[index] + Seq::<char>::empty() =~= whole);
        }
    }
}

/// A text is parted behind what stands before the separator, where the separator does not
/// begin in there.
pub proof fn lemma_parted_behind(head: Seq<char>, separator: Seq<char>, rest: Seq<char>)
    requires
        separator.len() > 0,
        forall|i: int| 0 <= i < head.len() ==> #[trigger] head[i] != separator[0],
    ensures
        parted(head + separator + rest, separator) == Some((head, rest)),
{
    let text = head + separator + rest;
    let at = head.len() as int;
    parting_is_at_the_first_separator(text, separator);
    assert(text.subrange(at, at + separator.len()) =~= separator);
    assert(occurs_at(text, separator, at));
    let (left, right) = parted(text, separator)->0;
    let again = left + separator + right;
    assert(again[left.len() as int] == separator[0]);
    if left.len() < at {
        assert(head[left.len() as int] == text[left.len() as int]);
    }
    assert(left.len() == at);
    assert(left =~= head) by {
        assert forall|i: int| 0 <= i < at implies left[i] == head[i] by {
            assert(again[i] == left[i]);
            assert(text[i] == head[i]);
        }
    }
    assert(right =~= rest) by {
        assert forall|i: int| 0 <= i < rest.len() implies right[i] == rest[i] by {
            assert(again[at + separator.len() + i] == right[i]);
            assert(text[at + separator.len() + i] == rest[i]);
        }
    }
}

/// Joined texts stand in their order, with one separator between each two and none around
/// them: joining two lists comes to joining each and then the two.
pub proof fn joining_keeps_the_order(
    left: Seq<Seq<char>>,
    right: Seq<Seq<char>>,
    separator: Seq<char>,
)
    requires
        left.len() > 0,
        right.len() > 0,
    ensures
        join_of(left + right, separator) == join_of(left, separator) + separator + join_of(
            right,
            separator,
        ),
        left.len() == 1 ==> join_of(left, separator) == left[0],
    decreases right.len(),
{
    let all = left + right;
    assert(all.drop_last() =~= left + right.drop_last());
    assert(all.last() == right.last());
    let first = join_of(left, separator);
    if right.len() == 1 {
        assert(left + right.drop_last() =~= left);
        assert(first + separator + right.last() =~= first + separator + join_of(right, separator));
    } else {
        joining_keeps_the_order(left, right.drop_last(), separator);
        let middle = join_of(right.drop_last(), separator);
        assert(first + separator + middle + separator + right.last() =~= first + separator + (middle
            + separator + right.last()));
    }
}

} // verus!
