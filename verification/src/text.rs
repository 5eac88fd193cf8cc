//! Text functions: trimming, comparing, splitting, joining and writing numbers out.

use vstd::prelude::*;

verus! {

/// Whether a character has the Unicode property `White_Space`.
pub open spec fn is_white_space(c: char) -> bool {
    let code = c as u32;
    ||| 0x09 <= code <= 0x0d
    ||| code == 0x20
    ||| code == 0x85
    ||| code == 0xa0
    ||| code == 0x1680
    ||| 0x2000 <= code <= 0x200a
    ||| code == 0x2028
    ||| code == 0x2029
    ||| code == 0x202f
    ||| code == 0x205f
    ||| code == 0x3000
}

/// `s` without its leading white space.
pub open spec fn trimmed_start(s: Seq<char>) -> Seq<char>
    decreases s.len(),
{
    if s.len() > 0 && is_white_space(s[0]) {
        trimmed_start(s.drop_first())
    } else {
        s
    }
}

/// `s` without its trailing white space.
pub open spec fn trimmed_end(s: Seq<char>) -> Seq<char>
    decreases s.len(),
{
    if s.len() > 0 && is_white_space(s.last()) {
        trimmed_end(s.drop_last())
    } else {
        s
    }
}

/// `s` without its leading and trailing white space.
pub open spec fn trimmed(s: Seq<char>) -> Seq<char> {
    trimmed_end(trimmed_start(s))
}

/// Whether `s` is empty or nothing but white space.
pub open spec fn is_blank(s: Seq<char>) -> bool {
    trimmed(s).len() == 0
}

/// The trimmed text of an optional field, where it is set and not blank.
pub open spec fn set_text(field: Option<String>) -> Option<Seq<char>> {
    match field {
        Some(value) => if is_blank(value@) {
            None
        } else {
            Some(trimmed(value@))
        },
        None => None,
    }
}

/// The lower-case form of an ASCII letter; other characters stay as they are.
pub open spec fn ascii_lower(c: char) -> char {
    if 0x41 <= c as u32 <= 0x5a {
        ((c as u32) + 0x20) as char
    } else {
        c
    }
}

/// `s` with its ASCII letters in lower case.
pub open spec fn lowered(s: Seq<char>) -> Seq<char> {
    s.map_values(|c: char| ascii_lower(c))
}

/// Whether two texts are equal up to the case of ASCII letters.
pub open spec fn same_ignoring_case(a: Seq<char>, b: Seq<char>) -> bool {
    lowered(a) == lowered(b)
}

/// Whether `s` begins with `prefix`.
pub open spec fn begins_with(s: Seq<char>, prefix: Seq<char>) -> bool {
    prefix.len() <= s.len() && s.take(prefix.len() as int) == prefix
}

/// The parts of `s` between the occurrences of `separator`, in order.
pub open spec fn split_parts(s: Seq<char>, separator: char) -> Seq<Seq<char>>
    decreases s.len(),
{
    if s.len() == 0 {
        seq![Seq::<char>::empty()]
    } else {
        let parts = split_parts(s.drop_last(), separator);
        if s.last() == separator {
            parts.push(Seq::<char>::empty())
        } else {
            parts.drop_last().push(parts.last().push(s.last()))
        }
    }
}

/// The parts one after the other with `separator` between any two neighbours.
pub open spec fn joined(parts: Seq<Seq<char>>, separator: Seq<char>) -> Seq<char>
    decreases parts.len(),
{
    if parts.len() == 0 {
        Seq::empty()
    } else if parts.len() == 1 {
        parts[0]
    } else {
        joined(parts.drop_last(), separator) + separator + parts.last()
    }
}

/// The texts that a list of strings holds.
pub open spec fn texts(list: Seq<String>) -> Seq<Seq<char>> {
    list.map_values(|s: String| s@)
}

/// The position at which `item` first occurs in `list`.
pub open spec fn first_position(list: Seq<Seq<char>>, item: Seq<char>) -> Option<int>
    decreases list.len(),
{
    if list.len() == 0 {
        None
    } else {
        match first_position(list.drop_last(), item) {
            Some(i) => Some(i),
            None => if list.last() == item {
                Some(list.len() - 1)
            } else {
                None
            },
        }
    }
}

/// The character of a decimal digit.
pub open spec fn digit(d: nat) -> char {
    (0x30 + d) as char
}

/// The decimal digits of `n`, without leading zeros.
pub open spec fn decimal(n: nat) -> Seq<char>
    decreases n,
{
    if n < 10 {
        seq![digit(n)]
    } else {
        decimal(n / 10).push(digit(n % 10))
    }
}

/// What `first_position` gives is a position of the item, the first one, and it gives one
/// where there is one.
pub proof fn lemma_first_position(list: Seq<Seq<char>>, item: Seq<char>)
    ensures
        first_position(list, item) is Some <==> list.contains(item),
        first_position(list, item) matches Some(i) ==> {
            &&& 0 <= i < list.len()
            &&& list[i] == item
            &&& forall|j: int| 0 <= j < i ==> list[j] != item
        },
    decreases list.len(),
{
    if list.len() > 0 {
        let front = list.drop_last();
        lemma_first_position(front, item);
        if front.contains(item) {
            let i = front.index_of(item);
            assert(list[i] == item);
            let first = first_position(front, item)->0;
            assert forall|j: int| 0 <= j < first implies list[j] != item by {
                assert(front[j] == list[j]);
            }
        } else {
            assert forall|j: int| 0 <= j < list.len() - 1 implies list[j] != item by {
                assert(front[j] == list[j]);
            }
            if list.last() == item {
                assert(list[list.len() - 1] == item);
            }
        }
    }
}

/// A position of the item before which it does not occur is the first one.
pub proof fn lemma_is_first_position(list: Seq<Seq<char>>, item: Seq<char>, i: int)
    requires
        0 <= i < list.len(),
        list[i] == item,
        forall|j: int| 0 <= j < i ==> list[j] != item,
    ensures
        first_position(list, item) == Some(i),
{
    lemma_first_position(list, item);
    assert(list.contains(item));
}

/// Trimming leaves no white space at either end.
pub proof fn law_trimmed_ends(s: Seq<char>)
    ensures
        trimmed(s).len() > 0 ==> !is_white_space(trimmed(s)[0]) && !is_white_space(
            trimmed(s).last(),
        ),
{
    lemma_trimmed_start_first(s);
    lemma_trimmed_end_last(trimmed_start(s));
}

/// Trimming twice is trimming once.
pub proof fn law_trimmed_idempotent(s: Seq<char>)
    ensures
        trimmed(trimmed(s)) == trimmed(s),
{
    law_trimmed_ends(s);
}

/// A text that neither begins nor ends with white space is trimmed.
pub proof fn lemma_trimmed_fixed(s: Seq<char>)
    requires
        s.len() > 0,
        !is_white_space(s[0]),
        !is_white_space(s.last()),
    ensures
        trimmed(s) == s,
{
}

/// The digits of a number are not white space, and there is at least one.
pub proof fn lemma_decimal_last(n: nat)
    ensures
        decimal(n).len() > 0,
        !is_white_space(decimal(n).last()),
{
}

proof fn lemma_trimmed_start_first(s: Seq<char>)
    ensures
        trimmed_start(s).len() > 0 ==> !is_white_space(trimmed_start(s)[0]),
    decreases s.len(),
{
    if s.len() > 0 && is_white_space(s[0]) {
        lemma_trimmed_start_first(s.drop_first());
    }
}

proof fn lemma_trimmed_end_last(s: Seq<char>)
    ensures
        trimmed_end(s).len() > 0 ==> !is_white_space(trimmed_end(s).last()),
        trimmed_end(s).len() <= s.len(),
        forall|i: int| 0 <= i < trimmed_end(s).len() ==> trimmed_end(s)[i] == s[i],
    decreases s.len(),
{
    if s.len() > 0 && is_white_space(s.last()) {
        let front = s.drop_last();
        lemma_trimmed_end_last(front);
        assert forall|i: int| 0 <= i < trimmed_end(s).len() implies trimmed_end(s)[i] == s[i] by {
            assert(front[i] == s[i]);
        }
    }
}

proof fn lemma_trimmed_start_skip(s: Seq<char>, n: int)
    requires
        0 <= n <= s.len(),
        forall|i: int| 0 <= i < n ==> is_white_space(s[i]),
        n < s.len() ==> !is_white_space(s[n]),
    ensures
        trimmed_start(s) == s.skip(n),
    decreases n,
{
    if n == 0 {
        assert(s.skip(0) =~= s);
    } else {
        let rest = s.drop_first();
        assert forall|i: int| 0 <= i < n - 1 implies is_white_space(rest[i]) by {
            assert(rest[i] == s[i + 1]);
        }
        lemma_trimmed_start_skip(rest, n - 1);
        assert(rest.skip(n - 1) =~= s.skip(n));
    }
}

proof fn lemma_trimmed_end_take(s: Seq<char>, n: int)
    requires
        0 <= n <= s.len(),
        forall|i: int| n <= i < s.len() ==> is_white_space(s[i]),
        n > 0 ==> !is_white_space(s[n - 1]),
    ensures
        trimmed_end(s) == s.take(n),
    decreases s.len(),
{
    if n == s.len() {
        assert(s.take(n) =~= s);
    } else {
        lemma_trimmed_end_take(s.drop_last(), n);
        assert(s.drop_last().take(n) =~= s.take(n));
    }
}

proof fn lemma_split_parts_nonempty(s: Seq<char>, separator: char)
    ensures
        split_parts(s, separator).len() > 0,
    decreases s.len(),
{
    if s.len() > 0 {
        lemma_split_parts_nonempty(s.drop_last(), separator);
    }
}

/// Splitting and joining with the same separator gives the text back.
pub proof fn law_join_of_split(s: Seq<char>, separator: char)
    ensures
        joined(split_parts(s, separator), seq![separator]) == s,
    decreases s.len(),
{
    if s.len() == 0 {
        assert(joined(split_parts(s, separator), seq![separator]) =~= s);
    } else {
        let before = s.drop_last();
        let parts = split_parts(before, separator);
        lemma_split_parts_nonempty(before, separator);
        law_join_of_split(before, separator);
        if s.last() == separator {
            let all = parts.push(Seq::<char>::empty());
            assert(all.drop_last() =~= parts);
            assert(joined(all, seq![separator]) =~= s);
        } else {
            let all = parts.drop_last().push(parts.last().push(s.last()));
            assert(all.drop_last() =~= parts.drop_last());
            assert(all.last() == parts.last().push(s.last()));
            assert(s =~= before.push(s.last()));
            if parts.len() > 1 {
                let front = joined(parts.drop_last(), seq![separator]) + seq![separator];
                assert(before == front + parts.last());
                assert(joined(all, seq![separator]) == front + parts.last().push(s.last()));
                assert(front + parts.last().push(s.last()) =~= (front + parts.last()).push(
                    s.last(),
                ));
            } else {
                assert(joined(all, seq![separator]) == all[0]);
            }
        }
    }
}

/// Whether a character has the Unicode property `White_Space`.
pub fn white_space(c: char) -> (result: bool)
    ensures
        result == is_white_space(c),
{
    let code: u32 = c as u32;
    (0x09 <= code && code <= 0x0d) || code == 0x20 || code == 0x85 || code == 0xa0 || code == 0x1680
        || (0x2000 <= code && code <= 0x200a) || code == 0x2028 || code == 0x2029 || code == 0x202f
        || code == 0x205f || code == 0x3000
}

/// The characters of `s`.
pub fn chars_of(s: &str) -> (chars: Vec<char>)
    ensures
        chars@ == s@,
{
    let mut chars: Vec<char> = Vec::new();
    for c in it: s.chars()
        invariant
            chars@ == it.seq().take(it.index()),
            it.seq() == s@,
    {
        chars.push(c);
    }
    assert(chars@ =~= s@);
    chars
}

/// `s` without its leading and trailing white space.
pub fn trim(s: &str) -> (result: String)
    ensures
        result@ == trimmed(s@),
{
    let chars = chars_of(s);
    let mut start: usize = 0;
    while start < chars.len() && white_space(chars[start])
        invariant
            start <= chars@.len(),
            forall|i: int| 0 <= i < start ==> is_white_space(chars@[i]),
        decreases chars.len() - start,
    {
        start = start + 1;
    }
    let mut end: usize = chars.len();
    while end > start && white_space(chars[end - 1])
        invariant
            start <= end <= chars@.len(),
            forall|i: int| end <= i < chars@.len() ==> is_white_space(chars@[i]),
        decreases end,
    {
        end = end - 1;
    }
    proof {
        lemma_trimmed_start_skip(s@, start as int);
        let rest = s@.skip(start as int);
        lemma_trimmed_end_take(rest, end - start);
        assert(rest.take(end - start) =~= s@.subrange(start as int, end as int));
    }
    s.substring_char(start, end).to_owned()
}

/// Whether `s` is empty or nothing but white space.
pub fn blank(s: &str) -> (result: bool)
    ensures
        result == is_blank(s@),
{
    let inner = trim(s);
    inner.as_str().unicode_len() == 0
}

/// The trimmed text of an optional field, where it is set and not blank.
pub fn set_value(field: &Option<String>) -> (result: Option<String>)
    ensures
        match result {
            Some(value) => set_text(*field) == Some(value@),
            None => set_text(*field) is None,
        },
{
    match field {
        Some(value) => {
            let inner = trim(value.as_str());
            if inner.as_str().unicode_len() == 0 {
                None
            } else {
                Some(inner)
            }
        },
        None => None,
    }
}

/// Whether two texts are the same.
pub fn same(a: &str, b: &str) -> (result: bool)
    ensures
        result == (a@ == b@),
{
    a.to_owned() == b.to_owned()
}

/// The code of the lower-case form of an ASCII letter, or of any other character itself.
fn lower_code(c: char) -> (code: u32)
    ensures
        code == ascii_lower(c) as u32,
{
    let code: u32 = c as u32;
    if 0x41 <= code && code <= 0x5a {
        code + 0x20
    } else {
        code
    }
}

/// Whether the first characters of `a` are those of `b` up to the case of ASCII letters.
pub fn begins_with_ignoring_case(a: &str, b: &str) -> (result: bool)
    ensures
        result == begins_with(lowered(a@), lowered(b@)),
{
    let left = chars_of(a);
    let right = chars_of(b);
    if right.len() > left.len() {
        return false;
    }
    let mut i: usize = 0;
    while i < right.len()
        invariant
            i <= right@.len() <= left@.len(),
            left@ == a@,
            right@ == b@,
            forall|j: int| 0 <= j < i ==> lowered(a@)[j] == lowered(b@)[j],
        decreases right.len() - i,
    {
        if lower_code(left[i]) != lower_code(right[i]) {
            assert(lowered(a@).take(b@.len() as int)[i as int] != lowered(b@)[i as int]);
            return false;
        }
        i = i + 1;
    }
    assert(lowered(a@).take(b@.len() as int) =~= lowered(b@));
    true
}

/// Whether two texts are equal up to the case of ASCII letters.
pub fn equal_ignoring_case(a: &str, b: &str) -> (result: bool)
    ensures
        result == same_ignoring_case(a@, b@),
{
    let result = a.unicode_len() == b.unicode_len() && begins_with_ignoring_case(a, b);
    proof {
        if a@.len() == b@.len() {
            assert(lowered(a@).take(b@.len() as int) =~= lowered(a@));
        } else {
            assert(lowered(a@).len() != lowered(b@).len());
        }
    }
    result
}

/// What follows `prefix` in `s`, where `s` begins with it.
pub fn strip_prefix(s: &str, prefix: &str) -> (result: Option<String>)
    ensures
        match result {
            Some(rest) => begins_with(s@, prefix@) && rest@ == s@.skip(prefix@.len() as int),
            None => !begins_with(s@, prefix@),
        },
{
    let len: usize = s.unicode_len();
    let prefix_len: usize = prefix.unicode_len();
    if prefix_len > len {
        return None;
    }
    assert(s@.subrange(0, prefix_len as int) =~= s@.take(prefix_len as int));
    if same(s.substring_char(0, prefix_len), prefix) {
        assert(s@.subrange(prefix_len as int, len as int) =~= s@.skip(prefix_len as int));
        Some(s.substring_char(prefix_len, len).to_owned())
    } else {
        None
    }
}

/// The parts of `s` between the occurrences of `separator`, in order.
pub fn split(s: &str, separator: char) -> (parts: Vec<String>)
    ensures
        texts(parts@) == split_parts(s@, separator),
{
    let chars = chars_of(s);
    let mut parts: Vec<String> = Vec::new();
    let mut start: usize = 0;
    let mut i: usize = 0;
    assert(s@.subrange(0, 0) =~= Seq::<char>::empty());
    assert(texts(parts@).push(s@.subrange(0, 0)) =~= split_parts(s@.take(0), separator));
    while i < chars.len()
        invariant
            chars@ == s@,
            start <= i <= chars@.len(),
            texts(parts@).push(s@.subrange(start as int, i as int)) == split_parts(
                s@.take(i as int),
                separator,
            ),
        decreases chars.len() - i,
    {
        let ghost before = texts(parts@);
        let ghost current = s@.subrange(start as int, i as int);
        proof {
            assert(s@.take(i + 1).drop_last() =~= s@.take(i as int));
            assert(before.push(current).drop_last() =~= before);
        }
        if chars[i] == separator {
            parts.push(s.substring_char(start, i).to_owned());
            start = i + 1;
            proof {
                assert(texts(parts@) =~= before.push(current));
                assert(s@.subrange(i + 1, i + 1) =~= Seq::<char>::empty());
            }
        } else {
            assert(s@.subrange(start as int, i + 1) =~= current.push(s@[i as int]));
        }
        i = i + 1;
    }
    let ghost before = texts(parts@);
    let ghost current = s@.subrange(start as int, i as int);
    parts.push(s.substring_char(start, i).to_owned());
    proof {
        assert(texts(parts@) =~= before.push(current));
        assert(s@.take(i as int) =~= s@);
    }
    parts
}

/// The parts one after the other with `separator` between any two neighbours.
pub fn join(parts: &Vec<String>, separator: &str) -> (result: String)
    ensures
        result@ == joined(texts(parts@), separator@),
{
    let mut result = String::new();
    let mut i: usize = 0;
    assert(result@ =~= joined(texts(parts@).take(0), separator@));
    while i < parts.len()
        invariant
            i <= parts@.len(),
            result@ == joined(texts(parts@).take(i as int), separator@),
        decreases parts.len() - i,
    {
        let ghost before = result@;
        if i > 0 {
            result.append(separator);
        }
        result.append(parts[i].as_str());
        proof {
            let next = texts(parts@).take(i + 1);
            assert(next.drop_last() =~= texts(parts@).take(i as int));
            assert(next.last() == parts@[i as int]@);
            if i == 0 {
                assert(before =~= Seq::empty());
            }
            assert(result@ =~= joined(next, separator@));
        }
        i = i + 1;
    }
    assert(texts(parts@).take(i as int) =~= texts(parts@));
    result
}

/// The text of one decimal digit.
fn digit_text(d: u64) -> (result: &'static str)
    requires
        d < 10,
    ensures
        result@ == seq![digit(d as nat)],
{
    proof {
        reveal_strlit("0");
        reveal_strlit("1");
        reveal_strlit("2");
        reveal_strlit("3");
        reveal_strlit("4");
        reveal_strlit("5");
        reveal_strlit("6");
        reveal_strlit("7");
        reveal_strlit("8");
        reveal_strlit("9");
    }
    let result = if d == 0 {
        "0"
    } else if d == 1 {
        "1"
    } else if d == 2 {
        "2"
    } else if d == 3 {
        "3"
    } else if d == 4 {
        "4"
    } else if d == 5 {
        "5"
    } else if d == 6 {
        "6"
    } else if d == 7 {
        "7"
    } else if d == 8 {
        "8"
    } else {
        "9"
    };
    assert(result@ =~= seq![digit(d as nat)]);
    result
}

/// `n` in decimal digits.
pub fn number(n: u64) -> (result: String)
    ensures
        result@ == decimal(n as nat),
    decreases n,
{
    if n < 10 {
        digit_text(n).to_owned()
    } else {
        let mut result = number(n / 10);
        result.append(digit_text(n % 10));
        assert(result@ =~= decimal((n / 10) as nat).push(digit((n % 10) as nat)));
        result
    }
}

/// White space is these characters and no others: tabulator, line feed, vertical tabulator,
/// form feed, carriage return, space, next line, and the spaces and separators of Unicode.
pub proof fn law_white_space_characters(c: char, result: bool)
    requires
        call_ensures(white_space, (c,), result),
    ensures
        result == seq![
            '\u{9}',
            '\u{a}',
            '\u{b}',
            '\u{c}',
            '\u{d}',
            '\u{20}',
            '\u{85}',
            '\u{a0}',
            '\u{1680}',
            '\u{2000}',
            '\u{2001}',
            '\u{2002}',
            '\u{2003}',
            '\u{2004}',
            '\u{2005}',
            '\u{2006}',
            '\u{2007}',
            '\u{2008}',
            '\u{2009}',
            '\u{200a}',
            '\u{2028}',
            '\u{2029}',
            '\u{202f}',
            '\u{205f}',
            '\u{3000}',
        ].contains(c),
{
    let all = seq![
        '\u{9}',
        '\u{a}',
        '\u{b}',
        '\u{c}',
        '\u{d}',
        '\u{20}',
        '\u{85}',
        '\u{a0}',
        '\u{1680}',
        '\u{2000}',
        '\u{2001}',
        '\u{2002}',
        '\u{2003}',
        '\u{2004}',
        '\u{2005}',
        '\u{2006}',
        '\u{2007}',
        '\u{2008}',
        '\u{2009}',
        '\u{200a}',
        '\u{2028}',
        '\u{2029}',
        '\u{202f}',
        '\u{205f}',
        '\u{3000}',
    ];
    if result {
        let code = c as int;
        if code <= 0x0d {
            assert(all[code - 9] == c);
        } else if code == 0x20 {
            assert(all[5] == c);
        } else if code == 0x85 {
            assert(all[6] == c);
        } else if code == 0xa0 {
            assert(all[7] == c);
        } else if code == 0x1680 {
            assert(all[8] == c);
        } else if code <= 0x200a {
            assert(all[code - 0x2000 + 9] == c);
        } else if code == 0x2028 {
            assert(all[20] == c);
        } else if code == 0x2029 {
            assert(all[21] == c);
        } else if code == 0x202f {
            assert(all[22] == c);
        } else if code == 0x205f {
            assert(all[23] == c);
        } else {
            assert(all[24] == c);
        }
    }
}

/// What trimming takes off: `start` characters at the front and those from `end` on, all of
/// them white space, and no fewer than there are.
pub open spec fn is_inner_part(s: Seq<char>, start: int, end: int) -> bool {
    &&& 0 <= start <= end <= s.len()
    &&& forall|i: int| 0 <= i < start ==> is_white_space(s[i])
    &&& forall|i: int| end <= i < s.len() ==> is_white_space(s[i])
    &&& start < end ==> !is_white_space(s[start]) && !is_white_space(s[end - 1])
}

proof fn lemma_inner_part(s: Seq<char>) -> (bounds: (int, int))
    ensures
        is_inner_part(s, bounds.0, bounds.1),
        trimmed(s) == s.subrange(bounds.0, bounds.1),
    decreases s.len(),
{
    if s.len() > 0 && is_white_space(s[0]) {
        let rest = s.drop_first();
        let inner = lemma_inner_part(rest);
        let bounds = (inner.0 + 1, inner.1 + 1);
        assert forall|i: int| 0 <= i < bounds.0 implies is_white_space(s[i]) by {
            if i > 0 {
                assert(rest[i - 1] == s[i]);
            }
        }
        assert forall|i: int| bounds.1 <= i < s.len() implies is_white_space(s[i]) by {
            assert(rest[i - 1] == s[i]);
        }
        assert(s.subrange(bounds.0, bounds.1) =~= rest.subrange(inner.0, inner.1));
        bounds
    } else {
        lemma_trimmed_end_last(s);
        lemma_taken_end_is_white(s);
        let end = trimmed_end(s).len() as int;
        assert(s.subrange(0, end) =~= trimmed_end(s));
        (0, end)
    }
}

proof fn lemma_taken_end_is_white(s: Seq<char>)
    ensures
        trimmed_end(s).len() <= s.len(),
        forall|i: int| trimmed_end(s).len() <= i < s.len() ==> is_white_space(s[i]),
    decreases s.len(),
{
    if s.len() > 0 && is_white_space(s.last()) {
        let front = s.drop_last();
        lemma_taken_end_is_white(front);
        assert forall|i: int| trimmed_end(s).len() <= i < s.len() implies is_white_space(s[i]) by {
            if i < front.len() {
                assert(front[i] == s[i]);
            }
        }
    }
}

/// Trimming gives a stretch of the text: all that is left out is white space, and the
/// stretch neither begins nor ends with it.
pub proof fn law_trim_takes_off_white_space(s: &str, result: String)
    requires
        call_ensures(trim, (s,), result),
    ensures
        exists|start: int, end: int|
            #[trigger] is_inner_part(s@, start, end) && result@ == s@.subrange(start, end),
{
    let bounds = lemma_inner_part(s@);
    assert(is_inner_part(s@, bounds.0, bounds.1));
}

/// A text is blank exactly if every character of it is white space.
pub proof fn law_blank_is_all_white_space(s: &str, result: bool)
    requires
        call_ensures(blank, (s,), result),
    ensures
        result == (forall|i: int| 0 <= i < s@.len() ==> is_white_space(#[trigger] s@[i])),
{
    let bounds = lemma_inner_part(s@);
    if !result {
        assert(!is_white_space(s@[bounds.0]));
    }
}

/// A field counts as set exactly if it has a character that is not white space, and then it
/// has its text without the white space around it.
pub proof fn law_set_fields(field: Option<String>, result: Option<String>)
    requires
        call_ensures(set_value, (&field,), result),
    ensures
        result is Some <==> field is Some && exists|i: int|
            0 <= i < field->0@.len() && !is_white_space(#[trigger] field->0@[i]),
        result is Some ==> exists|start: int, end: int|
            #[trigger] is_inner_part(field->0@, start, end) && result->0@ == field->0@.subrange(
                start,
                end,
            ),
{
    match field {
        Some(value) => {
            let bounds = lemma_inner_part(value@);
            assert(is_inner_part(value@, bounds.0, bounds.1));
            if result is Some {
                assert(!is_white_space(value@[bounds.0]));
            }
        },
        None => {},
    }
}

/// Whether two characters are the same letter, one of them perhaps in upper case, or the
/// same character.
pub open spec fn same_letter(a: char, b: char) -> bool {
    ||| a == b
    ||| 'A' <= a <= 'Z' && b as int == a as int + 32
    ||| 'A' <= b <= 'Z' && a as int == b as int + 32
}

proof fn lemma_same_letter(a: char, b: char)
    ensures
        ascii_lower(a) == ascii_lower(b) <==> same_letter(a, b),
{
}

/// Texts are equal up to case exactly if they are equally long and at every place have the
/// same letter or the same character.
pub proof fn law_equal_ignoring_case(a: &str, b: &str, result: bool)
    requires
        call_ensures(equal_ignoring_case, (a, b), result),
    ensures
        result == (a@.len() == b@.len() && forall|i: int|
            0 <= i < a@.len() ==> same_letter(#[trigger] a@[i], b@[i])),
{
    lemma_same_ignoring_case(a@, b@);
}

/// Equality up to case, letter by letter.
pub proof fn lemma_same_ignoring_case(a: Seq<char>, b: Seq<char>)
    ensures
        same_ignoring_case(a, b) == (a.len() == b.len() && forall|i: int|
            0 <= i < a.len() ==> same_letter(#[trigger] a[i], b[i])),
{
    if same_ignoring_case(a, b) {
        assert(lowered(a).len() == lowered(b).len());
        assert forall|i: int| 0 <= i < a.len() implies same_letter(#[trigger] a[i], b[i]) by {
            assert(lowered(a)[i] == lowered(b)[i]);
            lemma_same_letter(a[i], b[i]);
        }
    } else if a.len() == b.len() && forall|i: int|
        0 <= i < a.len() ==> same_letter(#[trigger] a[i], b[i]) {
        assert forall|i: int| 0 <= i < a.len() implies lowered(a)[i] == lowered(b)[i] by {
            assert(same_letter(a[i], b[i]));
            lemma_same_letter(a[i], b[i]);
        }
        assert(lowered(a) =~= lowered(b));
    }
}

/// Whether a text begins with another one up to case, letter by letter.
pub open spec fn begins_up_to_case(a: Seq<char>, b: Seq<char>) -> bool {
    b.len() <= a.len() && forall|i: int| 0 <= i < b.len() ==> same_letter(a[i], #[trigger] b[i])
}

/// Beginning up to case, letter by letter.
pub proof fn lemma_begins_up_to_case(a: Seq<char>, b: Seq<char>)
    ensures
        begins_with(lowered(a), lowered(b)) == begins_up_to_case(a, b),
{
    if b.len() <= a.len() {
        let start = lowered(a).take(b.len() as int);
        if start == lowered(b) {
            assert forall|i: int| 0 <= i < b.len() implies same_letter(a[i], #[trigger] b[i]) by {
                assert(start[i] == lowered(b)[i]);
                lemma_same_letter(a[i], b[i]);
            }
        } else if begins_up_to_case(a, b) {
            assert forall|i: int| 0 <= i < b.len() implies start[i] == lowered(b)[i] by {
                assert(same_letter(a[i], b[i]));
                lemma_same_letter(a[i], b[i]);
            }
            assert(start =~= lowered(b));
        }
    }
}

/// A text begins with another one up to case exactly if it is at least as long and has the
/// same letters or characters at all places of the other one.
pub proof fn law_begins_ignoring_case(a: &str, b: &str, result: bool)
    requires
        call_ensures(begins_with_ignoring_case, (a, b), result),
    ensures
        result == begins_up_to_case(a@, b@),
{
    lemma_begins_up_to_case(a@, b@);
}

/// Stripping a prefix gives what has to follow the prefix to make up the text; it gives
/// nothing only where no text does.
pub proof fn law_strip_prefix(s: &str, prefix: &str, result: Option<String>, rest: Seq<char>)
    requires
        call_ensures(strip_prefix, (s, prefix), result),
    ensures
        result matches Some(found) ==> s@ == prefix@ + found@,
        s@ == prefix@ + rest ==> result is Some && result->0@ == rest,
{
    match result {
        Some(found) => {
            assert(s@ =~= s@.take(prefix@.len() as int) + s@.skip(prefix@.len() as int));
        },
        None => {},
    }
    if s@ == prefix@ + rest {
        assert(s@.take(prefix@.len() as int) =~= prefix@);
        assert(s@.skip(prefix@.len() as int) =~= rest);
    }
}

proof fn lemma_parts_without_separator(s: Seq<char>, separator: char, i: int)
    requires
        0 <= i < split_parts(s, separator).len(),
    ensures
        !split_parts(s, separator)[i].contains(separator),
    decreases s.len(),
{
    if s.len() > 0 {
        let parts = split_parts(s.drop_last(), separator);
        lemma_split_parts_nonempty(s.drop_last(), separator);
        if i < parts.len() {
            lemma_parts_without_separator(s.drop_last(), separator, i);
            if i == parts.len() - 1 && s.last() != separator {
                let part = parts[i].push(s.last());
                if part.contains(separator) {
                    let k = part.index_of(separator);
                    assert(parts[i][k] == separator);
                }
            }
        }
    }
}

/// The parts of a split text hold no separator, and with one between any two neighbours they
/// make up the text.
pub proof fn law_split(s: &str, separator: char, parts: Vec<String>)
    requires
        call_ensures(split, (s, separator), parts),
    ensures
        parts@.len() > 0,
        forall|i: int| 0 <= i < parts@.len() ==> !(#[trigger] parts@[i])@.contains(separator),
        joined(texts(parts@), seq![separator]) == s@,
{
    law_join_of_split(s@, separator);
    lemma_split_parts_nonempty(s@, separator);
    assert(texts(parts@).len() == parts@.len());
    assert forall|i: int| 0 <= i < parts@.len() implies !(#[trigger] parts@[i])@.contains(
        separator,
    ) by {
        lemma_parts_without_separator(s@, separator, i);
        assert(texts(parts@)[i] == parts@[i]@);
    }
}

/// Joining one part more puts the separator and then that part behind what the others gave;
/// one part alone stays as it is, and no parts give nothing.
pub proof fn law_join(
    parts: Vec<String>,
    last: String,
    all: Vec<String>,
    separator: &str,
    before: String,
    after: String,
)
    requires
        call_ensures(join, (&parts, separator), before),
        call_ensures(join, (&all, separator), after),
        all@ == parts@.push(last),
    ensures
        parts@.len() == 0 ==> before@ == Seq::<char>::empty() && after@ == last@,
        parts@.len() > 0 ==> after@ == before@ + separator@ + last@,
{
    assert(texts(all@).drop_last() =~= texts(parts@));
    assert(texts(all@).last() == last@);
}

/// The number that decimal digits stand for.
pub open spec fn number_read(digits: Seq<char>) -> int
    decreases digits.len(),
{
    if digits.len() == 0 {
        0
    } else {
        10 * number_read(digits.drop_last()) + (digits.last() as int - '0' as int)
    }
}

/// Reading the digits of a number gives it back.
pub proof fn lemma_number_read(n: nat)
    ensures
        number_read(decimal(n)) == n,
        decimal(n).len() > 0,
        forall|i: int| 0 <= i < decimal(n).len() ==> '0' <= #[trigger] decimal(n)[i] <= '9',
        n > 0 ==> decimal(n)[0] != '0',
    decreases n,
{
    if n < 10 {
        reveal_with_fuel(number_read, 2);
        assert(decimal(n).drop_last() =~= Seq::<char>::empty());
    } else {
        lemma_number_read(n / 10);
        assert(decimal(n).drop_last() =~= decimal(n / 10));
    }
}

/// A number is written with digits only and without a zero in front, and reading the digits
/// gives it back.
pub proof fn law_number_written(n: u64, result: String)
    requires
        call_ensures(number, (n,), result),
    ensures
        number_read(result@) == n,
        result@.len() > 0,
        forall|i: int| 0 <= i < result@.len() ==> '0' <= #[trigger] result@[i] <= '9',
        n > 0 ==> result@[0] != '0',
{
    lemma_number_read(n as nat);
}

/// Being blank, character by character.
pub proof fn lemma_blank(s: Seq<char>)
    ensures
        is_blank(s) == forall|i: int| 0 <= i < s.len() ==> is_white_space(#[trigger] s[i]),
{
    let bounds = lemma_inner_part(s);
    if !is_blank(s) {
        assert(!is_white_space(s[bounds.0]));
    }
}

} // verus!
