//! Text primitives: the character classes, trimming, affix stripping and number rendering that
//! model names, paths and error messages are built from.
//!
//! Text is modelled as a sequence of characters, the view of both `str` and `String`.

use vstd::prelude::*;

verus! {

/// Whether `c` has the Unicode `White_Space` property.
pub open spec fn is_white_space(c: char) -> bool {
    let p = c as int;
    ||| 0x09 <= p <= 0x0d
    ||| p == 0x20
    ||| p == 0x85
    ||| p == 0xa0
    ||| p == 0x1680
    ||| 0x2000 <= p <= 0x200a
    ||| p == 0x2028
    ||| p == 0x2029
    ||| p == 0x202f
    ||| p == 0x205f
    ||| p == 0x3000
}

/// `s` without its leading white space.
pub open spec fn trimmed_start(s: Seq<char>) -> Seq<char>
    decreases s.len(),
{
    if s.len() > 0 && is_white_space(s.first()) {
        trimmed_start(s.drop_first())
    } else {
        s
    }
}

/// `s` without its trailing white space.
pub open spec fn trimmed_end(s: Seq<char>) -> Seq<char>
    decreases s.len(),
{
    if s.len() > 0 && is_white_space(s.last()) {
        trimmed_end(s.drop_last())
    } else {
        s
    }
}

/// `s` without white space at either end.
pub open spec fn trimmed(s: Seq<char>) -> Seq<char> {
    trimmed_end(trimmed_start(s))
}

/// Whether `s` neither starts nor ends with white space.
pub open spec fn is_trimmed(s: Seq<char>) -> bool {
    s.len() > 0 ==> !is_white_space(s.first()) && !is_white_space(s.last())
}

/// The lower-case counterpart of an ASCII letter; every other character is its own.
pub open spec fn ascii_lower_char(c: char) -> char {
    if 'A' <= c <= 'Z' {
        (c as u8 + 32) as u8 as char
    } else {
        c
    }
}

/// `s` with its ASCII letters lower-cased.
pub open spec fn ascii_lower(s: Seq<char>) -> Seq<char> {
    Seq::new(s.len(), |i: int| ascii_lower_char(s[i]))
}

/// `s` without `suffix`, or `s` itself when it does not end in it.
pub open spec fn without_suffix(s: Seq<char>, suffix: Seq<char>) -> Seq<char> {
    if suffix.is_suffix_of(s) {
        s.take(s.len() - suffix.len())
    } else {
        s
    }
}

/// `s` without `prefix`, or `s` itself when it does not start with it.
pub open spec fn without_prefix(s: Seq<char>, prefix: Seq<char>) -> Seq<char> {
    if prefix.is_prefix_of(s) {
        s.skip(prefix.len() as int)
    } else {
        s
    }
}

/// A dash for an underscore or a space; every other character is its own.
pub open spec fn dashed_char(c: char) -> char {
    if c == '_' || c == ' ' {
        '-'
    } else {
        c
    }
}

/// `s` with a dash in place of every underscore and space.
pub open spec fn dashed(s: Seq<char>) -> Seq<char> {
    Seq::new(s.len(), |i: int| dashed_char(s[i]))
}

/// `s` without its underscores and spaces.
pub open spec fn squeezed(s: Seq<char>) -> Seq<char> {
    s.filter(|c: char| c != '_' && c != ' ')
}

/// The decimal digit `d`.
pub open spec fn digit_char(d: nat) -> char {
    (0x30 + d) as u8 as char
}

/// `n` in decimal notation, without leading zeros.
pub open spec fn decimal(n: nat) -> Seq<char>
    decreases n,
{
    if n < 10 {
        seq![digit_char(n)]
    } else {
        decimal(n / 10).push(digit_char(n % 10))
    }
}

/// `String::push` of the standard library appends one character.
pub assume_specification[ String::push ](s: &mut String, c: char)
    ensures
        final(s)@ == old(s)@.push(c),
;

/// The characters of `s`, in order.
pub(crate) fn chars_of(s: &str) -> (chars: Vec<char>)
    ensures
        chars@ == s@,
{
    let mut chars: Vec<char> = Vec::new();
    for c in it: s.chars()
        invariant
            chars@ == it.seq().take(it.index() as int),
            it.seq() == s@,
    {
        chars.push(c);
    }
    chars
}

/// The text made of the characters `chars[from..to]`.
pub(crate) fn text_of(chars: &[char], from: usize, to: usize) -> (text: String)
    requires
        from <= to <= chars@.len(),
    ensures
        text@ == chars@.subrange(from as int, to as int),
{
    let mut text = String::new();
    let mut i: usize = from;
    while i < to
        invariant
            from <= i <= to <= chars@.len(),
            text@ == chars@.subrange(from as int, i as int),
        decreases to - i,
    {
        text.push(chars[i]);
        i = i + 1;
        assert(chars@.subrange(from as int, i as int) =~= chars@.subrange(
            from as int,
            i - 1,
        ).push(chars@[i - 1]));
    }
    text
}

/// Whether two texts hold the same characters.
pub(crate) fn same_text(a: &str, b: &str) -> (same: bool)
    ensures
        same == (a@ == b@),
{
    a.to_owned() == b.to_owned()
}

/// The concatenation of two texts.
pub(crate) fn concat2(a: &str, b: &str) -> (text: String)
    ensures
        text@ == a@ + b@,
{
    let mut text = a.to_owned();
    text.append(b);
    text
}

/// The concatenation of three texts.
pub(crate) fn concat3(a: &str, b: &str, c: &str) -> (text: String)
    ensures
        text@ == a@ + b@ + c@,
{
    let mut text = concat2(a, b);
    text.append(c);
    text
}

/// Whether `c` has the Unicode `White_Space` property.
pub(crate) fn white_space(c: char) -> (yes: bool)
    ensures
        yes == is_white_space(c),
{
    let p: u32 = c as u32;
    (0x09 <= p && p <= 0x0d) || p == 0x20 || p == 0x85 || p == 0xa0 || p == 0x1680 || (0x2000 <= p
        && p <= 0x200a) || p == 0x2028 || p == 0x2029 || p == 0x202f || p == 0x205f || p == 0x3000
}

/// `s` without white space at either end.
pub fn trim(s: &str) -> (text: String)
    ensures
        text@ == trimmed(s@),
        text@.len() > 0 ==> !is_white_space(text@[0]) && !is_white_space(text@[text@.len() - 1]),
{
    proof {
        law_trimming_takes_white_space_off_the_ends(s@);
    }
    let chars = chars_of(s);
    let mut from: usize = 0;
    let mut to: usize = chars.len();
    assert(chars@.skip(0) =~= s@);
    while from < to && white_space(chars[from])
        invariant
            from <= to == chars@.len(),
            trimmed_start(s@) == trimmed_start(chars@.skip(from as int)),
        decreases to - from,
    {
        assert(chars@.skip(from as int).drop_first() =~= chars@.skip(from + 1));
        from = from + 1;
    }
    assert(trimmed_start(s@) == chars@.subrange(from as int, to as int)) by {
        assert(chars@.skip(from as int) =~= chars@.subrange(from as int, to as int));
    }
    while from < to && white_space(chars[to - 1])
        invariant
            from <= to <= chars@.len(),
            trimmed(s@) == trimmed_end(chars@.subrange(from as int, to as int)),
        decreases to - from,
    {
        assert(chars@.subrange(from as int, to as int).drop_last() =~= chars@.subrange(
            from as int,
            to - 1,
        ));
        to = to - 1;
    }
    text_of(chars.as_slice(), from, to)
}

/// `s` with its ASCII letters lower-cased.
pub fn to_ascii_lower(s: &str) -> (text: String)
    ensures
        text@ == ascii_lower(s@),
        text@.len() == s@.len(),
        forall|i: int|
            0 <= i < s@.len() ==> #[trigger] text@[i] == if 'A' <= s@[i] <= 'Z' {
                (s@[i] as u8 + 32) as u8 as char
            } else {
                s@[i]
            },
{
    let mut text = String::new();
    for c in it: s.chars()
        invariant
            it.seq() == s@,
            text@ == ascii_lower(s@.take(it.index() as int)),
    {
        let lowered: char = if 'A' <= c && c <= 'Z' {
            (c as u8 + 32) as char
        } else {
            c
        };
        text.push(lowered);
        assert(text@ =~= ascii_lower(s@.take(it.index() + 1)));
    }
    assert(s@.take(s@.len() as int) =~= s@);
    text
}

/// `s` without `suffix`, or `s` itself when it does not end in it.
pub fn strip_suffix_or_same(s: &str, suffix: &str) -> (text: String)
    ensures
        text@ == without_suffix(s@, suffix@),
        text@ + suffix@ == s@ || text@ == s@,
        text@ == s@ && suffix@.len() > 0 ==> !suffix@.is_suffix_of(s@),
{
    proof {
        law_affixes_come_off_whole(s@, suffix@);
    }
    let chars = chars_of(s);
    let tail = chars_of(suffix);
    if chars.len() < tail.len() {
        return s.to_owned();
    }
    let len: usize = chars.len();
    let cut: usize = len - tail.len();
    let mut i: usize = 0;
    while i < tail.len()
        invariant
            i <= tail@.len() <= chars@.len(),
            len == chars@.len(),
            cut == len - tail@.len(),
            chars@ == s@,
            tail@ == suffix@,
            forall|j: int| 0 <= j < i ==> chars@[cut + j] == tail@[j],
        decreases tail.len() - i,
    {
        if chars[cut + i] != tail[i] {
            assert(!suffix@.is_suffix_of(s@)) by {
                assert(s@.subrange(cut as int, s@.len() as int)[i as int] != suffix@[i as int]);
            }
            return s.to_owned();
        }
        i = i + 1;
    }
    assert(s@.subrange(cut as int, s@.len() as int) =~= suffix@);
    assert(s@.take(cut as int) =~= s@.subrange(0, cut as int));
    text_of(chars.as_slice(), 0, cut)
}

/// `s` without `prefix`, or `s` itself when it does not start with it.
pub fn strip_prefix_or_same(s: &str, prefix: &str) -> (text: String)
    ensures
        text@ == without_prefix(s@, prefix@),
        prefix@ + text@ == s@ || text@ == s@,
        text@ == s@ && prefix@.len() > 0 ==> !prefix@.is_prefix_of(s@),
{
    proof {
        law_affixes_come_off_whole(s@, prefix@);
    }
    let chars = chars_of(s);
    let head = chars_of(prefix);
    if chars.len() < head.len() {
        return s.to_owned();
    }
    let mut i: usize = 0;
    while i < head.len()
        invariant
            i <= head@.len() <= chars@.len(),
            chars@ == s@,
            head@ == prefix@,
            forall|j: int| 0 <= j < i ==> chars@[j] == head@[j],
        decreases head.len() - i,
    {
        if chars[i] != head[i] {
            assert(!prefix@.is_prefix_of(s@)) by {
                assert(s@.subrange(0, prefix@.len() as int)[i as int] != prefix@[i as int]);
            }
            return s.to_owned();
        }
        i = i + 1;
    }
    assert(s@.subrange(0, prefix@.len() as int) =~= prefix@);
    assert(s@.skip(prefix@.len() as int) =~= s@.subrange(prefix@.len() as int, s@.len() as int));
    text_of(chars.as_slice(), head.len(), chars.len())
}

/// `s` with a dash in place of every underscore and space.
pub fn to_dashed(s: &str) -> (text: String)
    ensures
        text@ == dashed(s@),
        text@.len() == s@.len(),
        forall|i: int|
            0 <= i < s@.len() ==> #[trigger] text@[i] == if s@[i] == '_' || s@[i] == ' ' {
                '-'
            } else {
                s@[i]
            },
{
    let mut text = String::new();
    for c in it: s.chars()
        invariant
            it.seq() == s@,
            text@ == dashed(s@.take(it.index() as int)),
    {
        if c == '_' || c == ' ' {
            text.push('-');
        } else {
            text.push(c);
        }
        assert(text@ =~= dashed(s@.take(it.index() + 1)));
    }
    assert(s@.take(s@.len() as int) =~= s@);
    text
}

/// `s` without its underscores and spaces.
pub fn to_squeezed(s: &str) -> (text: String)
    ensures
        text@ == squeezed(s@),
        text@ == s@.filter(|c: char| c != '_' && c != ' '),
{
    let mut text = String::new();
    proof {
        lemma_squeezing_nothing();
        assert(s@.take(0) =~= Seq::empty());
    }
    for c in it: s.chars()
        invariant
            it.seq() == s@,
            text@ == squeezed(s@.take(it.index() as int)),
    {
        if c != '_' && c != ' ' {
            text.push(c);
        }
        proof {
            lemma_squeezing_one_more(s@.take(it.index() as int), c);
            assert(s@.take(it.index() + 1) =~= s@.take(it.index() as int).push(c));
        }
    }
    assert(s@.take(s@.len() as int) =~= s@);
    text
}

/// `n` in decimal notation, without leading zeros.
pub fn to_decimal(n: u32) -> (text: String)
    ensures
        text@ == decimal(n as nat),
        decimal_value(text@) == n,
        text@.len() > 0,
        text@.len() > 1 ==> text@[0] != '0',
        forall|i: int| 0 <= i < text@.len() ==> '0' <= #[trigger] text@[i] <= '9',
    decreases n,
{
    proof {
        law_decimals_read_back(n as nat);
    }
    if n < 10 {
        let mut text = String::new();
        text.push((0x30 + n as u8) as char);
        assert(text@ =~= seq![digit_char(n as nat)]);
        text
    } else {
        let mut text = to_decimal(n / 10);
        text.push((0x30 + (n % 10) as u8) as char);
        text
    }
}

/// The number that a text of decimal digits stands for.
pub open spec fn decimal_value(digits: Seq<char>) -> int
    decreases digits.len(),
{
    if digits.len() == 0 {
        0
    } else {
        decimal_value(digits.drop_last()) * 10 + (digits.last() as int - '0' as int)
    }
}

/// The decimal notation of a number is made of digits, has no leading zero, and reads back as that
/// number.
pub proof fn law_decimals_read_back(n: nat)
    ensures
        decimal_value(decimal(n)) == n,
        decimal(n).len() > 0,
        decimal(n).len() > 1 ==> decimal(n)[0] != '0',
        n > 0 ==> decimal(n)[0] != '0',
        forall|i: int| 0 <= i < decimal(n).len() ==> '0' <= #[trigger] decimal(n)[i] <= '9',
    decreases n,
{
    if n < 10 {
        assert(decimal(n).drop_last() =~= Seq::empty());
        assert(decimal_value(Seq::<char>::empty()) == 0);
    } else {
        let rest = decimal(n / 10);
        law_decimals_read_back(n / 10);
        assert(decimal(n).drop_last() =~= rest);
        assert(decimal(n)[0] == rest[0]);
        assert forall|i: int| 0 <= i < decimal(n).len() implies '0' <= #[trigger] decimal(n)[i]
            <= '9' by {
            if i < rest.len() {
                assert(decimal(n)[i] == rest[i]);
            }
        }
    }
}

/// Trimming keeps one stretch of the text as it is. What it takes off on either side is white space,
/// and the stretch neither begins nor ends with any.
pub proof fn law_trimming_takes_white_space_off_the_ends(s: Seq<char>)
    ensures
        exists|before: Seq<char>, after: Seq<char>|
            {
                &&& s == #[trigger] (before + trimmed(s) + after)
                &&& forall|i: int| 0 <= i < before.len() ==> is_white_space(#[trigger] before[i])
                &&& forall|i: int| 0 <= i < after.len() ==> is_white_space(#[trigger] after[i])
            },
        trimmed(s).len() > 0 ==> !is_white_space(trimmed(s)[0]) && !is_white_space(
            trimmed(s)[trimmed(s).len() - 1],
        ),
    decreases s.len(),
{
    if s.len() > 0 && is_white_space(s.first()) {
        let rest = s.drop_first();
        law_trimming_takes_white_space_off_the_ends(rest);
        let (before, after) = choose|before: Seq<char>, after: Seq<char>|
            {
                &&& rest == #[trigger] (before + trimmed(rest) + after)
                &&& forall|i: int| 0 <= i < before.len() ==> is_white_space(#[trigger] before[i])
                &&& forall|i: int| 0 <= i < after.len() ==> is_white_space(#[trigger] after[i])
            };
        let longer = seq![s.first()] + before;
        assert(trimmed(s) == trimmed(rest));
        assert(s =~= seq![s.first()] + rest);
        assert(longer + trimmed(s) + after =~= seq![s.first()] + (before + trimmed(rest) + after));
        assert forall|i: int| 0 <= i < longer.len() implies is_white_space(#[trigger] longer[i]) by {
            if i > 0 {
                assert(longer[i] == before[i - 1]);
            }
        }
    } else {
        assert(trimmed_start(s) == s);
        lemma_end_trimming_takes_white_space_off(s);
        let after = s.skip(trimmed_end(s).len() as int);
        let before = Seq::<char>::empty();
        assert(s =~= before + trimmed(s) + after);
        if trimmed(s).len() > 0 {
            assert(trimmed(s)[0] == s[0]);
        }
    }
}

proof fn lemma_end_trimming_takes_white_space_off(s: Seq<char>)
    ensures
        trimmed_end(s).len() <= s.len(),
        trimmed_end(s) == s.take(trimmed_end(s).len() as int),
        forall|i: int| trimmed_end(s).len() <= i < s.len() ==> is_white_space(#[trigger] s[i]),
        trimmed_end(s).len() > 0 ==> !is_white_space(trimmed_end(s)[trimmed_end(s).len() - 1]),
    decreases s.len(),
{
    if s.len() > 0 && is_white_space(s.last()) {
        let rest = s.drop_last();
        lemma_end_trimming_takes_white_space_off(rest);
        assert forall|i: int| trimmed_end(s).len() <= i < s.len() implies is_white_space(
            #[trigger] s[i],
        ) by {
            if i < rest.len() {
                assert(rest[i] == s[i]);
            }
        }
        assert(s.take(trimmed_end(s).len() as int) =~= rest.take(trimmed_end(s).len() as int));
    } else {
        assert(s.take(s.len() as int) =~= s);
    }
}

/// An affix comes off whole and once, and a text without it stays as it is: what is left and the
/// affix make up the text again.
pub proof fn law_affixes_come_off_whole(s: Seq<char>, affix: Seq<char>)
    ensures
        affix.is_suffix_of(s) ==> without_suffix(s, affix) + affix == s,
        !affix.is_suffix_of(s) ==> without_suffix(s, affix) == s,
        affix.is_prefix_of(s) ==> affix + without_prefix(s, affix) == s,
        !affix.is_prefix_of(s) ==> without_prefix(s, affix) == s,
        without_suffix(s + affix, affix) == s,
        without_prefix(affix + s, affix) == s,
{
    if affix.is_suffix_of(s) {
        assert(without_suffix(s, affix) + affix =~= s);
    }
    if affix.is_prefix_of(s) {
        assert(affix + without_prefix(s, affix) =~= s);
    }
    let longer = s + affix;
    assert(longer.subrange(longer.len() - affix.len(), longer.len() as int) =~= affix);
    assert(longer.take(longer.len() - affix.len()) =~= s);
    let headed = affix + s;
    assert(headed.subrange(0, affix.len() as int) =~= affix);
    assert(headed.skip(affix.len() as int) =~= s);
}

/// Lower-casing and dashing go character by character: ASCII capitals become small letters,
/// underscores and spaces become dashes, and every other character stays as it is.
pub proof fn law_characters_are_mapped_one_by_one(s: Seq<char>, i: int)
    requires
        0 <= i < s.len(),
    ensures
        ascii_lower(s).len() == s.len(),
        dashed(s).len() == s.len(),
        'A' <= s[i] <= 'Z' ==> ascii_lower(s)[i] as int == s[i] as int + 32,
        !('A' <= s[i] <= 'Z') ==> ascii_lower(s)[i] == s[i],
        s[i] == '_' || s[i] == ' ' ==> dashed(s)[i] == '-',
        s[i] != '_' && s[i] != ' ' ==> dashed(s)[i] == s[i],
{
}

/// Squeezing drops underscores and spaces and nothing else: of two parts it drops what it drops of
/// each, and a single character stays unless it is one of the two.
pub proof fn law_squeezing_drops_underscores_and_spaces(a: Seq<char>, b: Seq<char>, c: char)
    ensures
        squeezed(a + b) == squeezed(a) + squeezed(b),
        squeezed(seq![c]) == if c == '_' || c == ' ' {
            Seq::<char>::empty()
        } else {
            seq![c]
        },
{
    lemma_squeezing_parts(a, b);
    lemma_squeezing_nothing();
    lemma_squeezing_one_more(Seq::empty(), c);
    assert(Seq::<char>::empty().push(c) =~= seq![c]);
}

/// Nothing squeezes to nothing.
pub(crate) proof fn lemma_squeezing_nothing()
    ensures
        squeezed(Seq::empty()) == Seq::<char>::empty(),
{
    reveal(Seq::filter);
}

/// Squeezing goes character by character.
pub(crate) proof fn lemma_squeezing_one_more(s: Seq<char>, c: char)
    ensures
        squeezed(s.push(c)) == if c != '_' && c != ' ' {
            squeezed(s).push(c)
        } else {
            squeezed(s)
        },
{
    reveal(Seq::filter);
    assert(s.push(c).drop_last() =~= s);
}

/// Squeezing goes part by part.
pub(crate) proof fn lemma_squeezing_parts(a: Seq<char>, b: Seq<char>)
    ensures
        squeezed(a + b) == squeezed(a) + squeezed(b),
{
    Seq::filter_distributes_over_add(a, b, |c: char| c != '_' && c != ' ');
}

/// Text without underscores and spaces stays as it is.
pub(crate) proof fn lemma_squeezed_is_kept(s: Seq<char>)
    requires
        forall|i: int| 0 <= i < s.len() ==> #[trigger] s[i] != '_' && s[i] != ' ',
    ensures
        squeezed(s) == s,
    decreases s.len(),
{
    if s.len() == 0 {
        lemma_squeezing_nothing();
        assert(s =~= Seq::empty());
    } else {
        let rest = s.drop_last();
        assert forall|i: int| 0 <= i < rest.len() implies #[trigger] rest[i] != '_' && rest[i]
            != ' ' by {
            assert(rest[i] == s[i]);
        }
        lemma_squeezed_is_kept(rest);
        assert(s[s.len() - 1] != '_' && s[s.len() - 1] != ' ');
        lemma_squeezing_one_more(rest, s.last());
        assert(rest.push(s.last()) =~= s);
    }
}

/// Text that is trimmed stays as it is.
pub(crate) proof fn lemma_trimmed_is_kept(s: Seq<char>)
    requires
        is_trimmed(s),
    ensures
        trimmed(s) == s,
{
}

/// Trimming removes what it says, whatever the case of the letters.
pub(crate) proof fn lemma_trimming_ignores_case(s: Seq<char>)
    ensures
        ascii_lower(trimmed(s)) == trimmed(ascii_lower(s)),
    decreases s.len(),
{
    let lowered = ascii_lower(s);
    if s.len() > 0 && is_white_space(s.first()) {
        assert(is_white_space(lowered.first()));
        assert(ascii_lower(s.drop_first()) =~= lowered.drop_first());
        lemma_trimming_ignores_case(s.drop_first());
    } else {
        assert(s.len() > 0 ==> !is_white_space(lowered.first()));
        assert(trimmed_start(lowered) == lowered);
        lemma_end_trimming_ignores_case(s);
    }
}

proof fn lemma_end_trimming_ignores_case(s: Seq<char>)
    ensures
        ascii_lower(trimmed_end(s)) == trimmed_end(ascii_lower(s)),
    decreases s.len(),
{
    let lowered = ascii_lower(s);
    if s.len() > 0 && is_white_space(s.last()) {
        assert(is_white_space(lowered.last()));
        assert(ascii_lower(s.drop_last()) =~= lowered.drop_last());
        lemma_end_trimming_ignores_case(s.drop_last());
    }
}

/// White space around a text is removed with the white space at its own ends.
pub(crate) proof fn lemma_trimming_removes_padding(before: Seq<char>, s: Seq<char>, after: Seq<char>)
    requires
        forall|i: int| 0 <= i < before.len() ==> is_white_space(#[trigger] before[i]),
        forall|i: int| 0 <= i < after.len() ==> is_white_space(#[trigger] after[i]),
    ensures
        trimmed(before + s + after) == trimmed(s),
    decreases before.len(), s.len() + after.len(),
{
    let whole = before + s + after;
    if before.len() > 0 {
        assert(whole.drop_first() =~= before.drop_first() + s + after);
        assert(is_white_space(whole.first()));
        lemma_trimming_removes_padding(before.drop_first(), s, after);
    } else if s.len() > 0 && is_white_space(s.first()) {
        assert(whole.drop_first() =~= before + s.drop_first() + after);
        assert(whole.first() == s.first());
        lemma_trimming_removes_padding(before, s.drop_first(), after);
    } else if s.len() > 0 {
        assert(whole.first() == s.first());
        assert(whole =~= s + after);
        lemma_end_trimming_removes_padding(s, after);
    } else {
        assert(whole =~= after);
        lemma_white_space_is_trimmed_away(after);
        assert(trimmed(s) =~= s);
        assert(s =~= Seq::empty());
    }
}

proof fn lemma_end_trimming_removes_padding(s: Seq<char>, after: Seq<char>)
    requires
        forall|i: int| 0 <= i < after.len() ==> is_white_space(#[trigger] after[i]),
    ensures
        trimmed_end(s + after) == trimmed_end(s),
    decreases after.len(),
{
    if after.len() > 0 {
        assert((s + after).drop_last() =~= s + after.drop_last());
        assert((s + after).last() == after[after.len() - 1]);
        lemma_end_trimming_removes_padding(s, after.drop_last());
    } else {
        assert(s + after =~= s);
    }
}

proof fn lemma_white_space_is_trimmed_away(s: Seq<char>)
    requires
        forall|i: int| 0 <= i < s.len() ==> is_white_space(#[trigger] s[i]),
    ensures
        trimmed(s) == Seq::<char>::empty(),
    decreases s.len(),
{
    if s.len() > 0 {
        assert(is_white_space(s.first()));
        lemma_white_space_is_trimmed_away(s.drop_first());
    } else {
        assert(s =~= Seq::empty());
    }
}

/// Trimming takes nothing off that squeezing keeps, unless squeezing leaves white space.
pub(crate) proof fn lemma_trimming_before_squeezing(s: Seq<char>)
    requires
        forall|i: int| 0 <= i < squeezed(s).len() ==> !is_white_space(#[trigger] squeezed(s)[i]),
    ensures
        squeezed(trimmed(s)) == squeezed(s),
    decreases s.len(),
{
    if s.len() > 0 && is_white_space(s.first()) {
        let first = seq![s.first()];
        let rest = s.drop_first();
        assert(first + rest =~= s);
        lemma_squeezing_parts(first, rest);
        lemma_squeezing_nothing();
        lemma_squeezing_one_more(Seq::empty(), s.first());
        assert(Seq::<char>::empty().push(s.first()) =~= first);
        if s.first() != ' ' {
            assert(squeezed(s)[0] == s.first());
        }
        assert(squeezed(s) =~= squeezed(rest));
        lemma_trimming_before_squeezing(rest);
    } else {
        lemma_end_trimming_before_squeezing(s);
    }
}

proof fn lemma_end_trimming_before_squeezing(s: Seq<char>)
    requires
        forall|i: int| 0 <= i < squeezed(s).len() ==> !is_white_space(#[trigger] squeezed(s)[i]),
    ensures
        squeezed(trimmed_end(s)) == squeezed(s),
    decreases s.len(),
{
    if s.len() > 0 && is_white_space(s.last()) {
        let rest = s.drop_last();
        assert(rest.push(s.last()) =~= s);
        lemma_squeezing_one_more(rest, s.last());
        if s.last() != ' ' {
            assert(squeezed(s)[squeezed(rest).len() as int] == s.last());
        }
        lemma_end_trimming_before_squeezing(rest);
    }
}

} // verus!
