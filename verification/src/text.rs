//! Text helpers over characters: number formatting, comparison, searching and trimming.

use vstd::prelude::*;

verus! {

/// `String::push` appends one character.
pub assume_specification[ String::push ](s: &mut String, c: char)
    ensures
        final(s)@ == old(s)@.push(c),
;

/// The decimal digit `d` as a character.
pub open spec fn digit(d: nat) -> char {
    ('0' as int + d) as char
}

/// The decimal form of `n`, without leading zeros.
pub open spec fn decimal(n: nat) -> Seq<char>
    decreases n,
{
    if n < 10 {
        seq![digit(n)]
    } else {
        decimal(n / 10).push(digit(n % 10))
    }
}

/// The characters of a text, in order.
pub fn chars_of(s: &str) -> (r: Vec<char>)
    ensures
        r@ == s@,
{
    let mut r: Vec<char> = Vec::new();
    for c in it: s.chars()
        invariant
            r@ == it.seq().take(it.index()),
            it.seq() == s@,
    {
        r.push(c);
        assert(r@ =~= it.seq().take(it.index() + 1));
    }
    assert(r@ =~= s@);
    r
}

fn digit_char(d: u8) -> (c: char)
    requires
        d < 10,
    ensures
        c == digit(d as nat),
{
    (48u8 + d) as char
}

/// Appends the decimal form of `n`.
pub fn push_decimal(out: &mut String, n: u64)
    ensures
        final(out)@ == old(out)@ + decimal(n as nat),
    decreases n,
{
    if n < 10 {
        out.push(digit_char(n as u8));
        assert(out@ =~= old(out)@ + decimal(n as nat));
    } else {
        push_decimal(out, n / 10);
        out.push(digit_char((n % 10) as u8));
        assert(out@ =~= old(out)@ + decimal(n as nat));
    }
}

/// The decimal form of `n`.
pub fn decimal_text(n: u64) -> (r: String)
    ensures
        r@ == decimal(n as nat),
{
    let mut r: String = String::new();
    push_decimal(&mut r, n);
    assert(r@ =~= decimal(n as nat));
    r
}

/// The hexadecimal digit `d`, in lower case.
pub open spec fn hex_digit(d: nat) -> char {
    if d < 10 {
        digit(d)
    } else {
        ('a' as int + d - 10) as char
    }
}

/// The lowest `width` hexadecimal digits of `n`.
pub open spec fn hex(n: nat, width: nat) -> Seq<char>
    decreases width,
{
    if width == 0 {
        seq![]
    } else {
        hex(n / 16, (width - 1) as nat).push(hex_digit(n % 16))
    }
}

fn hex_char(d: u8) -> (c: char)
    requires
        d < 16,
    ensures
        c == hex_digit(d as nat),
{
    if d < 10 {
        digit_char(d)
    } else {
        (87u8 + d) as char
    }
}

/// Appends the lowest `width` hexadecimal digits of `n`.
pub fn push_hex(out: &mut String, n: u128, width: usize)
    ensures
        final(out)@ == old(out)@ + hex(n as nat, width as nat),
    decreases width,
{
    if width == 0 {
        assert(out@ =~= old(out)@ + hex(n as nat, 0));
    } else {
        push_hex(out, n / 16, width - 1);
        out.push(hex_char((n % 16) as u8));
        assert(out@ =~= old(out)@ + hex(n as nat, width as nat));
    }
}

/// Whether two texts hold the same characters.
pub fn text_eq(a: &str, b: &str) -> (r: bool)
    ensures
        r == (a@ == b@),
{
    a.to_owned() == b.to_owned()
}

/// Whether `s` begins with `prefix`.
pub open spec fn has_prefix(s: Seq<char>, prefix: Seq<char>) -> bool {
    prefix.len() <= s.len() && s.take(prefix.len() as int) == prefix
}

/// Whether `s` ends with `suffix`.
pub open spec fn has_suffix(s: Seq<char>, suffix: Seq<char>) -> bool {
    suffix.len() <= s.len() && s.skip(s.len() - suffix.len()) == suffix
}

/// Whether `needle` stands in `s` at position `at`.
pub open spec fn occurs_at(s: Seq<char>, needle: Seq<char>, at: int) -> bool {
    0 <= at <= s.len() - needle.len() && s.subrange(at, at + needle.len()) == needle
}

/// Whether `needle` stands anywhere in `s`.
pub open spec fn contains_text(s: Seq<char>, needle: Seq<char>) -> bool {
    exists|at: int| occurs_at(s, needle, at)
}

fn matches_at(s: &Vec<char>, needle: &Vec<char>, at: usize) -> (r: bool)
    requires
        at + needle@.len() <= s@.len(),
    ensures
        r == occurs_at(s@, needle@, at as int),
{
    let total: usize = s.len();
    let mut i: usize = 0;
    while i < needle.len()
        invariant
            i <= needle@.len(),
            at + needle@.len() <= s@.len() == total,
            forall|j: int| 0 <= j < i ==> s@[at + j] == needle@[j],
        decreases needle@.len() - i,
    {
        if s[at + i] != needle[i] {
            assert(s@.subrange(at as int, at + needle@.len())[i as int] != needle@[i as int]);
            return false;
        }
        i = i + 1;
    }
    assert(s@.subrange(at as int, at + needle@.len()) =~= needle@);
    true
}

/// Whether `s` begins with `prefix`.
pub fn starts_with(s: &str, prefix: &str) -> (r: bool)
    ensures
        r == has_prefix(s@, prefix@),
{
    let a: Vec<char> = chars_of(s);
    let b: Vec<char> = chars_of(prefix);
    if b.len() > a.len() {
        return false;
    }
    assert(a@.subrange(0, b@.len() as int) =~= a@.take(b@.len() as int));
    matches_at(&a, &b, 0)
}

/// Whether `s` ends with `suffix`.
pub fn ends_with(s: &str, suffix: &str) -> (r: bool)
    ensures
        r == has_suffix(s@, suffix@),
{
    let a: Vec<char> = chars_of(s);
    let b: Vec<char> = chars_of(suffix);
    if b.len() > a.len() {
        return false;
    }
    let at: usize = a.len() - b.len();
    assert(a@.subrange(at as int, at + b@.len()) =~= a@.skip(at as int));
    matches_at(&a, &b, at)
}

/// Whether `needle` stands anywhere in `s`.
pub fn contains(s: &str, needle: &str) -> (r: bool)
    ensures
        r == contains_text(s@, needle@),
{
    let a: Vec<char> = chars_of(s);
    let b: Vec<char> = chars_of(needle);
    if b.len() > a.len() {
        return false;
    }
    let last: usize = a.len() - b.len();
    let mut at: usize = 0;
    while at <= last
        invariant
            at <= last + 1,
            a@ == s@,
            b@ == needle@,
            last == a@.len() - b@.len(),
            a@.len() <= usize::MAX,
            forall|j: int| 0 <= j < at ==> !occurs_at(a@, b@, j),
        decreases last + 1 - at,
    {
        if matches_at(&a, &b, at) {
            assert(occurs_at(s@, needle@, at as int));
            return true;
        }
        if at == last {
            assert forall|j: int| !occurs_at(s@, needle@, j) by {
                if occurs_at(s@, needle@, j) {
                    assert(0 <= j <= last);
                    assert(j < at || j == at);
                }
            }
            return false;
        }
        at = at + 1;
    }
    false
}

/// The text made of `chars[from..to]`.
pub fn text_of(chars: &Vec<char>, from: usize, to: usize) -> (r: String)
    requires
        from <= to <= chars@.len(),
    ensures
        r@ == chars@.subrange(from as int, to as int),
{
    let mut r: String = String::new();
    let mut i: usize = from;
    while i < to
        invariant
            from <= i <= to <= chars@.len(),
            r@ == chars@.subrange(from as int, i as int),
        decreases to - i,
    {
        r.push(chars[i]);
        assert(r@ =~= chars@.subrange(from as int, i + 1));
        i = i + 1;
    }
    r
}

/// Whether `c` has the Unicode property `White_Space`.
pub open spec fn is_white(c: char) -> bool {
    let n = c as int;
    ||| 0x09 <= n <= 0x0d
    ||| n == 0x20 || n == 0x85 || n == 0xa0 || n == 0x1680
    ||| 0x2000 <= n <= 0x200a
    ||| n == 0x2028 || n == 0x2029 || n == 0x202f || n == 0x205f || n == 0x3000
}

/// Whether `c` has the Unicode property `White_Space`.
pub fn is_whitespace(c: char) -> (r: bool)
    ensures
        r == is_white(c),
{
    let n: u32 = c as u32;
    (0x09 <= n && n <= 0x0d) || n == 0x20 || n == 0x85 || n == 0xa0 || n == 0x1680 || (0x2000 <= n
        && n <= 0x200a) || n == 0x2028 || n == 0x2029 || n == 0x202f || n == 0x205f || n == 0x3000
}

/// `s` without the white space at its beginning.
pub open spec fn trim_front(s: Seq<char>) -> Seq<char>
    decreases s.len(),
{
    if s.len() > 0 && is_white(s[0]) {
        trim_front(s.skip(1))
    } else {
        s
    }
}

/// `s` without the white space at its end.
pub open spec fn trim_back(s: Seq<char>) -> Seq<char>
    decreases s.len(),
{
    if s.len() > 0 && is_white(s.last()) {
        trim_back(s.drop_last())
    } else {
        s
    }
}

/// `s` without the white space at either end.
pub open spec fn trimmed(s: Seq<char>) -> Seq<char> {
    trim_back(trim_front(s))
}

/// `s` without the white space at either end.
pub fn trim(s: &str) -> (r: String)
    ensures
        r@ == trimmed(s@),
{
    let v: Vec<char> = chars_of(s);
    let mut from: usize = 0;
    assert(v@.skip(0) =~= s@);
    while from < v.len() && is_whitespace(v[from])
        invariant
            from <= v@.len(),
            trim_front(v@.skip(from as int)) == trim_front(s@),
            v@ == s@,
        ensures
            from <= v@.len(),
            trim_front(v@.skip(from as int)) == trim_front(s@),
            v@ == s@,
            from < v@.len() ==> !is_white(v@[from as int]),
        decreases v@.len() - from,
    {
        assert(v@.skip(from as int).skip(1) =~= v@.skip(from + 1));
        from = from + 1;
    }
    assert(trim_front(s@) == v@.skip(from as int));
    let mut to: usize = v.len();
    assert(v@.subrange(from as int, to as int) =~= v@.skip(from as int));
    while to > from && is_whitespace(v[to - 1])
        invariant
            from <= to <= v@.len(),
            v@ == s@,
            trim_back(v@.subrange(from as int, to as int)) == trimmed(s@),
        ensures
            from <= to <= v@.len(),
            trim_back(v@.subrange(from as int, to as int)) == trimmed(s@),
            to > from ==> !is_white(v@[to - 1]),
        decreases to,
    {
        assert(v@.subrange(from as int, to as int).drop_last() =~= v@.subrange(
            from as int,
            to - 1,
        ));
        to = to - 1;
    }
    text_of(&v, from, to)
}

/// The ASCII lower-case form of a character; others are left as they are.
pub open spec fn lower_char(c: char) -> char {
    if 'A' <= c <= 'Z' {
        (c as int + 32) as char
    } else {
        c
    }
}

/// A text with its ASCII letters in lower case.
pub open spec fn lower_ascii(s: Seq<char>) -> Seq<char> {
    s.map_values(|c: char| lower_char(c))
}

fn ascii_lower_char(c: char) -> (r: char)
    ensures
        r == lower_char(c),
{
    if 'A' <= c && c <= 'Z' {
        (c as u8 + 32) as char
    } else {
        c
    }
}

/// A text with its ASCII letters in lower case.
pub fn to_lower_ascii(s: &str) -> (r: String)
    ensures
        r@ == lower_ascii(s@),
{
    let v: Vec<char> = chars_of(s);
    let mut r: String = String::new();
    let mut i: usize = 0;
    while i < v.len()
        invariant
            i <= v@.len(),
            v@ == s@,
            r@ == lower_ascii(v@.take(i as int)),
        decreases v@.len() - i,
    {
        r.push(ascii_lower_char(v[i]));
        assert(r@ =~= lower_ascii(v@.take(i + 1)));
        i = i + 1;
    }
    assert(v@.take(i as int) =~= s@);
    r
}

/// `a` comes before `b` or equals it, character by character.
pub open spec fn text_le(a: Seq<char>, b: Seq<char>) -> bool
    decreases a.len(),
{
    if a.len() == 0 {
        true
    } else if b.len() == 0 {
        false
    } else if a[0] != b[0] {
        a[0] < b[0]
    } else {
        text_le(a.skip(1), b.skip(1))
    }
}

/// Texts are ordered by their first differing character; a text that ends first comes first.
pub fn text_at_most(a: &str, b: &str) -> (r: bool)
    ensures
        r == text_le(a@, b@),
{
    let x: Vec<char> = chars_of(a);
    let y: Vec<char> = chars_of(b);
    let mut i: usize = 0;
    assert(x@.skip(0) =~= x@ && y@.skip(0) =~= y@);
    while i < x.len() && i < y.len()
        invariant
            i <= x@.len(),
            i <= y@.len(),
            text_le(x@.skip(i as int), y@.skip(i as int)) == text_le(a@, b@),
        decreases x@.len() - i,
    {
        if x[i] != y[i] {
            return x[i] < y[i];
        }
        assert(x@.skip(i as int).skip(1) =~= x@.skip(i + 1));
        assert(y@.skip(i as int).skip(1) =~= y@.skip(i + 1));
        i = i + 1;
    }
    i == x.len()
}

/// The order of texts is reflexive.
pub proof fn text_le_reflexive(a: Seq<char>)
    ensures
        text_le(a, a),
    decreases a.len(),
{
    if a.len() > 0 {
        text_le_reflexive(a.skip(1));
    }
}

/// Of two texts one is at most the other.
pub proof fn text_le_total(a: Seq<char>, b: Seq<char>)
    ensures
        text_le(a, b) || text_le(b, a),
    decreases a.len(),
{
    if a.len() > 0 && b.len() > 0 && a[0] == b[0] {
        text_le_total(a.skip(1), b.skip(1));
    }
}

/// The order of texts is transitive.
pub proof fn text_le_transitive(a: Seq<char>, b: Seq<char>, c: Seq<char>)
    requires
        text_le(a, b),
        text_le(b, c),
    ensures
        text_le(a, c),
    decreases a.len(),
{
    if a.len() > 0 && b.len() > 0 && c.len() > 0 && a[0] == b[0] && b[0] == c[0] {
        text_le_transitive(a.skip(1), b.skip(1), c.skip(1));
    }
}

/// Two texts that are at most each other are the same.
pub proof fn text_le_antisymmetric(a: Seq<char>, b: Seq<char>)
    requires
        text_le(a, b),
        text_le(b, a),
    ensures
        a == b,
    decreases a.len(),
{
    if a.len() > 0 {
        text_le_antisymmetric(a.skip(1), b.skip(1));
        assert(a =~= seq![a[0]] + a.skip(1));
        assert(b =~= seq![b[0]] + b.skip(1));
    } else {
        assert(a =~= b);
    }
}

/// The number that a row of digits stands for.
pub open spec fn number_of(s: Seq<char>) -> int
    decreases s.len(),
{
    if s.len() == 0 {
        0
    } else {
        10 * number_of(s.drop_last()) + (s.last() as int - '0' as int)
    }
}

/// The decimal form of a number consists of digits, stands for that number, and does not begin with a
/// zero but for zero itself.
pub proof fn a_decimal_form_reads_as_its_number(n: nat)
    ensures
        number_of(decimal(n)) == n,
        decimal(n).len() > 0,
        forall|i: int| 0 <= i < decimal(n).len() ==> '0' <= #[trigger] decimal(n)[i] <= '9',
        n > 0 ==> decimal(n)[0] != '0',
        n < 10 ==> decimal(n).len() == 1,
    decreases n,
{
    let s = decimal(n);
    if n < 10 {
        assert(s.drop_last() =~= seq![]);
        assert(number_of(s.drop_last()) == 0);
        assert(s.last() == digit(n));
    } else {
        a_decimal_form_reads_as_its_number(n / 10);
        assert(s.drop_last() =~= decimal(n / 10));
        assert(s[0] == decimal(n / 10)[0]);
        assert forall|i: int| 0 <= i < s.len() implies '0' <= #[trigger] s[i] <= '9' by {
            if i < s.len() - 1 {
                assert(s[i] == decimal(n / 10)[i]);
            }
        }
    }
}

/// Different numbers have different decimal forms.
pub proof fn decimal_forms_differ(a: nat, b: nat)
    requires
        a != b,
    ensures
        decimal(a) != decimal(b),
{
    a_decimal_form_reads_as_its_number(a);
    a_decimal_form_reads_as_its_number(b);
}

/// The number that a hexadecimal digit stands for.
pub open spec fn hex_digit_value(c: char) -> int {
    if '0' <= c <= '9' {
        c as int - '0' as int
    } else {
        c as int - 'a' as int + 10
    }
}

/// The number that a row of hexadecimal digits stands for.
pub open spec fn hex_number_of(s: Seq<char>) -> int
    decreases s.len(),
{
    if s.len() == 0 {
        0
    } else {
        16 * hex_number_of(s.drop_last()) + hex_digit_value(s.last())
    }
}

/// So many hexadecimal digits can stand for the number.
pub open spec fn fits_hex(n: nat, width: nat) -> bool
    decreases width,
{
    if width == 0 {
        n == 0
    } else {
        fits_hex(n / 16, (width - 1) as nat)
    }
}

/// The hexadecimal form of a number that fits stands for that number, in as many digits as asked for,
/// its letters in lower case.
pub proof fn a_hexadecimal_form_reads_as_its_number(n: nat, width: nat)
    ensures
        hex(n, width).len() == width,
        forall|i: int|
            0 <= i < width ==> ('0' <= #[trigger] hex(n, width)[i] <= '9' || 'a' <= hex(n, width)[i]
                <= 'f'),
        fits_hex(n, width) ==> hex_number_of(hex(n, width)) == n,
    decreases width,
{
    if width > 0 {
        let rest = hex(n / 16, (width - 1) as nat);
        let s = hex(n, width);
        a_hexadecimal_form_reads_as_its_number(n / 16, (width - 1) as nat);
        assert(s.drop_last() =~= rest);
        assert(s.last() == hex_digit(n % 16));
        assert forall|i: int| 0 <= i < width implies ('0' <= #[trigger] s[i] <= '9' || 'a' <= s[i]
            <= 'f') by {
            if i < width - 1 {
                assert(s[i] == rest[i]);
            }
        }
    }
}

/// A text begins with what stands at its front, and with nothing else of that length.
pub proof fn a_text_begins_with_its_front(front: Seq<char>, rest: Seq<char>, other: Seq<char>)
    requires
        other.len() == front.len(),
    ensures
        has_prefix(front + rest, front),
        has_prefix(front + rest, other) <==> other == front,
        !has_prefix(front, front.push('x')),
{
    assert((front + rest).take(front.len() as int) =~= front);
}

/// A text ends with what stands at its back, and with nothing else of that length.
pub proof fn a_text_ends_with_its_back(front: Seq<char>, back: Seq<char>, other: Seq<char>)
    requires
        other.len() == back.len(),
    ensures
        has_suffix(front + back, back),
        has_suffix(front + back, other) <==> other == back,
        !has_suffix(back, back.push('x')),
{
    assert((front + back).skip((front + back).len() - back.len()) =~= back);
}

/// A text holds what stands between a front and a back of it, and holds nothing that is longer than
/// itself.
pub proof fn a_text_holds_its_middle(front: Seq<char>, middle: Seq<char>, back: Seq<char>)
    ensures
        contains_text(front + middle + back, middle),
        !contains_text(middle, middle.push('x')),
{
    let s = front + middle + back;
    assert(s.subrange(front.len() as int, (front.len() + middle.len()) as int) =~= middle);
    assert(occurs_at(s, middle, front.len() as int));
}

/// What a text holds stands between a front and a back of it.
pub proof fn what_a_text_holds_stands_in_it(s: Seq<char>, needle: Seq<char>) -> (at: int)
    requires
        contains_text(s, needle),
    ensures
        0 <= at <= s.len() - needle.len(),
        s == s.take(at) + needle + s.skip(at + needle.len()),
{
    let at = choose|at: int| occurs_at(s, needle, at);
    assert(s =~= s.take(at) + needle + s.skip(at + needle.len()));
    at
}

/// Blanks, tabs and line ends are white space; letters, digits and the other printing characters of
/// ASCII are not.
pub proof fn white_space_does_not_print(c: char)
    ensures
        c == ' ' || c == '\t' || c == '\n' || c == '\r' ==> is_white(c),
        '!' <= c <= '~' ==> !is_white(c),
        c as int == 0xa0 || c as int == 0x3000 ==> is_white(c),
{
}

/// All of the characters are white space.
pub open spec fn all_white(s: Seq<char>) -> bool {
    forall|i: int| 0 <= i < s.len() ==> is_white(#[trigger] s[i])
}

/// Trimming takes white space off both ends and nothing else: what is left neither begins nor ends
/// with white space, and all that is gone is white.
pub proof fn trimming_takes_only_white_space(s: Seq<char>) -> (ends: (Seq<char>, Seq<char>))
    ensures
        s == ends.0 + trimmed(s) + ends.1,
        all_white(ends.0),
        all_white(ends.1),
        trimmed(s).len() > 0 ==> !is_white(trimmed(s)[0]) && !is_white(trimmed(s).last()),
{
    let front = trim_front_leaves(s);
    let rest = trim_front(s);
    let back = trim_back_leaves(rest);
    assert(s =~= front + trimmed(s) + back);
    let t = trimmed(s);
    if t.len() > 0 {
        assert(rest[0] == t[0]);
    }
    (front, back)
}

proof fn trim_front_leaves(s: Seq<char>) -> (front: Seq<char>)
    ensures
        s == front + trim_front(s),
        all_white(front),
        trim_front(s).len() > 0 ==> !is_white(trim_front(s)[0]),
    decreases s.len(),
{
    if s.len() > 0 && is_white(s[0]) {
        let f = trim_front_leaves(s.skip(1));
        let front = seq![s[0]] + f;
        let rest = trim_front(s.skip(1));
        assert(s =~= seq![s[0]] + s.skip(1));
        assert(seq![s[0]] + (f + rest) =~= front + rest);
        front
    } else {
        assert(s =~= Seq::<char>::empty() + s);
        seq![]
    }
}

proof fn trim_back_leaves(s: Seq<char>) -> (back: Seq<char>)
    ensures
        s == trim_back(s) + back,
        all_white(back),
        trim_back(s).len() > 0 ==> !is_white(trim_back(s).last()),
    decreases s.len(),
{
    if s.len() > 0 && is_white(s.last()) {
        let b = trim_back_leaves(s.drop_last());
        let back = b.push(s.last());
        let rest = trim_back(s.drop_last());
        assert(s =~= s.drop_last().push(s.last()));
        assert((rest + b).push(s.last()) =~= rest + back);
        back
    } else {
        assert(s =~= s + Seq::<char>::empty());
        seq![]
    }
}

/// A text without white space at its ends is not trimmed.
pub proof fn a_trimmed_text_stays(s: Seq<char>)
    requires
        s.len() > 0 ==> !is_white(s[0]) && !is_white(s.last()),
    ensures
        trimmed(s) == s,
{
}

/// Lower case changes the capital letters of ASCII into their small forms and nothing else.
pub proof fn lower_case_changes_only_capitals(s: Seq<char>, i: int)
    requires
        0 <= i < s.len(),
    ensures
        lower_ascii(s).len() == s.len(),
        'A' <= s[i] <= 'Z' ==> lower_ascii(s)[i] as int == s[i] as int + ('a' as int - 'A' as int),
        !('A' <= s[i] <= 'Z') ==> lower_ascii(s)[i] == s[i],
        lower_ascii(lower_ascii(s)) == lower_ascii(s),
{
    assert(lower_ascii(lower_ascii(s)) =~= lower_ascii(s));
}

/// A text comes before every longer text that begins with it; otherwise the first difference decides.
pub proof fn the_first_difference_decides(common: Seq<char>, a: Seq<char>, b: Seq<char>)
    ensures
        text_le(common, common + a),
        a.len() > 0 ==> !text_le(common + a, common),
        a.len() > 0 && b.len() > 0 && a[0] < b[0] ==> text_le(common + a, common + b)
            && !text_le(common + b, common + a),
    decreases common.len(),
{
    if common.len() == 0 {
        assert(common + a =~= a);
        assert(common + b =~= b);
    } else {
        let rest = common.skip(1);
        the_first_difference_decides(rest, a, b);
        assert((common + a).skip(1) =~= rest + a);
        assert((common + b).skip(1) =~= rest + b);
    }
}

/// `n` without its lowest hexadecimal digits.
pub open spec fn without_digits(n: nat, width: nat) -> nat
    decreases width,
{
    if width == 0 {
        n
    } else {
        without_digits(n / 16, (width - 1) as nat)
    }
}

/// The digits of a number are those in front followed by those behind.
pub proof fn digits_stand_one_behind_the_other(n: nat, front: nat, back: nat)
    ensures
        hex(n, front + back) == hex(without_digits(n, back), front) + hex(n, back),
    decreases back,
{
    if back == 0 {
        assert(hex(n, front + back) =~= hex(n, front) + hex(n, 0));
    } else {
        digits_stand_one_behind_the_other(n / 16, front, (back - 1) as nat);
        assert(((front + back) - 1) as nat == front + (back - 1) as nat);
        assert(hex(n, front + back) =~= hex(without_digits(n, back), front) + hex(n, back));
    }
}

} // verus!
