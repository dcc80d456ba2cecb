//! The named colors of X11.
//!
//! A line of the table is `R G B<TAB><TAB>name`: three decimal numbers from 0 to 255, then a name,
//! which may hold spaces. A color may stand under several names; every one is kept.

use vstd::prelude::*;

use crate::text;
use crate::text::{chars_of, is_whitespace, text_of, trim};

verus! {

/// A color's name, and its red, green and blue parts.
pub type NamedColor = (String, (u8, u8, u8));

/// A named color, its name as a sequence of characters.
pub type Color = (Seq<char>, (u8, u8, u8));

/// The color that a named color stands for.
pub open spec fn color(c: NamedColor) -> Color {
    (c.0@, c.1)
}

/// The position of the first `c` in `s`, or the length of `s`.
pub open spec fn first_of(s: Seq<char>, c: char) -> int
    decreases s.len(),
{
    if s.len() == 0 || s[0] == c {
        0
    } else {
        1 + first_of(s.skip(1), c)
    }
}

proof fn first_of_in_range(s: Seq<char>, c: char)
    ensures
        0 <= first_of(s, c) <= s.len(),
    decreases s.len(),
{
    if s.len() > 0 && s[0] != c {
        first_of_in_range(s.skip(1), c);
    }
}

fn find_char(s: &Vec<char>, from: usize, c: char) -> (r: usize)
    requires
        from <= s@.len(),
    ensures
        r == from + first_of(s@.skip(from as int), c),
        from <= r <= s@.len(),
{
    let mut i: usize = from;
    while i < s.len() && s[i] != c
        invariant
            from <= i <= s@.len(),
            i + first_of(s@.skip(i as int), c) == from + first_of(s@.skip(from as int), c),
        decreases s@.len() - i,
    {
        assert(s@.skip(i as int).skip(1) =~= s@.skip(i + 1));
        i = i + 1;
    }
    i
}

/// The length of the text in front of the first white space.
pub open spec fn word_len(s: Seq<char>) -> int
    decreases s.len(),
{
    if s.len() == 0 || text::is_white(s[0]) {
        0
    } else {
        1 + word_len(s.skip(1))
    }
}

proof fn word_len_in_range(s: Seq<char>)
    ensures
        0 <= word_len(s) <= s.len(),
    decreases s.len(),
{
    if s.len() > 0 && !text::is_white(s[0]) {
        word_len_in_range(s.skip(1));
    }
}

/// The first word of `s`, and what follows it.
pub open spec fn next_word(s: Seq<char>) -> Option<(Seq<char>, Seq<char>)> {
    let t = text::trim_front(s);
    if t.len() == 0 {
        None
    } else {
        Some((t.take(word_len(t)), t.skip(word_len(t))))
    }
}

/// A word is not empty, and what follows it is shorter than the whole.
pub proof fn next_word_shrinks(s: Seq<char>)
    ensures
        next_word(s) matches Some((w, rest)) ==> w.len() > 0 && rest.len() < s.len(),
{
    let t = text::trim_front(s);
    trim_front_shrinks(s);
    word_len_in_range(t);
    if t.len() > 0 {
        word_len_in_range(t.skip(1));
    }
}

proof fn trim_front_shrinks(s: Seq<char>)
    ensures
        text::trim_front(s).len() <= s.len(),
        text::trim_front(s).len() > 0 ==> !text::is_white(text::trim_front(s)[0]),
    decreases s.len(),
{
    if s.len() > 0 && text::is_white(s[0]) {
        trim_front_shrinks(s.skip(1));
    }
}

/// Where the first word of `s[from..to]` stands.
pub fn find_word(s: &Vec<char>, from: usize, to: usize) -> (r: Option<(usize, usize)>)
    requires
        from <= to <= s@.len(),
    ensures
        match (r, next_word(s@.subrange(from as int, to as int))) {
            (Some((a, b)), Some((word, rest))) => {
                &&& from <= a <= b <= to
                &&& s@.subrange(a as int, b as int) == word
                &&& s@.subrange(b as int, to as int) == rest
            },
            (None, None) => true,
            _ => false,
        },
{
    let ghost whole = s@.subrange(from as int, to as int);
    let mut a: usize = from;
    while a < to && is_whitespace(s[a])
        invariant
            from <= a <= to <= s@.len(),
            whole == s@.subrange(from as int, to as int),
            text::trim_front(s@.subrange(a as int, to as int)) == text::trim_front(whole),
        ensures
            from <= a <= to,
            a < to ==> !text::is_white(s@[a as int]),
            text::trim_front(s@.subrange(a as int, to as int)) == text::trim_front(whole),
        decreases to - a,
    {
        assert(s@.subrange(a as int, to as int).skip(1) =~= s@.subrange(a + 1, to as int));
        a = a + 1;
    }
    let ghost t = s@.subrange(a as int, to as int);
    assert(text::trim_front(whole) == t);
    if a == to {
        return None;
    }
    let mut b: usize = a;
    while b < to && !is_whitespace(s[b])
        invariant
            a <= b <= to <= s@.len(),
            t == s@.subrange(a as int, to as int),
            word_len(t) == b - a + word_len(s@.subrange(b as int, to as int)),
        ensures
            a <= b <= to,
            word_len(t) == b - a,
        decreases to - b,
    {
        assert(s@.subrange(b as int, to as int).skip(1) =~= s@.subrange(b + 1, to as int));
        b = b + 1;
    }
    assert(s@.subrange(a as int, b as int) =~= t.take(word_len(t)));
    assert(s@.subrange(b as int, to as int) =~= t.skip(word_len(t)));
    Some((a, b))
}

/// Whether `c` is a decimal digit.
pub open spec fn is_digit(c: char) -> bool {
    '0' <= c <= '9'
}

/// The number that decimal digits spell.
pub open spec fn digits_value(s: Seq<char>) -> nat
    decreases s.len(),
{
    if s.len() == 0 {
        0
    } else {
        digits_value(s.drop_last()) * 10 + (s.last() as nat - '0' as nat) as nat
    }
}

/// The digits of a number that may begin with a plus sign.
pub open spec fn without_plus(s: Seq<char>) -> Seq<char> {
    if s.len() > 0 && s[0] == '+' {
        s.skip(1)
    } else {
        s
    }
}

/// The number from 0 to 255 that `s` spells in decimal, a plus sign in front allowed.
pub open spec fn byte_value(s: Seq<char>) -> Option<u8> {
    let digits = without_plus(s);
    if digits.len() > 0 && (forall|i: int| 0 <= i < digits.len() ==> is_digit(#[trigger] digits[i]))
        && digits_value(digits) <= 255 {
        Some(digits_value(digits) as u8)
    } else {
        None
    }
}

proof fn digits_value_grows(s: Seq<char>, n: int)
    requires
        0 <= n <= s.len(),
    ensures
        digits_value(s.take(n)) <= digits_value(s),
    decreases s.len() - n,
{
    if n < s.len() {
        digits_value_grows(s, n + 1);
        assert(s.take(n + 1).drop_last() =~= s.take(n));
    } else {
        assert(s.take(n) =~= s);
    }
}

fn digit_of(c: char) -> (r: Option<u16>)
    ensures
        r is Some <==> is_digit(c),
        r is Some ==> r->0 == c as nat - '0' as nat && r->0 < 10,
{
    if '0' <= c && c <= '9' {
        Some(c as u16 - 48)
    } else {
        None
    }
}

fn parse_byte(s: &Vec<char>, from: usize, to: usize) -> (r: Option<u8>)
    requires
        from <= to <= s@.len(),
    ensures
        r == byte_value(s@.subrange(from as int, to as int)),
{
    let ghost word = s@.subrange(from as int, to as int);
    let mut start: usize = from;
    if from < to && s[from] == '+' {
        start = from + 1;
    }
    let ghost digits = s@.subrange(start as int, to as int);
    assert(digits =~= without_plus(word));
    if start == to {
        return None;
    }
    let mut value: u16 = 0;
    let mut i: usize = start;
    assert(digits.take(0) =~= seq![]);
    while i < to
        invariant
            start <= i <= to <= s@.len(),
            digits == s@.subrange(start as int, to as int),
            digits == without_plus(word),
            word == s@.subrange(from as int, to as int),
            value <= 255,
            value == digits_value(digits.take(i - start)),
            forall|j: int| 0 <= j < i - start ==> is_digit(#[trigger] digits[j]),
        decreases to - i,
    {
        let ghost at = i - start;
        assert(digits[at] == s@[i as int]);
        match digit_of(s[i]) {
            None => {
                return None;
            },
            Some(d) => {
                assert(digits.take(at + 1).drop_last() =~= digits.take(at));
                value = value * 10 + d;
                if value > 255 {
                    proof {
                        digits_value_grows(digits, at + 1);
                    }
                    return None;
                }
            },
        }
        i = i + 1;
    }
    assert(digits.take(i - start) =~= digits);
    Some(value as u8)
}

/// What a line of the table says: the text in front of the first tab holds three numbers (what
/// follows a third is passed over), the text behind it a name.
pub open spec fn line_color(line: Seq<char>) -> Option<Color> {
    let tab = first_of(line, '\t');
    if tab == line.len() {
        None
    } else {
        let name = text::trimmed(line.skip(tab + 1));
        match next_word(line.take(tab)) {
            None => None,
            Some((r, after_r)) => match next_word(after_r) {
                None => None,
                Some((g, after_g)) => match next_word(after_g) {
                    None => None,
                    Some((b, _)) => match (byte_value(r), byte_value(g), byte_value(b)) {
                        (Some(r), Some(g), Some(b)) => if name.len() == 0 {
                            None
                        } else {
                            Some((name, (r, g, b)))
                        },
                        _ => None,
                    },
                },
            },
        }
    }
}

/// The color that a line of the table names; none on a blank or malformed line.
pub fn parse_rgb_line(line: &str) -> (r: Option<NamedColor>)
    ensures
        match (r, line_color(line@)) {
            (Some(c), Some(k)) => color(c) == k,
            (None, None) => true,
            _ => false,
        },
{
    let s: Vec<char> = chars_of(line);
    assert(s@.skip(0) =~= s@);
    let tab: usize = find_char(&s, 0, '\t');
    if tab == s.len() {
        return None;
    }
    assert(s@.subrange(0, tab as int) =~= line@.take(tab as int));
    let (r0, r1) = match find_word(&s, 0, tab) {
        None => {
            return None;
        },
        Some(w) => w,
    };
    let r: u8 = match parse_byte(&s, r0, r1) {
        None => {
            return None;
        },
        Some(v) => v,
    };
    let (g0, g1) = match find_word(&s, r1, tab) {
        None => {
            return None;
        },
        Some(w) => w,
    };
    let g: u8 = match parse_byte(&s, g0, g1) {
        None => {
            return None;
        },
        Some(v) => v,
    };
    let (b0, b1) = match find_word(&s, g1, tab) {
        None => {
            return None;
        },
        Some(w) => w,
    };
    let b: u8 = match parse_byte(&s, b0, b1) {
        None => {
            return None;
        },
        Some(v) => v,
    };
    let rest: String = text_of(&s, tab + 1, s.len());
    assert(rest@ =~= line@.skip(tab + 1));
    let name: String = trim(rest.as_str());
    if name.as_str().is_empty() {
        return None;
    }
    Some((name, (r, g, b)))
}

/// The colors that the lines of a table name, in order; each line ends with a line feed or with
/// the table.
pub open spec fn table_colors(s: Seq<char>) -> Seq<Color>
    decreases s.len(),
    via table_colors_decreases
{
    if s.len() == 0 {
        seq![]
    } else {
        let end = first_of(s, '\n');
        let rest = if end < s.len() {
            table_colors(s.skip(end + 1))
        } else {
            seq![]
        };
        match line_color(s.take(end)) {
            Some(c) => seq![c] + rest,
            None => rest,
        }
    }
}

#[via_fn]
proof fn table_colors_decreases(s: Seq<char>) {
    first_of_in_range(s, '\n');
}

/// The colors of a sequence of named colors.
pub open spec fn colors(cs: Seq<NamedColor>) -> Seq<Color> {
    cs.map_values(|c: NamedColor| color(c))
}

/// The colors that the lines of a table name.
pub fn parse_rgb_table(table: &str) -> (r: Vec<NamedColor>)
    ensures
        colors(r@) == table_colors(table@),
{
    let s: Vec<char> = chars_of(table);
    let mut r: Vec<NamedColor> = Vec::new();
    let mut i: usize = 0;
    assert(s@.skip(0) =~= s@);
    assert(colors(r@) + table_colors(s@.skip(0)) =~= table_colors(table@));
    while i < s.len()
        invariant
            i <= s@.len(),
            colors(r@) + table_colors(s@.skip(i as int)) == table_colors(table@),
        decreases s@.len() - i,
    {
        let ghost from = i as int;
        let ghost rest = s@.skip(from);
        let ghost had = colors(r@);
        let end: usize = find_char(&s, i, '\n');
        let line: String = text_of(&s, i, end);
        assert(line@ =~= rest.take(end - from));
        if let Some(c) = parse_rgb_line(line.as_str()) {
            let ghost k = color(c);
            r.push(c);
            assert(colors(r@) =~= had.push(k));
        }
        if end == s.len() {
            i = end;
        } else {
            i = end + 1;
            assert(rest.skip(end - from + 1) =~= s@.skip(i as int));
        }
        assert(colors(r@) + table_colors(s@.skip(i as int)) =~= had + table_colors(rest));
    }
    assert(table_colors(s@.skip(i as int)) =~= seq![]);
    assert(colors(r@) =~= table_colors(table@));
    r
}

/// The table of the X11 project, lines 1 to 50.
pub const RGB_01: &'static str = "\
255 250 250\t\tsnow\n\
248 248 255\t\tghost white\n\
248 248 255\t\tGhostWhite\n\
245 245 245\t\twhite smoke\n\
245 245 245\t\tWhiteSmoke\n\
220 220 220\t\tgainsboro\n\
255 250 240\t\tfloral white\n\
255 250 240\t\tFloralWhite\n\
253 245 230\t\told lace\n\
253 245 230\t\tOldLace\n\
250 240 230\t\tlinen\n\
250 235 215\t\tantique white\n\
250 235 215\t\tAntiqueWhite\n\
255 239 213\t\tpapaya whip\n\
255 239 213\t\tPapayaWhip\n\
255 235 205\t\tblanched almond\n\
255 235 205\t\tBlanchedAlmond\n\
255 228 196\t\tbisque\n\
255 218 185\t\tpeach puff\n\
255 218 185\t\tPeachPuff\n\
255 222 173\t\tnavajo white\n\
255 222 173\t\tNavajoWhite\n\
255 228 181\t\tmoccasin\n\
255 248 220\t\tcornsilk\n\
255 255 240\t\tivory\n\
255 250 205\t\tlemon chiffon\n\
255 250 205\t\tLemonChiffon\n\
255 245 238\t\tseashell\n\
240 255 240\t\thoneydew\n\
245 255 250\t\tmint cream\n\
245 255 250\t\tMintCream\n\
240 255 255\t\tazure\n\
240 248 255\t\talice blue\n\
240 248 255\t\tAliceBlue\n\
230 230 250\t\tlavender\n\
255 240 245\t\tlavender blush\n\
255 240 245\t\tLavenderBlush\n\
255 228 225\t\tmisty rose\n\
255 228 225\t\tMistyRose\n\
255 255 255\t\twhite\n\
  0   0   0\t\tblack\n\
 47  79  79\t\tdark slate gray\n\
 47  79  79\t\tDarkSlateGray\n\
 47  79  79\t\tdark slate grey\n\
 47  79  79\t\tDarkSlateGrey\n\
105 105 105\t\tdim gray\n\
105 105 105\t\tDimGray\n\
105 105 105\t\tdim grey\n\
105 105 105\t\tDimGrey\n\
112 128 144\t\tslate gray\n\
";

/// The table of the X11 project, lines 51 to 100.
pub const RGB_02: &'static str = "\
112 128 144\t\tSlateGray\n\
112 128 144\t\tslate grey\n\
112 128 144\t\tSlateGrey\n\
119 136 153\t\tlight slate gray\n\
119 136 153\t\tLightSlateGray\n\
119 136 153\t\tlight slate grey\n\
119 136 153\t\tLightSlateGrey\n\
190 190 190\t\tgray\n\
190 190 190\t\tgrey\n\
190 190 190\t\tx11 gray\n\
190 190 190\t\tX11Gray\n\
190 190 190\t\tx11 grey\n\
190 190 190\t\tX11Grey\n\
128 128 128\t\tweb gray\n\
128 128 128\t\tWebGray\n\
128 128 128\t\tweb grey\n\
128 128 128\t\tWebGrey\n\
211 211 211\t\tlight grey\n\
211 211 211\t\tLightGrey\n\
211 211 211\t\tlight gray\n\
211 211 211\t\tLightGray\n\
 25  25 112\t\tmidnight blue\n\
 25  25 112\t\tMidnightBlue\n\
  0   0 128\t\tnavy\n\
  0   0 128\t\tnavy blue\n\
  0   0 128\t\tNavyBlue\n\
100 149 237\t\tcornflower blue\n\
100 149 237\t\tCornflowerBlue\n\
 72  61 139\t\tdark slate blue\n\
 72  61 139\t\tDarkSlateBlue\n\
106  90 205\t\tslate blue\n\
106  90 205\t\tSlateBlue\n\
123 104 238\t\tmedium slate blue\n\
123 104 238\t\tMediumSlateBlue\n\
132 112 255\t\tlight slate blue\n\
132 112 255\t\tLightSlateBlue\n\
  0   0 205\t\tmedium blue\n\
  0   0 205\t\tMediumBlue\n\
 65 105 225\t\troyal blue\n\
 65 105 225\t\tRoyalBlue\n\
  0   0 255\t\tblue\n\
 30 144 255\t\tdodger blue\n\
 30 144 255\t\tDodgerBlue\n\
  0 191 255\t\tdeep sky blue\n\
  0 191 255\t\tDeepSkyBlue\n\
135 206 235\t\tsky blue\n\
135 206 235\t\tSkyBlue\n\
135 206 250\t\tlight sky blue\n\
135 206 250\t\tLightSkyBlue\n\
 70 130 180\t\tsteel blue\n\
";

/// The table of the X11 project, lines 101 to 150.
pub const RGB_03: &'static str = "\
 70 130 180\t\tSteelBlue\n\
176 196 222\t\tlight steel blue\n\
176 196 222\t\tLightSteelBlue\n\
173 216 230\t\tlight blue\n\
173 216 230\t\tLightBlue\n\
176 224 230\t\tpowder blue\n\
176 224 230\t\tPowderBlue\n\
175 238 238\t\tpale turquoise\n\
175 238 238\t\tPaleTurquoise\n\
  0 206 209\t\tdark turquoise\n\
  0 206 209\t\tDarkTurquoise\n\
 72 209 204\t\tmedium turquoise\n\
 72 209 204\t\tMediumTurquoise\n\
 64 224 208\t\tturquoise\n\
  0 255 255\t\tcyan\n\
  0 255 255\t\taqua\n\
224 255 255\t\tlight cyan\n\
224 255 255\t\tLightCyan\n\
 95 158 160\t\tcadet blue\n\
 95 158 160\t\tCadetBlue\n\
102 205 170\t\tmedium aquamarine\n\
102 205 170\t\tMediumAquamarine\n\
127 255 212\t\taquamarine\n\
  0 100   0\t\tdark green\n\
  0 100   0\t\tDarkGreen\n\
 85 107  47\t\tdark olive green\n\
 85 107  47\t\tDarkOliveGreen\n\
143 188 143\t\tdark sea green\n\
143 188 143\t\tDarkSeaGreen\n\
 46 139  87\t\tsea green\n\
 46 139  87\t\tSeaGreen\n\
 60 179 113\t\tmedium sea green\n\
 60 179 113\t\tMediumSeaGreen\n\
 32 178 170\t\tlight sea green\n\
 32 178 170\t\tLightSeaGreen\n\
152 251 152\t\tpale green\n\
152 251 152\t\tPaleGreen\n\
  0 255 127\t\tspring green\n\
  0 255 127\t\tSpringGreen\n\
124 252   0\t\tlawn green\n\
124 252   0\t\tLawnGreen\n\
  0 255   0\t\tgreen\n\
  0 255   0\t\tlime\n\
  0 255   0\t\tx11 green\n\
  0 255   0\t\tX11Green\n\
  0 128   0\t\tweb green\n\
  0 128   0\t\tWebGreen\n\
127 255   0\t\tchartreuse\n\
  0 250 154\t\tmedium spring green\n\
  0 250 154\t\tMediumSpringGreen\n\
";

/// The table of the X11 project, lines 151 to 200.
pub const RGB_04: &'static str = "\
173 255  47\t\tgreen yellow\n\
173 255  47\t\tGreenYellow\n\
 50 205  50\t\tlime green\n\
 50 205  50\t\tLimeGreen\n\
154 205  50\t\tyellow green\n\
154 205  50\t\tYellowGreen\n\
 34 139  34\t\tforest green\n\
 34 139  34\t\tForestGreen\n\
107 142  35\t\tolive drab\n\
107 142  35\t\tOliveDrab\n\
189 183 107\t\tdark khaki\n\
189 183 107\t\tDarkKhaki\n\
240 230 140\t\tkhaki\n\
238 232 170\t\tpale goldenrod\n\
238 232 170\t\tPaleGoldenrod\n\
250 250 210\t\tlight goldenrod yellow\n\
250 250 210\t\tLightGoldenrodYellow\n\
255 255 224\t\tlight yellow\n\
255 255 224\t\tLightYellow\n\
255 255   0\t\tyellow\n\
255 215   0\t\tgold\n\
238 221 130\t\tlight goldenrod\n\
238 221 130\t\tLightGoldenrod\n\
218 165  32\t\tgoldenrod\n\
184 134  11\t\tdark goldenrod\n\
184 134  11\t\tDarkGoldenrod\n\
188 143 143\t\trosy brown\n\
188 143 143\t\tRosyBrown\n\
205  92  92\t\tindian red\n\
205  92  92\t\tIndianRed\n\
139  69  19\t\tsaddle brown\n\
139  69  19\t\tSaddleBrown\n\
160  82  45\t\tsienna\n\
205 133  63\t\tperu\n\
222 184 135\t\tburlywood\n\
245 245 220\t\tbeige\n\
245 222 179\t\twheat\n\
244 164  96\t\tsandy brown\n\
244 164  96\t\tSandyBrown\n\
210 180 140\t\ttan\n\
210 105  30\t\tchocolate\n\
178  34  34\t\tfirebrick\n\
165  42  42\t\tbrown\n\
233 150 122\t\tdark salmon\n\
233 150 122\t\tDarkSalmon\n\
250 128 114\t\tsalmon\n\
255 160 122\t\tlight salmon\n\
255 160 122\t\tLightSalmon\n\
255 165   0\t\torange\n\
255 140   0\t\tdark orange\n\
";

/// The table of the X11 project, lines 201 to 250.
pub const RGB_05: &'static str = "\
255 140   0\t\tDarkOrange\n\
255 127  80\t\tcoral\n\
240 128 128\t\tlight coral\n\
240 128 128\t\tLightCoral\n\
255  99  71\t\ttomato\n\
255  69   0\t\torange red\n\
255  69   0\t\tOrangeRed\n\
255   0   0\t\tred\n\
255 105 180\t\thot pink\n\
255 105 180\t\tHotPink\n\
255  20 147\t\tdeep pink\n\
255  20 147\t\tDeepPink\n\
255 192 203\t\tpink\n\
255 182 193\t\tlight pink\n\
255 182 193\t\tLightPink\n\
219 112 147\t\tpale violet red\n\
219 112 147\t\tPaleVioletRed\n\
176  48  96\t\tmaroon\n\
176  48  96\t\tx11 maroon\n\
176  48  96\t\tX11Maroon\n\
128   0   0\t\tweb maroon\n\
128   0   0\t\tWebMaroon\n\
199  21 133\t\tmedium violet red\n\
199  21 133\t\tMediumVioletRed\n\
208  32 144\t\tviolet red\n\
208  32 144\t\tVioletRed\n\
255   0 255\t\tmagenta\n\
255   0 255\t\tfuchsia\n\
238 130 238\t\tviolet\n\
221 160 221\t\tplum\n\
218 112 214\t\torchid\n\
186  85 211\t\tmedium orchid\n\
186  85 211\t\tMediumOrchid\n\
153  50 204\t\tdark orchid\n\
153  50 204\t\tDarkOrchid\n\
148   0 211\t\tdark violet\n\
148   0 211\t\tDarkViolet\n\
138  43 226\t\tblue violet\n\
138  43 226\t\tBlueViolet\n\
160  32 240\t\tpurple\n\
160  32 240\t\tx11 purple\n\
160  32 240\t\tX11Purple\n\
128   0 128\t\tweb purple\n\
128   0 128\t\tWebPurple\n\
147 112 219\t\tmedium purple\n\
147 112 219\t\tMediumPurple\n\
216 191 216\t\tthistle\n\
255 250 250\t\tsnow1\n\
238 233 233\t\tsnow2\n\
205 201 201\t\tsnow3\n\
";

/// The table of the X11 project, lines 251 to 300.
pub const RGB_06: &'static str = "\
139 137 137\t\tsnow4\n\
255 245 238\t\tseashell1\n\
238 229 222\t\tseashell2\n\
205 197 191\t\tseashell3\n\
139 134 130\t\tseashell4\n\
255 239 219\t\tAntiqueWhite1\n\
238 223 204\t\tAntiqueWhite2\n\
205 192 176\t\tAntiqueWhite3\n\
139 131 120\t\tAntiqueWhite4\n\
255 228 196\t\tbisque1\n\
238 213 183\t\tbisque2\n\
205 183 158\t\tbisque3\n\
139 125 107\t\tbisque4\n\
255 218 185\t\tPeachPuff1\n\
238 203 173\t\tPeachPuff2\n\
205 175 149\t\tPeachPuff3\n\
139 119 101\t\tPeachPuff4\n\
255 222 173\t\tNavajoWhite1\n\
238 207 161\t\tNavajoWhite2\n\
205 179 139\t\tNavajoWhite3\n\
139 121  94\t\tNavajoWhite4\n\
255 250 205\t\tLemonChiffon1\n\
238 233 191\t\tLemonChiffon2\n\
205 201 165\t\tLemonChiffon3\n\
139 137 112\t\tLemonChiffon4\n\
255 248 220\t\tcornsilk1\n\
238 232 205\t\tcornsilk2\n\
205 200 177\t\tcornsilk3\n\
139 136 120\t\tcornsilk4\n\
255 255 240\t\tivory1\n\
238 238 224\t\tivory2\n\
205 205 193\t\tivory3\n\
139 139 131\t\tivory4\n\
240 255 240\t\thoneydew1\n\
224 238 224\t\thoneydew2\n\
193 205 193\t\thoneydew3\n\
131 139 131\t\thoneydew4\n\
255 240 245\t\tLavenderBlush1\n\
238 224 229\t\tLavenderBlush2\n\
205 193 197\t\tLavenderBlush3\n\
139 131 134\t\tLavenderBlush4\n\
255 228 225\t\tMistyRose1\n\
238 213 210\t\tMistyRose2\n\
205 183 181\t\tMistyRose3\n\
139 125 123\t\tMistyRose4\n\
240 255 255\t\tazure1\n\
224 238 238\t\tazure2\n\
193 205 205\t\tazure3\n\
131 139 139\t\tazure4\n\
131 111 255\t\tSlateBlue1\n\
";

/// The table of the X11 project, lines 301 to 350.
pub const RGB_07: &'static str = "\
122 103 238\t\tSlateBlue2\n\
105  89 205\t\tSlateBlue3\n\
 71  60 139\t\tSlateBlue4\n\
 72 118 255\t\tRoyalBlue1\n\
 67 110 238\t\tRoyalBlue2\n\
 58  95 205\t\tRoyalBlue3\n\
 39  64 139\t\tRoyalBlue4\n\
  0   0 255\t\tblue1\n\
  0   0 238\t\tblue2\n\
  0   0 205\t\tblue3\n\
  0   0 139\t\tblue4\n\
 30 144 255\t\tDodgerBlue1\n\
 28 134 238\t\tDodgerBlue2\n\
 24 116 205\t\tDodgerBlue3\n\
 16  78 139\t\tDodgerBlue4\n\
 99 184 255\t\tSteelBlue1\n\
 92 172 238\t\tSteelBlue2\n\
 79 148 205\t\tSteelBlue3\n\
 54 100 139\t\tSteelBlue4\n\
  0 191 255\t\tDeepSkyBlue1\n\
  0 178 238\t\tDeepSkyBlue2\n\
  0 154 205\t\tDeepSkyBlue3\n\
  0 104 139\t\tDeepSkyBlue4\n\
135 206 255\t\tSkyBlue1\n\
126 192 238\t\tSkyBlue2\n\
108 166 205\t\tSkyBlue3\n\
 74 112 139\t\tSkyBlue4\n\
176 226 255\t\tLightSkyBlue1\n\
164 211 238\t\tLightSkyBlue2\n\
141 182 205\t\tLightSkyBlue3\n\
 96 123 139\t\tLightSkyBlue4\n\
198 226 255\t\tSlateGray1\n\
185 211 238\t\tSlateGray2\n\
159 182 205\t\tSlateGray3\n\
108 123 139\t\tSlateGray4\n\
202 225 255\t\tLightSteelBlue1\n\
188 210 238\t\tLightSteelBlue2\n\
162 181 205\t\tLightSteelBlue3\n\
110 123 139\t\tLightSteelBlue4\n\
191 239 255\t\tLightBlue1\n\
178 223 238\t\tLightBlue2\n\
154 192 205\t\tLightBlue3\n\
104 131 139\t\tLightBlue4\n\
224 255 255\t\tLightCyan1\n\
209 238 238\t\tLightCyan2\n\
180 205 205\t\tLightCyan3\n\
122 139 139\t\tLightCyan4\n\
187 255 255\t\tPaleTurquoise1\n\
174 238 238\t\tPaleTurquoise2\n\
150 205 205\t\tPaleTurquoise3\n\
";

/// The table of the X11 project, lines 351 to 400.
pub const RGB_08: &'static str = "\
102 139 139\t\tPaleTurquoise4\n\
152 245 255\t\tCadetBlue1\n\
142 229 238\t\tCadetBlue2\n\
122 197 205\t\tCadetBlue3\n\
 83 134 139\t\tCadetBlue4\n\
  0 245 255\t\tturquoise1\n\
  0 229 238\t\tturquoise2\n\
  0 197 205\t\tturquoise3\n\
  0 134 139\t\tturquoise4\n\
  0 255 255\t\tcyan1\n\
  0 238 238\t\tcyan2\n\
  0 205 205\t\tcyan3\n\
  0 139 139\t\tcyan4\n\
151 255 255\t\tDarkSlateGray1\n\
141 238 238\t\tDarkSlateGray2\n\
121 205 205\t\tDarkSlateGray3\n\
 82 139 139\t\tDarkSlateGray4\n\
127 255 212\t\taquamarine1\n\
118 238 198\t\taquamarine2\n\
102 205 170\t\taquamarine3\n\
 69 139 116\t\taquamarine4\n\
193 255 193\t\tDarkSeaGreen1\n\
180 238 180\t\tDarkSeaGreen2\n\
155 205 155\t\tDarkSeaGreen3\n\
105 139 105\t\tDarkSeaGreen4\n\
 84 255 159\t\tSeaGreen1\n\
 78 238 148\t\tSeaGreen2\n\
 67 205 128\t\tSeaGreen3\n\
 46 139  87\t\tSeaGreen4\n\
154 255 154\t\tPaleGreen1\n\
144 238 144\t\tPaleGreen2\n\
124 205 124\t\tPaleGreen3\n\
 84 139  84\t\tPaleGreen4\n\
  0 255 127\t\tSpringGreen1\n\
  0 238 118\t\tSpringGreen2\n\
  0 205 102\t\tSpringGreen3\n\
  0 139  69\t\tSpringGreen4\n\
  0 255   0\t\tgreen1\n\
  0 238   0\t\tgreen2\n\
  0 205   0\t\tgreen3\n\
  0 139   0\t\tgreen4\n\
127 255   0\t\tchartreuse1\n\
118 238   0\t\tchartreuse2\n\
102 205   0\t\tchartreuse3\n\
 69 139   0\t\tchartreuse4\n\
192 255  62\t\tOliveDrab1\n\
179 238  58\t\tOliveDrab2\n\
154 205  50\t\tOliveDrab3\n\
105 139  34\t\tOliveDrab4\n\
202 255 112\t\tDarkOliveGreen1\n\
";

/// The table of the X11 project, lines 401 to 450.
pub const RGB_09: &'static str = "\
188 238 104\t\tDarkOliveGreen2\n\
162 205  90\t\tDarkOliveGreen3\n\
110 139  61\t\tDarkOliveGreen4\n\
255 246 143\t\tkhaki1\n\
238 230 133\t\tkhaki2\n\
205 198 115\t\tkhaki3\n\
139 134  78\t\tkhaki4\n\
255 236 139\t\tLightGoldenrod1\n\
238 220 130\t\tLightGoldenrod2\n\
205 190 112\t\tLightGoldenrod3\n\
139 129  76\t\tLightGoldenrod4\n\
255 255 224\t\tLightYellow1\n\
238 238 209\t\tLightYellow2\n\
205 205 180\t\tLightYellow3\n\
139 139 122\t\tLightYellow4\n\
255 255   0\t\tyellow1\n\
238 238   0\t\tyellow2\n\
205 205   0\t\tyellow3\n\
139 139   0\t\tyellow4\n\
255 215   0\t\tgold1\n\
238 201   0\t\tgold2\n\
205 173   0\t\tgold3\n\
139 117   0\t\tgold4\n\
255 193  37\t\tgoldenrod1\n\
238 180  34\t\tgoldenrod2\n\
205 155  29\t\tgoldenrod3\n\
139 105  20\t\tgoldenrod4\n\
255 185  15\t\tDarkGoldenrod1\n\
238 173  14\t\tDarkGoldenrod2\n\
205 149  12\t\tDarkGoldenrod3\n\
139 101   8\t\tDarkGoldenrod4\n\
255 193 193\t\tRosyBrown1\n\
238 180 180\t\tRosyBrown2\n\
205 155 155\t\tRosyBrown3\n\
139 105 105\t\tRosyBrown4\n\
255 106 106\t\tIndianRed1\n\
238  99  99\t\tIndianRed2\n\
205  85  85\t\tIndianRed3\n\
139  58  58\t\tIndianRed4\n\
255 130  71\t\tsienna1\n\
238 121  66\t\tsienna2\n\
205 104  57\t\tsienna3\n\
139  71  38\t\tsienna4\n\
255 211 155\t\tburlywood1\n\
238 197 145\t\tburlywood2\n\
205 170 125\t\tburlywood3\n\
139 115  85\t\tburlywood4\n\
255 231 186\t\twheat1\n\
238 216 174\t\twheat2\n\
205 186 150\t\twheat3\n\
";

/// The table of the X11 project, lines 451 to 500.
pub const RGB_10: &'static str = "\
139 126 102\t\twheat4\n\
255 165  79\t\ttan1\n\
238 154  73\t\ttan2\n\
205 133  63\t\ttan3\n\
139  90  43\t\ttan4\n\
255 127  36\t\tchocolate1\n\
238 118  33\t\tchocolate2\n\
205 102  29\t\tchocolate3\n\
139  69  19\t\tchocolate4\n\
255  48  48\t\tfirebrick1\n\
238  44  44\t\tfirebrick2\n\
205  38  38\t\tfirebrick3\n\
139  26  26\t\tfirebrick4\n\
255  64  64\t\tbrown1\n\
238  59  59\t\tbrown2\n\
205  51  51\t\tbrown3\n\
139  35  35\t\tbrown4\n\
255 140 105\t\tsalmon1\n\
238 130  98\t\tsalmon2\n\
205 112  84\t\tsalmon3\n\
139  76  57\t\tsalmon4\n\
255 160 122\t\tLightSalmon1\n\
238 149 114\t\tLightSalmon2\n\
205 129  98\t\tLightSalmon3\n\
139  87  66\t\tLightSalmon4\n\
255 165   0\t\torange1\n\
238 154   0\t\torange2\n\
205 133   0\t\torange3\n\
139  90   0\t\torange4\n\
255 127   0\t\tDarkOrange1\n\
238 118   0\t\tDarkOrange2\n\
205 102   0\t\tDarkOrange3\n\
139  69   0\t\tDarkOrange4\n\
255 114  86\t\tcoral1\n\
238 106  80\t\tcoral2\n\
205  91  69\t\tcoral3\n\
139  62  47\t\tcoral4\n\
255  99  71\t\ttomato1\n\
238  92  66\t\ttomato2\n\
205  79  57\t\ttomato3\n\
139  54  38\t\ttomato4\n\
255  69   0\t\tOrangeRed1\n\
238  64   0\t\tOrangeRed2\n\
205  55   0\t\tOrangeRed3\n\
139  37   0\t\tOrangeRed4\n\
255   0   0\t\tred1\n\
238   0   0\t\tred2\n\
205   0   0\t\tred3\n\
139   0   0\t\tred4\n\
255  20 147\t\tDeepPink1\n\
";

/// The table of the X11 project, lines 501 to 550.
pub const RGB_11: &'static str = "\
238  18 137\t\tDeepPink2\n\
205  16 118\t\tDeepPink3\n\
139  10  80\t\tDeepPink4\n\
255 110 180\t\tHotPink1\n\
238 106 167\t\tHotPink2\n\
205  96 144\t\tHotPink3\n\
139  58  98\t\tHotPink4\n\
255 181 197\t\tpink1\n\
238 169 184\t\tpink2\n\
205 145 158\t\tpink3\n\
139  99 108\t\tpink4\n\
255 174 185\t\tLightPink1\n\
238 162 173\t\tLightPink2\n\
205 140 149\t\tLightPink3\n\
139  95 101\t\tLightPink4\n\
255 130 171\t\tPaleVioletRed1\n\
238 121 159\t\tPaleVioletRed2\n\
205 104 137\t\tPaleVioletRed3\n\
139  71  93\t\tPaleVioletRed4\n\
255  52 179\t\tmaroon1\n\
238  48 167\t\tmaroon2\n\
205  41 144\t\tmaroon3\n\
139  28  98\t\tmaroon4\n\
255  62 150\t\tVioletRed1\n\
238  58 140\t\tVioletRed2\n\
205  50 120\t\tVioletRed3\n\
139  34  82\t\tVioletRed4\n\
255   0 255\t\tmagenta1\n\
238   0 238\t\tmagenta2\n\
205   0 205\t\tmagenta3\n\
139   0 139\t\tmagenta4\n\
255 131 250\t\torchid1\n\
238 122 233\t\torchid2\n\
205 105 201\t\torchid3\n\
139  71 137\t\torchid4\n\
255 187 255\t\tplum1\n\
238 174 238\t\tplum2\n\
205 150 205\t\tplum3\n\
139 102 139\t\tplum4\n\
224 102 255\t\tMediumOrchid1\n\
209  95 238\t\tMediumOrchid2\n\
180  82 205\t\tMediumOrchid3\n\
122  55 139\t\tMediumOrchid4\n\
191  62 255\t\tDarkOrchid1\n\
178  58 238\t\tDarkOrchid2\n\
154  50 205\t\tDarkOrchid3\n\
104  34 139\t\tDarkOrchid4\n\
155  48 255\t\tpurple1\n\
145  44 238\t\tpurple2\n\
125  38 205\t\tpurple3\n\
";

/// The table of the X11 project, lines 551 to 600.
pub const RGB_12: &'static str = "\
 85  26 139\t\tpurple4\n\
171 130 255\t\tMediumPurple1\n\
159 121 238\t\tMediumPurple2\n\
137 104 205\t\tMediumPurple3\n\
 93  71 139\t\tMediumPurple4\n\
255 225 255\t\tthistle1\n\
238 210 238\t\tthistle2\n\
205 181 205\t\tthistle3\n\
139 123 139\t\tthistle4\n\
  0   0   0\t\tgray0\n\
  0   0   0\t\tgrey0\n\
  3   3   3\t\tgray1\n\
  3   3   3\t\tgrey1\n\
  5   5   5\t\tgray2\n\
  5   5   5\t\tgrey2\n\
  8   8   8\t\tgray3\n\
  8   8   8\t\tgrey3\n\
 10  10  10\t\tgray4\n\
 10  10  10\t\tgrey4\n\
 13  13  13\t\tgray5\n\
 13  13  13\t\tgrey5\n\
 15  15  15\t\tgray6\n\
 15  15  15\t\tgrey6\n\
 18  18  18\t\tgray7\n\
 18  18  18\t\tgrey7\n\
 20  20  20\t\tgray8\n\
 20  20  20\t\tgrey8\n\
 23  23  23\t\tgray9\n\
 23  23  23\t\tgrey9\n\
 26  26  26\t\tgray10\n\
 26  26  26\t\tgrey10\n\
 28  28  28\t\tgray11\n\
 28  28  28\t\tgrey11\n\
 31  31  31\t\tgray12\n\
 31  31  31\t\tgrey12\n\
 33  33  33\t\tgray13\n\
 33  33  33\t\tgrey13\n\
 36  36  36\t\tgray14\n\
 36  36  36\t\tgrey14\n\
 38  38  38\t\tgray15\n\
 38  38  38\t\tgrey15\n\
 41  41  41\t\tgray16\n\
 41  41  41\t\tgrey16\n\
 43  43  43\t\tgray17\n\
 43  43  43\t\tgrey17\n\
 46  46  46\t\tgray18\n\
 46  46  46\t\tgrey18\n\
 48  48  48\t\tgray19\n\
 48  48  48\t\tgrey19\n\
 51  51  51\t\tgray20\n\
";

/// The table of the X11 project, lines 601 to 650.
pub const RGB_13: &'static str = "\
 51  51  51\t\tgrey20\n\
 54  54  54\t\tgray21\n\
 54  54  54\t\tgrey21\n\
 56  56  56\t\tgray22\n\
 56  56  56\t\tgrey22\n\
 59  59  59\t\tgray23\n\
 59  59  59\t\tgrey23\n\
 61  61  61\t\tgray24\n\
 61  61  61\t\tgrey24\n\
 64  64  64\t\tgray25\n\
 64  64  64\t\tgrey25\n\
 66  66  66\t\tgray26\n\
 66  66  66\t\tgrey26\n\
 69  69  69\t\tgray27\n\
 69  69  69\t\tgrey27\n\
 71  71  71\t\tgray28\n\
 71  71  71\t\tgrey28\n\
 74  74  74\t\tgray29\n\
 74  74  74\t\tgrey29\n\
 77  77  77\t\tgray30\n\
 77  77  77\t\tgrey30\n\
 79  79  79\t\tgray31\n\
 79  79  79\t\tgrey31\n\
 82  82  82\t\tgray32\n\
 82  82  82\t\tgrey32\n\
 84  84  84\t\tgray33\n\
 84  84  84\t\tgrey33\n\
 87  87  87\t\tgray34\n\
 87  87  87\t\tgrey34\n\
 89  89  89\t\tgray35\n\
 89  89  89\t\tgrey35\n\
 92  92  92\t\tgray36\n\
 92  92  92\t\tgrey36\n\
 94  94  94\t\tgray37\n\
 94  94  94\t\tgrey37\n\
 97  97  97\t\tgray38\n\
 97  97  97\t\tgrey38\n\
 99  99  99\t\tgray39\n\
 99  99  99\t\tgrey39\n\
102 102 102\t\tgray40\n\
102 102 102\t\tgrey40\n\
105 105 105\t\tgray41\n\
105 105 105\t\tgrey41\n\
107 107 107\t\tgray42\n\
107 107 107\t\tgrey42\n\
110 110 110\t\tgray43\n\
110 110 110\t\tgrey43\n\
112 112 112\t\tgray44\n\
112 112 112\t\tgrey44\n\
115 115 115\t\tgray45\n\
";

/// The table of the X11 project, lines 651 to 700.
pub const RGB_14: &'static str = "\
115 115 115\t\tgrey45\n\
117 117 117\t\tgray46\n\
117 117 117\t\tgrey46\n\
120 120 120\t\tgray47\n\
120 120 120\t\tgrey47\n\
122 122 122\t\tgray48\n\
122 122 122\t\tgrey48\n\
125 125 125\t\tgray49\n\
125 125 125\t\tgrey49\n\
127 127 127\t\tgray50\n\
127 127 127\t\tgrey50\n\
130 130 130\t\tgray51\n\
130 130 130\t\tgrey51\n\
133 133 133\t\tgray52\n\
133 133 133\t\tgrey52\n\
135 135 135\t\tgray53\n\
135 135 135\t\tgrey53\n\
138 138 138\t\tgray54\n\
138 138 138\t\tgrey54\n\
140 140 140\t\tgray55\n\
140 140 140\t\tgrey55\n\
143 143 143\t\tgray56\n\
143 143 143\t\tgrey56\n\
145 145 145\t\tgray57\n\
145 145 145\t\tgrey57\n\
148 148 148\t\tgray58\n\
148 148 148\t\tgrey58\n\
150 150 150\t\tgray59\n\
150 150 150\t\tgrey59\n\
153 153 153\t\tgray60\n\
153 153 153\t\tgrey60\n\
156 156 156\t\tgray61\n\
156 156 156\t\tgrey61\n\
158 158 158\t\tgray62\n\
158 158 158\t\tgrey62\n\
161 161 161\t\tgray63\n\
161 161 161\t\tgrey63\n\
163 163 163\t\tgray64\n\
163 163 163\t\tgrey64\n\
166 166 166\t\tgray65\n\
166 166 166\t\tgrey65\n\
168 168 168\t\tgray66\n\
168 168 168\t\tgrey66\n\
171 171 171\t\tgray67\n\
171 171 171\t\tgrey67\n\
173 173 173\t\tgray68\n\
173 173 173\t\tgrey68\n\
176 176 176\t\tgray69\n\
176 176 176\t\tgrey69\n\
179 179 179\t\tgray70\n\
";

/// The table of the X11 project, lines 701 to 750.
pub const RGB_15: &'static str = "\
179 179 179\t\tgrey70\n\
181 181 181\t\tgray71\n\
181 181 181\t\tgrey71\n\
184 184 184\t\tgray72\n\
184 184 184\t\tgrey72\n\
186 186 186\t\tgray73\n\
186 186 186\t\tgrey73\n\
189 189 189\t\tgray74\n\
189 189 189\t\tgrey74\n\
191 191 191\t\tgray75\n\
191 191 191\t\tgrey75\n\
194 194 194\t\tgray76\n\
194 194 194\t\tgrey76\n\
196 196 196\t\tgray77\n\
196 196 196\t\tgrey77\n\
199 199 199\t\tgray78\n\
199 199 199\t\tgrey78\n\
201 201 201\t\tgray79\n\
201 201 201\t\tgrey79\n\
204 204 204\t\tgray80\n\
204 204 204\t\tgrey80\n\
207 207 207\t\tgray81\n\
207 207 207\t\tgrey81\n\
209 209 209\t\tgray82\n\
209 209 209\t\tgrey82\n\
212 212 212\t\tgray83\n\
212 212 212\t\tgrey83\n\
214 214 214\t\tgray84\n\
214 214 214\t\tgrey84\n\
217 217 217\t\tgray85\n\
217 217 217\t\tgrey85\n\
219 219 219\t\tgray86\n\
219 219 219\t\tgrey86\n\
222 222 222\t\tgray87\n\
222 222 222\t\tgrey87\n\
224 224 224\t\tgray88\n\
224 224 224\t\tgrey88\n\
227 227 227\t\tgray89\n\
227 227 227\t\tgrey89\n\
229 229 229\t\tgray90\n\
229 229 229\t\tgrey90\n\
232 232 232\t\tgray91\n\
232 232 232\t\tgrey91\n\
235 235 235\t\tgray92\n\
235 235 235\t\tgrey92\n\
237 237 237\t\tgray93\n\
237 237 237\t\tgrey93\n\
240 240 240\t\tgray94\n\
240 240 240\t\tgrey94\n\
242 242 242\t\tgray95\n\
";

/// The table of the X11 project, lines 751 to 782.
pub const RGB_16: &'static str = "\
242 242 242\t\tgrey95\n\
245 245 245\t\tgray96\n\
245 245 245\t\tgrey96\n\
247 247 247\t\tgray97\n\
247 247 247\t\tgrey97\n\
250 250 250\t\tgray98\n\
250 250 250\t\tgrey98\n\
252 252 252\t\tgray99\n\
252 252 252\t\tgrey99\n\
255 255 255\t\tgray100\n\
255 255 255\t\tgrey100\n\
169 169 169\t\tdark grey\n\
169 169 169\t\tDarkGrey\n\
169 169 169\t\tdark gray\n\
169 169 169\t\tDarkGray\n\
  0   0 139\t\tdark blue\n\
  0   0 139\t\tDarkBlue\n\
  0 139 139\t\tdark cyan\n\
  0 139 139\t\tDarkCyan\n\
139   0 139\t\tdark magenta\n\
139   0 139\t\tDarkMagenta\n\
139   0   0\t\tdark red\n\
139   0   0\t\tDarkRed\n\
144 238 144\t\tlight green\n\
144 238 144\t\tLightGreen\n\
220  20  60\t\tcrimson\n\
 75   0 130\t\tindigo\n\
128 128   0\t\tolive\n\
102  51 153\t\trebecca purple\n\
102  51 153\t\tRebeccaPurple\n\
192 192 192\t\tsilver\n\
  0 128 128\t\tteal\n\
";

/// The table of the X11 project.
pub open spec fn rgb_table() -> Seq<char> {
    RGB_01@
        + RGB_02@
        + RGB_03@
        + RGB_04@
        + RGB_05@
        + RGB_06@
        + RGB_07@
        + RGB_08@
        + RGB_09@
        + RGB_10@
        + RGB_11@
        + RGB_12@
        + RGB_13@
        + RGB_14@
        + RGB_15@
        + RGB_16@
}

/// All named colors, in the order of the table, under every name.
pub fn x11_colors() -> (r: Vec<NamedColor>)
    ensures
        colors(r@) == table_colors(rgb_table()),
{
    let mut table: String = String::new();
    table.append(RGB_01);
    table.append(RGB_02);
    table.append(RGB_03);
    table.append(RGB_04);
    table.append(RGB_05);
    table.append(RGB_06);
    table.append(RGB_07);
    table.append(RGB_08);
    table.append(RGB_09);
    table.append(RGB_10);
    table.append(RGB_11);
    table.append(RGB_12);
    table.append(RGB_13);
    table.append(RGB_14);
    table.append(RGB_15);
    table.append(RGB_16);
    assert(table@ =~= rgb_table());
    parse_rgb_table(table.as_str())
}

/// A character stands first at the first place that holds it, and behind the end where none does.
pub proof fn a_character_stands_first_where_it_first_occurs(
    front: Seq<char>,
    c: char,
    rest: Seq<char>,
)
    requires
        !front.contains(c),
    ensures
        first_of(front + seq![c] + rest, c) == front.len(),
        first_of(front, c) == front.len(),
    decreases front.len(),
{
    let whole = front + seq![c] + rest;
    if front.len() > 0 {
        let less = front.skip(1);
        assert(front.contains(front[0]));
        assert forall|i: int| 0 <= i < less.len() implies less[i] != c by {
            assert(front.contains(front[i + 1]));
        }
        a_character_stands_first_where_it_first_occurs(less, c, rest);
        assert(whole.skip(1) =~= less + seq![c] + rest);
        assert(whole[0] == front[0]);
    } else {
        assert(whole[0] == c);
    }
}

/// No character is white space.
pub open spec fn no_white(s: Seq<char>) -> bool {
    forall|i: int| 0 <= i < s.len() ==> !text::is_white(#[trigger] s[i])
}

proof fn a_word_ends_at_white_space(word: Seq<char>, rest: Seq<char>)
    requires
        no_white(word),
        rest.len() > 0 ==> text::is_white(rest[0]),
    ensures
        word_len(word + rest) == word.len(),
    decreases word.len(),
{
    let whole = word + rest;
    if word.len() > 0 {
        let less = word.skip(1);
        assert(!text::is_white(word[0]));
        assert forall|i: int| 0 <= i < less.len() implies !text::is_white(#[trigger] less[i]) by {
            assert(less[i] == word[i + 1]);
        }
        a_word_ends_at_white_space(less, rest);
        assert(whole.skip(1) =~= less + rest);
        assert(whole[0] == word[0]);
    } else {
        assert(whole =~= rest);
    }
}

proof fn white_space_in_front_is_skipped(white: Seq<char>, rest: Seq<char>)
    requires
        text::all_white(white),
        rest.len() > 0 ==> !text::is_white(rest[0]),
    ensures
        text::trim_front(white + rest) == rest,
    decreases white.len(),
{
    let whole = white + rest;
    if white.len() > 0 {
        let less = white.skip(1);
        assert(text::is_white(white[0]));
        assert forall|i: int| 0 <= i < less.len() implies text::is_white(#[trigger] less[i]) by {
            assert(less[i] == white[i + 1]);
        }
        white_space_in_front_is_skipped(less, rest);
        assert(whole.skip(1) =~= less + rest);
        assert(whole[0] == white[0]);
    } else {
        assert(whole =~= rest);
    }
}

/// The next word is what stands between white space; without any there is none.
pub proof fn the_next_word_stands_between_white_space(
    white: Seq<char>,
    word: Seq<char>,
    rest: Seq<char>,
)
    requires
        text::all_white(white),
        word.len() > 0,
        no_white(word),
        rest.len() > 0 ==> text::is_white(rest[0]),
    ensures
        next_word(white + word + rest) == Some((word, rest)),
        next_word(white) is None,
{
    let tail = word + rest;
    assert(!text::is_white(word[0]));
    assert(white + word + rest =~= white + tail);
    assert(tail[0] == word[0]);
    white_space_in_front_is_skipped(white, tail);
    white_space_in_front_is_skipped(white, seq![]);
    assert(white + Seq::<char>::empty() =~= white);
    a_word_ends_at_white_space(word, rest);
    assert(tail.take(word.len() as int) =~= word);
    assert(tail.skip(word.len() as int) =~= rest);
}

proof fn digits_have_their_value(s: Seq<char>)
    requires
        forall|i: int| 0 <= i < s.len() ==> '0' <= #[trigger] s[i] <= '9',
    ensures
        digits_value(s) == text::number_of(s),
    decreases s.len(),
{
    if s.len() > 0 {
        assert('0' <= s[s.len() - 1] <= '9');
        digits_have_their_value(s.drop_last());
    }
}

/// A part of a color is a decimal number up to 255, with or without a plus sign; nothing else is one.
pub proof fn a_part_is_a_number_up_to_255(n: nat, s: Seq<char>, i: int)
    ensures
        n <= 255 ==> byte_value(text::decimal(n)) == Some(n as u8),
        n <= 255 ==> byte_value(seq!['+'] + text::decimal(n)) == Some(n as u8),
        n > 255 ==> byte_value(text::decimal(n)) is None,
        byte_value(seq![]) is None,
        0 < i < s.len() && !('0' <= s[i] <= '9') ==> byte_value(s) is None,
{
    let d = text::decimal(n);
    text::a_decimal_form_reads_as_its_number(n);
    digits_have_their_value(d);
    assert('0' <= d[0] <= '9');
    assert(without_plus(d) == d);
    let p = seq!['+'] + d;
    assert(p.skip(1) =~= d);
    assert(without_plus(p) == d);
    assert forall|k: int| 0 <= k < d.len() implies is_digit(#[trigger] d[k]) by {}
    if 0 < i < s.len() && !('0' <= s[i] <= '9') {
        let digits = without_plus(s);
        if s[0] == '+' {
            assert(digits[i - 1] == s[i]);
            assert(!is_digit(digits[i - 1]));
        } else {
            assert(!is_digit(digits[i]));
        }
    }
}

proof fn a_decimal_form_is_a_word(n: nat)
    ensures
        no_white(text::decimal(n)),
        text::decimal(n).len() > 0,
        !text::decimal(n).contains('\t'),
{
    let d = text::decimal(n);
    text::a_decimal_form_reads_as_its_number(n);
    assert forall|i: int| 0 <= i < d.len() implies !text::is_white(#[trigger] d[i]) by {
        assert('0' <= d[i] <= '9');
    }
    if d.contains('\t') {
        let k = d.index_of('\t');
        assert('0' <= d[k] <= '9');
    }
}

/// A line of the table: three numbers, a tab and a name.
pub open spec fn table_line(c: (u8, u8, u8), name: Seq<char>) -> Seq<char> {
    text::decimal(c.0 as nat) + seq![' '] + text::decimal(c.1 as nat) + seq![' '] + text::decimal(
        c.2 as nat,
    ) + seq!['\t'] + name
}

/// A line of the table gives back its color and its name; a line without a tab, or without a name, gives
/// none.
pub proof fn a_line_gives_back_its_color(c: (u8, u8, u8), name: Seq<char>, line: Seq<char>)
    requires
        name.len() > 0,
        !text::is_white(name[0]),
        !text::is_white(name.last()),
        !line.contains('\t'),
    ensures
        line_color(table_line(c, name)) == Some((name, c)),
        line_color(table_line(c, seq![])) is None,
        line_color(line) is None,
{
    let r = text::decimal(c.0 as nat);
    let g = text::decimal(c.1 as nat);
    let b = text::decimal(c.2 as nat);
    a_decimal_form_is_a_word(c.0 as nat);
    a_decimal_form_is_a_word(c.1 as nat);
    a_decimal_form_is_a_word(c.2 as nat);
    a_part_is_a_number_up_to_255(c.0 as nat, seq![], 0);
    a_part_is_a_number_up_to_255(c.1 as nat, seq![], 0);
    a_part_is_a_number_up_to_255(c.2 as nat, seq![], 0);
    let none = Seq::<char>::empty();
    let space = seq![' '];
    let front = r + space + g + space + b;
    if front.contains('\t') {
        let k = front.index_of('\t');
        if k < r.len() {
            assert(r[k] == '\t');
            assert(r.contains('\t'));
        } else if k == r.len() {
        } else if k < r.len() + 1 + g.len() {
            assert(g[k - r.len() - 1] == '\t');
            assert(g.contains('\t'));
        } else if k == r.len() + 1 + g.len() {
        } else {
            assert(b[k - r.len() - g.len() - 2] == '\t');
            assert(b.contains('\t'));
        }
    }
    a_character_stands_first_where_it_first_occurs(front, '\t', name);
    a_character_stands_first_where_it_first_occurs(front, '\t', none);
    a_character_stands_first_where_it_first_occurs(line, '\t', none);
    let whole = table_line(c, name);
    let bare = table_line(c, none);
    let n = front.len() as int;
    assert(whole =~= front + seq!['\t'] + name);
    assert(bare =~= front + seq!['\t'] + none);
    assert(whole.take(n) =~= front);
    assert(whole.skip(n + 1) =~= name);
    assert(bare.take(n) =~= front);
    assert(bare.skip(n + 1) =~= none);
    text::a_trimmed_text_stays(name);
    text::a_trimmed_text_stays(none);
    let after_r = space + g + space + b;
    let after_g = space + b;
    assert(front =~= none + r + after_r);
    assert(after_r =~= space + g + after_g);
    assert(after_g =~= space + b + none);
    assert(text::is_white(' '));
    assert(after_r[0] == ' ' && after_g[0] == ' ');
    the_next_word_stands_between_white_space(none, r, after_r);
    the_next_word_stands_between_white_space(space, g, after_g);
    the_next_word_stands_between_white_space(space, b, none);
}

/// A table is read line by line; lines without a color are left out.
pub proof fn a_table_is_read_line_by_line(line: Seq<char>, rest: Seq<char>)
    requires
        !line.contains('\n'),
    ensures
        table_colors(seq![]).len() == 0,
        line_color(line) is None ==> table_colors(line + seq!['\n'] + rest) == table_colors(rest),
        line_color(line) matches Some(c) ==> table_colors(line + seq!['\n'] + rest) == seq![c]
            + table_colors(rest),
        line_color(line) matches Some(c) ==> table_colors(line) == seq![c],
{
    let whole = line + seq!['\n'] + rest;
    let n = line.len() as int;
    a_character_stands_first_where_it_first_occurs(line, '\n', rest);
    assert(whole.take(n) =~= line);
    assert(whole.skip(n + 1) =~= rest);
    assert(line.take(n) =~= line);
    assert(seq![line_color(line)->0] + Seq::<Color>::empty() =~= seq![line_color(line)->0]);
    if line.len() == 0 {
        assert(first_of(line, '\t') == 0);
        assert(line_color(line) is None);
    }
}

/// A color is told by its name and its parts.
pub proof fn colors_are_told_by_their_parts(cs: Seq<NamedColor>, k: int)
    requires
        0 <= k < cs.len(),
    ensures
        colors(cs).len() == cs.len(),
        colors(cs)[k].0 == cs[k].0@,
        colors(cs)[k].1 == cs[k].1,
{
}

} // verus!
