//! Display widths in terminal columns, and text cut or centred to a width.

use vstd::prelude::*;

use crate::text::{append_chars, chars_of, repeat, repeat_char};

verus! {

/// The columns `unicode_width::UnicodeWidthChar::width` gives a character
/// (`None` for a control character).
pub uninterp spec fn unicode_char_width(c: char) -> Option<usize>;

/// The columns `unicode_width::UnicodeWidthStr::width` gives a string.
pub uninterp spec fn unicode_str_width(s: Seq<char>) -> usize;

/// `c` is printable ASCII: a space or a visible character up to `'~'`.
pub open spec fn is_printable_ascii(c: char) -> bool {
    ' ' <= c <= '~'
}

/// Every character of `s` is printable ASCII.
pub open spec fn all_printable_ascii(s: Seq<char>) -> bool {
    forall|i: int| 0 <= i < s.len() ==> is_printable_ascii(#[trigger] s[i])
}

/// Calls `UnicodeWidthChar::width`. Stated of it: the result is the named
/// width of `c`; printable ASCII takes one column; the C0 and C1 control
/// codes (below a space, and from DEL up to U+00A0) have no width; any other
/// width comes from the crate's tables of `u8` values. Which width the tables
/// give each other character is left unsaid.
#[verifier::external_body]
fn char_width(c: char) -> (w: Option<usize>)
    ensures
        w == unicode_char_width(c),
        is_printable_ascii(c) ==> w == Some(1usize),
        c < ' ' || ('\u{7f}' <= c && c < '\u{a0}') ==> w is None,
        w matches Some(n) ==> n < 256,
{
    unicode_width::UnicodeWidthChar::width(c)
}

/// Calls `UnicodeWidthStr::width` on the text. Stated of it: the result is
/// the named width of the text, and text of printable ASCII alone is as wide
/// as it is long (each such character adds one column and leaves the crate's
/// lookahead state unchanged). How it measures other text (emoji sequences,
/// `"\r\n"`, ligatures) is left unsaid.
#[verifier::external_body]
fn str_width(text: &Vec<char>) -> (w: usize)
    ensures
        w == unicode_str_width(text@),
        all_printable_ascii(text@) ==> w == text@.len(),
{
    let s: String = text.iter().collect();
    unicode_width::UnicodeWidthStr::width(s.as_str())
}

/// The display width of the text in terminal columns.
pub fn display_width(text: &Vec<char>) -> (w: usize)
    ensures
        w == display_columns(text@),
        w == unicode_str_width(text@),
{
    str_width(text)
}

/// The columns a character counts for when text is cut to a width: its
/// width, or none for a control character.
pub open spec fn char_columns(c: char) -> nat {
    if is_printable_ascii(c) {
        1
    } else if c < ' ' || ('\u{7f}' <= c && c < '\u{a0}') {
        0
    } else {
        match unicode_char_width(c) {
            Some(w) => w as nat,
            None => 0,
        }
    }
}

/// The display width of text: as many columns as characters for printable
/// ASCII, the width `UnicodeWidthStr::width` gives otherwise.
pub open spec fn display_columns(s: Seq<char>) -> nat {
    if all_printable_ascii(s) {
        s.len()
    } else {
        unicode_str_width(s) as nat
    }
}

/// The columns of the characters of `s`, added up.
pub open spec fn columns(s: Seq<char>) -> nat
    decreases s.len(),
{
    if s.len() == 0 {
        0
    } else {
        columns(s.drop_last()) + char_columns(s.last())
    }
}

/// How many leading characters of `s` fit in `budget` columns: characters
/// are taken while their columns, added up, stay within the budget.
pub open spec fn fitting_count(s: Seq<char>, budget: int) -> nat
    decreases s.len(),
{
    if s.len() == 0 || char_columns(s[0]) > budget {
        0
    } else {
        1 + fitting_count(s.drop_first(), budget - char_columns(s[0]))
    }
}

/// The text cut to `width` columns.
pub open spec fn truncated(s: Seq<char>, width: nat) -> Seq<char> {
    s.take(fitting_count(s, width as int) as int)
}

proof fn lemma_fitting_count_bound(s: Seq<char>, budget: int)
    ensures
        fitting_count(s, budget) <= s.len(),
    decreases s.len(),
{
    if s.len() > 0 && char_columns(s[0]) <= budget {
        lemma_fitting_count_bound(s.drop_first(), budget - char_columns(s[0]));
    }
}

/// Adding a character to the front adds its columns.
proof fn lemma_columns_cons(c: char, s: Seq<char>)
    ensures
        columns(seq![c] + s) == char_columns(c) + columns(s),
    decreases s.len(),
{
    if s.len() == 0 {
        assert(seq![c] + s =~= seq![c]);
        assert(seq![c].drop_last() =~= Seq::<char>::empty());
        assert(columns(Seq::<char>::empty()) == 0);
        assert(columns(seq![c]) == columns(seq![c].drop_last()) + char_columns(c));
    } else {
        lemma_columns_cons(c, s.drop_last());
        assert((seq![c] + s).drop_last() =~= seq![c] + s.drop_last());
        assert((seq![c] + s).last() == s.last());
    }
}

/// The characters that fit take at most the budget, and the first one left
/// out would not have fit.
pub proof fn lemma_fitting(s: Seq<char>, budget: int)
    requires
        budget >= 0,
    ensures
        fitting_count(s, budget) <= s.len(),
        columns(s.take(fitting_count(s, budget) as int)) <= budget,
        fitting_count(s, budget) < s.len() ==> columns(
            s.take(fitting_count(s, budget) + 1 as int),
        ) > budget,
    decreases s.len(),
{
    lemma_fitting_count_bound(s, budget);
    let k = fitting_count(s, budget);
    if s.len() == 0 {
        assert(s.take(0) =~= Seq::<char>::empty());
    } else if char_columns(s[0]) > budget {
        assert(s.take(0) =~= Seq::<char>::empty());
        assert(s.take(1) =~= seq![s[0]]);
        assert(seq![s[0]].drop_last() =~= Seq::<char>::empty());
    } else {
        let rest = s.drop_first();
        let b2 = budget - char_columns(s[0]);
        lemma_fitting(rest, b2);
        assert(s.take(k as int) =~= seq![s[0]] + rest.take((k - 1) as int));
        lemma_columns_cons(s[0], rest.take((k - 1) as int));
        if k < s.len() {
            assert(s.take(k + 1 as int) =~= seq![s[0]] + rest.take(k as int));
            lemma_columns_cons(s[0], rest.take(k as int));
        }
    }
}

/// The longest start of `text` that fits in `width` columns, characters
/// counted by their width (control characters by none).
pub fn truncate_to_width(text: &Vec<char>, width: usize) -> (cut: Vec<char>)
    ensures
        cut@ == truncated(text@, width as nat),
{
    let mut used: usize = 0;
    let mut cut: Vec<char> = Vec::new();
    let mut i: usize = 0;
    let ghost s = text@;
    proof {
        lemma_fitting_count_bound(s, width as int);
        assert(s.skip(0) =~= s);
    }
    while i < text.len()
        invariant
            s == text@,
            i <= text.len(),
            used <= width,
            cut@ == s.take(i as int),
            fitting_count(s, width as int) == i + fitting_count(s.skip(i as int), width - used),
        decreases text.len() - i,
    {
        let ghost rest = s.skip(i as int);
        assert(rest[0] == s[i as int]);
        let next = match char_width(text[i]) {
            Some(w) => w,
            None => 0,
        };
        if next <= width - used {
            used = used + next;
            cut.push(text[i]);
            assert(rest.drop_first() =~= s.skip(i + 1));
            assert(s.take(i + 1) =~= s.take(i as int).push(s[i as int]));
            i = i + 1;
        } else {
            assert(cut@ == truncated(s, width as nat));
            return cut;
        }
    }
    assert(s.skip(i as int) =~= Seq::<char>::empty());
    assert(s.take(i as int) =~= s.take(fitting_count(s, width as int) as int));
    cut
}

/// Printable text: as many characters fit as the budget has columns.
pub proof fn lemma_printable_fits(s: Seq<char>, budget: int)
    requires
        all_printable_ascii(s),
    ensures
        fitting_count(s, budget) == if budget < 0 {
            0
        } else if s.len() < budget {
            s.len() as int
        } else {
            budget
        },
    decreases s.len(),
{
    if s.len() > 0 {
        let rest = s.drop_first();
        assert forall|i: int| 0 <= i < rest.len() implies is_printable_ascii(#[trigger] rest[i]) by {
            assert(rest[i] == s[i + 1]);
        }
        lemma_printable_fits(rest, budget - 1);
    }
}

/// `text` cut to `width` columns and centred in it: the columns left over
/// (by the display width of the cut text) go half, rounded down, before it
/// and the rest after it.
pub open spec fn centered(text: Seq<char>, width: nat) -> Seq<char> {
    let cut = truncated(text, width);
    let used = display_columns(cut);
    let remaining: nat = if used < width {
        (width - used) as nat
    } else {
        0
    };
    let left = remaining / 2;
    repeat_char(' ', left) + cut + repeat_char(' ', (remaining - left) as nat)
}

/// `text` cut to `width` columns and centred in it.
pub fn center(text: &Vec<char>, width: u16) -> (line: Vec<char>)
    ensures
        line@ == centered(text@, width as nat),
{
    let cut = truncate_to_width(text, width as usize);
    let used = display_width(&cut);
    let remaining = if used < width as usize {
        width as usize - used
    } else {
        0
    };
    let left = remaining / 2;
    let mut line = repeat(' ', left);
    append_chars(&mut line, &cut);
    let right = repeat(' ', remaining - left);
    append_chars(&mut line, &right);
    line
}

/// `center` for a string.
pub fn center_str(text: &str, width: u16) -> (line: Vec<char>)
    ensures
        line@ == centered(text@, width as nat),
{
    let chars = chars_of(text);
    center(&chars, width)
}

} // verus!
