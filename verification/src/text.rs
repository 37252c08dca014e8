//! Text as sequences of characters: lines, joining, padding, trimming.

use vstd::prelude::*;

verus! {

/// The segments of `s` between newline characters, like `str::split('\n')`:
/// always at least one segment, none of them holding a newline.
pub open spec fn split_newlines(s: Seq<char>) -> Seq<Seq<char>>
    decreases s.len(),
{
    if s.len() == 0 {
        seq![Seq::<char>::empty()]
    } else {
        let pre = split_newlines(s.drop_last());
        if s.last() == '\n' {
            pre.push(Seq::<char>::empty())
        } else {
            pre.update(pre.len() - 1, pre.last().push(s.last()))
        }
    }
}

/// `line` without one trailing carriage return.
pub open spec fn strip_cr(line: Seq<char>) -> Seq<char> {
    if line.len() > 0 && line.last() == '\r' {
        line.drop_last()
    } else {
        line
    }
}

/// The lines of `s` as `str::lines` yields them: split at `'\n'`, a `'\r'`
/// right before a `'\n'` dropped, and no line after a final newline.
pub open spec fn lines_of(s: Seq<char>) -> Seq<Seq<char>> {
    let segs = split_newlines(s);
    let n = segs.len();
    let body = Seq::new((n - 1) as nat, |i: int| strip_cr(segs[i]));
    if segs[n - 1].len() == 0 {
        body
    } else {
        body.push(segs[n - 1])
    }
}

/// The rows joined with `'\n'` between them, like `[..].join("\n")`.
pub open spec fn join_lines(rows: Seq<Seq<char>>) -> Seq<char>
    decreases rows.len(),
{
    if rows.len() == 0 {
        Seq::<char>::empty()
    } else if rows.len() == 1 {
        rows[0]
    } else {
        join_lines(rows.drop_last()) + seq!['\n'] + rows.last()
    }
}

/// The rows of a vector of character vectors.
pub open spec fn rows_view(rows: Seq<Vec<char>>) -> Seq<Seq<char>> {
    rows.map_values(|r: Vec<char>| r@)
}

/// The texts of a vector of strings.
pub open spec fn strings_view(strings: Seq<String>) -> Seq<Seq<char>> {
    strings.map_values(|s: String| s@)
}

/// `s` holds no newline character.
pub open spec fn no_newline(s: Seq<char>) -> bool {
    !s.contains('\n')
}

/// `c` has the Unicode `White_Space` property, as `char::is_whitespace`
/// documents it.
pub open spec fn is_white_space(c: char) -> bool {
    ||| '\u{9}' <= c <= '\u{d}'
    ||| c == ' '
    ||| c == '\u{85}'
    ||| c == '\u{a0}'
    ||| c == '\u{1680}'
    ||| '\u{2000}' <= c <= '\u{200a}'
    ||| c == '\u{2028}'
    ||| c == '\u{2029}'
    ||| c == '\u{202f}'
    ||| c == '\u{205f}'
    ||| c == '\u{3000}'
}

/// `s` without its trailing white space, as `str::trim_end` leaves it.
pub open spec fn trim_end(s: Seq<char>) -> Seq<char>
    decreases s.len(),
{
    if s.len() > 0 && is_white_space(s.last()) {
        trim_end(s.drop_last())
    } else {
        s
    }
}

/// `s` without its trailing newlines, as `str::trim_end_matches('\n')` leaves it.
pub open spec fn trim_newlines(s: Seq<char>) -> Seq<char>
    decreases s.len(),
{
    if s.len() > 0 && s.last() == '\n' {
        trim_newlines(s.drop_last())
    } else {
        s
    }
}

/// The character of a decimal digit.
pub open spec fn digit_char(d: nat) -> char {
    if d == 0 {
        '0'
    } else if d == 1 {
        '1'
    } else if d == 2 {
        '2'
    } else if d == 3 {
        '3'
    } else if d == 4 {
        '4'
    } else if d == 5 {
        '5'
    } else if d == 6 {
        '6'
    } else if d == 7 {
        '7'
    } else if d == 8 {
        '8'
    } else {
        '9'
    }
}

/// The decimal digits of `n`, as `format!("{n}")` writes them.
pub open spec fn decimal_digits(n: nat) -> Seq<char>
    decreases n,
{
    if n < 10 {
        seq![digit_char(n)]
    } else {
        decimal_digits(n / 10) + seq![digit_char(n % 10)]
    }
}

/// The decimal digits of `n`, with zeros before them up to `width`
/// characters, as `format!("{n:0width$}")` writes them.
pub open spec fn zero_padded(n: nat, width: nat) -> Seq<char> {
    let digits = decimal_digits(n);
    if digits.len() >= width {
        digits
    } else {
        repeat_char('0', (width - digits.len()) as nat) + digits
    }
}

/// `n` copies of `c`.
pub open spec fn repeat_char(c: char, n: nat) -> Seq<char> {
    Seq::new(n, |_i: int| c)
}

/// `s` followed by spaces up to `width` characters, as `format!("{s:<width$}")`
/// pads: a longer `s` is kept whole.
pub open spec fn pad_right(s: Seq<char>, width: nat) -> Seq<char> {
    if s.len() >= width {
        s
    } else {
        s + repeat_char(' ', (width - s.len()) as nat)
    }
}

proof fn lemma_split_never_empty(s: Seq<char>)
    ensures
        split_newlines(s).len() >= 1,
    decreases s.len(),
{
    if s.len() > 0 {
        lemma_split_never_empty(s.drop_last());
    }
}

/// Appending newline-free text extends the last segment.
proof fn lemma_split_append_plain(a: Seq<char>, y: Seq<char>)
    requires
        no_newline(y),
    ensures
        split_newlines(a).len() >= 1,
        split_newlines(a + y) == split_newlines(a).update(
            split_newlines(a).len() - 1,
            split_newlines(a).last() + y,
        ),
    decreases y.len(),
{
    lemma_split_never_empty(a);
    if y.len() == 0 {
        assert(a + y =~= a);
        assert(split_newlines(a).last() + y =~= split_newlines(a).last());
        assert(split_newlines(a).update(split_newlines(a).len() - 1, split_newlines(a).last())
            =~= split_newlines(a));
    } else {
        let y0 = y.drop_last();
        assert(!y0.contains('\n')) by {
            assert forall|i: int| 0 <= i < y0.len() implies y0[i] != '\n' by {
                assert(y0[i] == y[i]);
            }
        }
        lemma_split_append_plain(a, y0);
        assert((a + y).drop_last() =~= a + y0);
        assert((a + y).last() == y.last());
        assert(y.last() != '\n') by {
            assert(y[y.len() - 1] == y.last());
        }
        let pre = split_newlines(a);
        assert(pre.last() + y0 + seq![y.last()] =~= pre.last() + y);
        assert((pre.last() + y0).push(y.last()) =~= pre.last() + y);
        assert(split_newlines(a + y) =~= pre.update(pre.len() - 1, pre.last() + y));
    }
}

/// Splitting joined newline-free rows gives the rows back.
pub proof fn lemma_split_join(rows: Seq<Seq<char>>)
    requires
        rows.len() >= 1,
        forall|i: int| 0 <= i < rows.len() ==> no_newline(#[trigger] rows[i]),
    ensures
        split_newlines(join_lines(rows)) == rows,
    decreases rows.len(),
{
    if rows.len() == 1 {
        lemma_split_append_plain(Seq::<char>::empty(), rows[0]);
        assert(Seq::<char>::empty() + rows[0] =~= rows[0]);
        assert(split_newlines(Seq::<char>::empty()) =~= seq![Seq::<char>::empty()]);
        assert(Seq::<char>::empty() + rows[0] =~= rows[0]);
        assert(split_newlines(rows[0]) =~= rows);
    } else {
        let init = rows.drop_last();
        assert forall|i: int| 0 <= i < init.len() implies no_newline(#[trigger] init[i]) by {
            assert(init[i] == rows[i]);
        }
        lemma_split_join(init);
        let a = join_lines(init) + seq!['\n'];
        assert(a.drop_last() =~= join_lines(init));
        assert(split_newlines(a) =~= init.push(Seq::<char>::empty()));
        assert(no_newline(rows.last())) by {
            assert(rows[rows.len() - 1] == rows.last());
        }
        lemma_split_append_plain(a, rows.last());
        assert(Seq::<char>::empty() + rows.last() =~= rows.last());
        assert(split_newlines(join_lines(rows)) =~= rows);
    }
}

/// The lines of joined rows: every row comes back, a row followed by another
/// one losing a final carriage return; a final empty row is not a line.
pub proof fn lemma_lines_of_join(rows: Seq<Seq<char>>)
    requires
        rows.len() >= 1,
        forall|i: int| 0 <= i < rows.len() ==> no_newline(#[trigger] rows[i]),
    ensures
        lines_of(join_lines(rows)).len() == if rows.last().len() == 0 {
            rows.len() - 1
        } else {
            rows.len() as int
        },
        forall|i: int|
            0 <= i < rows.len() - 1 ==> #[trigger] lines_of(join_lines(rows))[i] == strip_cr(
                rows[i],
            ),
        rows.last().len() > 0 ==> lines_of(join_lines(rows)).last() == rows.last(),
{
    lemma_split_join(rows);
}


proof fn lemma_split_segments_plain(s: Seq<char>)
    ensures
        forall|i: int|
            0 <= i < split_newlines(s).len() ==> no_newline(#[trigger] split_newlines(s)[i]),
    decreases s.len(),
{
    lemma_split_never_empty(s);
    if s.len() > 0 {
        let pre = split_newlines(s.drop_last());
        lemma_split_segments_plain(s.drop_last());
        lemma_split_never_empty(s.drop_last());
        if s.last() != '\n' {
            let seg = pre.last().push(s.last());
            assert(no_newline(pre.last())) by {
                assert(pre[pre.len() - 1] == pre.last());
            }
            assert(no_newline(seg)) by {
                assert forall|j: int| 0 <= j < seg.len() implies seg[j] != '\n' by {
                    if j < pre.last().len() {
                        assert(seg[j] == pre.last()[j]);
                    }
                }
            }
        }
    }
}

/// No line of any text holds a newline.
pub proof fn lemma_lines_plain(s: Seq<char>)
    ensures
        forall|i: int| 0 <= i < lines_of(s).len() ==> no_newline(#[trigger] lines_of(s)[i]),
{
    lemma_split_never_empty(s);
    lemma_split_segments_plain(s);
    let segs = split_newlines(s);
    assert forall|i: int| 0 <= i < lines_of(s).len() implies no_newline(#[trigger] lines_of(s)[i]) by {
        assert(no_newline(segs[i]));
        if i < segs.len() - 1 {
            assert(lines_of(s)[i] == strip_cr(segs[i]));
            if segs[i].len() > 0 && segs[i].last() == '\r' {
                assert forall|j: int| 0 <= j < segs[i].drop_last().len() implies segs[i].drop_last()[j] != '\n' by {
                    assert(segs[i].drop_last()[j] == segs[i][j]);
                }
            }
        }
    }
}

/// Trimming keeps a start of the text, and every character up to the last
/// one that is not white space.
pub proof fn lemma_trim_end_prefix(s: Seq<char>)
    ensures
        trim_end(s).len() <= s.len(),
        trim_end(s) == s.take(trim_end(s).len() as int),
        forall|k: int| 0 <= k < s.len() && !is_white_space(s[k]) ==> k < trim_end(s).len(),
    decreases s.len(),
{
    if s.len() > 0 && is_white_space(s.last()) {
        let t = s.drop_last();
        lemma_trim_end_prefix(t);
        assert(t.take(trim_end(s).len() as int) =~= s.take(trim_end(s).len() as int));
        assert forall|k: int| 0 <= k < s.len() && !is_white_space(s[k]) implies k < trim_end(
            s,
        ).len() by {
            assert(k < s.len() - 1);
            assert(t[k] == s[k]);
        }
    } else {
        assert(s.take(s.len() as int) =~= s);
    }
}

/// Appends `c` to `s`.
#[verifier::external_body]
fn push_char(s: &mut String, c: char)
    ensures
        final(s)@ == old(s)@.push(c),
{
    s.push(c);
}

/// The characters of `s`, in order.
pub fn chars_of(s: &str) -> (v: Vec<char>)
    ensures
        v@ == s@,
{
    broadcast use vstd::string::group_string_axioms;

    let mut v: Vec<char> = Vec::new();
    for c in it: s.chars()
        invariant
            it.seq() == s@,
            v@.len() == it.index(),
            forall|j: int| 0 <= j < v@.len() ==> v@[j] == s@[j],
    {
        v.push(c);
    }
    assert(v@ =~= s@);
    v
}

/// The string made of the characters of `v`.
pub fn string_of(v: &Vec<char>) -> (s: String)
    ensures
        s@ == v@,
{
    let mut s = String::new();
    for i in 0..v.len()
        invariant
            s@ == v@.take(i as int),
    {
        push_char(&mut s, v[i]);
        assert(v@.take(i + 1) =~= v@.take(i as int).push(v@[i as int]));
    }
    assert(v@.take(v@.len() as int) =~= v@);
    s
}

/// Appends the characters of `tail` to `v`.
pub fn append_chars(v: &mut Vec<char>, tail: &Vec<char>)
    ensures
        final(v)@ == old(v)@ + tail@,
{
    let ghost start = v@;
    for i in 0..tail.len()
        invariant
            v@ == start + tail@.take(i as int),
    {
        v.push(tail[i]);
        assert(tail@.take(i + 1) =~= tail@.take(i as int).push(tail@[i as int]));
        assert(start + tail@.take(i + 1) =~= (start + tail@.take(i as int)).push(tail@[i as int]));
    }
    assert(tail@.take(tail@.len() as int) =~= tail@);
}

/// Appends the characters of `tail` to `v`.
pub fn append_str(v: &mut Vec<char>, tail: &str)
    ensures
        final(v)@ == old(v)@ + tail@,
{
    let t = chars_of(tail);
    append_chars(v, &t);
}

/// `n` copies of `c`.
pub fn repeat(c: char, n: usize) -> (v: Vec<char>)
    ensures
        v@ == repeat_char(c, n as nat),
{
    let mut v: Vec<char> = Vec::new();
    for i in 0..n
        invariant
            v@ == repeat_char(c, i as nat),
    {
        v.push(c);
        assert(repeat_char(c, (i + 1) as nat) =~= repeat_char(c, i as nat).push(c));
    }
    v
}

/// The lines of `s`, as `str::lines` splits them.
pub fn split_lines(s: &Vec<char>) -> (lines: Vec<Vec<char>>)
    ensures
        rows_view(lines@) == lines_of(s@),
{
    let mut done: Vec<Vec<char>> = Vec::new();
    let mut cur: Vec<char> = Vec::new();
    for i in 0..s.len()
        invariant
            split_newlines(s@.take(i as int)).len() == done.len() + 1,
            forall|j: int|
                0 <= j < done.len() ==> #[trigger] rows_view(done@)[j] == strip_cr(
                    split_newlines(s@.take(i as int))[j],
                ),
            cur@ == split_newlines(s@.take(i as int)).last(),
    {
        let ghost pre = split_newlines(s@.take(i as int));
        assert(s@.take(i + 1).drop_last() =~= s@.take(i as int));
        assert(s@.take(i + 1).last() == s@[i as int]);
        let c = s[i];
        if c == '\n' {
            let n = cur.len();
            if n > 0 && cur[n - 1] == '\r' {
                cur.pop();
            }
            assert(cur@ == strip_cr(pre.last()));
            let finished = cur;
            cur = Vec::new();
            let ghost old_done = rows_view(done@);
            done.push(finished);
            assert(rows_view(done@) =~= old_done.push(finished@));
            assert(split_newlines(s@.take(i + 1)) =~= pre.push(Seq::<char>::empty()));
            assert forall|j: int| 0 <= j < done.len() implies #[trigger] rows_view(done@)[j]
                == strip_cr(split_newlines(s@.take(i + 1))[j]) by {
                if j < old_done.len() {
                    assert(rows_view(done@)[j] == old_done[j]);
                }
            }
        } else {
            cur.push(c);
            assert(split_newlines(s@.take(i + 1)) =~= pre.update(pre.len() - 1, pre.last().push(c)));
            assert forall|j: int| 0 <= j < done.len() implies #[trigger] rows_view(done@)[j]
                == strip_cr(split_newlines(s@.take(i + 1))[j]) by {
                assert(split_newlines(s@.take(i + 1))[j] == pre[j]);
            }
        }
    }
    assert(s@.take(s@.len() as int) =~= s@);
    let ghost segs = split_newlines(s@);
    let ghost body = Seq::new((segs.len() - 1) as nat, |i: int| strip_cr(segs[i]));
    assert(rows_view(done@) =~= body);
    if cur.len() > 0 {
        done.push(cur);
        assert(rows_view(done@) =~= body.push(segs[segs.len() - 1]));
    }
    done
}

/// The rows joined with newlines between them.
pub fn join_rows(rows: &Vec<Vec<char>>) -> (joined: Vec<char>)
    ensures
        joined@ == join_lines(rows_view(rows@)),
{
    let mut joined: Vec<char> = Vec::new();
    if rows.len() == 0 {
        return joined;
    }
    append_chars(&mut joined, &rows[0]);
    assert(rows_view(rows@).take(1) =~= seq![rows_view(rows@)[0]]);
    for i in 1..rows.len()
        invariant
            joined@ == join_lines(rows_view(rows@).take(i as int)),
    {
        joined.push('\n');
        append_chars(&mut joined, &rows[i]);
        let ghost t = rows_view(rows@).take(i + 1);
        assert(t.drop_last() =~= rows_view(rows@).take(i as int));
        assert(t.last() == rows_view(rows@)[i as int]);
    }
    assert(rows_view(rows@).take(rows.len() as int) =~= rows_view(rows@));
    joined
}


/// Whether `c` is white space, as `char::is_whitespace` decides.
pub fn white_space(c: char) -> (b: bool)
    ensures
        b == is_white_space(c),
{
    ('\u{9}' <= c && c <= '\u{d}') || c == ' ' || c == '\u{85}' || c == '\u{a0}' || c
        == '\u{1680}' || ('\u{2000}' <= c && c <= '\u{200a}') || c == '\u{2028}' || c
        == '\u{2029}' || c == '\u{202f}' || c == '\u{205f}' || c == '\u{3000}'
}

/// `s` without its trailing white space.
pub fn trimmed_end(s: &Vec<char>) -> (t: Vec<char>)
    ensures
        t@ == trim_end(s@),
        t@.len() <= s@.len(),
{
    let mut k = s.len();
    assert(s@.take(k as int) =~= s@);
    while k > 0 && white_space(s[k - 1])
        invariant
            k <= s.len(),
            trim_end(s@) == trim_end(s@.take(k as int)),
        decreases k,
    {
        assert(s@.take(k as int).drop_last() =~= s@.take(k - 1));
        k = k - 1;
    }
    let mut t: Vec<char> = Vec::new();
    for i in 0..k
        invariant
            k <= s.len(),
            t@ == s@.take(i as int),
    {
        t.push(s[i]);
        assert(s@.take(i + 1) =~= s@.take(i as int).push(s@[i as int]));
    }
    assert(trim_end(s@.take(k as int)) == s@.take(k as int));
    t
}

/// `s` followed by spaces up to `width` characters.
pub fn padded(s: &Vec<char>, width: usize) -> (p: Vec<char>)
    ensures
        p@ == pad_right(s@, width as nat),
{
    let mut p: Vec<char> = Vec::new();
    append_chars(&mut p, s);
    if s.len() < width {
        let fill = repeat(' ', width - s.len());
        append_chars(&mut p, &fill);
    }
    p
}


/// `s` without its trailing newlines.
pub fn trimmed_newlines(s: &Vec<char>) -> (t: Vec<char>)
    ensures
        t@ == trim_newlines(s@),
{
    let mut k = s.len();
    assert(s@.take(k as int) =~= s@);
    while k > 0 && s[k - 1] == '\n'
        invariant
            k <= s.len(),
            trim_newlines(s@) == trim_newlines(s@.take(k as int)),
        decreases k,
    {
        assert(s@.take(k as int).drop_last() =~= s@.take(k - 1));
        k = k - 1;
    }
    let mut t: Vec<char> = Vec::new();
    for i in 0..k
        invariant
            k <= s.len(),
            t@ == s@.take(i as int),
    {
        t.push(s[i]);
        assert(s@.take(i + 1) =~= s@.take(i as int).push(s@[i as int]));
    }
    assert(trim_newlines(s@.take(k as int)) == s@.take(k as int));
    t
}


fn digit(d: u128) -> (c: char)
    requires
        d < 10,
    ensures
        c == digit_char(d as nat),
{
    if d == 0 {
        '0'
    } else if d == 1 {
        '1'
    } else if d == 2 {
        '2'
    } else if d == 3 {
        '3'
    } else if d == 4 {
        '4'
    } else if d == 5 {
        '5'
    } else if d == 6 {
        '6'
    } else if d == 7 {
        '7'
    } else if d == 8 {
        '8'
    } else {
        '9'
    }
}

/// The decimal digits of `n`.
pub fn decimal(n: u128) -> (digits: Vec<char>)
    ensures
        digits@ == decimal_digits(n as nat),
    decreases n,
{
    if n < 10 {
        let mut digits = Vec::new();
        digits.push(digit(n));
        assert(digits@ =~= seq![digit_char(n as nat)]);
        digits
    } else {
        let mut digits = decimal(n / 10);
        digits.push(digit(n % 10));
        digits
    }
}

/// The decimal digits of `n`, zero-padded to `width` characters.
pub fn zero_pad(n: u128, width: usize) -> (text: Vec<char>)
    ensures
        text@ == zero_padded(n as nat, width as nat),
{
    let digits = decimal(n);
    if digits.len() >= width {
        digits
    } else {
        let mut text = repeat('0', width - digits.len());
        append_chars(&mut text, &digits);
        text
    }
}


/// The strings of the rows.
pub fn strings_of(rows: &Vec<Vec<char>>) -> (strings: Vec<String>)
    ensures
        strings_view(strings@) == rows_view(rows@),
{
    let mut strings: Vec<String> = Vec::new();
    for i in 0..rows.len()
        invariant
            strings_view(strings@) == rows_view(rows@).take(i as int),
    {
        let s = string_of(&rows[i]);
        let ghost before = strings_view(strings@);
        assert(before.len() == strings@.len());
        strings.push(s);
        assert(strings_view(strings@) =~= rows_view(rows@).take(i + 1));
    }
    assert(rows_view(rows@).take(rows@.len() as int) =~= rows_view(rows@));
    strings
}

/// Appends a row.
pub fn push_row(rows: &mut Vec<Vec<char>>, row: Vec<char>)
    ensures
        rows_view(final(rows)@) == rows_view(old(rows)@).push(row@),
{
    let ghost before = rows_view(rows@);
    assert(before.len() == rows@.len());
    rows.push(row);
    assert(rows_view(rows@) =~= before.push(row@));
}

/// Appends rows.
pub fn push_rows(rows: &mut Vec<Vec<char>>, more: Vec<Vec<char>>)
    ensures
        rows_view(final(rows)@) == rows_view(old(rows)@) + rows_view(more@),
{
    let ghost start = rows_view(rows@);
    let ghost all = rows_view(more@);
    let total = more.len();
    assert(all.len() == total);
    let mut rest = more;
    let mut k: usize = 0;
    while rest.len() > 0
        invariant
            k <= all.len(),
            all.len() == total,
            rows_view(rows@) == start + all.take(k as int),
            rows_view(rest@) == all.skip(k as int),
        decreases rest.len(),
    {
        let ghost r = rows_view(rest@);
        let ghost old_rest = rest@;
        assert(r.len() == rest@.len());
        assert(k < all.len());
        let row = rest.remove(0);
        assert(r[0] == old_rest[0]@);
        assert(row@ == all[k as int]);
        assert(rows_view(rest@).len() == all.skip(k + 1).len());
        assert forall|j: int| 0 <= j < rows_view(rest@).len() implies #[trigger] rows_view(rest@)[j]
            == all.skip(k + 1)[j] by {
            assert(rest@[j] == old_rest[j + 1]);
            assert(r[j + 1] == old_rest[j + 1]@);
        }
        assert(rows_view(rest@) =~= all.skip(k + 1));
        push_row(rows, row);
        assert(all.take(k + 1) =~= all.take(k as int).push(all[k as int]));
        assert(start + all.take(k + 1) =~= (start + all.take(k as int)).push(row@));
        k = k + 1;
    }
    assert(all.skip(k as int).len() == 0);
    assert(all.take(k as int) =~= all);
}

} // verus!
