//! Text primitives shared by the renderer and the event reducers: control
//! character filtering, bounded labels, decimal formatting and display width.

use unicode_width::UnicodeWidthStr;
use vstd::prelude::*;

verus! {

/// A character of the Unicode general category `Cc` (what `char::is_control` tests).
pub open spec fn is_control_char(c: char) -> bool {
    (c as u32) <= 0x1f || (0x7f <= (c as u32) && (c as u32) <= 0x9f)
}

pub fn is_control(c: char) -> (r: bool)
    ensures
        r == is_control_char(c),
{
    let v = c as u32;
    v <= 0x1f || (0x7f <= v && v <= 0x9f)
}

/// The characters of `s` that are not control characters, in order.
pub open spec fn without_controls(s: Seq<char>) -> Seq<char>
    decreases s.len(),
{
    if s.len() == 0 {
        s
    } else {
        let rest = without_controls(s.drop_last());
        if is_control_char(s.last()) {
            rest
        } else {
            rest.push(s.last())
        }
    }
}

/// `s` cut to at most `max` characters.
pub open spec fn at_most(s: Seq<char>, max: nat) -> Seq<char> {
    if s.len() <= max {
        s
    } else {
        s.take(max as int)
    }
}

pub open spec fn has_no_controls(s: Seq<char>) -> bool {
    forall|i: int| 0 <= i < s.len() ==> !is_control_char(#[trigger] s[i])
}

pub proof fn lemma_without_controls_clean(s: Seq<char>)
    ensures
        has_no_controls(without_controls(s)),
        without_controls(s).len() <= s.len(),
    decreases s.len(),
{
    if s.len() > 0 {
        lemma_without_controls_clean(s.drop_last());
    }
}

/// Sanitised text keeps every character that is not a control character.
pub proof fn lemma_without_controls_identity(s: Seq<char>)
    requires
        has_no_controls(s),
    ensures
        without_controls(s) == s,
    decreases s.len(),
{
    if s.len() > 0 {
        lemma_without_controls_identity(s.drop_last());
        assert(s.drop_last().push(s.last()) =~= s);
    }
}

/// Appends one character.
#[verifier::external_body]
pub(crate) fn push_char(s: &mut String, c: char)
    ensures
        final(s)@ == old(s)@.push(c),
{
    s.push(c);
}

/// Removes the last character, as `String::pop` does.
#[verifier::external_body]
pub(crate) fn pop_char(s: &mut String) -> (r: Option<char>)
    ensures
        old(s)@.len() == 0 ==> r is None && final(s)@ == old(s)@,
        old(s)@.len() > 0 ==> r == Some(old(s)@.last()) && final(s)@ == old(s)@.drop_last(),
{
    s.pop()
}

/// Removes the last character when it is `c`; returns whether it did.
pub fn pop_char_if(s: &mut String, c: char) -> (r: bool)
    ensures
        r == (old(s)@.len() > 0 && old(s)@.last() == c),
        r ==> final(s)@ == old(s)@.drop_last(),
        !r ==> final(s)@ == old(s)@,
{
    match pop_char(s) {
        Some(x) => {
            if x == c {
                true
            } else {
                push_char(s, x);
                assert(s@ =~= old(s)@);
                false
            }
        },
        None => false,
    }
}

/// The display width that `unicode_width` assigns to a string.
pub uninterp spec fn display_width(s: Seq<char>) -> nat;

/// Display width in terminal columns, by `UnicodeWidthStr::width` of the
/// `unicode-width` crate. The result is named by `display_width`; the crate's
/// source also shows that the empty string has width 0 and that a trailing
/// space (a character below U+00A1 other than a line feed, folded first with the
/// default state) adds exactly one column. Nothing else is claimed of the
/// Unicode tables.
#[verifier::external_body]
pub(crate) fn text_width(s: &str) -> (w: usize)
    ensures
        w == display_width(s@),
        s@.len() == 0 ==> w == 0,
        s@.len() > 0 && s@.last() == ' ' && display_width(s@.drop_last()) < usize::MAX
            ==> w == display_width(s@.drop_last()) + 1,
{
    UnicodeWidthStr::width(s)
}

/// The text of `value` without control characters.
pub fn sanitize(value: &str) -> (r: String)
    ensures
        r@ == without_controls(value@),
{
    let n = value.unicode_len();
    let mut out = String::new();
    let mut i: usize = 0;
    while i < n
        invariant
            n == value@.len(),
            i <= n,
            out@ == without_controls(value@.take(i as int)),
        decreases n - i,
    {
        let c = value.get_char(i);
        assert(value@.take(i as int + 1).drop_last() =~= value@.take(i as int));
        if !is_control(c) {
            push_char(&mut out, c);
        }
        i = i + 1;
    }
    assert(value@.take(n as int) =~= value@);
    out
}

proof fn lemma_at_most_push(s: Seq<char>, c: char, max: nat)
    ensures
        at_most(s, max).len() < max ==> at_most(s.push(c), max) == at_most(s, max).push(c),
        at_most(s, max).len() >= max ==> at_most(s.push(c), max) == at_most(s, max),
{
    if s.len() < max {
        assert(at_most(s, max) == s);
    } else {
        assert(s.push(c).take(max as int) =~= s.take(max as int));
    }
}

/// At most `max` characters of `value`, control characters removed first.
pub fn sanitize_label(value: &str, max: usize) -> (r: String)
    ensures
        r@ == at_most(without_controls(value@), max as nat),
{
    let n = value.unicode_len();
    let mut out = String::new();
    let mut count: usize = 0;
    let mut i: usize = 0;
    while i < n
        invariant
            n == value@.len(),
            i <= n,
            out@ == at_most(without_controls(value@.take(i as int)), max as nat),
            count == out@.len(),
        decreases n - i,
    {
        let c = value.get_char(i);
        let ghost before = value@.take(i as int);
        assert(value@.take(i as int + 1).drop_last() =~= before);
        if !is_control(c) {
            proof {
                lemma_at_most_push(without_controls(before), c, max as nat);
            }
            if count < max {
                push_char(&mut out, c);
                count = count + 1;
            }
        }
        i = i + 1;
    }
    assert(value@.take(n as int) =~= value@);
    out
}

/// The decimal digit for `d < 10`.
pub open spec fn digit_char(d: nat) -> char {
    if d == 0 { '0' } else if d == 1 { '1' } else if d == 2 { '2' } else if d == 3 { '3' }
    else if d == 4 { '4' } else if d == 5 { '5' } else if d == 6 { '6' } else if d == 7 { '7' }
    else if d == 8 { '8' } else { '9' }
}

/// The decimal notation of `n`, as `ToString` writes an unsigned integer.
pub open spec fn decimal(n: nat) -> Seq<char>
    decreases n,
{
    if n < 10 {
        seq![digit_char(n)]
    } else {
        decimal(n / 10).push(digit_char(n % 10))
    }
}

fn digit(d: u64) -> (c: char)
    requires
        d < 10,
    ensures
        c == digit_char(d as nat),
{
    if d == 0 { '0' } else if d == 1 { '1' } else if d == 2 { '2' } else if d == 3 { '3' }
    else if d == 4 { '4' } else if d == 5 { '5' } else if d == 6 { '6' } else if d == 7 { '7' }
    else if d == 8 { '8' } else { '9' }
}

/// Appends the decimal notation of `n`.
pub fn push_decimal(s: &mut String, n: u64)
    ensures
        final(s)@ == old(s)@ + decimal(n as nat),
    decreases n,
{
    if n >= 10 {
        push_decimal(s, n / 10);
    }
    push_char(s, digit(n % 10));
    assert(final(s)@ =~= old(s)@ + decimal(n as nat));
}

/// Appends a string slice.
pub fn push_str(s: &mut String, t: &str)
    ensures
        final(s)@ == old(s)@ + t@,
{
    s.append(t);
}

/// `c` repeated `n` times.
pub open spec fn repeat(c: char, n: nat) -> Seq<char>
    decreases n,
{
    if n == 0 {
        Seq::empty()
    } else {
        repeat(c, (n - 1) as nat).push(c)
    }
}

/// Appends `n` copies of `c`.
pub fn push_repeat(s: &mut String, c: char, n: usize)
    ensures
        final(s)@ == old(s)@ + repeat(c, n as nat),
{
    let mut i: usize = 0;
    while i < n
        invariant
            i <= n,
            s@ == old(s)@ + repeat(c, i as nat),
        decreases n - i,
    {
        push_char(s, c);
        i = i + 1;
        assert(s@ =~= old(s)@ + repeat(c, i as nat));
    }
}

/// A new `String` with the characters of `t`.
pub fn owned(t: &str) -> (r: String)
    ensures
        r@ == t@,
{
    String::from_str(t)
}

/// Whether two strings hold the same characters.
pub fn same_text(a: &str, b: &str) -> (r: bool)
    ensures
        r == (a@ == b@),
{
    let n = a.unicode_len();
    if n != b.unicode_len() {
        return false;
    }
    let mut i: usize = 0;
    while i < n
        invariant
            n == a@.len(),
            n == b@.len(),
            i <= n,
            forall|j: int| 0 <= j < i ==> a@[j] == b@[j],
        decreases n - i,
    {
        if a.get_char(i) != b.get_char(i) {
            return false;
        }
        i = i + 1;
    }
    assert(a@ =~= b@);
    true
}

/// The character views of a list of strings.
pub open spec fn strings_view(v: Seq<String>) -> Seq<Seq<char>> {
    v.map_values(|s: String| s@)
}

/// The character views of a list of string slices.
pub open spec fn strings_view_str(v: Seq<&str>) -> Seq<Seq<char>> {
    v.map_values(|s: &str| s@)
}

/// The parts separated by `sep`.
pub open spec fn join(parts: Seq<Seq<char>>, sep: Seq<char>) -> Seq<char>
    decreases parts.len(),
{
    if parts.len() == 0 {
        Seq::empty()
    } else if parts.len() == 1 {
        parts[0]
    } else {
        join(parts.drop_last(), sep) + sep + parts.last()
    }
}

/// Joins strings with a separator, as `[String]::join` does.
pub fn join_strings(parts: &Vec<String>, sep: &str) -> (r: String)
    ensures
        r@ == join(strings_view(parts@), sep@),
{
    let mut out = String::new();
    let ghost view = strings_view(parts@);
    let mut i: usize = 0;
    while i < parts.len()
        invariant
            i <= parts.len(),
            view == strings_view(parts@),
            out@ == join(view.take(i as int), sep@),
        decreases parts.len() - i,
    {
        assert(view.take(i as int + 1).drop_last() =~= view.take(i as int));
        if i > 0 {
            push_str(&mut out, sep);
        }
        push_str(&mut out, parts[i].as_str());
        i = i + 1;
        assert(view.take(i as int).last() == parts@[i - 1]@);
        assert(i == 1 ==> view.take(i as int) =~= seq![parts@[0]@]);
    }
    assert(view.take(i as int) =~= view);
    out
}

} // verus!
