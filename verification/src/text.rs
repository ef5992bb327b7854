//! Text normalization shared by every declaration validator.
use vstd::prelude::*;
use vstd::string::{StrSliceExecFns, StringExecFns};

verus! {

/// Unicode `White_Space` characters, the set that `char::is_whitespace`
/// documents and that `str::trim` removes from both ends.
pub open spec fn is_unicode_whitespace(c: char) -> bool {
    ||| ('\u{9}' <= c && c <= '\u{d}')
    ||| c == ' '
    ||| c == '\u{85}'
    ||| c == '\u{a0}'
    ||| c == '\u{1680}'
    ||| ('\u{2000}' <= c && c <= '\u{200a}')
    ||| c == '\u{2028}'
    ||| c == '\u{2029}'
    ||| c == '\u{202f}'
    ||| c == '\u{205f}'
    ||| c == '\u{3000}'
}

/// Drops every leading whitespace character.
pub open spec fn trim_start_spec(s: Seq<char>) -> Seq<char>
    decreases s.len(),
{
    if s.len() > 0 && is_unicode_whitespace(s[0]) {
        trim_start_spec(s.drop_first())
    } else {
        s
    }
}

/// Drops every trailing whitespace character.
pub open spec fn trim_end_spec(s: Seq<char>) -> Seq<char>
    decreases s.len(),
{
    if s.len() > 0 && is_unicode_whitespace(s.last()) {
        trim_end_spec(s.drop_last())
    } else {
        s
    }
}

/// The text with leading and trailing whitespace removed.
pub open spec fn trimmed(s: Seq<char>) -> Seq<char> {
    trim_end_spec(trim_start_spec(s))
}

/// Whether the text holds nothing but whitespace.
pub open spec fn is_blank(s: Seq<char>) -> bool {
    trimmed(s).len() == 0
}

/// Name `i` of a declared list is acceptable given the names before it:
/// it is not blank and its normalized form is not already taken.
pub open spec fn name_ok(names: Seq<Seq<char>>, i: int) -> bool {
    &&& !is_blank(names[i])
    &&& forall|j: int| 0 <= j < i ==> trimmed(#[trigger] names[j]) != trimmed(names[i])
}

/// Every name before `i` is acceptable.
pub open spec fn names_ok_before(names: Seq<Seq<char>>, i: int) -> bool {
    forall|k: int| 0 <= k < i ==> #[trigger] name_ok(names, k)
}

/// The text of borrowed strings.
pub open spec fn str_views(items: Seq<&str>) -> Seq<Seq<char>> {
    items.map_values(|item: &str| item@)
}

/// The text of owned strings.
pub open spec fn string_views(items: Seq<String>) -> Seq<Seq<char>> {
    items.map_values(|item: String| item@)
}

/// `str::trim`: the subslice without leading and trailing Unicode whitespace.
#[verifier::external_body]
fn trim_str(s: &str) -> (r: &str)
    ensures
        r@ == trimmed(s@),
{
    s.trim()
}

/// Returns an owned copy of `s` without surrounding whitespace.
pub fn trim_owned(s: &str) -> (r: String)
    ensures
        r@ == trimmed(s@),
{
    trim_str(s).to_owned()
}

/// Reports whether `s` is empty or whitespace-only.
pub fn is_blank_text(s: &str) -> (r: bool)
    ensures
        r == is_blank(s@),
{
    trim_str(s).is_empty()
}

/// `String::push`: appends one character.
#[verifier::external_body]
pub(crate) fn push_char(s: &mut String, c: char)
    ensures
        final(s)@ == old(s)@.push(c),
{
    s.push(c);
}

/// Whether two texts are equal.
pub fn same_str(a: &str, b: &str) -> (r: bool)
    ensures
        r == (a@ == b@),
{
    a.to_owned() == b.to_owned()
}

/// The first `limit` characters of `s`, followed by an ellipsis when
/// anything was cut.
pub open spec fn bounded_spec(s: Seq<char>, limit: nat) -> Seq<char> {
    if s.len() <= limit {
        s
    } else {
        s.subrange(0, limit as int) + seq!['\u{2026}']
    }
}

/// Truncates `message` to at most `limit` characters, marking a cut with an
/// ellipsis.
pub fn bounded_text(message: &str, limit: usize) -> (r: String)
    ensures
        r@ == bounded_spec(message@, limit as nat),
{
    let length = message.unicode_len();
    if length <= limit {
        message.to_owned()
    } else {
        let mut bounded = message.substring_char(0, limit).to_owned();
        let ellipsis = "\u{2026}";
        proof {
            reveal_strlit("\u{2026}");
        }
        bounded.append(ellipsis);
        bounded
    }
}

/// The ASCII digit for `d`, which is below ten.
pub open spec fn digit_char(d: nat) -> char {
    if d == 0 { '0' } else if d == 1 { '1' } else if d == 2 { '2' } else if d == 3 { '3' }
    else if d == 4 { '4' } else if d == 5 { '5' } else if d == 6 { '6' } else if d == 7 { '7' }
    else if d == 8 { '8' } else { '9' }
}

/// The decimal text of `n`, without sign or leading zeros.
pub open spec fn decimal_spec(n: nat) -> Seq<char>
    decreases n,
{
    if n < 10 {
        seq![digit_char(n)]
    } else {
        decimal_spec(n / 10).push(digit_char(n % 10))
    }
}

/// The decimal text of `n`, left-padded with zeros to at least `width`
/// characters.
pub open spec fn padded_decimal_spec(n: nat, width: nat) -> Seq<char> {
    let digits = decimal_spec(n);
    if digits.len() < width {
        Seq::new((width - digits.len()) as nat, |i: int| '0') + digits
    } else {
        digits
    }
}

/// Every character of a decimal text is an ASCII digit, and there is at
/// least one.
pub proof fn lemma_decimal_digits(n: nat)
    ensures
        decimal_spec(n).len() >= 1,
        forall|i: int| 0 <= i < decimal_spec(n).len() ==> '0' <= #[trigger] decimal_spec(n)[i] <= '9',
    decreases n,
{
    if n >= 10 {
        lemma_decimal_digits(n / 10);
    }
}

/// Decimal text is never blank.
pub proof fn lemma_decimal_not_blank(n: nat)
    ensures
        !is_blank(decimal_spec(n)),
        trimmed(decimal_spec(n)) == decimal_spec(n),
{
    lemma_decimal_digits(n);
    let d = decimal_spec(n);
    assert('0' <= d[0] <= '9');
    assert('0' <= d.last() <= '9');
    assert(trim_start_spec(d) == d);
}

/// The digit text for `d`, which is below ten.
fn digit_text(d: u64) -> (r: &'static str)
    requires
        d < 10,
    ensures
        r@ == seq![digit_char(d as nat)],
{
    proof {
        reveal_strlit("0");
        reveal_strlit("1");
        reveal_strlit("2");
        reveal_strlit("3");
        reveal_strlit("4");
        reveal_strlit("5");
        reveal_strlit("6");
        reveal_strlit("7");
        reveal_strlit("8");
        reveal_strlit("9");
    }
    if d == 0 { "0" } else if d == 1 { "1" } else if d == 2 { "2" } else if d == 3 { "3" }
    else if d == 4 { "4" } else if d == 5 { "5" } else if d == 6 { "6" } else if d == 7 { "7" }
    else if d == 8 { "8" } else { "9" }
}

/// Appends the decimal text of `n` to `out`.
pub fn append_decimal(out: &mut String, n: u64)
    ensures
        final(out)@ == old(out)@ + decimal_spec(n as nat),
    decreases n,
{
    if n >= 10 {
        append_decimal(out, n / 10);
    }
    out.append(digit_text(n % 10));
    proof {
        if n >= 10 {
            assert(old(out)@ + decimal_spec(n as nat) =~= old(out)@ + decimal_spec((n / 10) as nat) + seq![digit_char((n % 10) as nat)]);
        } else {
            assert(decimal_spec(n as nat) == seq![digit_char(n as nat)]);
        }
    }
}

/// The decimal text of `n`.
pub fn decimal_text(n: u64) -> (r: String)
    ensures
        r@ == decimal_spec(n as nat),
{
    let mut out = String::new();
    append_decimal(&mut out, n);
    assert(out@ =~= decimal_spec(n as nat));
    out
}

/// Appends the decimal text of `n`, zero-padded to at least `width`
/// characters, to `out`.
pub fn append_padded_decimal(out: &mut String, n: u64, width: usize)
    ensures
        final(out)@ == old(out)@ + padded_decimal_spec(n as nat, width as nat),
{
    let digits = decimal_text(n);
    let length = digits.as_str().unicode_len();
    let zero = "0";
    proof {
        reveal_strlit("0");
    }
    let ghost start = out@;
    let mut count: usize = 0;
    if length < width {
        while count < width - length
            invariant
                length < width,
                count <= width - length,
                out@ == start + Seq::new(count as nat, |i: int| '0'),
                zero@ == seq!['0'],
            decreases width - length - count,
        {
            out.append(zero);
            count = count + 1;
            assert(out@ =~= start + Seq::new(count as nat, |i: int| '0'));
        }
    }
    out.append(digits.as_str());
    assert(out@ =~= start + padded_decimal_spec(n as nat, width as nat));
}

} // verus!
