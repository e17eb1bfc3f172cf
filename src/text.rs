//! Text helpers: decimal numbers, right justification and truncation.
use vstd::prelude::*;
use vstd::string::*;

verus! {

/// The character of a decimal digit.
pub open spec fn digit_char(d: nat) -> char {
    if d == 0 { '0' }
    else if d == 1 { '1' }
    else if d == 2 { '2' }
    else if d == 3 { '3' }
    else if d == 4 { '4' }
    else if d == 5 { '5' }
    else if d == 6 { '6' }
    else if d == 7 { '7' }
    else if d == 8 { '8' }
    else { '9' }
}

/// The decimal representation of `n`, without sign or leading zeros.
pub open spec fn dec(n: nat) -> Seq<char>
    decreases n,
{
    if n < 10 {
        seq![digit_char(n)]
    } else {
        dec(n / 10).push(digit_char(n % 10))
    }
}

/// `n` blanks.
pub open spec fn blanks(n: nat) -> Seq<char> {
    Seq::new(n, |i: int| ' ')
}

/// `s` padded on the left with blanks to at least `w` characters.
pub open spec fn rjust_spec(s: Seq<char>, w: nat) -> Seq<char> {
    if s.len() >= w {
        s
    } else {
        blanks((w - s.len()) as nat) + s
    }
}

/// `text` cut to `width` characters keeping its end, with `mark` in front
/// of what was cut.
pub open spec fn shorten_spec(text: Seq<char>, width: nat, mark: Seq<char>) -> Seq<char> {
    if width == 0 {
        Seq::empty()
    } else if text.len() <= width {
        text
    } else if width <= mark.len() {
        mark.take(width as int)
    } else {
        mark + text.subrange(text.len() - (width - mark.len()), text.len() as int)
    }
}

/// The value in decimal, or `none` when there is no value.
pub open spec fn opt_text(v: Option<u64>, none: Seq<char>) -> Seq<char> {
    match v {
        Some(x) => dec(x as nat),
        None => none,
    }
}

fn digit_str(d: u64) -> (r: &'static str)
    requires
        d < 10,
    ensures
        r@ == seq![digit_char(d as nat)],
{
    proof {
        reveal_strlit("0");
        reveal_strlit("1");
        reveal_strlit("2");
        reveal_strlit("3");
        reveal_strlit("4");
        reveal_strlit("5");
        reveal_strlit("6");
        reveal_strlit("7");
        reveal_strlit("8");
        reveal_strlit("9");
    }
    if d == 0 { "0" }
    else if d == 1 { "1" }
    else if d == 2 { "2" }
    else if d == 3 { "3" }
    else if d == 4 { "4" }
    else if d == 5 { "5" }
    else if d == 6 { "6" }
    else if d == 7 { "7" }
    else if d == 8 { "8" }
    else { "9" }
}

/// Writes `n` in decimal.
pub fn decimal(n: u64) -> (r: String)
    ensures
        r@ == dec(n as nat),
    decreases n,
{
    if n < 10 {
        String::from_str(digit_str(n))
    } else {
        let mut s = decimal(n / 10);
        s.append(digit_str(n % 10));
        s
    }
}

/// Appends `n` blanks to `out`.
pub fn push_blanks(out: &mut String, n: usize)
    ensures
        final(out)@ == old(out)@ + blanks(n as nat),
{
    let mut i: usize = 0;
    while i < n
        invariant
            i <= n,
            out@ == old(out)@ + blanks(i as nat),
        decreases n - i,
    {
        proof { reveal_strlit(" "); }
        out.append(" ");
        i = i + 1;
        assert(out@ =~= old(out)@ + blanks(i as nat));
    }
}

/// Right-justifies `v` to `w` characters.
pub fn rjust(v: &str, w: usize) -> (r: String)
    ensures
        r@ == rjust_spec(v@, w as nat),
{
    let n = v.unicode_len();
    let mut r = String::new();
    if n < w {
        push_blanks(&mut r, w - n);
    }
    r.append(v);
    assert(r@ =~= rjust_spec(v@, w as nat));
    r
}

/// Shortens `text` to `width` characters, keeping its rightmost characters
/// behind `placeholder`.
pub fn shorten_left(text: &str, width: usize, placeholder: &str) -> (r: String)
    ensures
        r@ == shorten_spec(text@, width as nat, placeholder@),
{
    if width == 0 {
        return String::new();
    }
    let n = text.unicode_len();
    if n <= width {
        return String::from_str(text);
    }
    let m = placeholder.unicode_len();
    if width <= m {
        let r = String::from_str(placeholder.substring_char(0, width));
        assert(r@ =~= placeholder@.take(width as int));
        return r;
    }
    let mut r = String::from_str(placeholder);
    r.append(text.substring_char(n - (width - m), n));
    r
}

/// Truncation law: a text longer than the width comes out exactly as wide,
/// any other text comes out unchanged, and a width of zero gives nothing.
pub proof fn lemma_shorten_width(text: Seq<char>, width: nat, mark: Seq<char>)
    ensures
        text.len() > width ==> shorten_spec(text, width, mark).len() == width,
        width > 0 && text.len() <= width ==> shorten_spec(text, width, mark) == text,
        width == 0 ==> shorten_spec(text, width, mark) == Seq::<char>::empty(),
{
}

/// The value in decimal, or `none`.
pub fn opt_repr(v: Option<u64>, none: &str) -> (r: String)
    ensures
        r@ == opt_text(v, none@),
{
    match v {
        Some(x) => decimal(x),
        None => String::from_str(none),
    }
}

/// `s` padded on the left with zeros to at least `w` characters.
pub open spec fn zero_pad_spec(s: Seq<char>, w: nat) -> Seq<char> {
    if s.len() >= w {
        s
    } else {
        Seq::new((w - s.len()) as nat, |i: int| '0') + s
    }
}

/// Writes `n` in decimal with at least `w` digits.
pub fn zero_padded(n: u64, w: usize) -> (r: String)
    ensures
        r@ == zero_pad_spec(dec(n as nat), w as nat),
{
    let digits = decimal(n);
    let len = digits.as_str().unicode_len();
    let mut r = String::new();
    if len < w {
        let mut i: usize = 0;
        while i < w - len
            invariant
                len < w,
                i <= w - len,
                r@ == Seq::new(i as nat, |k: int| '0'),
            decreases w - len - i,
        {
            proof { reveal_strlit("0"); }
            r.append("0");
            i = i + 1;
            assert(r@ =~= Seq::new(i as nat, |k: int| '0'));
        }
    }
    r.append(digits.as_str());
    assert(r@ =~= zero_pad_spec(dec(n as nat), w as nat));
    r
}

} // verus!
