//! The formatted report: one line per device, each field padded first and
//! then, when color is on, wrapped in a style chosen by a threshold rule.
use vstd::prelude::*;
use vstd::string::*;
use crate::model::{GpuProcessInfo, GpuStat, GpuStatCollection, Timestamp};
use crate::text::{
    blanks, dec, decimal, opt_repr, opt_text, rjust, rjust_spec, shorten_left, shorten_spec, zero_pad_spec, zero_padded,
};
use colored::Colorize;

verus! {

/// The width of the name column when none is configured.
pub const DEFAULT_GPUNAME_WIDTH: usize = 16;

/// What the report shows.
#[derive(Debug, Clone, Default)]
pub struct DisplayOptions {
    pub show_cmd: bool,
    pub show_user: bool,
    pub show_pid: bool,
    pub show_fan_speed: bool,
    pub show_codec: bool,
    pub show_power: bool,
    pub show_power_limit: bool,
    pub no_processes: bool,
    pub no_header: bool,
    pub gpuname_width: Option<usize>,
    pub force_color: bool,
    pub no_color: bool,
}

/// A terminal color, or none.
#[derive(Debug, Clone, Copy, PartialEq, Eq, Structural)]
pub enum Tint {
    Plain,
    Red,
    Green,
    Yellow,
    Blue,
    Cyan,
    Magenta,
    White,
    BrightBlack,
    Dim,
}

/// How a field is styled when color is on.
#[derive(Debug, Clone, Copy, PartialEq, Eq, Structural)]
pub struct Style {
    pub tint: Tint,
    pub bold: bool,
}

/// No styling.
pub open spec fn plain() -> Style {
    Style { tint: Tint::Plain, bold: false }
}

/// A color, not bold.
pub open spec fn tinted(t: Tint) -> Style {
    Style { tint: t, bold: false }
}

/// A color, bold.
pub open spec fn strong(t: Tint) -> Style {
    Style { tint: t, bold: true }
}

/// Temperature: red below 50, bold red from 50, unstyled when unknown.
pub open spec fn temperature_style(t: Option<u32>) -> Style {
    match t {
        Some(v) => if v < 50 { tinted(Tint::Red) } else { strong(Tint::Red) },
        None => plain(),
    }
}

/// A value compared with a threshold: the tint below it, bold otherwise
/// (also when unknown).
pub open spec fn threshold_style(v: Option<u32>, limit: u32, t: Tint) -> Style {
    match v {
        Some(x) => if x < limit { tinted(t) } else { strong(t) },
        None => strong(t),
    }
}

/// Power draw: magenta while the draw is below 0.4 of a nonzero limit,
/// bold magenta otherwise.
pub open spec fn power_style(draw: Option<u32>, limit: Option<u32>) -> Style {
    match (draw, limit) {
        (Some(d), Some(l)) => if l > 0 && 10 * d < 4 * l {
            tinted(Tint::Magenta)
        } else {
            strong(Tint::Magenta)
        },
        _ => strong(Tint::Magenta),
    }
}

/// Username: green when found through the namespace mapping, gray otherwise.
pub open spec fn user_style(via_mapping: bool) -> Style {
    if via_mapping { tinted(Tint::Green) } else { tinted(Tint::BrightBlack) }
}

pub fn temperature_style_of(t: Option<u32>) -> (r: Style)
    ensures
        r == temperature_style(t),
{
    match t {
        Some(v) => if v < 50 {
            Style { tint: Tint::Red, bold: false }
        } else {
            Style { tint: Tint::Red, bold: true }
        },
        None => Style { tint: Tint::Plain, bold: false },
    }
}

pub fn threshold_style_of(v: Option<u32>, limit: u32, t: Tint) -> (r: Style)
    ensures
        r == threshold_style(v, limit, t),
{
    match v {
        Some(x) => if x < limit {
            Style { tint: t, bold: false }
        } else {
            Style { tint: t, bold: true }
        },
        None => Style { tint: t, bold: true },
    }
}

pub fn power_style_of(draw: Option<u32>, limit: Option<u32>) -> (r: Style)
    ensures
        r == power_style(draw, limit),
{
    match (draw, limit) {
        (Some(d), Some(l)) => if l > 0 && 10 * (d as u64) < 4 * (l as u64) {
            Style { tint: Tint::Magenta, bold: false }
        } else {
            Style { tint: Tint::Magenta, bold: true }
        },
        _ => Style { tint: Tint::Magenta, bold: true },
    }
}

pub fn user_style_of(via_mapping: bool) -> (r: Style)
    ensures
        r == user_style(via_mapping),
{
    if via_mapping {
        Style { tint: Tint::Green, bold: false }
    } else {
        Style { tint: Tint::BrightBlack, bold: false }
    }
}

/// The color names that the painting functions are given.
pub open spec fn known_color(name: Seq<char>) -> bool {
    name == "red"@ || name == "green"@ || name == "yellow"@ || name == "blue"@ || name == "cyan"@
        || name == "magenta"@ || name == "white"@ || name == "bright black"@
}

/// The terminal's foreground code of a color name.
pub open spec fn fg_code(name: Seq<char>) -> Seq<char> {
    if name == "red"@ { "31"@ }
    else if name == "green"@ { "32"@ }
    else if name == "yellow"@ { "33"@ }
    else if name == "blue"@ { "34"@ }
    else if name == "magenta"@ { "35"@ }
    else if name == "cyan"@ { "36"@ }
    else if name == "white"@ { "37"@ }
    else { "90"@ }
}

/// The escape sequence that selects the style with the given codes.
pub open spec fn select(codes: Seq<char>) -> Seq<char> {
    seq!['\u{1b}', '['] + codes + seq!['m']
}

/// The escape sequence that resets all styles.
pub open spec fn reset_seq() -> Seq<char> {
    seq!['\u{1b}', '[', '0', 'm']
}

/// Text without escape characters.
pub open spec fn no_escape(t: Seq<char>) -> bool {
    forall|i: int| 0 <= i < t.len() ==> t[i] != '\u{1b}'
}

/// What painting gives for a text without escape characters: the text as
/// it is when the environment turns color off, else the text between the
/// style's selection and a reset.
pub open spec fn painted(r: Seq<char>, text: Seq<char>, codes: Seq<char>) -> bool {
    r == text || r == select(codes) + text + reset_seq()
}

/// The color's name as the styling library spells it.
pub open spec fn tint_name_spec(t: Tint) -> Seq<char> {
    match t {
        Tint::Red => "red"@,
        Tint::Green => "green"@,
        Tint::Yellow => "yellow"@,
        Tint::Blue => "blue"@,
        Tint::Cyan => "cyan"@,
        Tint::Magenta => "magenta"@,
        Tint::BrightBlack => "bright black"@,
        _ => "white"@,
    }
}

/// The codes of a style: `2` when dimmed, else the color's code, behind
/// `1;` when bold.
pub open spec fn style_codes(st: Style) -> Seq<char> {
    if st.tint == Tint::Dim {
        "2"@
    } else if st.bold {
        "1;"@ + fg_code(tint_name_spec(st.tint))
    } else {
        fg_code(tint_name_spec(st.tint))
    }
}

fn tint_name(t: Tint) -> (r: &'static str)
    ensures
        known_color(r@),
        r@ == tint_name_spec(t),
{
    match t {
        Tint::Plain => "white",
        Tint::Red => "red",
        Tint::Green => "green",
        Tint::Yellow => "yellow",
        Tint::Blue => "blue",
        Tint::Cyan => "cyan",
        Tint::Magenta => "magenta",
        Tint::White => "white",
        Tint::BrightBlack => "bright black",
        Tint::Dim => "white",
    }
}

/// Relies on colored's `Colorize::color`, given one of the fixed color
/// names, which `Color::from` reads without slicing, and on the `Display`
/// of `ColoredString`: the text unchanged when the environment turns color
/// off, else the color's selection, the text and a reset (a text without
/// escape characters holds no reset to re-style).
#[verifier::external_body]
fn paint(text: &str, color: &str) -> (r: String)
    requires
        known_color(color@),
    ensures
        no_escape(text@) ==> painted(r@, text@, fg_code(color@)),
{
    text.color(color).to_string()
}

/// Relies on colored's `Colorize::color` and `Colorize::bold`, given one of
/// the fixed color names, and on the `Display` of `ColoredString`: the text
/// unchanged when color is off, else bold (`1`) and the color, the text and
/// a reset.
#[verifier::external_body]
fn paint_bold(text: &str, color: &str) -> (r: String)
    requires
        known_color(color@),
    ensures
        no_escape(text@) ==> painted(r@, text@, "1;"@ + fg_code(color@)),
{
    text.color(color).bold().to_string()
}

/// Relies on colored's `Colorize::dimmed` and the `Display` of
/// `ColoredString`: the text unchanged when color is off, else dimmed
/// (`2`), the text and a reset.
#[verifier::external_body]
fn paint_dimmed(text: &str) -> (r: String)
    ensures
        no_escape(text@) ==> painted(r@, text@, "2"@),
{
    text.dimmed().to_string()
}

/// Whether a text holds an escape character.
pub fn has_escape(text: &str) -> (r: bool)
    ensures
        r == !no_escape(text@),
{
    let n = text.unicode_len();
    let mut i: usize = 0;
    while i < n
        invariant
            i <= n,
            n == text@.len(),
            forall|k: int| 0 <= k < i ==> text@[k] != '\u{1b}',
        decreases n - i,
    {
        if text.get_char(i) == '\u{1b}' {
            return true;
        }
        i = i + 1;
    }
    false
}

/// The texts one after the other.
pub open spec fn flat(xs: Seq<Seq<char>>) -> Seq<char>
    decreases xs.len(),
{
    if xs.len() == 0 {
        Seq::empty()
    } else {
        flat(xs.drop_last()) + xs.last()
    }
}

/// A piece of output that shows `t`: `t` itself, or `t` wrapped in a style's
/// selection and a reset.
pub open spec fn piece_ok(x: Seq<char>, t: Seq<char>) -> bool {
    x == t || exists|codes: Seq<char>| x == select(codes) + t + reset_seq()
}

/// `c` shows `p`: it is `p`, cut into pieces, each possibly styled.
#[verifier::opaque]
pub open spec fn shows(c: Seq<char>, p: Seq<char>) -> bool {
    exists|xs: Seq<Seq<char>>, ts: Seq<Seq<char>>|
        {
            &&& xs.len() == ts.len()
            &&& #[trigger] flat(xs) == c
            &&& #[trigger] flat(ts) == p
            &&& forall|i: int| 0 <= i < xs.len() ==> piece_ok(#[trigger] xs[i], ts[i])
        }
}

/// Nothing shows nothing.
pub proof fn lemma_shows_empty()
    ensures
        shows(Seq::empty(), Seq::empty()),
{
    reveal(shows);
    let xs = Seq::<Seq<char>>::empty();
    assert(flat(xs) == Seq::<char>::empty());
}

/// A shown text, followed by a piece that shows `t`, shows the text followed
/// by `t`.
pub proof fn lemma_shows_extend(c: Seq<char>, p: Seq<char>, x: Seq<char>, t: Seq<char>)
    requires
        shows(c, p),
        piece_ok(x, t),
    ensures
        shows(c + x, p + t),
{
    reveal(shows);
    let (xs, ts) = choose|xs: Seq<Seq<char>>, ts: Seq<Seq<char>>|
        {
            &&& xs.len() == ts.len()
            &&& #[trigger] flat(xs) == c
            &&& #[trigger] flat(ts) == p
            &&& forall|i: int| 0 <= i < xs.len() ==> piece_ok(#[trigger] xs[i], ts[i])
        };
    let xs2 = xs.push(x);
    let ts2 = ts.push(t);
    assert(xs2.drop_last() =~= xs);
    assert(ts2.drop_last() =~= ts);
    assert(flat(xs2) == c + x);
    assert(flat(ts2) == p + t);
    assert forall|i: int| 0 <= i < xs2.len() implies piece_ok(#[trigger] xs2[i], ts2[i]) by {
        if i < xs.len() {
            assert(xs2[i] == xs[i] && ts2[i] == ts[i]);
        }
    }
}

proof fn lemma_flat_concat(xs: Seq<Seq<char>>, ys: Seq<Seq<char>>)
    ensures
        flat(xs + ys) == flat(xs) + flat(ys),
    decreases ys.len(),
{
    if ys.len() == 0 {
        assert(xs + ys =~= xs);
        assert(flat(xs) + flat(ys) =~= flat(xs));
    } else {
        lemma_flat_concat(xs, ys.drop_last());
        assert((xs + ys).drop_last() =~= xs + ys.drop_last());
        assert(flat(xs) + flat(ys.drop_last()) + ys.last() =~= flat(xs) + (flat(ys.drop_last())
            + ys.last()));
    }
}

/// Two shown texts, one after the other, show their plain texts one after
/// the other.
pub proof fn lemma_shows_concat(c: Seq<char>, p: Seq<char>, x: Seq<char>, t: Seq<char>)
    requires
        shows(c, p),
        shows(x, t),
    ensures
        shows(c + x, p + t),
{
    reveal(shows);
    let (xs, ts) = choose|xs: Seq<Seq<char>>, ts: Seq<Seq<char>>|
        {
            &&& xs.len() == ts.len()
            &&& #[trigger] flat(xs) == c
            &&& #[trigger] flat(ts) == p
            &&& forall|i: int| 0 <= i < xs.len() ==> piece_ok(#[trigger] xs[i], ts[i])
        };
    let (ys, us) = choose|ys: Seq<Seq<char>>, us: Seq<Seq<char>>|
        {
            &&& ys.len() == us.len()
            &&& #[trigger] flat(ys) == x
            &&& #[trigger] flat(us) == t
            &&& forall|i: int| 0 <= i < ys.len() ==> piece_ok(#[trigger] ys[i], us[i])
        };
    lemma_flat_concat(xs, ys);
    lemma_flat_concat(ts, us);
    let a = xs + ys;
    let b = ts + us;
    assert forall|i: int| 0 <= i < a.len() implies piece_ok(#[trigger] a[i], b[i]) by {
        if i < xs.len() {
            assert(a[i] == xs[i] && b[i] == ts[i]);
        } else {
            assert(a[i] == ys[i - xs.len()] && b[i] == us[i - xs.len()]);
        }
    }
    assert(flat(a) == c + x && flat(b) == p + t);
}

/// Appends `text` unstyled.
pub fn put(out: &mut String, text: &str)
    ensures
        final(out)@ == old(out)@ + text@,
        forall|p: Seq<char>| #[trigger] shows(old(out)@, p) ==> shows(final(out)@, p + text@),
{
    out.append(text);
    assert forall|p: Seq<char>| #[trigger] shows(old(out)@, p) implies shows(out@, p + text@) by {
        lemma_shows_extend(old(out)@, p, text@, text@);
    }
}

fn put_shown(out: &mut String, text: &str, Ghost(plain): Ghost<Seq<char>>)
    requires
        shows(old(out)@, plain),
    ensures
        final(out)@ == old(out)@ + text@,
        shows(final(out)@, plain + text@),
        final(out)@.len() >= old(out)@.len(),
        final(out)@.subrange(0, old(out)@.len() as int) == old(out)@,
{
    put(out, text);
    assert(out@.subrange(0, old(out)@.len() as int) =~= old(out)@);
}

fn emit_shown(out: &mut String, text: &str, style: Style, use_color: bool, Ghost(plain): Ghost<Seq<char>>)
    requires
        shows(old(out)@, plain),
    ensures
        !use_color ==> final(out)@ == old(out)@ + text@,
        shows(final(out)@, plain + text@),
        final(out)@ == old(out)@ + text@ || (use_color && style.tint != Tint::Plain && no_escape(
            text@,
        ) && final(out)@ == old(out)@ + select(style_codes(style)) + text@ + reset_seq()),
        final(out)@.len() >= old(out)@.len(),
        final(out)@.subrange(0, old(out)@.len() as int) == old(out)@,
{
    emit(out, text, style, use_color);
    assert(out@.subrange(0, old(out)@.len() as int) =~= old(out)@);
}

/// Appends `text` to `out`: as it is, or, when `use_color` is set, the
/// style is not plain and the text holds no escape character, possibly
/// wrapped in the style's selection and a reset.
pub fn emit(out: &mut String, text: &str, style: Style, use_color: bool)
    ensures
        !use_color ==> final(out)@ == old(out)@ + text@,
        final(out)@ == old(out)@ + text@ || (use_color && style.tint != Tint::Plain && no_escape(
            text@,
        ) && final(out)@ == old(out)@ + select(style_codes(style)) + text@ + reset_seq()),
        forall|p: Seq<char>| #[trigger] shows(old(out)@, p) ==> shows(final(out)@, p + text@),
{
    if use_color && style.tint != Tint::Plain && !has_escape(text) {
        let painted = if style.tint == Tint::Dim {
            paint_dimmed(text)
        } else if style.bold {
            paint_bold(text, tint_name(style.tint))
        } else {
            paint(text, tint_name(style.tint))
        };
        out.append(painted.as_str());
        proof {
            assert(old(out)@ + (select(style_codes(style)) + text@ + reset_seq()) =~= old(out)@
                + select(style_codes(style)) + text@ + reset_seq());
            assert(piece_ok(painted@, text@));
            assert forall|p: Seq<char>| #[trigger] shows(old(out)@, p) implies shows(
                out@,
                p + text@,
            ) by {
                lemma_shows_extend(old(out)@, p, painted@, text@);
            }
        }
    } else {
        out.append(text);
        proof {
            assert forall|p: Seq<char>| #[trigger] shows(old(out)@, p) implies shows(
                out@,
                p + text@,
            ) by {
                lemma_shows_extend(old(out)@, p, text@, text@);
            }
        }
    }
}

pub open spec fn widen(v: Option<u32>) -> Option<u64> {
    match v {
        Some(x) => Some(x as u64),
        None => None,
    }
}

fn widen_of(v: Option<u32>) -> (r: Option<u64>)
    ensures
        r == widen(v),
{
    match v {
        Some(x) => Some(x as u64),
        None => None,
    }
}

/// A metric right-justified to three characters, `"??"` when unknown.
pub open spec fn metric_text(v: Option<u32>) -> Seq<char> {
    rjust_spec(opt_text(widen(v), seq!['?', '?']), 3)
}

fn metric(v: Option<u32>) -> (r: String)
    ensures
        r@ == metric_text(v),
{
    proof { reveal_strlit("??"); }
    let s = opt_repr(widen_of(v), "??");
    rjust(s.as_str(), 3)
}

// ---- processes ----

/// Whether the username is shown: when asked for, or when the command is not.
pub open spec fn user_shown(o: DisplayOptions) -> bool {
    o.show_user || !o.show_cmd
}

/// The pid, with the host pid behind an arrow when the mapping was used.
pub open spec fn pid_text(p: GpuProcessInfo) -> Seq<char> {
    match p.real_pid {
        Some(rp) => dec(p.pid as nat) + seq!['-', '>'] + dec(rp as nat),
        None => dec(p.pid as nat),
    }
}

pub open spec fn user_text(p: GpuProcessInfo) -> Seq<char> {
    match p.username {
        Some(u) => u@,
        None => seq!['-', '-'],
    }
}

/// How the user name comes out: as it is, or, with color, wrapped in the
/// user style (green when found through the namespace mapping).
pub open spec fn user_piece(x: Seq<char>, p: GpuProcessInfo, use_color: bool) -> bool {
    x == user_text(p) || (use_color && no_escape(user_text(p)) && x == select(
        style_codes(user_style(p.username_from_ngid_mapping)),
    ) + user_text(p) + reset_seq())
}

/// One process as the report shows it: a blank, then
/// `user:command/pid(memM)` with the parts that the options ask for.
pub open spec fn process_text(p: GpuProcessInfo, o: DisplayOptions) -> Seq<char> {
    seq![' ']
        + (if user_shown(o) { user_text(p) } else { Seq::empty() })
        + (if o.show_cmd {
            (if user_shown(o) { seq![':'] } else { Seq::empty() }) + p.command@
        } else {
            Seq::empty()
        })
        + (if o.show_pid { seq!['/'] + pid_text(p) } else { Seq::empty() })
        + seq!['(']
        + opt_text(p.gpu_memory_usage, seq!['?'])
        + seq!['M', ')']
}

/// The processes one after the other.
pub open spec fn processes_text(ps: Seq<GpuProcessInfo>, o: DisplayOptions) -> Seq<char>
    decreases ps.len(),
{
    if ps.len() == 0 {
        Seq::empty()
    } else {
        processes_text(ps.drop_last(), o) + process_text(ps.last(), o)
    }
}

fn pid_string(p: &GpuProcessInfo) -> (r: String)
    ensures
        r@ == pid_text(*p),
{
    match p.real_pid {
        Some(rp) => {
            proof { reveal_strlit("->"); }
            let mut s = decimal(p.pid as u64);
            s.append("->");
            let t = decimal(rp as u64);
            s.append(t.as_str());
            s
        },
        None => decimal(p.pid as u64),
    }
}

/// Formats one process of a device's list.
#[verifier::rlimit(50)]
pub fn format_process(p: &GpuProcessInfo, opts: &DisplayOptions, use_color: bool) -> (r: String)
    ensures
        !use_color ==> r@ == process_text(*p, *opts),
        shows(r@, process_text(*p, *opts)),
        user_shown(*opts) ==> exists|x: Seq<char>|
            #[trigger] user_piece(x, *p, use_color) && 1 + x.len() <= r@.len() && r@.subrange(
                1,
                1 + x.len() as int,
            ) == x,
{
    proof {
        reveal_strlit(" ");
        reveal_strlit("--");
        reveal_strlit(":");
        reveal_strlit("/");
        reveal_strlit("(");
        reveal_strlit("?");
        reveal_strlit("M)");
        lemma_shows_empty();
    }
    let mut s = String::new();
    let ghost mut plain: Seq<char> = Seq::empty();
    put_shown(&mut s, " ", Ghost(plain));
    proof { plain = plain + " "@; }
    let show_username = opts.show_user || !opts.show_cmd;
    let ghost pre = s@;
    assert(pre.len() == 1);
    let ghost mut x: Seq<char> = Seq::empty();
    if show_username {
        let st = user_style_of(p.username_from_ngid_mapping);
        match &p.username {
            Some(u) => {
                emit_shown(&mut s, u.as_str(), st, use_color, Ghost(plain));
                proof {
                    plain = plain + u@;
                    x = s@.subrange(1, s@.len() as int);
                    if s@ == pre + u@ {
                        assert(x =~= u@);
                    } else {
                        assert(s@ == pre + select(style_codes(st)) + u@ + reset_seq());
                        assert(x =~= select(style_codes(st)) + u@ + reset_seq());
                    }
                    assert(user_piece(x, *p, use_color));
                }
            },
            None => {
                emit_shown(&mut s, "--", st, use_color, Ghost(plain));
                proof {
                    plain = plain + "--"@;
                    x = s@.subrange(1, s@.len() as int);
                    assert("--"@ =~= seq!['-', '-']);
                    if s@ == pre + "--"@ {
                        assert(x =~= "--"@);
                    } else {
                        assert(s@ == pre + select(style_codes(st)) + "--"@ + reset_seq());
                        assert(x =~= select(style_codes(st)) + "--"@ + reset_seq());
                    }
                    assert(user_piece(x, *p, use_color));
                }
            },
        }
    }
    if opts.show_cmd {
        if show_username {
            put_shown(&mut s, ":", Ghost(plain));
            proof { plain = plain + ":"@; }
        }
        emit_shown(&mut s, p.command.as_str(), Style { tint: Tint::Cyan, bold: false }, use_color, Ghost(plain));
        proof { plain = plain + p.command@; }
    }
    if opts.show_pid {
        put_shown(&mut s, "/", Ghost(plain));
        proof { plain = plain + "/"@; }
        let pid = pid_string(p);
        put_shown(&mut s, pid.as_str(), Ghost(plain));
        proof { plain = plain + pid@; }
    }
    put_shown(&mut s, "(", Ghost(plain));
    proof { plain = plain + "("@; }
    let mem = opt_repr(p.gpu_memory_usage, "?");
    emit_shown(&mut s, mem.as_str(), Style { tint: Tint::Yellow, bold: false }, use_color, Ghost(plain));
    proof { plain = plain + mem@; }
    put_shown(&mut s, "M)", Ghost(plain));
    proof {
        plain = plain + "M)"@;
        assert(shows(s@, plain));
        assert(plain =~= process_text(*p, *opts));
        if !use_color {
            assert(s@ =~= process_text(*p, *opts));
        }
    }
    s
}

// ---- device lines ----

/// The name column's width: the configured one, else the default.
pub open spec fn name_width(o: DisplayOptions) -> nat {
    match o.gpuname_width {
        Some(w) => w as nat,
        None => DEFAULT_GPUNAME_WIDTH as nat,
    }
}

/// The name shortened from the left and right-justified to the column,
/// or nothing for a column of width zero.
pub open spec fn name_part(g: GpuStat, o: DisplayOptions) -> Seq<char> {
    if name_width(o) > 0 {
        rjust_spec(shorten_spec(g.name@, name_width(o), "\u{2026}"@), name_width(o)) + " | "@
    } else {
        Seq::empty()
    }
}

pub open spec fn fan_part(g: GpuStat, o: DisplayOptions) -> Seq<char> {
    if o.show_fan_speed { metric_text(g.fan_speed) + " %, "@ } else { Seq::empty() }
}

pub open spec fn codec_part(g: GpuStat, o: DisplayOptions) -> Seq<char> {
    if o.show_codec {
        " (E: "@ + metric_text(g.utilization_enc) + " %, D: "@ + metric_text(g.utilization_dec)
            + " %)"@
    } else {
        Seq::empty()
    }
}

pub open spec fn power_part(g: GpuStat, o: DisplayOptions) -> Seq<char> {
    if o.show_power {
        ",  "@ + metric_text(g.power_draw) + " "@ + (if o.show_power_limit {
            "/ "@ + metric_text(g.power_limit) + " W"@
        } else {
            Seq::empty()
        })
    } else {
        Seq::empty()
    }
}

pub open spec fn memory_part(g: GpuStat) -> Seq<char> {
    " | "@ + rjust_spec(dec(g.memory_used as nat), 5) + " / "@ + rjust_spec(
        dec(g.memory_total as nat),
        5,
    ) + " MB"@
}

/// The process column: `" (Not Supported)"` when the device cannot list
/// processes, nothing for an empty list, else each process in turn.
pub open spec fn process_part(g: GpuStat, o: DisplayOptions) -> Seq<char> {
    if o.no_processes {
        Seq::empty()
    } else {
        " |"@ + match g.processes {
            None => " (Not Supported)"@,
            Some(ps) => processes_text(ps@, o),
        }
    }
}

/// A device's line as the report shows it without color.
pub open spec fn line_text(g: GpuStat, o: DisplayOptions) -> Seq<char> {
    "["@ + dec(g.index as nat) + "] "@ + name_part(g, o) + metric_text(g.temperature) + "\u{b0}C, "@
        + fan_part(g, o) + metric_text(g.utilization) + " %"@ + codec_part(g, o) + power_part(g, o)
        + memory_part(g) + process_part(g, o)
}

impl GpuStat {
    fn push_name(&self, s: &mut String, opts: &DisplayOptions, use_color: bool, Ghost(plain): Ghost<Seq<char>>)
        requires
            shows(old(s)@, plain),
        ensures
            !use_color ==> final(s)@ == old(s)@ + name_part(*self, *opts),
            shows(final(s)@, plain + name_part(*self, *opts)),
    {
        let w = match opts.gpuname_width {
            Some(w) => w,
            None => DEFAULT_GPUNAME_WIDTH,
        };
        if w > 0 {
            let short = shorten_left(self.name.as_str(), w, "\u{2026}");
            let padded = rjust(short.as_str(), w);
            let st = if self.available {
                Style { tint: Tint::Blue, bold: false }
            } else {
                Style { tint: Tint::Red, bold: false }
            };
            emit_shown(s, padded.as_str(), st, use_color, Ghost(plain));
            put_shown(s, " | ", Ghost(plain + padded@));
            assert(plain + padded@ + " | "@ =~= plain + name_part(*self, *opts));
        } else {
            assert(plain + name_part(*self, *opts) =~= plain);
        }
    }

    fn push_codec(&self, s: &mut String, opts: &DisplayOptions, use_color: bool, Ghost(plain): Ghost<Seq<char>>)
        requires
            shows(old(s)@, plain),
        ensures
            !use_color ==> final(s)@ == old(s)@ + codec_part(*self, *opts),
            shows(final(s)@, plain + codec_part(*self, *opts)),
    {
        if opts.show_codec {
            let enc = metric(self.utilization_enc);
            let dec = metric(self.utilization_dec);
            let ghost q0 = plain;
            put_shown(s, " (E: ", Ghost(q0));
            let ghost q1 = q0 + " (E: "@;
            emit_shown(s, enc.as_str(), threshold_style_of(self.utilization_enc, 50, Tint::Green), use_color, Ghost(q1));
            let ghost q2 = q1 + enc@;
            put_shown(s, " %, D: ", Ghost(q2));
            let ghost q3 = q2 + " %, D: "@;
            emit_shown(s, dec.as_str(), threshold_style_of(self.utilization_dec, 50, Tint::Green), use_color, Ghost(q3));
            let ghost q4 = q3 + dec@;
            put_shown(s, " %)", Ghost(q4));
            assert(q4 + " %)"@ =~= plain + codec_part(*self, *opts));
            proof {
                if !use_color {
                    assert(s@ =~= old(s)@ + codec_part(*self, *opts));
                }
            }
        } else {
            assert(plain + codec_part(*self, *opts) =~= plain);
        }
    }

    fn push_power(&self, s: &mut String, opts: &DisplayOptions, use_color: bool, Ghost(plain): Ghost<Seq<char>>)
        requires
            shows(old(s)@, plain),
        ensures
            !use_color ==> final(s)@ == old(s)@ + power_part(*self, *opts),
            shows(final(s)@, plain + power_part(*self, *opts)),
    {
        if opts.show_power {
            let draw = metric(self.power_draw);
            put_shown(s, ",  ", Ghost(plain));
            let ghost q1 = plain + ",  "@;
            emit_shown(s, draw.as_str(), power_style_of(self.power_draw, self.power_limit), use_color, Ghost(q1));
            let ghost q2 = q1 + draw@;
            put_shown(s, " ", Ghost(q2));
            let ghost q3 = q2 + " "@;
            let ghost mid = s@;
            if opts.show_power_limit {
                let limit = metric(self.power_limit);
                put_shown(s, "/ ", Ghost(q3));
                let ghost q4 = q3 + "/ "@;
                emit_shown(s, limit.as_str(), Style { tint: Tint::Magenta, bold: false }, use_color, Ghost(q4));
                let ghost q5 = q4 + limit@;
                put_shown(s, " W", Ghost(q5));
                assert(q5 + " W"@ =~= plain + power_part(*self, *opts));
            } else {
                assert(q3 =~= plain + power_part(*self, *opts));
            }
            proof {
                if !use_color {
                    assert(s@ =~= old(s)@ + power_part(*self, *opts));
                }
            }
        } else {
            assert(plain + power_part(*self, *opts) =~= plain);
        }
    }

    fn push_memory(&self, s: &mut String, use_color: bool, Ghost(plain): Ghost<Seq<char>>)
        requires
            shows(old(s)@, plain),
        ensures
            !use_color ==> final(s)@ == old(s)@ + memory_part(*self),
            shows(final(s)@, plain + memory_part(*self)),
    {
        let used_digits = decimal(self.memory_used);
        let total_digits = decimal(self.memory_total);
        let used = rjust(used_digits.as_str(), 5);
        let total = rjust(total_digits.as_str(), 5);
        put_shown(s, " | ", Ghost(plain));
        let ghost q1 = plain + " | "@;
        emit_shown(s, used.as_str(), Style { tint: Tint::Yellow, bold: true }, use_color, Ghost(q1));
        let ghost q2 = q1 + used@;
        put_shown(s, " / ", Ghost(q2));
        let ghost q3 = q2 + " / "@;
        emit_shown(s, total.as_str(), Style { tint: Tint::Yellow, bold: false }, use_color, Ghost(q3));
        let ghost q4 = q3 + total@;
        put_shown(s, " MB", Ghost(q4));
        assert(q4 + " MB"@ =~= plain + memory_part(*self));
        proof {
            if !use_color {
                assert(s@ =~= old(s)@ + memory_part(*self));
            }
        }
    }

    fn push_processes(&self, s: &mut String, opts: &DisplayOptions, use_color: bool, Ghost(plain): Ghost<Seq<char>>)
        requires
            shows(old(s)@, plain),
        ensures
            !use_color ==> final(s)@ == old(s)@ + process_part(*self, *opts),
            shows(final(s)@, plain + process_part(*self, *opts)),
    {
        if !opts.no_processes {
            put_shown(s, " |", Ghost(plain));
            let ghost q1 = plain + " |"@;
            match &self.processes {
                None => {
                    put_shown(s, " (Not Supported)", Ghost(q1));
                    assert(q1 + " (Not Supported)"@ =~= plain + process_part(*self, *opts));
                },
                Some(procs) => {
                    let ghost start = s@;
                    let mut i: usize = 0;
                    while i < procs.len()
                        invariant
                            i <= procs@.len(),
                            !use_color ==> s@ == start + processes_text(procs@.take(i as int), *opts),
                            shows(s@, q1 + processes_text(procs@.take(i as int), *opts)),
                        decreases procs@.len() - i,
                    {
                        let t = format_process(&procs[i], opts, use_color);
                        let ghost before = s@;
                        s.append(t.as_str());
                        proof {
                            assert(procs@.take(i + 1).drop_last() =~= procs@.take(i as int));
                            lemma_shows_concat(
                                before,
                                q1 + processes_text(procs@.take(i as int), *opts),
                                t@,
                                process_text(procs@[i as int], *opts),
                            );
                            assert(q1 + processes_text(procs@.take(i as int), *opts) + process_text(
                                procs@[i as int],
                                *opts,
                            ) =~= q1 + processes_text(procs@.take(i + 1), *opts));
                        }
                        i = i + 1;
                    }
                    proof {
                        assert(procs@.take(i as int) =~= procs@);
                        assert(q1 + processes_text(procs@, *opts) =~= plain + process_part(*self, *opts));
                    }
                },
            }
        } else {
            assert(plain + process_part(*self, *opts) =~= plain);
        }
    }

    /// Formats the device's line. With color, each field may be wrapped in
    /// its style, and the line shows the same text.
    #[verifier::rlimit(50)]
    pub fn format_line(&self, opts: &DisplayOptions, use_color: bool) -> (r: String)
        ensures
            !use_color ==> r@ == line_text(*self, *opts),
            shows(r@, line_text(*self, *opts)),
    {
        proof { lemma_shows_empty(); }
        let mut s = String::new();
        let idx = decimal(self.index as u64);
        let mut head = String::from_str("[");
        head.append(idx.as_str());
        head.append("] ");
        let ghost q0 = Seq::<char>::empty();
        emit_shown(&mut s, head.as_str(), Style { tint: Tint::Cyan, bold: false }, use_color, Ghost(q0));
        let ghost q1 = q0 + head@;
        self.push_name(&mut s, opts, use_color, Ghost(q1));
        let ghost q2 = q1 + name_part(*self, *opts);
        let temp = metric(self.temperature);
        emit_shown(&mut s, temp.as_str(), temperature_style_of(self.temperature), use_color, Ghost(q2));
        let ghost q3 = q2 + temp@;
        put_shown(&mut s, "\u{b0}C, ", Ghost(q3));
        let ghost q4 = q3 + "\u{b0}C, "@;
        let ghost q5;
        if opts.show_fan_speed {
            let fan = metric(self.fan_speed);
            emit_shown(&mut s, fan.as_str(), threshold_style_of(self.fan_speed, 30, Tint::Cyan), use_color, Ghost(q4));
            put_shown(&mut s, " %, ", Ghost(q4 + fan@));
            proof { q5 = q4 + fan@ + " %, "@; }
            assert(q5 =~= q4 + fan_part(*self, *opts));
        } else {
            proof { q5 = q4; }
            assert(q5 =~= q4 + fan_part(*self, *opts));
        }
        let mut util = metric(self.utilization);
        util.append(" %");
        emit_shown(&mut s, util.as_str(), threshold_style_of(self.utilization, 30, Tint::Green), use_color, Ghost(q5));
        let ghost q6 = q5 + util@;
        self.push_codec(&mut s, opts, use_color, Ghost(q6));
        let ghost q7 = q6 + codec_part(*self, *opts);
        self.push_power(&mut s, opts, use_color, Ghost(q7));
        let ghost q8 = q7 + power_part(*self, *opts);
        self.push_memory(&mut s, use_color, Ghost(q8));
        let ghost q9 = q8 + memory_part(*self);
        self.push_processes(&mut s, opts, use_color, Ghost(q9));
        proof {
            assert(q9 + process_part(*self, *opts) =~= line_text(*self, *opts));
            if !use_color {
                assert(s@ =~= line_text(*self, *opts));
            }
        }
        s
    }
}

// ---- the whole report ----

/// The line shown when there is no device.
pub open spec fn no_gpus_text() -> Seq<char> {
    "(No GPUs are available)"@
}

/// `YYYY-MM-DD HH:MM:SS`.
pub open spec fn timestamp_text(t: Timestamp) -> Seq<char> {
    zero_pad_spec(dec(t.year as nat), 4) + "-"@ + zero_pad_spec(dec(t.month as nat), 2) + "-"@
        + zero_pad_spec(dec(t.day as nat), 2) + " "@ + zero_pad_spec(dec(t.hour as nat), 2) + ":"@
        + zero_pad_spec(dec(t.minute as nat), 2) + ":"@ + zero_pad_spec(dec(t.second as nat), 2)
}

/// Host name, time and driver version (`"N/A"` when unknown).
pub open spec fn header_text(c: GpuStatCollection) -> Seq<char> {
    c.hostname@ + "  "@ + timestamp_text(c.query_time) + "  "@ + match c.driver_version {
        Some(d) => d@,
        None => "N/A"@,
    }
}

/// The length of the longest name.
pub open spec fn longest_name(gs: Seq<GpuStat>) -> nat
    decreases gs.len(),
{
    if gs.len() == 0 {
        0
    } else {
        let rest = longest_name(gs.drop_last());
        if gs.last().name@.len() > rest { gs.last().name@.len() } else { rest }
    }
}

/// The name column's width: the configured one, else the longest name but
/// at least the default.
pub open spec fn report_width(c: GpuStatCollection, o: DisplayOptions) -> nat {
    match o.gpuname_width {
        Some(w) => w as nat,
        None => if longest_name(c.gpus@) > DEFAULT_GPUNAME_WIDTH {
            longest_name(c.gpus@)
        } else {
            DEFAULT_GPUNAME_WIDTH as nat
        },
    }
}

/// The options with the name column's width fixed.
pub open spec fn with_width(o: DisplayOptions, w: nat) -> DisplayOptions {
    DisplayOptions { gpuname_width: Some(w as usize), ..o }
}

/// The report without color: the header unless suppressed, one line per
/// device in order, or a single notice when there is no device.
pub open spec fn report_lines(c: GpuStatCollection, o: DisplayOptions) -> Seq<Seq<char>> {
    let oo = with_width(o, report_width(c, o));
    (if o.no_header { Seq::empty() } else { seq![header_text(c)] }) + if c.gpus@.len() == 0 {
        seq![no_gpus_text()]
    } else {
        c.gpus@.map_values(|g: GpuStat| line_text(g, oo))
    }
}

/// Whether color is used: never with `no_color`, always with `force_color`,
/// else when the output is a terminal.
pub open spec fn color_wanted(o: DisplayOptions, is_terminal: bool) -> bool {
    if o.no_color { false } else if o.force_color { true } else { is_terminal }
}

/// Decides whether to use color.
pub fn use_color(opts: &DisplayOptions, is_terminal: bool) -> (r: bool)
    ensures
        r == color_wanted(*opts, is_terminal),
{
    if opts.no_color {
        false
    } else if opts.force_color {
        true
    } else {
        is_terminal
    }
}

/// Formats a time as `YYYY-MM-DD HH:MM:SS`.
pub fn format_timestamp(t: &Timestamp) -> (r: String)
    ensures
        r@ == timestamp_text(*t),
{
    let mut s = zero_padded(t.year as u64, 4);
    s.append("-");
    let month = zero_padded(t.month as u64, 2);
    s.append(month.as_str());
    s.append("-");
    let day = zero_padded(t.day as u64, 2);
    s.append(day.as_str());
    s.append(" ");
    let hour = zero_padded(t.hour as u64, 2);
    s.append(hour.as_str());
    s.append(":");
    let minute = zero_padded(t.minute as u64, 2);
    s.append(minute.as_str());
    s.append(":");
    let second = zero_padded(t.second as u64, 2);
    s.append(second.as_str());
    assert(s@ =~= timestamp_text(*t));
    s
}

impl GpuStatCollection {
    /// The width of the name column for this report.
    pub fn name_column_width(&self, opts: &DisplayOptions) -> (r: usize)
        ensures
            r as nat == report_width(*self, *opts),
    {
        match opts.gpuname_width {
            Some(w) => w,
            None => {
                let mut longest: usize = 0;
                let mut i: usize = 0;
                while i < self.gpus.len()
                    invariant
                        i <= self.gpus@.len(),
                        longest as nat == longest_name(self.gpus@.take(i as int)),
                    decreases self.gpus@.len() - i,
                {
                    let n = self.gpus[i].name.as_str().unicode_len();
                    proof {
                        assert(self.gpus@.take(i + 1).drop_last() =~= self.gpus@.take(i as int));
                    }
                    if n > longest {
                        longest = n;
                    }
                    i = i + 1;
                }
                proof {
                    assert(self.gpus@.take(i as int) =~= self.gpus@);
                }
                if longest > DEFAULT_GPUNAME_WIDTH {
                    longest
                } else {
                    DEFAULT_GPUNAME_WIDTH
                }
            },
        }
    }

    /// The header line.
    pub fn format_header(&self, use_color: bool) -> (r: String)
        ensures
            !use_color ==> r@ == header_text(*self),
            shows(r@, header_text(*self)),
    {
        proof { lemma_shows_empty(); }
        let mut s = String::new();
        let ghost q0 = Seq::<char>::empty();
        emit_shown(&mut s, self.hostname.as_str(), Style { tint: Tint::White, bold: true }, use_color, Ghost(q0));
        let ghost q1 = q0 + self.hostname@;
        put_shown(&mut s, "  ", Ghost(q1));
        let ghost q2 = q1 + "  "@;
        let time = format_timestamp(&self.query_time);
        put_shown(&mut s, time.as_str(), Ghost(q2));
        let ghost q3 = q2 + time@;
        put_shown(&mut s, "  ", Ghost(q3));
        let ghost q4 = q3 + "  "@;
        match &self.driver_version {
            Some(d) => {
                emit_shown(&mut s, d.as_str(), Style { tint: Tint::Dim, bold: false }, use_color, Ghost(q4));
                assert(q4 + d@ =~= header_text(*self));
            },
            None => {
                emit_shown(&mut s, "N/A", Style { tint: Tint::Dim, bold: false }, use_color, Ghost(q4));
                assert(q4 + "N/A"@ =~= header_text(*self));
            },
        }
        proof {
            if !use_color {
                assert(s@ =~= header_text(*self));
            }
        }
        s
    }

    /// The report's lines, in order.
    pub fn format_lines(&self, opts: &DisplayOptions, use_color: bool) -> (r: Vec<String>)
        ensures
            r@.len() == report_lines(*self, *opts).len(),
            !use_color ==> forall|i: int|
                0 <= i < r@.len() ==> #[trigger] r@[i]@ == report_lines(*self, *opts)[i],
            !use_color ==> renders(*self, *opts, r@.map_values(|l: String| l@)),
            forall|i: int| 0 <= i < r@.len() ==> shows(#[trigger] r@[i]@, report_lines(*self, *opts)[i]),
    {
        let width = self.name_column_width(opts);
        let wide = DisplayOptions {
            show_cmd: opts.show_cmd,
            show_user: opts.show_user,
            show_pid: opts.show_pid,
            show_fan_speed: opts.show_fan_speed,
            show_codec: opts.show_codec,
            show_power: opts.show_power,
            show_power_limit: opts.show_power_limit,
            no_processes: opts.no_processes,
            no_header: opts.no_header,
            gpuname_width: Some(width),
            force_color: opts.force_color,
            no_color: opts.no_color,
        };
        assert(wide == with_width(*opts, report_width(*self, *opts)));
        let ghost lines = report_lines(*self, *opts);
        let mut out: Vec<String> = Vec::new();
        if !opts.no_header {
            out.push(self.format_header(use_color));
        }
        let ghost base: int = out@.len() as int;
        let mut i: usize = 0;
        while i < self.gpus.len()
            invariant
                i <= self.gpus@.len(),
                base == (if opts.no_header { 0int } else { 1int }),
                out@.len() == base + i,
                lines == report_lines(*self, *opts),
                wide == with_width(*opts, report_width(*self, *opts)),
                !use_color ==> forall|k: int|
                    0 <= k < out@.len() ==> #[trigger] out@[k]@ == lines[k],
                forall|k: int| 0 <= k < out@.len() ==> shows(#[trigger] out@[k]@, lines[k]),
            decreases self.gpus@.len() - i,
        {
            let line = self.gpus[i].format_line(&wide, use_color);
            out.push(line);
            i = i + 1;
        }
        proof {
            assert(out@.map_values(|l: String| l@).len() == out@.len());
        }
        if self.gpus.len() == 0 {
            proof { lemma_shows_empty(); }
            let mut notice = String::new();
            emit_shown(&mut notice, "(No GPUs are available)", Style { tint: Tint::Yellow, bold: false }, use_color, Ghost(Seq::empty()));
            assert(Seq::<char>::empty() + no_gpus_text() =~= no_gpus_text());
            out.push(notice);
        }
        out
    }
}

/// `lines` is the report of `c` under `o`, without color.
pub open spec fn renders(c: GpuStatCollection, o: DisplayOptions, lines: Seq<Seq<char>>) -> bool {
    &&& lines.len() == report_lines(c, o).len()
    &&& forall|i: int| 0 <= i < lines.len() ==> #[trigger] lines[i] == report_lines(c, o)[i]
}

/// Rendering is deterministic: two renders of one collection under one set
/// of options are the same text, line for line.
pub proof fn lemma_render_deterministic(
    c: GpuStatCollection,
    o: DisplayOptions,
    first: Seq<Seq<char>>,
    second: Seq<Seq<char>>,
)
    requires
        renders(c, o, first),
        renders(c, o, second),
    ensures
        first == second,
{
    assert(first =~= second);
}

} // verus!
