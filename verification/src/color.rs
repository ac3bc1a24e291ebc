//! Terminal colors: the ANSI form that `colored` gives a painted word, and
//! lines made of plain and painted pieces.

use colored::Colorize;
// A name that only contracts and proofs use.
#[allow(unused_imports)]
use crate::text::has_substring;
use vstd::prelude::*;

verus! {

/// The foreground colors that the summaries use.
#[derive(Clone, Copy, Debug, PartialEq, Eq)]
pub enum Color {
    Black,
    Red,
    Green,
    Yellow,
    Blue,
    Purple,
    Cyan,
}

/// The SGR parameter of a foreground color.
pub open spec fn fg_code(c: Color) -> Seq<char> {
    match c {
        Color::Black => seq!['3', '0'],
        Color::Red => seq!['3', '1'],
        Color::Green => seq!['3', '2'],
        Color::Yellow => seq!['3', '3'],
        Color::Blue => seq!['3', '4'],
        Color::Purple => seq!['3', '5'],
        Color::Cyan => seq!['3', '6'],
    }
}

/// The escape sequence that selects color `c`.
pub open spec fn style_code(c: Color) -> Seq<char> {
    seq!['\x1b', '['] + fg_code(c) + seq!['m']
}

/// `text` wrapped in the escape sequence that selects color `c` and the one that resets it.
pub open spec fn ansi(c: Color, text: Seq<char>) -> Seq<char> {
    style_code(c) + text + reset_code()
}

/// `text` with `style` written after every reset sequence in it (scanning from
/// the left; two reset sequences never overlap), so that a color painted around
/// `text` resumes after a reset inside it.
pub open spec fn restyle(text: Seq<char>, style: Seq<char>) -> Seq<char>
    decreases text.len(),
{
    if text.len() == 0 {
        Seq::empty()
    } else if reset_code().is_prefix_of(text) {
        reset_code() + style + restyle(text.skip(4), style)
    } else {
        seq![text[0]] + restyle(text.skip(1), style)
    }
}

/// `text` holds a reset sequence.
pub open spec fn has_reset(text: Seq<char>) -> bool {
    has_substring(text, reset_code())
}

/// What `colored` shows for `text` painted in `c`: the bare text (coloring off),
/// or the text, with the style resumed after each reset sequence in it, between
/// the style sequence and the reset sequence (coloring on). `colored` reads its
/// global switch again for the leading style and for the resumed styles, so
/// another thread turning the switch off during the call can drop either.
pub open spec fn colored_output(c: Color, text: Seq<char>, res: Seq<char>) -> bool {
    let style = style_code(c);
    let body = restyle(text, style);
    ||| res == text
    ||| res == style + body + reset_code()
    ||| res == style + text + reset_code()
    ||| res == body + reset_code()
    ||| res == text + reset_code()
}

/// `text` holds no escape character.
pub open spec fn no_escape(text: Seq<char>) -> bool {
    forall|i: int| 0 <= i < text.len() ==> text[i] != '\x1b'
}

/// A run of text of a summary line, painted in a color or left plain.
pub struct Piece {
    pub text: Seq<char>,
    pub color: Option<Color>,
}

/// A plain piece.
pub open spec fn plain(text: Seq<char>) -> Piece {
    Piece { text, color: None }
}

/// A piece painted in `c`.
pub open spec fn painted(text: Seq<char>, c: Color) -> Piece {
    Piece { text, color: Some(c) }
}

/// How `colored` showed a painted word: bare (coloring off), wrapped in its
/// color's escape sequences (coloring on), or followed by the reset sequence
/// alone (coloring switched off by another thread during the call).
#[derive(Clone, Copy, Debug, PartialEq, Eq)]
pub enum Tint {
    Off,
    On,
    Torn,
}

/// The escape sequence that resets colors.
pub open spec fn reset_code() -> Seq<char> {
    seq!['\x1b', '[', '0', 'm']
}

/// How a piece shows under a tint: a plain piece always as its text.
pub open spec fn shown(p: Piece, on: Tint) -> Seq<char> {
    match p.color {
        Some(c) => match on {
            Tint::Off => p.text,
            Tint::On => ansi(c, p.text),
            Tint::Torn => p.text + reset_code(),
        },
        None => p.text,
    }
}

/// The text of a line of pieces, where `ons[i]` is how piece `i` was shown.
pub open spec fn render(ps: Seq<Piece>, ons: Seq<Tint>) -> Seq<char>
    decreases ps.len(),
{
    if ps.len() == 0 {
        Seq::empty()
    } else {
        render(ps.drop_last(), ons) + shown(ps.last(), ons[ps.len() - 1])
    }
}

/// The text of a line of pieces with no color at all.
pub open spec fn plain_text(ps: Seq<Piece>) -> Seq<char>
    decreases ps.len(),
{
    if ps.len() == 0 {
        Seq::empty()
    } else {
        plain_text(ps.drop_last()) + ps.last().text
    }
}

/// A line shows as `render(ps, ons)` for these tints.
pub open spec fn is_rendering(s: Seq<char>, ps: Seq<Piece>, ons: Seq<Tint>) -> bool {
    ons.len() == ps.len() && s == render(ps, ons)
}

/// `s` shows the pieces `ps`, each painted piece under some tint.
pub open spec fn renders(s: Seq<char>, ps: Seq<Piece>) -> bool {
    exists|ons: Seq<Tint>| is_rendering(s, ps, ons)
}

/// `colored`'s `black`, shown through `Display`: the bare text, or the text
/// (with black resumed after each reset sequence inside it) between black's
/// style sequence and the reset sequence, as `colored_output` lists. `colored`
/// reads its global switch in `fmt`, in `escape_inner_reset_sequences` and in
/// each `compute_style`, so a switch flipped by another thread during the call
/// gives one of the mixed forms listed there. The other colors below are alike.
#[verifier::external_body]
fn colored_black(text: &str) -> (res: String)
    ensures
        colored_output(Color::Black, text@, res@),
{
    text.black().to_string()
}

/// `colored`'s `red`, shown through `Display`, as `colored_output` lists.
#[verifier::external_body]
fn colored_red(text: &str) -> (res: String)
    ensures
        colored_output(Color::Red, text@, res@),
{
    text.red().to_string()
}

/// `colored`'s `green`, shown through `Display`, as `colored_output` lists.
#[verifier::external_body]
fn colored_green(text: &str) -> (res: String)
    ensures
        colored_output(Color::Green, text@, res@),
{
    text.green().to_string()
}

/// `colored`'s `yellow`, shown through `Display`, as `colored_output` lists.
#[verifier::external_body]
fn colored_yellow(text: &str) -> (res: String)
    ensures
        colored_output(Color::Yellow, text@, res@),
{
    text.yellow().to_string()
}

/// `colored`'s `blue`, shown through `Display`, as `colored_output` lists.
#[verifier::external_body]
fn colored_blue(text: &str) -> (res: String)
    ensures
        colored_output(Color::Blue, text@, res@),
{
    text.blue().to_string()
}

/// `colored`'s `purple` (magenta), shown through `Display`, as `colored_output` lists.
#[verifier::external_body]
fn colored_purple(text: &str) -> (res: String)
    ensures
        colored_output(Color::Purple, text@, res@),
{
    text.purple().to_string()
}

/// `colored`'s `cyan`, shown through `Display`, as `colored_output` lists.
#[verifier::external_body]
fn colored_cyan(text: &str) -> (res: String)
    ensures
        colored_output(Color::Cyan, text@, res@),
{
    text.cyan().to_string()
}

/// `text` painted in `c` by `colored`, under whatever tint its switch gave.
pub fn paint(text: &str, c: Color) -> (res: String)
    ensures
        colored_output(c, text@, res@),
        !has_reset(text@) ==> exists|on: Tint| res@ == #[trigger] shown(painted(text@, c), on),
{
    let res = match c {
        Color::Black => colored_black(text),
        Color::Red => colored_red(text),
        Color::Green => colored_green(text),
        Color::Yellow => colored_yellow(text),
        Color::Blue => colored_blue(text),
        Color::Purple => colored_purple(text),
        Color::Cyan => colored_cyan(text),
    };
    proof {
        if !has_reset(text@) {
            lemma_restyle_without_reset(text@, style_code(c));
            if res@ == text@ {
                assert(res@ == shown(painted(text@, c), Tint::Off));
            } else if res@ == ansi(c, text@) {
                assert(res@ == shown(painted(text@, c), Tint::On));
            } else {
                assert(res@ == shown(painted(text@, c), Tint::Torn));
            }
        }
    }
    res
}


/// Text without a reset sequence is left as it is by `restyle`.
pub proof fn lemma_restyle_without_reset(text: Seq<char>, style: Seq<char>)
    requires
        !has_reset(text),
    ensures
        restyle(text, style) == text,
    decreases text.len(),
{
    if text.len() > 0 {
        let r = reset_code();
        if r.is_prefix_of(text) {
            assert(text.subrange(0, 0int + r.len()) =~= r);
            assert(has_reset(text));
        }
        assert(!r.is_prefix_of(text));
        let rest = text.skip(1);
        if has_reset(rest) {
            let i = choose|i: int|
                0 <= i && i + r.len() <= rest.len() && #[trigger] rest.subrange(i, i + r.len()) == r;
            assert(text.subrange(i + 1, i + 1 + r.len()) =~= rest.subrange(i, i + r.len()));
        }
        lemma_restyle_without_reset(rest, style);
        assert(seq![text[0]] + rest =~= text);
    }
}

/// Text without escape characters holds no reset sequence.
pub proof fn lemma_no_escape_no_reset(text: Seq<char>)
    requires
        no_escape(text),
    ensures
        !has_reset(text),
{
    if has_reset(text) {
        let r = reset_code();
        let i = choose|i: int|
            0 <= i && i + r.len() <= text.len() && #[trigger] text.subrange(i, i + r.len()) == r;
        assert(text.subrange(i, i + r.len())[0] == text[i]);
    }
}

/// Removes a leading style sequence of `c` and a trailing reset sequence, when present.
pub open spec fn strip_color(s: Seq<char>, c: Color) -> Seq<char> {
    let a = if style_code(c).is_prefix_of(s) {
        s.skip(style_code(c).len() as int)
    } else {
        s
    };
    if reset_code().is_suffix_of(a) {
        a.take(a.len() - 4)
    } else {
        a
    }
}

/// Painting only adds color: stripping the style and reset sequences from a
/// painted word gives the word back, whatever the tint, for a word that holds no
/// reset sequence and does not itself start with the style sequence.
pub proof fn law_stripping_color_gives_text(text: Seq<char>, c: Color, on: Tint)
    requires
        !has_reset(text),
        !style_code(c).is_prefix_of(text),
    ensures
        strip_color(shown(painted(text, c), on), c) == text,
{
    let style = style_code(c);
    let r = reset_code();
    let s = shown(painted(text, c), on);
    if r.is_suffix_of(text) {
        let i = text.len() - r.len();
        assert(text.subrange(i, i + r.len()) =~= r);
        assert(has_reset(text));
    }
    match on {
        Tint::Off => {},
        Tint::On => {
            assert(s.skip(5) =~= text + r);
            assert((text + r).take(text.len() as int) =~= text);
            assert((text + r).subrange(text.len() as int, text.len() as int + 4) =~= r);
        },
        Tint::Torn => {
            if style.is_prefix_of(s) {
                if text.len() >= 5 {
                    assert(text.subrange(0, 5) =~= s.subrange(0, 5));
                } else {
                    let k = text.len() as int;
                    assert(s[k] == '\x1b');
                    assert(style[k] == s.subrange(0, 5)[k]);
                }
            }
            assert((text + r).take(text.len() as int) =~= text);
            assert((text + r).subrange(text.len() as int, text.len() as int + 4) =~= r);
        },
    }
}

/// Appending a piece and its coloring decision appends the way the piece shows.
pub proof fn lemma_render_push(ps: Seq<Piece>, ons: Seq<Tint>, p: Piece, on: Tint)
    requires
        ons.len() == ps.len(),
    ensures
        render(ps.push(p), ons.push(on)) == render(ps, ons) + shown(p, on),
{
    assert(ps.push(p).drop_last() =~= ps);
    lemma_render_prefix(ps, ons, ons.push(on));
}

/// How the first pieces show does not depend on the decisions for later pieces.
pub proof fn lemma_render_prefix(ps: Seq<Piece>, ons: Seq<Tint>, more: Seq<Tint>)
    requires
        ons.len() == ps.len(),
        more.len() >= ps.len(),
        ons =~= more.subrange(0, ps.len() as int),
    ensures
        render(ps, more) == render(ps, ons),
    decreases ps.len(),
{
    if ps.len() > 0 {
        let k = ps.len() - 1;
        lemma_render_prefix(ps.drop_last(), ons.drop_last(), more);
        lemma_render_prefix(ps.drop_last(), ons.drop_last(), ons);
        assert(ons.drop_last() =~= more.subrange(0, k));
        assert(ons.drop_last() =~= ons.subrange(0, k));
    }
}

/// Rendering a line made of two parts shows the first part, then the second:
/// pieces painted separately and joined read the same as the joined pieces painted.
pub proof fn lemma_render_concat(a: Seq<Piece>, oa: Seq<Tint>, b: Seq<Piece>, ob: Seq<Tint>)
    requires
        oa.len() == a.len(),
        ob.len() == b.len(),
    ensures
        render(a + b, oa + ob) == render(a, oa) + render(b, ob),
    decreases b.len(),
{
    if b.len() == 0 {
        assert(a + b =~= a);
        assert(oa + ob =~= oa);
    } else {
        let b0 = b.drop_last();
        let o0 = ob.drop_last();
        lemma_render_concat(a, oa, b0, o0);
        assert(a + b =~= (a + b0).push(b.last()));
        assert(oa + ob =~= (oa + o0).push(ob.last()));
        lemma_render_push(a + b0, oa + o0, b.last(), ob.last());
        lemma_render_push(b0, o0, b.last(), ob.last());
        assert(b0.push(b.last()) =~= b);
        assert(o0.push(ob.last()) =~= ob);
    }
}

/// Colors only decorate: with coloring off for every piece, a line shows
/// exactly its plain text.
pub proof fn law_uncolored_line_is_plain_text(ps: Seq<Piece>)
    ensures
        render(ps, Seq::new(ps.len(), |i: int| Tint::Off)) == plain_text(ps),
    decreases ps.len(),
{
    if ps.len() > 0 {
        let k = ps.len() - 1;
        let offs = Seq::new(ps.len(), |i: int| Tint::Off);
        let shorter = Seq::new(k as nat, |i: int| Tint::Off);
        law_uncolored_line_is_plain_text(ps.drop_last());
        lemma_render_prefix(ps.drop_last(), shorter, offs);
        assert(shorter =~= offs.subrange(0, k));
    }
}

/// Appending a piece appends its text to the plain text.
pub proof fn lemma_plain_push(ps: Seq<Piece>, p: Piece)
    ensures
        plain_text(ps.push(p)) == plain_text(ps) + p.text,
{
    assert(ps.push(p).drop_last() =~= ps);
}

/// The plain text of two parts joined is the plain text of the first, then of the second.
pub proof fn lemma_plain_concat(a: Seq<Piece>, b: Seq<Piece>)
    ensures
        plain_text(a + b) == plain_text(a) + plain_text(b),
    decreases b.len(),
{
    if b.len() == 0 {
        assert(a + b =~= a);
    } else {
        let b0 = b.drop_last();
        lemma_plain_concat(a, b0);
        assert(a + b =~= (a + b0).push(b.last()));
        lemma_plain_push(a + b0, b.last());
        lemma_plain_push(b0, b.last());
        assert(b0.push(b.last()) =~= b);
    }
}

/// A summary line under construction: its text, its text without color, and
/// the pieces it shows with the coloring decision in force for each of them.
pub struct Line {
    text: String,
    bare: String,
    pieces: Ghost<Seq<Piece>>,
    ons: Ghost<Seq<Tint>>,
}

impl Line {
    /// The pieces appended so far.
    pub closed spec fn pieces(&self) -> Seq<Piece> {
        self.pieces@
    }

    /// The text shows the pieces, one coloring decision per piece, and the bare
    /// text is their plain text.
    pub closed spec fn wf(&self) -> bool {
        &&& is_rendering(self.text@, self.pieces@, self.ons@)
        &&& self.bare@ == plain_text(self.pieces@)
    }

    /// An empty line.
    pub fn new() -> (l: Line)
        ensures
            l.wf(),
            l.pieces() == Seq::<Piece>::empty(),
    {
        Line {
            text: String::new(),
            bare: String::new(),
            pieces: Ghost(Seq::empty()),
            ons: Ghost(Seq::empty()),
        }
    }

    proof fn lemma_push(&self, p: Piece, on: Tint, shown_text: Seq<char>)
        requires
            self.wf(),
            shown_text == shown(p, on),
        ensures
            is_rendering(self.text@ + shown_text, self.pieces@.push(p), self.ons@.push(on)),
            plain_text(self.pieces@.push(p)) == self.bare@ + p.text,
    {
        lemma_render_push(self.pieces@, self.ons@, p, on);
        lemma_plain_push(self.pieces@, p);
    }

    /// Appends `t` as a plain piece.
    pub fn push_plain(&mut self, t: &str)
        requires
            old(self).wf(),
        ensures
            final(self).wf(),
            final(self).pieces() == old(self).pieces().push(plain(t@)),
    {
        proof {
            self.lemma_push(plain(t@), Tint::Off, t@);
        }
        self.text.append(t);
        self.bare.append(t);
        self.pieces = Ghost(self.pieces@.push(plain(t@)));
        self.ons = Ghost(self.ons@.push(Tint::Off));
    }

    /// Appends the piece of text `t` and color `c`, given as `seen`, the way it
    /// shows under some coloring decision.
    pub fn push_shown(&mut self, seen: &str, t: &str, Ghost(c): Ghost<Option<Color>>)
        requires
            old(self).wf(),
            exists|on: Tint| seen@ == #[trigger] shown(Piece { text: t@, color: c }, on),
        ensures
            final(self).wf(),
            final(self).pieces() == old(self).pieces().push(Piece { text: t@, color: c }),
    {
        let ghost p = Piece { text: t@, color: c };
        let ghost on = choose|on: Tint| seen@ == #[trigger] shown(p, on);
        proof {
            self.lemma_push(p, on, seen@);
        }
        self.text.append(seen);
        self.bare.append(t);
        self.pieces = Ghost(self.pieces@.push(p));
        self.ons = Ghost(self.ons@.push(on));
    }

    /// Appends `t` painted in `c`.
    pub fn push_painted(&mut self, t: &str, c: Color)
        requires
            old(self).wf(),
            no_escape(t@),
        ensures
            final(self).wf(),
            final(self).pieces() == old(self).pieces().push(painted(t@, c)),
    {
        proof {
            lemma_no_escape_no_reset(t@);
        }
        let colored = paint(t, c);
        self.push_shown(colored.as_str(), t, Ghost(Some(c)));
    }

    /// Appends the pieces of another line.
    pub fn append(&mut self, other: Line)
        requires
            old(self).wf(),
            other.wf(),
        ensures
            final(self).wf(),
            final(self).pieces() == old(self).pieces() + other.pieces(),
    {
        proof {
            lemma_render_concat(self.pieces@, self.ons@, other.pieces@, other.ons@);
            lemma_plain_concat(self.pieces@, other.pieces@);
        }
        self.text.append(other.text.as_str());
        self.bare.append(other.bare.as_str());
        self.pieces = Ghost(self.pieces@ + other.pieces@);
        self.ons = Ghost(self.ons@ + other.ons@);
    }

    /// The text of the line without any color.
    pub fn bare_text(&self) -> (s: &str)
        requires
            self.wf(),
        ensures
            s@ == plain_text(self.pieces()),
    {
        self.bare.as_str()
    }

    /// The finished text, which shows the pieces appended.
    pub fn into_string(self) -> (s: String)
        requires
            self.wf(),
        ensures
            renders(s@, self.pieces()),
    {
        self.text
    }
}

} // verus!
