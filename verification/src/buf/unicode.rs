//! The display width of characters and strings.
//!
//! A character takes a whole number of terminal cells. A tab takes the
//! buffer's tab stop, wherever it stands: it is not aligned to the next
//! multiple of the tab stop, as a terminal would. A line feed and a carriage
//! return take none. Any other ASCII control character is shown in caret
//! notation and takes the two cells of that glyph. Every other character takes
//! what the Unicode tables give it in an East Asian context, and one cell
//! where the tables have no width for it.
//!
//! Widths are added up without overflow: a sum that does not fit the machine
//! word stays at the largest value.

use crate::buf::opt::BufferLocalOptions;
use vstd::prelude::*;

verus! {

/// The cells that the Unicode width tables give a character in an East Asian
/// context, and nothing for a control character.
pub uninterp spec fn cjk_width(c: char) -> Option<usize>;

/// Calls `unicode_width::UnicodeWidthChar::width_cjk`. Its result is
/// `cjk_width`; the crate gives a printable ASCII character one cell, and no
/// width to the control characters below U+0020 and from U+007F to U+009F,
/// and to them only.
#[verifier::external_body]
fn unicode_width_cjk(c: char) -> (columns: Option<usize>)
    ensures
        columns == cjk_width(c),
        0x20 <= (c as u32) && (c as u32) < 0x7f ==> columns == Some(1usize),
        columns is None <==> (c as u32) < 0x20 || (0x7f <= (c as u32) && (c as u32) < 0xa0),
{
    unicode_width::UnicodeWidthChar::width_cjk(c)
}

/// Calls `ascii::AsciiChar::from_ascii` and `ascii::AsciiChar::as_byte`: the
/// code of a character below U+0080, and nothing for any other.
#[verifier::external_body]
fn ascii_code(c: char) -> (code: Option<u8>)
    ensures
        code == (if (c as u32) < 0x80 {
            Some(c as u8)
        } else {
            None::<u8>
        }),
{
    match ascii::AsciiChar::from_ascii(c) {
        Ok(ascii_char) => Some(ascii_char.as_byte()),
        Err(_) => None,
    }
}

/// Calls `String::push`.
#[verifier::external_body]
pub(crate) fn push_char(text: &mut String, c: char)
    ensures
        final(text)@ == old(text)@.push(c),
{
    text.push(c)
}

/// The ASCII control characters: those below U+0020, and U+007F.
pub open spec fn is_ascii_control(c: char) -> bool {
    (c as u32) < 0x20 || (c as u32) == 0x7f
}

/// The second character of a control character's caret notation: the
/// character 64 places up, and `?` for U+007F.
pub open spec fn caret_letter(c: char) -> char
    recommends
        is_ascii_control(c),
{
    if (c as u32) == 0x7f {
        '?'
    } else {
        ((c as u32 + 0x40) as u8) as char
    }
}

/// The caret notation of a control character: `^` and its letter.
pub open spec fn caret_glyph(c: char) -> Seq<char>
    recommends
        is_ascii_control(c),
{
    seq!['^', caret_letter(c)]
}

/// The cells a character takes, given what the Unicode tables say of it.
pub open spec fn char_width_from(tab_stop: u16, c: char, columns: Option<usize>) -> nat {
    if c == '\t' {
        tab_stop as nat
    } else if c == '\n' || c == '\r' {
        0
    } else if is_ascii_control(c) {
        caret_glyph(c).len()
    } else {
        match columns {
            Some(w) => w as nat,
            None => 1,
        }
    }
}

/// The cells a character takes in a buffer with the given tab stop.
pub open spec fn char_width_spec(tab_stop: u16, c: char) -> nat {
    char_width_from(tab_stop, c, cjk_width(c))
}

/// What is printed for a character: blanks for a tab, nothing for a line
/// feed or a carriage return, the caret notation for any other control
/// character, and the character itself otherwise.
pub open spec fn char_symbol_spec(tab_stop: u16, c: char) -> Seq<char> {
    if c == '\t' {
        Seq::new(tab_stop as nat, |i: int| ' ')
    } else if c == '\n' || c == '\r' {
        Seq::empty()
    } else if is_ascii_control(c) {
        caret_glyph(c)
    } else {
        seq![c]
    }
}

/// The width of each character of a text, in order.
pub open spec fn char_widths(tab_stop: u16, text: Seq<char>) -> Seq<nat> {
    Seq::new(text.len(), |i: int| char_width_spec(tab_stop, text[i]))
}

/// The sum of the first `n` of a sequence of widths.
pub open spec fn prefix_width(widths: Seq<nat>, n: int) -> nat
    decreases n,
{
    if n <= 0 {
        0
    } else {
        prefix_width(widths, n - 1) + widths[n - 1]
    }
}

/// The cells a text takes: the sum of the widths of its characters.
pub open spec fn str_width_spec(tab_stop: u16, text: Seq<char>) -> nat {
    prefix_width(char_widths(tab_stop, text), text.len() as int)
}

/// What is printed for the first `n` characters of a text: their symbols, one
/// after the other.
pub open spec fn prefix_symbols(tab_stop: u16, text: Seq<char>, n: int) -> Seq<char>
    decreases n,
{
    if n <= 0 {
        Seq::empty()
    } else {
        prefix_symbols(tab_stop, text, n - 1) + char_symbol_spec(tab_stop, text[n - 1])
    }
}

/// What is printed for a text.
pub open spec fn str_symbols_spec(tab_stop: u16, text: Seq<char>) -> Seq<char> {
    prefix_symbols(tab_stop, text, text.len() as int)
}

/// A number of cells as a machine word: the number itself, or the largest
/// word where it does not fit.
pub open spec fn saturate(n: nat) -> usize {
    if n > usize::MAX {
        usize::MAX
    } else {
        n as usize
    }
}

/// Adding a width to a saturated sum gives the saturated sum of both.
pub proof fn lemma_saturate_add(n: nat, w: usize)
    ensures
        saturate(n + w as nat) == (if saturate(n) + w > usize::MAX {
            usize::MAX
        } else {
            (saturate(n) + w) as usize
        }),
{
}

/// A prefix sum never shrinks when the prefix grows.
pub proof fn lemma_prefix_width_monotonic(widths: Seq<nat>, i: int, j: int)
    requires
        i <= j,
    ensures
        prefix_width(widths, i) <= prefix_width(widths, j),
    decreases j - i,
{
    if i < j {
        lemma_prefix_width_monotonic(widths, i, j - 1);
    }
}

/// The cells a character takes, given what the Unicode tables say of it.
pub fn char_width_from_columns(options: &BufferLocalOptions, c: char, columns: Option<usize>) -> (width: usize)
    ensures
        width == char_width_from(options.spec_tab_stop(), c, columns),
{
    match ascii_code(c) {
        Some(9u8) => options.tab_stop() as usize,
        Some(10u8) | Some(13u8) => 0,
        Some(code) if code < 0x20 || code == 0x7f => 2,
        _ => match columns {
            Some(w) => w,
            None => 1,
        },
    }
}

/// The display width of a character.
pub fn char_width(options: &BufferLocalOptions, c: char) -> (width: usize)
    ensures
        width == char_width_spec(options.spec_tab_stop(), c),
{
    char_width_from_columns(options, c, unicode_width_cjk(c))
}

/// The printable symbol of a character, and its display width.
pub fn char_symbol(options: &BufferLocalOptions, c: char) -> (symbol: (String, usize))
    ensures
        symbol.0@ == char_symbol_spec(options.spec_tab_stop(), c),
        symbol.1 == char_width_spec(options.spec_tab_stop(), c),
{
    let width = char_width(options, c);
    let mut text = String::new();
    match ascii_code(c) {
        Some(9u8) => {
            let n: u16 = options.tab_stop();
            let mut i: u16 = 0;
            while i < n
                invariant
                    i <= n,
                    text@ == Seq::new(i as nat, |k: int| ' '),
                decreases n - i,
            {
                push_char(&mut text, ' ');
                i = i + 1;
                assert(text@ =~= Seq::new(i as nat, |k: int| ' '));
            }
        },
        Some(10u8) | Some(13u8) => {},
        Some(code) if code < 0x20 || code == 0x7f => {
            let letter: char = if code == 0x7f {
                '?'
            } else {
                (code + 0x40) as char
            };
            push_char(&mut text, '^');
            push_char(&mut text, letter);
            assert(text@ =~= caret_glyph(c));
        },
        _ => {
            push_char(&mut text, c);
            assert(text@ =~= seq![c]);
        },
    }
    (text, width)
}

/// The display width of a string: the widths of its characters added up,
/// saturating.
pub fn str_width(options: &BufferLocalOptions, s: &str) -> (width: usize)
    ensures
        width == saturate(str_width_spec(options.spec_tab_stop(), s@)),
{
    let ghost widths = char_widths(options.spec_tab_stop(), s@);
    let mut width: usize = 0;
    for c in it: s.chars()
        invariant
            it.seq() == s@,
            widths == char_widths(options.spec_tab_stop(), s@),
            width == saturate(prefix_width(widths, it.index())),
    {
        let w = char_width(options, c);
        proof {
            lemma_saturate_add(prefix_width(widths, it.index()), w);
        }
        width = width.saturating_add(w);
    }
    width
}

/// The printable symbols of a string, and its display width. The symbols of
/// the characters follow one another; no character changes another's.
pub fn str_symbols(options: &BufferLocalOptions, s: &str) -> (symbols: (String, usize))
    ensures
        symbols.0@ == str_symbols_spec(options.spec_tab_stop(), s@),
        symbols.1 == saturate(str_width_spec(options.spec_tab_stop(), s@)),
{
    let ghost widths = char_widths(options.spec_tab_stop(), s@);
    let mut text = String::new();
    let mut width: usize = 0;
    for c in it: s.chars()
        invariant
            it.seq() == s@,
            widths == char_widths(options.spec_tab_stop(), s@),
            width == saturate(prefix_width(widths, it.index())),
            text@ == prefix_symbols(options.spec_tab_stop(), s@, it.index()),
    {
        let (symbol, w) = char_symbol(options, c);
        proof {
            lemma_saturate_add(prefix_width(widths, it.index()), w);
        }
        text.append(symbol.as_str());
        width = width.saturating_add(w);
    }
    (text, width)
}

} // verus!
