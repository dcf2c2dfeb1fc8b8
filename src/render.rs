//! Turning layout tokens into text: plain, or with terminal colors per role.
use vstd::prelude::*;
use vstd::string::StringExecFns;
use colored::Colorize;
use crate::scan::{Frame, Role, Token, TokenView, views, format_json, format_spec};

verus! {

/// `n` spaces.
pub open spec fn spaces(n: nat) -> Seq<char> {
    Seq::new(n, |i: int| ' ')
}

pub open spec fn open_char(f: Frame) -> char {
    match f {
        Frame::Object => '{',
        Frame::Array => '[',
    }
}

pub open spec fn close_char(f: Frame) -> char {
    match f {
        Frame::Object => '}',
        Frame::Array => ']',
    }
}

/// The text of a scalar without its indentation: a key is quoted and followed
/// by `: `, a string value is quoted, a bare value stands as it is.
pub open spec fn scalar_text(role: Role, text: Seq<char>) -> Seq<char> {
    match role {
        Role::Key => seq!['"'] + text + seq!['"', ':', ' '],
        Role::Str => seq!['"'] + text + seq!['"'],
        Role::Word => text,
    }
}

/// The plain text of one token; an indentation level is two spaces.
pub open spec fn token_text(t: TokenView) -> Seq<char> {
    match t {
        TokenView::Open { indent, frame } => spaces(2 * indent) + seq![open_char(frame), '\n'],
        TokenView::Scalar { role, indent, text } => spaces(2 * indent) + scalar_text(role, text),
        TokenView::Comma => seq![',', '\n'],
        TokenView::Close { indent, frame } => seq!['\n'] + spaces(2 * indent) + seq![close_char(frame)],
    }
}

/// The plain text of a token sequence.
pub open spec fn tokens_text(ts: Seq<TokenView>) -> Seq<char>
    decreases ts.len(),
{
    if ts.len() == 0 {
        Seq::empty()
    } else {
        tokens_text(ts.drop_last()) + token_text(ts.last())
    }
}

/// The indentation for `n` levels: `2 * n` spaces.
pub fn indent(n: usize) -> (r: String)
    ensures
        r@ == spaces(2 * n as nat),
{
    let mut r = String::new();
    for i in 0..n
        invariant
            r@ == spaces(2 * i as nat),
    {
        proof {
            reveal_strlit("  ");
        }
        r.append("  ");
        assert(r@ =~= spaces(2 * (i + 1) as nat));
    }
    r
}

fn delimiter(c: char) -> (r: String)
    requires
        c == '{' || c == '[' || c == '}' || c == ']' || c == '\n' || c == ',' || c == '"',
    ensures
        r@ == seq![c],
{
    let s = if c == '{' {
        "{"
    } else if c == '[' {
        "["
    } else if c == '}' {
        "}"
    } else if c == ']' {
        "]"
    } else if c == '\n' {
        "\n"
    } else if c == ',' {
        ","
    } else {
        "\""
    };
    proof {
        reveal_strlit("{");
        reveal_strlit("[");
        reveal_strlit("}");
        reveal_strlit("]");
        reveal_strlit("\n");
        reveal_strlit(",");
        reveal_strlit("\"");
    }
    let r = s.to_owned();
    assert(r@ =~= seq![c]);
    r
}

fn open_delimiter(f: Frame) -> (r: String)
    ensures
        r@ == seq![open_char(f)],
{
    match f {
        Frame::Object => delimiter('{'),
        Frame::Array => delimiter('['),
    }
}

fn close_delimiter(f: Frame) -> (r: String)
    ensures
        r@ == seq![close_char(f)],
{
    match f {
        Frame::Object => delimiter('}'),
        Frame::Array => delimiter(']'),
    }
}

/// The text of a scalar without its indentation.
pub fn scalar_string(role: Role, text: &String) -> (r: String)
    ensures
        r@ == scalar_text(role, text@),
{
    match role {
        Role::Word => text.clone(),
        _ => {
            let mut r = delimiter('"');
            r.append(text.as_str());
            r.append(delimiter('"').as_str());
            if role == Role::Key {
                proof {
                    reveal_strlit(": ");
                }
                r.append(": ");
            }
            assert(r@ =~= scalar_text(role, text@));
            r
        },
    }
}

/// The plain text of one token.
pub fn token_string(t: &Token) -> (r: String)
    ensures
        r@ == token_text(t@),
{
    match t {
        Token::Open { indent: n, frame } => {
            let mut r = indent(*n);
            r.append(open_delimiter(*frame).as_str());
            r.append(delimiter('\n').as_str());
            assert(r@ =~= token_text(t@));
            r
        },
        Token::Scalar { role, indent: n, text } => {
            let mut r = indent(*n);
            r.append(scalar_string(*role, text).as_str());
            r
        },
        Token::Comma => {
            let mut r = delimiter(',');
            r.append(delimiter('\n').as_str());
            assert(r@ =~= token_text(t@));
            r
        },
        Token::Close { indent: n, frame } => {
            let mut r = delimiter('\n');
            r.append(indent(*n).as_str());
            r.append(close_delimiter(*frame).as_str());
            assert(r@ =~= token_text(t@));
            r
        },
    }
}

/// The plain text of a token sequence.
pub fn render_plain(tokens: &Vec<Token>) -> (r: String)
    ensures
        r@ == tokens_text(views(tokens@)),
{
    let mut r = String::new();
    for i in 0..tokens.len()
        invariant
            r@ == tokens_text(views(tokens@.take(i as int))),
    {
        let ghost done = views(tokens@.take(i as int));
        r.append(token_string(&tokens[i]).as_str());
        assert(views(tokens@.take(i + 1)).drop_last() =~= done);
    }
    assert(tokens@.take(tokens.len() as int) =~= tokens@);
    r
}

/// Pretty-prints a JSON text without colors.
pub fn pretty(s: &str) -> (r: String)
    ensures
        r@ == tokens_text(format_spec(s@)),
{
    render_plain(&format_json(s))
}

/// The terminal sequence that ends a style.
pub open spec fn reset_code() -> Seq<char> {
    seq!['\u{1b}', '[', '0', 'm']
}

/// The decimal digits of `n`.
pub open spec fn decimal(n: nat) -> Seq<char>
    decreases n,
{
    let digits = seq!['0', '1', '2', '3', '4', '5', '6', '7', '8', '9'];
    if n < 10 {
        seq![digits[n as int]]
    } else {
        decimal(n / 10).push(digits[(n % 10) as int])
    }
}

/// The 24-bit foreground style sequence for a color.
pub open spec fn true_color_style(r: u8, g: u8, b: u8) -> Seq<char> {
    seq!['\u{1b}', '[', '3', '8', ';', '2', ';'] + decimal(r as nat) + seq![';'] + decimal(g as nat)
        + seq![';'] + decimal(b as nat) + seq!['m']
}

/// The foreground code of the one of the sixteen basic terminal colors that
/// colored picks as nearest to a 24-bit color.
pub uninterp spec fn basic_color_code(r: u8, g: u8, b: u8) -> Seq<char>;

/// `out` shows `text` in color `(r, g, b)`: as it is (colors off); after the
/// 24-bit style sequence (a terminal with 24-bit color); or after the style
/// sequence of the nearest basic color (other terminals); in both latter cases
/// followed by the reset sequence.
pub open spec fn painted(text: Seq<char>, rgb: (u8, u8, u8), out: Seq<char>) -> bool {
    ||| out == text
    ||| out == true_color_style(rgb.0, rgb.1, rgb.2) + text + reset_code()
    ||| out == seq!['\u{1b}', '['] + basic_color_code(rgb.0, rgb.1, rgb.2) + seq!['m'] + text
        + reset_code()
}

/// Relies on colored's `Colorize::truecolor` and the `Display` of `ColoredString`:
/// with colors off the text comes out unchanged; with colors on it comes after
/// the style sequence of the color (24-bit when `COLORTERM` says the terminal
/// has it, else the nearest basic color, which depends on the color alone) and
/// before the reset sequence; a text with no escape character in it is not
/// altered.
#[verifier::external_body]
fn truecolor(text: &str, r: u8, g: u8, b: u8) -> (out: String)
    ensures
        !text@.contains('\u{1b}') ==> {
            ||| out@ == text@
            ||| out@ == true_color_style(r, g, b) + text@ + reset_code()
            ||| out@ == seq!['\u{1b}', '['] + basic_color_code(r, g, b) + seq!['m'] + text@ + reset_code()
        },
{
    text.truecolor(r, g, b).to_string()
}

/// The display color (red, green, blue) of each role.
pub open spec fn role_rgb(role: Role) -> (u8, u8, u8) {
    match role {
        Role::Key => (224u8, 108u8, 117u8),
        Role::Str => (152u8, 195u8, 121u8),
        Role::Word => (209u8, 154u8, 102u8),
    }
}

/// The display color (red, green, blue) of each role; the three differ.
pub fn role_color(role: Role) -> (rgb: (u8, u8, u8))
    ensures
        rgb == role_rgb(role),
{
    match role {
        Role::Key => (224, 108, 117),
        Role::Str => (152, 195, 121),
        Role::Word => (209, 154, 102),
    }
}

/// `out` shows token `t`: a scalar is its indentation, then its text painted
/// in its role's color; any other token is its plain text, uncolored.
pub open spec fn shown(t: TokenView, out: Seq<char>) -> bool {
    match t {
        TokenView::Scalar { role, indent, text } => {
            let body = scalar_text(role, text);
            &&& out.len() >= 2 * indent
            &&& out.take(2 * indent as int) == spaces(2 * indent)
            &&& !body.contains('\u{1b}') ==> painted(body, role_rgb(role), out.skip(2 * indent as int))
        },
        _ => out == token_text(t),
    }
}

/// The concatenation of a sequence of texts.
pub open spec fn joined(parts: Seq<Seq<char>>) -> Seq<char>
    decreases parts.len(),
{
    if parts.len() == 0 {
        Seq::empty()
    } else {
        joined(parts.drop_last()) + parts.last()
    }
}

/// The colored text of one token.
pub fn paint_token(t: &Token) -> (r: String)
    ensures
        shown(t@, r@),
{
    match t {
        Token::Scalar { role, indent: n, text } => {
            let mut r = indent(*n);
            let body = scalar_string(*role, text);
            let (red, green, blue) = role_color(*role);
            let painted_body = truecolor(body.as_str(), red, green, blue);
            let ghost head = r@;
            r.append(painted_body.as_str());
            assert(r@.take(2 * *n as int) =~= head);
            assert(r@.skip(2 * *n as int) =~= painted_body@);
            r
        },
        _ => token_string(t),
    }
}

/// The colored text of a token sequence: the texts of its tokens, each shown
/// as `paint_token` shows it, one after the other.
pub fn render_colored(tokens: &Vec<Token>) -> (r: String)
    ensures
        exists|parts: Seq<Seq<char>>|
            {
                &&& parts.len() == tokens@.len()
                &&& forall|i: int| 0 <= i < parts.len() ==> shown(#[trigger] tokens@[i]@, parts[i])
                &&& r@ == joined(parts)
            },
{
    let mut r = String::new();
    let ghost mut parts: Seq<Seq<char>> = Seq::empty();
    for i in 0..tokens.len()
        invariant
            parts.len() == i,
            forall|j: int| 0 <= j < i ==> shown(#[trigger] tokens@[j]@, parts[j]),
            r@ == joined(parts),
    {
        let piece = paint_token(&tokens[i]);
        r.append(piece.as_str());
        proof {
            let old_parts = parts;
            parts = parts.push(piece@);
            assert(parts.drop_last() =~= old_parts);
        }
    }
    r
}

/// Pretty-prints a JSON text with terminal colors.
pub fn pretty_colored(s: &str) -> (r: String)
    ensures
        exists|parts: Seq<Seq<char>>|
            {
                &&& parts.len() == format_spec(s@).len()
                &&& forall|i: int| 0 <= i < parts.len() ==> shown(#[trigger] format_spec(s@)[i], parts[i])
                &&& r@ == joined(parts)
            },
{
    let tokens = format_json(s);
    let r = render_colored(&tokens);
    proof {
        let parts = choose|parts: Seq<Seq<char>>|
            {
                &&& parts.len() == tokens@.len()
                &&& forall|i: int| 0 <= i < parts.len() ==> shown(#[trigger] tokens@[i]@, parts[i])
                &&& r@ == joined(parts)
            };
        assert forall|i: int| 0 <= i < parts.len() implies shown(#[trigger] format_spec(s@)[i], parts[i]) by {
            assert(format_spec(s@)[i] == views(tokens@)[i]);
            assert(shown(tokens@[i]@, parts[i]));
        }
    }
    r
}

} // verus!
