//! The streaming JSON scanner: one pass over the characters of a JSON text,
//! an explicit bracket stack, and a token buffer. It turns a compact JSON text
//! into a sequence of layout tokens; see `render` for turning those into text.
use vstd::prelude::*;

verus! {

/// A marker on the bracket stack: an open object or an open array.
#[derive(Clone, Copy, Debug, PartialEq, Eq, Structural)]
pub enum Frame {
    Object,
    Array,
}

/// The role of a scalar token, which decides how it is shown.
#[derive(Clone, Copy, Debug, PartialEq, Eq, Structural)]
pub enum Role {
    /// An object member name.
    Key,
    /// A quoted scalar value.
    Str,
    /// A bare scalar value: a number, `true`, `false` or `null`.
    Word,
}

/// One piece of formatted output. `indent` counts levels of two spaces.
#[derive(Clone, Debug, PartialEq, Eq)]
pub enum Token {
    /// An opening delimiter after `indent` levels, then a line break.
    Open { indent: usize, frame: Frame },
    /// A key, a string value or a bare value after `indent` levels.
    Scalar { role: Role, indent: usize, text: String },
    /// A comma, then a line break.
    Comma,
    /// A line break, `indent` levels, then a closing delimiter.
    Close { indent: usize, frame: Frame },
}

/// The mathematical value of a token.
pub enum TokenView {
    Open { indent: nat, frame: Frame },
    Scalar { role: Role, indent: nat, text: Seq<char> },
    Comma,
    Close { indent: nat, frame: Frame },
}

impl View for Token {
    type V = TokenView;

    open spec fn view(&self) -> TokenView {
        match self {
            Token::Open { indent, frame } => TokenView::Open { indent: *indent as nat, frame: *frame },
            Token::Scalar { role, indent, text } => TokenView::Scalar {
                role: *role,
                indent: *indent as nat,
                text: text@,
            },
            Token::Comma => TokenView::Comma,
            Token::Close { indent, frame } => TokenView::Close { indent: *indent as nat, frame: *frame },
        }
    }
}

/// The views of a sequence of tokens.
pub open spec fn views(ts: Seq<Token>) -> Seq<TokenView> {
    ts.map_values(|t: Token| t@)
}

/// What the scanner remembers between two characters.
pub struct ScanState {
    /// The open containers, innermost last; its length is the nesting depth.
    pub stack: Seq<Frame>,
    /// The characters of the token being read.
    pub buf: Seq<char>,
    /// The last character that was not discarded.
    pub prev: char,
    /// Whether the scanner stands inside a quoted string.
    pub in_string: bool,
}

pub open spec fn initial_state() -> ScanState {
    ScanState { stack: Seq::empty(), buf: Seq::empty(), prev: ' ', in_string: false }
}

/// The innermost open container, if any.
pub open spec fn top(stack: Seq<Frame>) -> Option<Frame> {
    if stack.len() == 0 {
        None
    } else {
        Some(stack.last())
    }
}

/// The frame that a delimiter character opens or closes.
pub open spec fn frame_of(c: char) -> Frame {
    if c == '{' || c == '}' {
        Frame::Object
    } else {
        Frame::Array
    }
}

/// The value flushed from the buffer at a `,`, `}` or `]`. A value inside an
/// object follows its key and gets no indentation of its own; any other value
/// is indented at the current depth. A buffer that held no quoted string and
/// is empty yields nothing.
pub open spec fn flushed(st: ScanState) -> Seq<TokenView> {
    let indent: nat = if top(st.stack) == Some(Frame::Object) { 0 } else { st.stack.len() };
    if st.prev == '"' {
        seq![TokenView::Scalar { role: Role::Str, indent, text: st.buf }]
    } else if st.buf.len() == 0 {
        Seq::empty()
    } else {
        seq![TokenView::Scalar { role: Role::Word, indent, text: st.buf }]
    }
}

/// One step of the scanner: the state after `c`, and the tokens that `c` emits.
pub open spec fn step(st: ScanState, c: char) -> (ScanState, Seq<TokenView>) {
    let depth = st.stack.len();
    let moved = ScanState { prev: c, ..st };
    if c == '"' && !st.in_string {
        (ScanState { in_string: true, ..moved }, Seq::empty())
    } else if c == '"' && st.prev != '\\' {
        (ScanState { in_string: false, ..moved }, Seq::empty())
    } else if st.in_string {
        (ScanState { buf: st.buf.push(c), ..moved }, Seq::empty())
    } else if c == ' ' || c == '\n' || c == '\r' {
        (st, Seq::empty())
    } else if c == ':' {
        (
            ScanState { buf: Seq::empty(), ..moved },
            seq![TokenView::Scalar { role: Role::Key, indent: depth, text: st.buf }],
        )
    } else if c == '{' || c == '[' {
        let indent: nat = if top(st.stack) == Some(Frame::Array) { depth } else { 0 };
        (
            ScanState { stack: st.stack.push(frame_of(c)), ..moved },
            seq![TokenView::Open { indent, frame: frame_of(c) }],
        )
    } else if c == ',' {
        (ScanState { buf: Seq::empty(), ..moved }, flushed(st).push(TokenView::Comma))
    } else if c == '}' || c == ']' {
        let indent: nat = if depth > 0 { (depth - 1) as nat } else { 0 };
        let stack = if depth > 0 { st.stack.drop_last() } else { st.stack };
        (
            ScanState { stack, buf: Seq::empty(), ..moved },
            flushed(st).push(TokenView::Close { indent, frame: frame_of(c) }),
        )
    } else {
        (ScanState { buf: st.buf.push(c), ..moved }, Seq::empty())
    }
}

/// The scanner run over all of `s`: its final state and every token emitted.
pub open spec fn scan(s: Seq<char>) -> (ScanState, Seq<TokenView>)
    decreases s.len(),
{
    if s.len() == 0 {
        (initial_state(), Seq::empty())
    } else {
        let before = scan(s.drop_last());
        let after = step(before.0, s.last());
        (after.0, before.1 + after.1)
    }
}

/// The tokens that formatting `s` yields.
pub open spec fn format_spec(s: Seq<char>) -> Seq<TokenView> {
    scan(s).1
}

/// Relies on `FromIterator<char> for String`: the string holds the characters in order.
#[verifier::external_body]
pub(crate) fn string_of(chars: &Vec<char>) -> (r: String)
    ensures
        r@ == chars@,
{
    chars.iter().collect()
}

fn push_token(out: &mut Vec<Token>, t: Token)
    ensures
        views(final(out)@) == views(old(out)@).push(t@),
{
    out.push(t);
    assert(views(out@) =~= views(old(out)@).push(t@));
}

/// Emits the value held in the buffer at a `,`, `}` or `]`.
fn flush(out: &mut Vec<Token>, buf: &Vec<char>, prev: char, stack: &Vec<Frame>)
    ensures
        views(final(out)@) == views(old(out)@) + flushed(
            ScanState { stack: stack@, buf: buf@, prev, in_string: false },
        ),
{
    let ghost st = ScanState { stack: stack@, buf: buf@, prev, in_string: false };
    let in_object = stack.len() > 0 && stack[stack.len() - 1] == Frame::Object;
    let indent: usize = if in_object { 0 } else { stack.len() };
    if prev == '"' {
        push_token(out, Token::Scalar { role: Role::Str, indent, text: string_of(buf) });
    } else if buf.len() > 0 {
        push_token(out, Token::Scalar { role: Role::Word, indent, text: string_of(buf) });
    }
    assert(views(out@) =~= views(old(out)@) + flushed(st));
}

/// Formats a JSON text into layout tokens, in one pass over its characters.
///
/// Whitespace outside strings is dropped. A key is indented at the current
/// depth; a value after a key is not; an array element is indented at the
/// current depth; a closing delimiter stands one level above its contents.
/// Malformed input yields some token sequence and never a panic: a closing
/// delimiter with nothing open stands at depth zero and pops nothing.
pub fn format_json(s: &str) -> (r: Vec<Token>)
    ensures
        views(r@) == format_spec(s@),
{
    let mut out: Vec<Token> = Vec::new();
    let mut stack: Vec<Frame> = Vec::new();
    let mut buf: Vec<char> = Vec::new();
    let mut prev: char = ' ';
    let mut in_string: bool = false;
    for c in it: s.chars()
        invariant
            it.seq() == s@,
            ({
                let sc = scan(s@.take(it.index() as int));
                &&& sc.0 == ScanState { stack: stack@, buf: buf@, prev, in_string }
                &&& sc.1 == views(out@)
            }),
    {
        let ghost i = it.index() as int;
        let ghost st = ScanState { stack: stack@, buf: buf@, prev, in_string };
        assert(s@.take(i + 1).drop_last() =~= s@.take(i));
        assert(s@.take(i + 1).last() == c);
        let depth = stack.len();
        let discard = !in_string && (c == ' ' || c == '\n' || c == '\r');
        if c == '"' && !in_string {
            in_string = true;
        } else if c == '"' && prev != '\\' {
            in_string = false;
        } else if in_string {
            buf.push(c);
        } else if discard {
        } else if c == ':' {
            push_token(&mut out, Token::Scalar { role: Role::Key, indent: depth, text: string_of(&buf) });
            buf = Vec::new();
        } else if c == '{' || c == '[' {
            let frame = if c == '{' { Frame::Object } else { Frame::Array };
            let in_array = depth > 0 && stack[depth - 1] == Frame::Array;
            let indent: usize = if in_array { depth } else { 0 };
            push_token(&mut out, Token::Open { indent, frame });
            stack.push(frame);
        } else if c == ',' {
            flush(&mut out, &buf, prev, &stack);
            push_token(&mut out, Token::Comma);
            buf = Vec::new();
        } else if c == '}' || c == ']' {
            let frame = if c == '}' { Frame::Object } else { Frame::Array };
            flush(&mut out, &buf, prev, &stack);
            let indent: usize = if depth > 0 { depth - 1 } else { 0 };
            push_token(&mut out, Token::Close { indent, frame });
            if depth > 0 {
                stack.pop();
            }
            buf = Vec::new();
        } else {
            buf.push(c);
        }
        if !discard {
            prev = c;
        }
        proof {
            assert(stack@ =~= step(st, c).0.stack);
            assert(buf@ =~= step(st, c).0.buf);
            assert(views(out@) =~= scan(s@.take(i)).1 + step(st, c).1);
        }
    }
    assert(s@.take(s@.len() as int) =~= s@);
    out
}

} // verus!
