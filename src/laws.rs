//! Properties of the scanner over all inputs.
use vstd::prelude::*;
use crate::scan::{Frame, Role, TokenView, ScanState, scan, step, top, format_spec};
use crate::render::{open_char, close_char, spaces, scalar_text, token_text, role_rgb};

verus! {

/// The scanner state just before the character at position `i` of `s`.
pub open spec fn state_before(s: Seq<char>, i: int) -> ScanState {
    scan(s.take(i)).0
}

/// The nesting depth just before position `i`.
pub open spec fn depth_before(s: Seq<char>, i: int) -> nat {
    state_before(s, i).stack.len()
}

/// The tokens that the character at position `i` emits.
pub open spec fn emitted_at(s: Seq<char>, i: int) -> Seq<TokenView> {
    step(state_before(s, i), s[i]).1
}

/// Whether token `t` is that delimiter character `c`.
pub open spec fn is_delim(t: TokenView, c: char) -> bool {
    match t {
        TokenView::Open { frame, .. } => open_char(frame) == c,
        TokenView::Close { frame, .. } => close_char(frame) == c,
        _ => false,
    }
}

/// How many tokens of `ts` are the delimiter `c`.
pub open spec fn delims_in_tokens(ts: Seq<TokenView>, c: char) -> nat
    decreases ts.len(),
{
    if ts.len() == 0 {
        0
    } else {
        delims_in_tokens(ts.drop_last(), c) + if is_delim(ts.last(), c) { 1nat } else { 0nat }
    }
}

/// How many times `c` occurs in `s` outside quoted strings.
pub open spec fn delims_in_text(s: Seq<char>, c: char) -> nat
    decreases s.len(),
{
    if s.len() == 0 {
        0
    } else {
        delims_in_text(s.drop_last(), c) + if s.last() == c && !scan(s.drop_last()).0.in_string {
            1nat
        } else {
            0nat
        }
    }
}

proof fn lemma_step_of_take(s: Seq<char>, i: int)
    requires
        0 <= i < s.len(),
    ensures
        scan(s.take(i + 1)).0 == step(state_before(s, i), s[i]).0,
        scan(s.take(i + 1)).1 == scan(s.take(i)).1 + emitted_at(s, i),
{
    assert(s.take(i + 1).drop_last() =~= s.take(i));
}

/// Indentation follows the nesting depth. Each token that the character at
/// position `i` emits is indented as follows, where `d` is the depth there:
/// a key at `d`; a value at `d` inside an array or at the top, and at zero
/// inside an object, where it follows its key on the same line; an opening
/// delimiter at `d` inside an array and at zero elsewhere; a closing
/// delimiter at `d - 1`, the depth of the container it ends. Rendered, a
/// level is two spaces, so a key is printed after exactly `2 * d` spaces.
pub proof fn indentation_follows_depth(s: Seq<char>, i: int, k: int)
    requires
        0 <= i < s.len(),
        0 <= k < emitted_at(s, i).len(),
    ensures
        ({
            let d = depth_before(s, i);
            let in_object = top(state_before(s, i).stack) == Some(Frame::Object);
            let in_array = top(state_before(s, i).stack) == Some(Frame::Array);
            match emitted_at(s, i)[k] {
                TokenView::Scalar { role, indent, text } => if role == Role::Key {
                    &&& indent == d
                    &&& token_text(emitted_at(s, i)[k]) == spaces(2 * d) + scalar_text(role, text)
                } else {
                    indent == if in_object { 0 } else { d }
                },
                TokenView::Open { indent, .. } => indent == if in_array { d } else { 0 },
                TokenView::Close { indent, .. } => d > 0 ==> indent + 1 == d,
                TokenView::Comma => true,
            }
        }),
{
}

proof fn lemma_delims_concat(a: Seq<TokenView>, b: Seq<TokenView>, c: char)
    ensures
        delims_in_tokens(a + b, c) == delims_in_tokens(a, c) + delims_in_tokens(b, c),
    decreases b.len(),
{
    if b.len() > 0 {
        assert((a + b).drop_last() =~= a + b.drop_last());
        lemma_delims_concat(a, b.drop_last(), c);
    } else {
        assert(a + b =~= a);
    }
}

proof fn lemma_step_delims(st: ScanState, x: char, c: char)
    requires
        c == '{' || c == '[' || c == '}' || c == ']',
    ensures
        delims_in_tokens(step(st, x).1, c) == if x == c && !st.in_string { 1nat } else { 0nat },
{
    let out = step(st, x).1;
    let fl = crate::scan::flushed(st);
    let none = Seq::<TokenView>::empty();
    assert(delims_in_tokens(none, c) == 0);
    assert(delims_in_tokens(fl, c) == 0) by {
        if fl.len() == 1 {
            assert(fl.drop_last() =~= none);
            assert(!is_delim(fl.last(), c));
        }
    }
    if out.len() == 1 {
        assert(out.drop_last() =~= none);
    }
    if !st.in_string && (x == ',' || x == '}' || x == ']') {
        assert(out.drop_last() =~= fl);
    }
}

/// Delimiters are kept: for each of `{`, `[`, `}` and `]`, the tokens hold
/// exactly as many of it as the input holds outside quoted strings. No
/// delimiter is invented or dropped.
pub proof fn delimiters_kept(s: Seq<char>, c: char)
    requires
        c == '{' || c == '[' || c == '}' || c == ']',
    ensures
        delims_in_tokens(format_spec(s), c) == delims_in_text(s, c),
    decreases s.len(),
{
    if s.len() > 0 {
        delimiters_kept(s.drop_last(), c);
        let before = scan(s.drop_last());
        lemma_delims_concat(before.1, step(before.0, s.last()).1, c);
        lemma_step_delims(before.0, s.last(), c);
    }
}

proof fn lemma_prev_in_string(s: Seq<char>)
    ensures
        scan(s).0.in_string ==> s.len() > 0 && scan(s).0.prev == s.last(),
    decreases s.len(),
{
    if s.len() > 0 {
        lemma_prev_in_string(s.drop_last());
    }
}

/// Escaped quotes: inside a string, a `"` ends the string exactly when the
/// character before it is not a backslash, so `\"` stays inside the string
/// and a later plain `"` ends it.
pub proof fn escaped_quote_stays_in_string(s: Seq<char>, i: int)
    requires
        0 <= i < s.len(),
        s[i] == '"',
        state_before(s, i).in_string,
    ensures
        i > 0,
        state_before(s, i + 1).in_string <==> s[i - 1] == '\\',
{
    lemma_prev_in_string(s.take(i));
    lemma_step_of_take(s, i);
    assert(s.take(i).last() == s[i - 1]);
}

/// Whether `c` is one of `{`, `[`, `}` and `]`.
pub open spec fn is_delim_char(c: char) -> bool {
    c == '{' || c == '[' || c == '}' || c == ']'
}

/// The delimiters that a token sequence shows, in order.
pub open spec fn token_delims(ts: Seq<TokenView>) -> Seq<char>
    decreases ts.len(),
{
    if ts.len() == 0 {
        Seq::empty()
    } else {
        token_delims(ts.drop_last()) + match ts.last() {
            TokenView::Open { frame, .. } => seq![open_char(frame)],
            TokenView::Close { frame, .. } => seq![close_char(frame)],
            _ => Seq::empty(),
        }
    }
}

/// The delimiters of `s` outside quoted strings, in order.
pub open spec fn text_delims(s: Seq<char>) -> Seq<char>
    decreases s.len(),
{
    if s.len() == 0 {
        Seq::empty()
    } else if is_delim_char(s.last()) && !scan(s.drop_last()).0.in_string {
        text_delims(s.drop_last()).push(s.last())
    } else {
        text_delims(s.drop_last())
    }
}

proof fn lemma_token_delims_concat(a: Seq<TokenView>, b: Seq<TokenView>)
    ensures
        token_delims(a + b) == token_delims(a) + token_delims(b),
    decreases b.len(),
{
    if b.len() > 0 {
        assert((a + b).drop_last() =~= a + b.drop_last());
        lemma_token_delims_concat(a, b.drop_last());
        assert(token_delims(a + b) =~= token_delims(a) + token_delims(b));
    } else {
        assert(a + b =~= a);
        assert(token_delims(a) + token_delims(b) =~= token_delims(a));
    }
}

proof fn lemma_step_token_delims(st: ScanState, x: char)
    ensures
        token_delims(step(st, x).1) == if is_delim_char(x) && !st.in_string {
            seq![x]
        } else {
            Seq::<char>::empty()
        },
{
    let out = step(st, x).1;
    let fl = crate::scan::flushed(st);
    let none = Seq::<TokenView>::empty();
    assert(token_delims(none) =~= Seq::<char>::empty());
    assert(token_delims(fl) =~= Seq::<char>::empty()) by {
        if fl.len() == 1 {
            assert(fl.drop_last() =~= none);
        }
    }
    if out.len() == 1 {
        assert(out.drop_last() =~= none);
    }
    if !st.in_string && (x == ',' || x == '}' || x == ']') {
        assert(out.drop_last() =~= fl);
    }
    assert(token_delims(out) =~= if is_delim_char(x) && !st.in_string {
        seq![x]
    } else {
        Seq::<char>::empty()
    });
}

/// Delimiters are kept in order: the delimiters that the tokens show are,
/// one for one and in the same order, the `{`, `[`, `}` and `]` of the input
/// that stand outside quoted strings.
pub proof fn delimiters_kept_in_order(s: Seq<char>)
    ensures
        token_delims(format_spec(s)) == text_delims(s),
    decreases s.len(),
{
    if s.len() > 0 {
        delimiters_kept_in_order(s.drop_last());
        let before = scan(s.drop_last());
        lemma_token_delims_concat(before.1, step(before.0, s.last()).1);
        lemma_step_token_delims(before.0, s.last());
        assert(token_delims(format_spec(s)) =~= text_delims(s));
    }
}

/// Inside a string, every character but a closing quote, `\"` and structural
/// characters and spaces included, is added to the buffer and emits nothing,
/// and the nesting is unchanged. The whole string thus reaches one token,
/// flushed at the next `:`, `,`, `}` or `]` after its closing quote.
pub proof fn string_characters_are_buffered(s: Seq<char>, i: int)
    requires
        0 <= i < s.len(),
        state_before(s, i).in_string,
        !(s[i] == '"' && state_before(s, i).prev != '\\'),
    ensures
        emitted_at(s, i).len() == 0,
        state_before(s, i + 1).in_string,
        state_before(s, i + 1).buf == state_before(s, i).buf.push(s[i]),
        state_before(s, i + 1).stack == state_before(s, i).stack,
{
    lemma_step_of_take(s, i);
}

/// The three roles are shown in three different colors.
pub proof fn role_colors_differ()
    ensures
        role_rgb(Role::Key) != role_rgb(Role::Str),
        role_rgb(Role::Key) != role_rgb(Role::Word),
        role_rgb(Role::Str) != role_rgb(Role::Word),
{
}

} // verus!
