//! Display segments and their wire form.
use vstd::prelude::*;
use vstd::string::StrSliceExecFns;
use crate::text::{hex_digit, hex_digit_exec, push_char};

verus! {

/// The mathematical value of a segment: its text and its color string.
#[verifier::ext_equal]
pub struct ElemV {
    pub text: Seq<char>,
    pub color: Seq<char>,
}

/// A colored unit of display text, the atomic output element of a widget.
#[derive(Clone, Debug)]
pub struct Elem {
    pub text: String,
    pub color: String,
}

impl DeepView for Elem {
    type V = ElemV;

    open spec fn deep_view(&self) -> ElemV {
        ElemV { text: self.text@, color: self.color@ }
    }
}

impl Elem {
    /// A segment with the given text and color string.
    pub fn new(text: &str, color: &str) -> (e: Elem)
        ensures
            e.deep_view() == (ElemV { text: text@, color: color@ }),
    {
        Elem { text: String::from_str(text), color: String::from_str(color) }
    }

    /// A segment of the given text in plain white.
    pub fn plain(text: &str) -> (e: Elem)
        ensures
            e.deep_view() == (ElemV { text: text@, color: "#ffffff"@ }),
    {
        Elem { text: String::from_str(text), color: String::from_str("#ffffff") }
    }

    /// The JSON object for this segment on the wire.
    pub fn into_json(&self) -> (r: String)
        ensures
            r@ == elem_json_spec(self.deep_view()),
    {
        let mut out = String::from_str("{\"full_text\":\"");
        push_json_escaped(&mut out, &self.text);
        out.append("\",\"color\":\"");
        push_json_escaped(&mut out, &self.color);
        out.append("\",\"separator\":false,\"separator_block_width\":0}");
        out
    }
}

/// How one character appears inside a JSON string: quote, backslash and
/// the named control escapes as two-character escapes, other control
/// characters as \u00xx, everything else as itself.
pub open spec fn esc_char(c: char) -> Seq<char> {
    if c == '"' {
        seq!['\\', '"']
    } else if c == '\\' {
        seq!['\\', '\\']
    } else if c == '\u{8}' {
        seq!['\\', 'b']
    } else if c == '\t' {
        seq!['\\', 't']
    } else if c == '\n' {
        seq!['\\', 'n']
    } else if c == '\u{c}' {
        seq!['\\', 'f']
    } else if c == '\r' {
        seq!['\\', 'r']
    } else if (c as int) < 0x20 {
        seq!['\\', 'u', '0', '0', hex_digit(c as int / 16), hex_digit(c as int % 16)]
    } else {
        seq![c]
    }
}

/// A text escaped for use inside a JSON string literal.
pub open spec fn json_escape(s: Seq<char>) -> Seq<char>
    decreases s.len(),
{
    if s.len() == 0 {
        Seq::empty()
    } else {
        json_escape(s.drop_last()) + esc_char(s.last())
    }
}

/// The wire form of one segment: a JSON object with its text, its
/// color, and the two fixed separator fields.
pub open spec fn elem_json_spec(e: ElemV) -> Seq<char> {
    "{\"full_text\":\""@ + json_escape(e.text) + "\",\"color\":\""@ + json_escape(e.color)
        + "\",\"separator\":false,\"separator_block_width\":0}"@
}

/// The segments' JSON objects joined by commas.
pub open spec fn elems_json_inner(elems: Seq<ElemV>) -> Seq<char>
    decreases elems.len(),
{
    if elems.len() == 0 {
        Seq::empty()
    } else if elems.len() == 1 {
        elem_json_spec(elems[0])
    } else {
        elems_json_inner(elems.drop_last()) + seq![','] + elem_json_spec(elems.last())
    }
}

/// The wire form of one tick: a JSON array of the segments' objects.
pub open spec fn tick_json_spec(elems: Seq<ElemV>) -> Seq<char> {
    seq!['['] + elems_json_inner(elems) + seq![']']
}

fn push_json_escaped(out: &mut String, s: &String)
    ensures
        final(out)@ == old(out)@ + json_escape(s@),
{
    let slice = s.as_str();
    let len = slice.unicode_len();
    let mut i: usize = 0;
    while i < len
        invariant
            0 <= i <= len,
            len == s@.len(),
            slice@ == s@,
            out@ == old(out)@ + json_escape(s@.take(i as int)),
        decreases len - i,
    {
        let c = slice.get_char(i);
        push_esc_char(out, c);
        proof {
            assert(s@.take(i + 1).drop_last() =~= s@.take(i as int));
            assert(s@.take(i + 1).last() == s@[i as int]);
        }
        i = i + 1;
    }
    proof {
        assert(s@.take(len as int) =~= s@);
    }
}

fn push_esc_char(out: &mut String, c: char)
    ensures
        final(out)@ == old(out)@ + esc_char(c),
{
    if c == '"' {
        push_char(out, '\\');
        push_char(out, '"');
        assert(out@ =~= old(out)@ + esc_char(c));
    } else if c == '\\' {
        push_char(out, '\\');
        push_char(out, '\\');
        assert(out@ =~= old(out)@ + esc_char(c));
    } else if c == '\u{8}' {
        push_char(out, '\\');
        push_char(out, 'b');
        assert(out@ =~= old(out)@ + esc_char(c));
    } else if c == '\t' {
        push_char(out, '\\');
        push_char(out, 't');
        assert(out@ =~= old(out)@ + esc_char(c));
    } else if c == '\n' {
        push_char(out, '\\');
        push_char(out, 'n');
        assert(out@ =~= old(out)@ + esc_char(c));
    } else if c == '\u{c}' {
        push_char(out, '\\');
        push_char(out, 'f');
        assert(out@ =~= old(out)@ + esc_char(c));
    } else if c == '\r' {
        push_char(out, '\\');
        push_char(out, 'r');
        assert(out@ =~= old(out)@ + esc_char(c));
    } else if (c as u32) < 0x20 {
        push_char(out, '\\');
        push_char(out, 'u');
        push_char(out, '0');
        push_char(out, '0');
        push_char(out, hex_digit_exec((c as u32) / 16));
        push_char(out, hex_digit_exec((c as u32) % 16));
        assert(out@ =~= old(out)@ + esc_char(c));
    } else {
        push_char(out, c);
        assert(out@ =~= old(out)@ + esc_char(c));
    }
}

/// Serializes one tick's segments as the JSON array written on the wire.
pub fn tick_json(elems: &Vec<Elem>) -> (r: String)
    ensures
        r@ == tick_json_spec(elems.deep_view()),
{
    let ghost dv = elems.deep_view();
    let mut out = String::from_str("[");
    proof {
        reveal_strlit("[");
        assert("["@ =~= seq!['[']);
    }
    let mut i: usize = 0;
    while i < elems.len()
        invariant
            0 <= i <= elems@.len(),
            dv == elems.deep_view(),
            dv.len() == elems@.len(),
            forall|j: int| 0 <= j < elems@.len() ==> (#[trigger] elems@[j]).deep_view() == dv[j],
            out@ == seq!['['] + elems_json_inner(dv.take(i as int)),
        decreases elems@.len() - i,
    {
        if i > 0 {
            out.append(",");
            proof {
                reveal_strlit(",");
                assert(","@ =~= seq![',']);
            }
        }
        let piece = elems[i].into_json();
        out.append(piece.as_str());
        proof {
            assert(dv.take(i + 1).drop_last() =~= dv.take(i as int));
            assert(dv.take(i + 1).last() == dv[i as int]);
            if i == 0 {
                assert(elems_json_inner(dv.take(1)) == elem_json_spec(dv[0]));
            }
            assert(out@ =~= seq!['['] + elems_json_inner(dv.take(i + 1)));
        }
        i = i + 1;
    }
    out.append("]");
    proof {
        reveal_strlit("]");
        assert("]"@ =~= seq![']']);
        assert(dv.take(dv.len() as int) =~= dv);
        assert(out@ =~= tick_json_spec(dv));
    }
    out
}

/// How an executable render result realizes a specified one: the same
/// segments on success, a malformed-output error with the specified
/// diagnostic on failure.
pub open spec fn render_matches(
    sp: Result<Seq<ElemV>, Seq<char>>,
    r: Result<Vec<Elem>, crate::Error>,
) -> bool {
    match sp {
        Ok(v) => r matches Ok(got) && got.deep_view() == v,
        Err(m) => r matches Err(crate::Error::BadCmdFormat(s)) && s@ == m,
    }
}

/// The protocol header object that opens the stream.
pub fn version_json_string() -> (r: String)
    ensures
        r@ == "{\"version\":1}"@,
{
    String::from_str("{\"version\":1}")
}

} // verus!
