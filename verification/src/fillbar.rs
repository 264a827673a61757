//! Colors and the bar-fill renderer: a fixed-width sequence of colored
//! glyph slots visualizing a bounded quantity.
use vstd::prelude::*;
use crate::text::{hex2, hex_digit, digit_val, is_digit, push_hex2, push_char};
use crate::render::{Elem, ElemV};
use vstd::string::StrSliceExecFns;

verus! {

/// A color with red, green and blue channels, each in [0, 255].
#[derive(Debug, Clone, Copy, PartialEq, Eq, Structural)]
pub struct RGB {
    pub r: i32,
    pub g: i32,
    pub b: i32,
}

/// Error of parsing a color from a hex string.
#[derive(Debug, Clone, Copy, PartialEq, Eq, Structural)]
pub struct ParseRGBError;

/// A visual bar: an ordered, fixed-length sequence of slot colors.
#[derive(Clone)]
pub struct FillBar {
    colors: Vec<RGB>,
}

/// All channels within [0, 255].
pub open spec fn rgb_wf(c: RGB) -> bool {
    &&& 0 <= c.r < 256
    &&& 0 <= c.g < 256
    &&& 0 <= c.b < 256
}

/// The `#rrggbb` hex form of a color, lowercase.
pub open spec fn color_hex(c: RGB) -> Seq<char> {
    seq!['#'] + hex2(c.r as int) + hex2(c.g as int) + hex2(c.b as int)
}

/// Whether `c` is a hexadecimal digit character, either case.
pub open spec fn is_hex(c: char) -> bool {
    is_digit(c) || ('a' <= c <= 'f') || ('A' <= c <= 'F')
}

/// The value of a hexadecimal digit character, either case.
pub open spec fn hex_val(c: char) -> int {
    if is_digit(c) {
        digit_val(c)
    } else if 'a' <= c <= 'f' {
        c as int - 'a' as int + 10
    } else {
        c as int - 'A' as int + 10
    }
}

/// What parsing a `#rrggbb` string yields: a color exactly when the
/// string has length 7, starts with `#`, and holds six hex digits.
pub open spec fn parse_color_spec(s: Seq<char>) -> Option<RGB> {
    if s.len() == 7 && s[0] == '#' && (forall|i: int| 1 <= i < 7 ==> is_hex(#[trigger] s[i])) {
        Some(RGB {
            r: (hex_val(s[1]) * 16 + hex_val(s[2])) as i32,
            g: (hex_val(s[3]) * 16 + hex_val(s[4])) as i32,
            b: (hex_val(s[5]) * 16 + hex_val(s[6])) as i32,
        })
    } else {
        None
    }
}

/// Division truncating toward zero, for a positive divisor.
pub open spec fn tdiv(a: int, b: int) -> int {
    if a >= 0 {
        a / b
    } else {
        -((-a) / b)
    }
}

/// Channel-wise linear interpolation at fraction p/q, truncated.
pub open spec fn lerp_chan_spec(a: int, b: int, p: int, q: int) -> int {
    a + tdiv((b - a) * p, q)
}

pub open spec fn lerp_spec(c1: RGB, c2: RGB, p: int, q: int) -> RGB {
    RGB {
        r: lerp_chan_spec(c1.r as int, c2.r as int, p, q) as i32,
        g: lerp_chan_spec(c1.g as int, c2.g as int, p, q) as i32,
        b: lerp_chan_spec(c1.b as int, c2.b as int, p, q) as i32,
    }
}

/// The slot colors of a gradient bar: slot i of n interpolates the two
/// endpoint colors at fraction i/(n-1); a single slot is the start color.
pub open spec fn gradient_spec(len: int, c1: RGB, c2: RGB) -> Seq<RGB> {
    Seq::new(len as nat, |i: int| if len == 1 { c1 } else { lerp_spec(c1, c2, i, len - 1) })
}

/// How many slots of a bar of `len` slots are filled at amount `amt`
/// out of `tot`: one more than the scaled midpoint, clamped to `len`.
pub open spec fn filled_count(len: int, amt: int, tot: int) -> int {
    let past = tdiv(len * amt, tot) + 1;
    if past <= len {
        past
    } else {
        len
    }
}

pub open spec fn spaces(n: int) -> Seq<char> {
    Seq::new(n as nat, |i: int| ' ')
}

/// The rendered bar: one single-glyph segment per filled slot, painted
/// with that slot's color, then exactly one blank segment of the
/// remaining width in black.
pub open spec fn blit_spec(colors: Seq<RGB>, chr: char, amt: int, tot: int) -> Seq<ElemV> {
    let n = filled_count(colors.len() as int, amt, tot);
    Seq::new(n as nat, |i: int| ElemV { text: seq![chr], color: color_hex(colors[i]) }).push(
        ElemV { text: spaces(colors.len() - n), color: color_hex(RGB { r: 0, g: 0, b: 0 }) },
    )
}

impl RGB {
    /// The `#rrggbb` hex string of this color.
    pub fn to_string(&self) -> (s: String)
        requires
            rgb_wf(*self),
        ensures
            s@ == color_hex(*self),
    {
        let mut s = String::new();
        push_char(&mut s, '#');
        push_hex2(&mut s, self.r as u32);
        push_hex2(&mut s, self.g as u32);
        push_hex2(&mut s, self.b as u32);
        proof {
            assert(s@ =~= color_hex(*self));
        }
        s
    }

    /// Interpolation of one channel, staying between the endpoints.
    fn lerp_chan(a: i32, b: i32, p: i32, q: i32) -> (r: i32)
        requires
            0 <= a < 256,
            0 <= b < 256,
            0 <= p <= q,
            1 <= q,
        ensures
            r == lerp_chan_spec(a as int, b as int, p as int, q as int),
            0 <= r < 256,
    {
        if b >= a {
            proof {
                assert(((b - a) as int) * (p as int) <= 256 * 0x8000_0000) by (nonlinear_arith)
                    requires
                        0 <= b - a < 256,
                        0 <= p < 0x8000_0000,
                ;
            }
            let num = ((b - a) as u64) * (p as u64);
            let quo = num / (q as u64);
            proof {
                lemma_scaled_quotient_bound((b - a) as int, p as int, q as int);
            }
            a + (quo as i32)
        } else {
            proof {
                assert(((a - b) as int) * (p as int) <= 256 * 0x8000_0000) by (nonlinear_arith)
                    requires
                        0 <= a - b < 256,
                        0 <= p < 0x8000_0000,
                ;
            }
            let num = ((a - b) as u64) * (p as u64);
            let quo = num / (q as u64);
            proof {
                lemma_scaled_quotient_bound((a - b) as int, p as int, q as int);
                assert(((b - a) as int) * (p as int) == -(((a - b) as int) * (p as int)))
                    by (nonlinear_arith);
            }
            a - (quo as i32)
        }
    }

    /// Linear interpolation between two colors at fraction p/q.
    pub fn lerp(c1: RGB, c2: RGB, p: i32, q: i32) -> (c: RGB)
        requires
            rgb_wf(c1),
            rgb_wf(c2),
            0 <= p <= q,
            1 <= q,
        ensures
            c == lerp_spec(c1, c2, p as int, q as int),
            rgb_wf(c),
    {
        RGB {
            r: Self::lerp_chan(c1.r, c2.r, p, q),
            g: Self::lerp_chan(c1.g, c2.g, p, q),
            b: Self::lerp_chan(c1.b, c2.b, p, q),
        }
    }
}

/// For 0 <= d and 0 <= p <= q: (d * p) / q lies in [0, d].
proof fn lemma_scaled_quotient_bound(d: int, p: int, q: int)
    requires
        0 <= d,
        0 <= p <= q,
        1 <= q,
    ensures
        0 <= (d * p) / q <= d,
{
    assert(d * p <= d * q) by (nonlinear_arith)
        requires
            0 <= d,
            p <= q,
    ;
    assert(d * p >= 0) by (nonlinear_arith)
        requires
            0 <= d,
            0 <= p,
    ;
    vstd::arithmetic::div_mod::lemma_div_is_ordered(d * p, d * q, q);
    vstd::arithmetic::div_mod::lemma_div_by_multiple(d, q);
    assert((d * p) / q >= 0) by (nonlinear_arith)
        requires
            d * p >= 0,
            q >= 1,
    ;
}

/// Parses a color from a `#rrggbb` hex string; fails exactly on strings
/// not of length 7, not starting with `#`, or holding a non-hex digit.
pub fn parse_color(s: &str) -> (r: Result<RGB, ParseRGBError>)
    ensures
        match r {
            Ok(c) => parse_color_spec(s@) == Some(c) && rgb_wf(c),
            Err(_) => parse_color_spec(s@) is None,
        },
{
    let len = s.unicode_len();
    if len != 7 {
        return Err(ParseRGBError);
    }
    if s.get_char(0) != '#' {
        return Err(ParseRGBError);
    }
    let mut vals: [u32; 6] = [0, 0, 0, 0, 0, 0];
    let mut i: usize = 1;
    while i < 7
        invariant
            1 <= i <= 7,
            s@.len() == 7,
            forall|j: int| 1 <= j < i ==> is_hex(#[trigger] s@[j]),
            forall|j: int| 1 <= j < i ==> vals[j - 1] == hex_val(#[trigger] s@[j]),
            forall|j: int| 1 <= j < i ==> #[trigger] vals[j - 1] < 16,
        decreases 7 - i,
    {
        let c = s.get_char(i);
        let v: u32 = if c >= '0' && c <= '9' {
            (c as u32) - ('0' as u32)
        } else if c >= 'a' && c <= 'f' {
            (c as u32) - ('a' as u32) + 10
        } else if c >= 'A' && c <= 'F' {
            (c as u32) - ('A' as u32) + 10
        } else {
            assert(!is_hex(s@[i as int]));
            return Err(ParseRGBError);
        };
        vals[i - 1] = v;
        i = i + 1;
    }
    Ok(RGB {
        r: (vals[0] * 16 + vals[1]) as i32,
        g: (vals[2] * 16 + vals[3]) as i32,
        b: (vals[4] * 16 + vals[5]) as i32,
    })
}

/// Round trip: formatting a color and parsing it back yields the color,
/// for every color with channels in range.
pub proof fn lemma_color_round_trip(c: RGB)
    requires
        rgb_wf(c),
    ensures
        parse_color_spec(color_hex(c)) == Some(c),
{
    let s = color_hex(c);
    assert(s.len() == 7);
    assert(s[0] == '#');
    lemma_hex_digit_inverse(c.r as int);
    lemma_hex_digit_inverse(c.g as int);
    lemma_hex_digit_inverse(c.b as int);
    assert(s[1] == hex_digit(c.r as int / 16) && s[2] == hex_digit(c.r as int % 16));
    assert(s[3] == hex_digit(c.g as int / 16) && s[4] == hex_digit(c.g as int % 16));
    assert(s[5] == hex_digit(c.b as int / 16) && s[6] == hex_digit(c.b as int % 16));
    assert(forall|i: int| 1 <= i < 7 ==> is_hex(#[trigger] s[i]));
}

/// A seven-character hex color literal parses, shown one digit at a
/// time.
pub proof fn lemma_color_lit(s: Seq<char>)
    requires
        s.len() == 7,
        s[0] == '#',
        is_hex(s[1]),
        is_hex(s[2]),
        is_hex(s[3]),
        is_hex(s[4]),
        is_hex(s[5]),
        is_hex(s[6]),
    ensures
        parse_color_spec(s) is Some,
{
    assert forall|i: int| 1 <= i < 7 implies is_hex(#[trigger] s[i]) by {
        if i == 1 {
        } else if i == 2 {
        } else if i == 3 {
        } else if i == 4 {
        } else if i == 5 {
        } else {
        }
    }
}

/// Each hex digit character decodes back to its value.
proof fn lemma_hex_digit_inverse(n: int)
    requires
        0 <= n < 256,
    ensures
        is_hex(hex_digit(n / 16)) && hex_val(hex_digit(n / 16)) == n / 16,
        is_hex(hex_digit(n % 16)) && hex_val(hex_digit(n % 16)) == n % 16,
        (n / 16) * 16 + n % 16 == n,
{
    assert(0 <= n / 16 < 16);
    assert(0 <= n % 16 < 16);
    assert(forall|d: int| 0 <= d < 16 ==> is_hex(#[trigger] hex_digit(d)) && hex_val(hex_digit(d)) == d);
    vstd::arithmetic::div_mod::lemma_fundamental_div_mod(n, 16);
}

impl View for FillBar {
    type V = Seq<RGB>;

    closed spec fn view(&self) -> Seq<RGB> {
        self.colors@
    }
}

/// Slot colors bounded in number and each within channel range.
pub open spec fn fillbar_wf(fb: FillBar) -> bool {
    &&& fb@.len() <= 0x7fff_ffff
    &&& forall|i: int| 0 <= i < fb@.len() ==> rgb_wf(#[trigger] fb@[i])
}

impl FillBar {
    /// A bar whose every slot has the one given color.
    pub fn single(len: i32, c: &str) -> (fb: FillBar)
        requires
            0 <= len,
            parse_color_spec(c@) is Some,
        ensures
            fb@ == Seq::new(len as nat, |i: int| parse_color_spec(c@)->Some_0),
            fillbar_wf(fb),
    {
        let color = match parse_color(c) {
            Ok(color) => color,
            Err(_) => {
                proof {
                    assert(false);
                }
                RGB { r: 0, g: 0, b: 0 }
            },
        };
        let mut colors: Vec<RGB> = Vec::new();
        let mut i: i32 = 0;
        while i < len
            invariant
                0 <= i <= len,
                colors@ =~= Seq::new(i as nat, |j: int| color),
                parse_color_spec(c@) == Some(color),
                rgb_wf(color),
            decreases len - i,
        {
            colors.push(color);
            i = i + 1;
        }
        proof {
            assert(colors@ =~= Seq::new(len as nat, |i: int| parse_color_spec(c@)->Some_0));
        }
        FillBar { colors }
    }

    /// A bar shading linearly from the first color to the second.
    pub fn gradient(len: i32, c1: &str, c2: &str) -> (fb: FillBar)
        requires
            0 <= len,
            parse_color_spec(c1@) is Some,
            parse_color_spec(c2@) is Some,
        ensures
            fb@ == gradient_spec(len as int, parse_color_spec(c1@)->Some_0, parse_color_spec(c2@)->Some_0),
            fillbar_wf(fb),
    {
        let color1 = match parse_color(c1) {
            Ok(color) => color,
            Err(_) => {
                proof {
                    assert(false);
                }
                RGB { r: 0, g: 0, b: 0 }
            },
        };
        let color2 = match parse_color(c2) {
            Ok(color) => color,
            Err(_) => {
                proof {
                    assert(false);
                }
                RGB { r: 0, g: 0, b: 0 }
            },
        };
        let ghost target = gradient_spec(len as int, color1, color2);
        let mut colors: Vec<RGB> = Vec::new();
        let mut i: i32 = 0;
        while i < len
            invariant
                0 <= i <= len,
                colors@ =~= target.take(i as int),
                target == gradient_spec(len as int, color1, color2),
                forall|j: int| 0 <= j < i ==> rgb_wf(#[trigger] colors@[j]),
                rgb_wf(color1),
                rgb_wf(color2),
            decreases len - i,
        {
            let c = if len == 1 {
                color1
            } else {
                RGB::lerp(color1, color2, i, len - 1)
            };
            colors.push(c);
            proof {
                assert(colors@ =~= target.take(i + 1));
            }
            i = i + 1;
        }
        proof {
            assert(colors@ =~= target);
        }
        FillBar { colors }
    }

    /// The number of slots.
    pub fn len(&self) -> (n: usize)
        ensures
            n == self@.len(),
    {
        self.colors.len()
    }

    /// Renders the bar at amount `amt` of `tot`: the filled slots as
    /// single `chr` glyphs in their slot colors, then one black blank
    /// segment filling the rest of the width.
    pub fn blit(&self, chr: char, amt: i32, tot: i32) -> (v: Vec<Elem>)
        requires
            fillbar_wf(*self),
            1 <= tot,
            tdiv(self@.len() * amt, tot as int) + 1 >= 0,
        ensures
            v.deep_view() == blit_spec(self@, chr, amt as int, tot as int),
    {
        let len = self.colors.len();
        let nfilled: usize = if amt >= 0 {
            proof {
                assert((len as int) * (amt as int) <= 0x8000_0000 * 0x8000_0000)
                    by (nonlinear_arith)
                    requires
                        0 <= len <= 0x8000_0000,
                        0 <= amt < 0x8000_0000,
                ;
            }
            let num = (len as u64) * (amt as u64);
            let quo = num / (tot as u64);
            if quo >= len as u64 {
                len
            } else {
                (quo as usize) + 1
            }
        } else {
            proof {
                assert((len as int) * (-(amt as int)) <= 0x8000_0000 * 0x8000_0000)
                    by (nonlinear_arith)
                    requires
                        0 <= len <= 0x8000_0000,
                        0 < -(amt as int) <= 0x8000_0000,
                ;
            }
            let mag = (len as u64) * ((-(amt as i64)) as u64);
            let flr = mag / (tot as u64);
            proof {
                if len > 0 {
                    assert((len as int) * (amt as int) == -((len as int) * (-(amt as int))))
                        by (nonlinear_arith);
                    assert((len as int) * (-(amt as int)) >= 0) by (nonlinear_arith)
                        requires
                            len > 0,
                            amt < 0,
                    ;
                } else {
                    assert((len as int) * (amt as int) == 0) by (nonlinear_arith)
                        requires
                            len == 0,
                    ;
                    assert((len as int) * (-(amt as int)) == 0) by (nonlinear_arith)
                        requires
                            len == 0,
                    ;
                    assert(mag == 0);
                }
            }
            if flr == 0 {
                if len == 0 {
                    0
                } else {
                    1
                }
            } else {
                assert(flr == 1);
                0
            }
        };
        assert(nfilled == filled_count(self@.len() as int, amt as int, tot as int));
        let ghost target = blit_spec(self@, chr, amt as int, tot as int);
        let mut v: Vec<Elem> = Vec::new();
        let mut i: usize = 0;
        while i < nfilled
            invariant
                0 <= i <= nfilled,
                nfilled <= len,
                len == self@.len(),
                fillbar_wf(*self),
                target == blit_spec(self@, chr, amt as int, tot as int),
                nfilled == filled_count(self@.len() as int, amt as int, tot as int),
                v@.len() == i,
                forall|j: int| 0 <= j < i ==> (#[trigger] v@[j]).deep_view() =~~= target[j],
            decreases nfilled - i,
        {
            let mut text = String::new();
            push_char(&mut text, chr);
            let color = self.colors[i].to_string();
            v.push(Elem { text, color });
            proof {
                assert(seq![chr] =~= Seq::<char>::empty().push(chr));
                assert(v@[i as int].deep_view() =~~= target[i as int]);
            }
            i = i + 1;
        }
        let mut blank = String::new();
        let mut k: usize = 0;
        while k < len - nfilled
            invariant
                0 <= k <= len - nfilled,
                nfilled <= len,
                blank@ =~= spaces(k as int),
            decreases len - nfilled - k,
        {
            push_char(&mut blank, ' ');
            proof {
                assert(blank@ =~= spaces(k + 1));
            }
            k = k + 1;
        }
        let black = RGB { r: 0, g: 0, b: 0 };
        v.push(Elem { text: blank, color: black.to_string() });
        proof {
            assert(v@[nfilled as int].deep_view() =~~= target[nfilled as int]);
            assert(v.deep_view() =~~= target) by {
                assert(v.deep_view().len() == target.len());
                assert(forall|j: int|
                    0 <= j < v@.len() ==> #[trigger] v.deep_view()[j] == v@[j].deep_view());
            }
        }
        v
    }
}

/// The gradient's endpoints: slot 0 is the start color and, when the
/// bar is wider than one slot, the last slot is the end color.
pub proof fn lemma_gradient_endpoints(len: int, c1: RGB, c2: RGB)
    requires
        1 <= len,
        rgb_wf(c1),
        rgb_wf(c2),
    ensures
        gradient_spec(len, c1, c2)[0] == c1,
        len > 1 ==> gradient_spec(len, c1, c2)[len - 1] == c2,
{
    if len > 1 {
        let q = len - 1;
        lemma_lerp_endpoints(c1.r as int, c2.r as int, q);
        lemma_lerp_endpoints(c1.g as int, c2.g as int, q);
        lemma_lerp_endpoints(c1.b as int, c2.b as int, q);
    }
}

proof fn lemma_lerp_endpoints(a: int, b: int, q: int)
    requires
        1 <= q,
        0 <= a < 256,
        0 <= b < 256,
    ensures
        lerp_chan_spec(a, b, 0, q) == a,
        lerp_chan_spec(a, b, q, q) == b,
{
    assert((b - a) * 0 == 0) by (nonlinear_arith);
    assert(tdiv(0, q) == 0) by {
        vstd::arithmetic::div_mod::lemma_div_of0(q);
    }
    if b >= a {
        vstd::arithmetic::div_mod::lemma_div_by_multiple(b - a, q);
        assert((b - a) * q >= 0) by (nonlinear_arith)
            requires
                b - a >= 0,
                q >= 1,
        ;
        assert(tdiv((b - a) * q, q) == b - a);
    } else {
        vstd::arithmetic::div_mod::lemma_div_by_multiple(a - b, q);
        assert((b - a) * q == -((a - b) * q)) by (nonlinear_arith);
        assert((a - b) * q >= 0) by (nonlinear_arith)
            requires
                a - b >= 0,
                q >= 1,
        ;
        assert(tdiv((b - a) * q, q) == -(a - b));
    }
}

/// Glyph count invariant: the filled glyphs and the blank width always
/// add up to the bar's capacity, and at amount zero of a nonempty bar
/// exactly one glyph is filled.
pub proof fn lemma_blit_glyph_count(colors: Seq<RGB>, chr: char, amt: int, tot: int)
    requires
        1 <= tot,
        tdiv(colors.len() * amt, tot) + 1 >= 0,
    ensures
        ({
            let v = blit_spec(colors, chr, amt, tot);
            let n = filled_count(colors.len() as int, amt, tot);
            &&& v.len() == n + 1
            &&& v[v.len() - 1].text.len() == colors.len() - n
            &&& n + (colors.len() - n) == colors.len()
        }),
        amt == 0 && colors.len() > 0 ==> filled_count(colors.len() as int, amt, tot) == 1,
{
    if amt == 0 && colors.len() > 0 {
        assert(colors.len() * 0 == 0) by (nonlinear_arith);
        vstd::arithmetic::div_mod::lemma_div_of0(tot);
        assert(filled_count(colors.len() as int, 0, tot) == 1);
    }
}

} // verus!
