//! The memory widget: used megabytes as a single-color fill bar.
use vstd::prelude::*;
use crate::fillbar::{FillBar, RGB, blit_spec, fillbar_wf, parse_color_spec, lemma_color_lit};
use crate::pattern::{free_captures_of, memory_captures};
use crate::render::{Elem, ElemV, render_matches};
use crate::text::{all_digits, dec_str, dec_val, parse_dec, push_dec};
use crate::w::{Readings, Widget, readings_wf};
use crate::Error;

verus! {

/// Renders memory usage queried from the system's status text.
pub struct MemoryW {
    fillbar: FillBar,
}

/// The memory bar's twelve slots, all in the one green.
pub open spec fn mem_bar() -> Seq<RGB> {
    Seq::new(12, |i: int| parse_color_spec("#20ba00"@)->Some_0)
}

/// What parsing the captures of the memory status pattern yields: the
/// used and total amounts in whole megabytes, or a diagnostic.
pub open spec fn memory_parse_spec(caps: Option<Seq<Option<Seq<char>>>>) -> Result<
    (i32, i32),
    Seq<char>,
> {
    if caps is None {
        Err("free doesn't match regex"@)
    } else {
        let g = caps->Some_0;
        if g.len() != 4 || !(g[1] is Some) || !(g[2] is Some) {
            Err("free doesn't match regex"@)
        } else {
            let tot_s = g[1]->Some_0;
            let use_s = g[2]->Some_0;
            if !(use_s.len() > 0 && all_digits(use_s) && dec_val(use_s) <= 0x7fff_ffff) {
                Err("invalid int"@)
            } else if !(tot_s.len() > 0 && all_digits(tot_s) && dec_val(tot_s) <= 0x7fff_ffff) {
                Err("invalid int"@)
            } else {
                Ok(((dec_val(use_s) / 1024) as i32, (dec_val(tot_s) / 1024) as i32))
            }
        }
    }
}

/// The memory widget's segments for the given used and total megabytes.
pub open spec fn memory_elems_spec(mb_use: i32, mb_tot: i32) -> Seq<ElemV> {
    seq![ElemV { text: "mem: ["@, color: "#ffffff"@ }] + blit_spec(
        mem_bar(),
        '\\',
        mb_use as int,
        mb_tot as int,
    ) + seq![
        ElemV { text: "] "@, color: "#ffffff"@ },
        ElemV { text: dec_str(mb_use as int) + "mb"@, color: "#3d3d53"@ },
    ]
}

/// The whole render outcome from the captures: the segments, or the
/// diagnostic of the failure, counting a zero megabyte total as
/// malformed output.
pub open spec fn memory_render_spec(caps: Option<Seq<Option<Seq<char>>>>) -> Result<
    Seq<ElemV>,
    Seq<char>,
> {
    match memory_parse_spec(caps) {
        Ok((mb_use, mb_tot)) => if mb_tot == 0 {
            Err("zero total memory"@)
        } else {
            Ok(memory_elems_spec(mb_use, mb_tot))
        },
        Err(m) => Err(m),
    }
}

impl MemoryW {
    pub fn new() -> (w: MemoryW)
        ensures
            w.wf(),
    {
        proof {
            reveal_strlit("#20ba00");
            lemma_color_lit("#20ba00"@);
        }
        let fillbar = FillBar::single(12, "#20ba00");
        MemoryW { fillbar }
    }

    /// The bar holds the canonical twelve-slot green fill bar.
    #[verifier::type_invariant]
    pub closed spec fn wf(&self) -> bool {
        &&& fillbar_wf(self.fillbar)
        &&& self.fillbar@ == mem_bar()
    }

    /// Renders from the raw status text: exactly what the pattern's
    /// captures dictate, or the failure met reading the text.
    pub fn render(&self, reading: &Result<String, Error>) -> (r: Result<Vec<Elem>, Error>)
        ensures
            match reading {
                Err(e0) => r matches Err(e) && crate::error_eqv(e, *e0),
                Ok(t) => render_matches(memory_render_spec(free_captures_of(t@)), r),
            },
    {
        let text = match reading {
            Ok(t) => t,
            Err(e) => {
                return Err(*e);
            },
        };
        let caps = memory_captures(text.as_str());
        self.render_caps(caps)
    }

    /// Renders from already-extracted capture groups; exact for every
    /// possible group vector.
    pub fn render_caps(&self, caps: Option<Vec<Option<String>>>) -> (r: Result<Vec<Elem>, Error>)
        ensures
            render_matches(memory_render_spec(caps.deep_view()), r),
    {
        let ghost dcaps = caps.deep_view();
        let groups = match caps {
            Some(g) => g,
            None => {
                return Err(Error::BadCmdFormat("free doesn't match regex"));
            },
        };
        proof {
            assert(dcaps->Some_0 =~= groups.deep_view());
        }
        if groups.len() != 4 {
            return Err(Error::BadCmdFormat("free doesn't match regex"));
        }
        let tot_s = match &groups[1] {
            Some(s) => s,
            None => {
                return Err(Error::BadCmdFormat("free doesn't match regex"));
            },
        };
        let use_s = match &groups[2] {
            Some(s) => s,
            None => {
                return Err(Error::BadCmdFormat("free doesn't match regex"));
            },
        };
        let kb_use = match parse_dec(use_s.as_str(), 0x7fff_ffff) {
            Some(n) => n,
            None => {
                return Err(Error::BadCmdFormat("invalid int"));
            },
        };
        let kb_tot = match parse_dec(tot_s.as_str(), 0x7fff_ffff) {
            Some(n) => n,
            None => {
                return Err(Error::BadCmdFormat("invalid int"));
            },
        };
        let mb_use = (kb_use / 1024) as i32;
        let mb_tot = (kb_tot / 1024) as i32;
        if mb_tot == 0 {
            return Err(Error::BadCmdFormat("zero total memory"));
        }
        Ok(self.assemble(mb_use, mb_tot))
    }

    /// Builds the segments for the given used and total megabytes.
    fn assemble(&self, mb_use: i32, mb_tot: i32) -> (v: Vec<Elem>)
        requires
            0 <= mb_use,
            1 <= mb_tot,
        ensures
            v.deep_view() == memory_elems_spec(mb_use, mb_tot),
    {
        proof {
            use_type_invariant(self);
        }
        let ghost target = memory_elems_spec(mb_use, mb_tot);
        let mut v: Vec<Elem> = Vec::new();
        v.push(Elem::plain("mem: ["));
        proof {
            assert((mem_bar().len() as int) * (mb_use as int) >= 0) by (nonlinear_arith)
                requires
                    mb_use >= 0,
            ;
        }
        let mut bars = self.fillbar.blit('\\', mb_use, mb_tot);
        let ghost bdv = bars.deep_view();
        v.append(&mut bars);
        v.push(Elem::plain("] "));
        let mut mb_text = String::new();
        push_dec(&mut mb_text, mb_use as u64);
        mb_text.append("mb");
        v.push(Elem { text: mb_text, color: String::from_str("#3d3d53") });
        proof {
            let n = bdv.len() as int;
            assert(v@.len() == n + 3);
            assert(forall|j: int| 0 <= j < n ==> v@[1 + j].deep_view() == #[trigger] bdv[j]);
            assert(v.deep_view() =~~= target) by {
                assert(forall|j: int|
                    0 <= j < v@.len() ==> #[trigger] v.deep_view()[j] == v@[j].deep_view());
            }
        }
        v
    }
}

impl Widget for MemoryW {
    fn cooldown(&self) -> (c: i32)
        ensures
            c == 4,
    {
        4
    }

    fn blit(&self, inp: &Readings) -> (r: Result<Vec<Elem>, Error>)
        ensures
            match inp.memory {
                Err(e0) => r matches Err(e) && crate::error_eqv(e, e0),
                Ok(t) => render_matches(memory_render_spec(free_captures_of(t@)), r),
            },
    {
        self.render(&inp.memory)
    }
}

} // verus!
