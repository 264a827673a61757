//! The battery widget: charge level as a tiered gradient fill bar.
use vstd::prelude::*;
use crate::fillbar::{
    FillBar, RGB, blit_spec, fillbar_wf, gradient_spec, lemma_color_lit, parse_color_spec,
};
use crate::pattern::{acpi_captures_of, battery_captures};
use crate::render::{Elem, ElemV, render_matches};
use crate::text::{all_digits, dec_str, dec_val, pad2, parse_dec, push_char, push_dec, push_pad2};
use crate::w::{Readings, Widget, readings_wf};
use crate::Error;

verus! {

/// Battery charge state; charging and discharging carry the reported
/// hours and minutes remaining.
#[derive(Clone, Copy, PartialEq, Eq, Structural, Debug)]
pub enum BatStatus {
    Charging(u64, u64),
    Discharging(u64, u64),
    Full,
}

/// Renders battery charge queried from the system's status text.
pub struct BatteryW {
    fillbars: Vec<FillBar>,
}

/// The bright color of each tier: critical, low, high, full, charging,
/// full-and-charging.
pub open spec fn bat_bright(k: int) -> Seq<char> {
    if k == 0 { "#f42c00"@ }
    else if k == 1 { "#f4db00"@ }
    else if k == 2 { "#51e800"@ }
    else if k == 3 { "#00b2f4"@ }
    else if k == 4 { "#0062d7"@ }
    else { "#ffffff"@ }
}

/// The dark gradient end of each tier.
pub open spec fn bat_dark(k: int) -> Seq<char> {
    if k == 0 { "#a81e00"@ }
    else if k == 1 { "#948500"@ }
    else if k == 2 { "#2d8200"@ }
    else if k == 3 { "#004290"@ }
    else if k == 4 { "#004290"@ }
    else { "#bbbbbb"@ }
}

/// Tier k's eight-slot bar shades from the dark to the bright color.
pub open spec fn bat_bar(k: int) -> Seq<RGB> {
    gradient_spec(
        8,
        parse_color_spec(bat_dark(k))->Some_0,
        parse_color_spec(bat_bright(k))->Some_0,
    )
}

/// The tier for a status and percentage: discharging splits by level,
/// charging and full have a tier each.
pub open spec fn bat_tier(st: BatStatus, amt: int) -> int {
    match st {
        BatStatus::Discharging(_, _) => if 0 <= amt <= 15 { 0 }
        else if amt <= 35 { 1 }
        else if amt <= 95 { 2 }
        else { 3 },
        BatStatus::Charging(_, _) => 4,
        BatStatus::Full => 5,
    }
}

/// The bar glyph: `#` while discharging, `>` otherwise.
pub open spec fn bat_glyph(st: BatStatus) -> char {
    match st {
        BatStatus::Discharging(_, _) => '#',
        _ => '>',
    }
}

/// The trailing text: hours and zero-padded minutes remaining, or
/// `full.` when fully charged.
pub open spec fn bat_time_text(st: BatStatus) -> Seq<char> {
    match st {
        BatStatus::Charging(hr, mn) => seq![' '] + dec_str(hr as int) + seq!['h'] + pad2(mn as int),
        BatStatus::Discharging(hr, mn) => seq![' '] + dec_str(hr as int) + seq!['h'] + pad2(
            mn as int,
        ),
        BatStatus::Full => "full."@,
    }
}

/// What parsing the captures of the battery status pattern yields:
/// the percentage and charge state, or a diagnostic.
pub open spec fn battery_parse_spec(caps: Option<Seq<Option<Seq<char>>>>) -> Result<
    (i32, BatStatus),
    Seq<char>,
> {
    if caps is None {
        Err("acpi doesn't match regex"@)
    } else {
        let g = caps->Some_0;
        if g.len() != 6 || !(g[1] is Some) || !(g[2] is Some) {
            Err("acpi doesn't match regex"@)
        } else {
            let amt_s = g[2]->Some_0;
            if !(amt_s.len() > 0 && all_digits(amt_s) && dec_val(amt_s) <= 0x7fff_ffff) {
                Err("invalid int"@)
            } else {
                let amt = dec_val(amt_s) as i32;
                if g[3] is Some {
                    if !(g[4] is Some) {
                        Err("acpi doesn't match regex"@)
                    } else {
                        let hr_s = g[3]->Some_0;
                        let mn_s = g[4]->Some_0;
                        if !(hr_s.len() > 0 && all_digits(hr_s) && dec_val(hr_s)
                            <= 0xffff_ffff_ffff_ffff) {
                            Err("invalid int"@)
                        } else if !(mn_s.len() > 0 && all_digits(mn_s) && dec_val(mn_s)
                            <= 0xffff_ffff_ffff_ffff) {
                            Err("invalid int"@)
                        } else if g[1]->Some_0 == "Charging"@ {
                            Ok((amt, BatStatus::Charging(dec_val(hr_s) as u64, dec_val(mn_s) as u64)))
                        } else if g[1]->Some_0 == "Discharging"@ {
                            Ok(
                                (
                                    amt,
                                    BatStatus::Discharging(
                                        dec_val(hr_s) as u64,
                                        dec_val(mn_s) as u64,
                                    ),
                                ),
                            )
                        } else {
                            Err("not charging or discharging?"@)
                        }
                    }
                } else {
                    Ok((amt, BatStatus::Full))
                }
            }
        }
    }
}

/// The battery widget's segments for a percentage and charge state.
pub open spec fn battery_elems_spec(amt: i32, st: BatStatus) -> Seq<ElemV> {
    let k = bat_tier(st, amt as int);
    seq![ElemV { text: "bat: ["@, color: "#ffffff"@ }] + blit_spec(
        bat_bar(k),
        bat_glyph(st),
        amt as int,
        100,
    ) + seq![
        ElemV { text: "]  "@, color: "#ffffff"@ },
        ElemV { text: pad2(amt as int) + "% "@, color: bat_bright(k) },
        ElemV { text: bat_time_text(st), color: "#3d3d53"@ },
    ]
}

/// The whole render outcome from the captures.
pub open spec fn battery_render_spec(caps: Option<Seq<Option<Seq<char>>>>) -> Result<
    Seq<ElemV>,
    Seq<char>,
> {
    match battery_parse_spec(caps) {
        Ok((amt, st)) => Ok(battery_elems_spec(amt, st)),
        Err(m) => Err(m),
    }
}

impl BatteryW {
    pub fn new() -> (w: BatteryW)
        ensures
            w.wf(),
    {
        proof {
            reveal_strlit("#f42c00");
            reveal_strlit("#f4db00");
            reveal_strlit("#51e800");
            reveal_strlit("#00b2f4");
            reveal_strlit("#0062d7");
            reveal_strlit("#ffffff");
            reveal_strlit("#a81e00");
            reveal_strlit("#948500");
            reveal_strlit("#2d8200");
            reveal_strlit("#004290");
            reveal_strlit("#bbbbbb");
            lemma_color_lit("#f42c00"@);
            lemma_color_lit("#f4db00"@);
            lemma_color_lit("#51e800"@);
            lemma_color_lit("#00b2f4"@);
            lemma_color_lit("#0062d7"@);
            lemma_color_lit("#ffffff"@);
            lemma_color_lit("#a81e00"@);
            lemma_color_lit("#948500"@);
            lemma_color_lit("#2d8200"@);
            lemma_color_lit("#004290"@);
            lemma_color_lit("#bbbbbb"@);
        }
        let mut fillbars: Vec<FillBar> = Vec::new();
        fillbars.push(FillBar::gradient(8, "#a81e00", "#f42c00"));
        fillbars.push(FillBar::gradient(8, "#948500", "#f4db00"));
        fillbars.push(FillBar::gradient(8, "#2d8200", "#51e800"));
        fillbars.push(FillBar::gradient(8, "#004290", "#00b2f4"));
        fillbars.push(FillBar::gradient(8, "#004290", "#0062d7"));
        fillbars.push(FillBar::gradient(8, "#bbbbbb", "#ffffff"));
        proof {
            assert(forall|k: int|
                0 <= k < 6 ==> fillbar_wf(#[trigger] fillbars@[k]) && fillbars@[k]@ == bat_bar(k));
        }
        BatteryW { fillbars }
    }

    /// Six per-tier bars, each the canonical gradient of its tier.
    #[verifier::type_invariant]
    pub closed spec fn wf(&self) -> bool {
        &&& self.fillbars@.len() == 6
        &&& forall|k: int|
            0 <= k < 6 ==> fillbar_wf(#[trigger] self.fillbars@[k]) && self.fillbars@[k]@
                == bat_bar(k)
    }

    /// Renders from the raw status text: exactly what the pattern's
    /// captures dictate, or the failure met reading the text.
    pub fn render(&self, reading: &Result<String, Error>) -> (r: Result<Vec<Elem>, Error>)
        ensures
            match reading {
                Err(e0) => r matches Err(e) && crate::error_eqv(e, *e0),
                Ok(t) => render_matches(battery_render_spec(acpi_captures_of(t@)), r),
            },
    {
        let text = match reading {
            Ok(t) => t,
            Err(e) => {
                return Err(*e);
            },
        };
        let caps = battery_captures(text.as_str());
        self.render_caps(caps)
    }

    /// Renders from already-extracted capture groups; exact for every
    /// possible group vector.
    pub fn render_caps(&self, caps: Option<Vec<Option<String>>>) -> (r: Result<Vec<Elem>, Error>)
        ensures
            render_matches(battery_render_spec(caps.deep_view()), r),
    {
        let ghost dcaps = caps.deep_view();
        let groups = match caps {
            Some(g) => g,
            None => {
                return Err(Error::BadCmdFormat("acpi doesn't match regex"));
            },
        };
        proof {
            assert(dcaps->Some_0 == groups.deep_view());
        }
        if groups.len() != 6 {
            return Err(Error::BadCmdFormat("acpi doesn't match regex"));
        }
        let status_s = match &groups[1] {
            Some(s) => s,
            None => {
                return Err(Error::BadCmdFormat("acpi doesn't match regex"));
            },
        };
        let amt_s = match &groups[2] {
            Some(s) => s,
            None => {
                return Err(Error::BadCmdFormat("acpi doesn't match regex"));
            },
        };
        let amt64 = match parse_dec(amt_s.as_str(), 0x7fff_ffff) {
            Some(n) => n,
            None => {
                return Err(Error::BadCmdFormat("invalid int"));
            },
        };
        let amt = amt64 as i32;
        let has_time = match &groups[3] {
            Some(_) => true,
            None => false,
        };
        if !has_time {
            return Ok(self.assemble(amt, BatStatus::Full));
        }
        let hr_s = match &groups[3] {
            Some(s) => s,
            None => {
                return Err(Error::BadCmdFormat("acpi doesn't match regex"));
            },
        };
        let mn_s = match &groups[4] {
            Some(s) => s,
            None => {
                return Err(Error::BadCmdFormat("acpi doesn't match regex"));
            },
        };
        let hr = match parse_dec(hr_s.as_str(), 0xffff_ffff_ffff_ffff) {
            Some(n) => n,
            None => {
                return Err(Error::BadCmdFormat("invalid int"));
            },
        };
        let mn = match parse_dec(mn_s.as_str(), 0xffff_ffff_ffff_ffff) {
            Some(n) => n,
            None => {
                return Err(Error::BadCmdFormat("invalid int"));
            },
        };
        let charging = String::from_str("Charging");
        let discharging = String::from_str("Discharging");
        if *status_s == charging {
            Ok(self.assemble(amt, BatStatus::Charging(hr, mn)))
        } else if *status_s == discharging {
            Ok(self.assemble(amt, BatStatus::Discharging(hr, mn)))
        } else {
            Err(Error::BadCmdFormat("not charging or discharging?"))
        }
    }

    /// Builds the segments for a percentage and charge state.
    fn assemble(&self, amt: i32, st: BatStatus) -> (v: Vec<Elem>)
        requires
            0 <= amt,
        ensures
            v.deep_view() == battery_elems_spec(amt, st),
    {
        proof {
            use_type_invariant(self);
        }
        let ghost target = battery_elems_spec(amt, st);
        let k: usize = match st {
            BatStatus::Discharging(_, _) => {
                if amt <= 15 { 0 }
                else if amt <= 35 { 1 }
                else if amt <= 95 { 2 }
                else { 3 }
            },
            BatStatus::Charging(_, _) => 4,
            BatStatus::Full => 5,
        };
        assert(k as int == bat_tier(st, amt as int));
        let chr: char = match st {
            BatStatus::Discharging(_, _) => '#',
            _ => '>',
        };
        let mut v: Vec<Elem> = Vec::new();
        v.push(Elem::plain("bat: ["));
        proof {
            assert((bat_bar(k as int).len() as int) * (amt as int) >= 0) by (nonlinear_arith)
                requires
                    amt >= 0,
                    bat_bar(k as int).len() >= 0,
            ;
        }
        let mut bars = self.fillbars[k].blit(chr, amt, 100);
        let ghost bdv = bars.deep_view();
        v.append(&mut bars);
        v.push(Elem::plain("]  "));
        let mut pct = String::new();
        push_pad2(&mut pct, amt as u64);
        pct.append("% ");
        let bright: &str = match k {
            0 => "#f42c00",
            1 => "#f4db00",
            2 => "#51e800",
            3 => "#00b2f4",
            4 => "#0062d7",
            _ => "#ffffff",
        };
        assert(bright@ == bat_bright(k as int));
        v.push(Elem { text: pct, color: String::from_str(bright) });
        let mut tt = String::new();
        match st {
            BatStatus::Charging(hr, mn) => {
                push_char(&mut tt, ' ');
                push_dec(&mut tt, hr);
                push_char(&mut tt, 'h');
                push_pad2(&mut tt, mn);
            },
            BatStatus::Discharging(hr, mn) => {
                push_char(&mut tt, ' ');
                push_dec(&mut tt, hr);
                push_char(&mut tt, 'h');
                push_pad2(&mut tt, mn);
            },
            BatStatus::Full => {
                tt.append("full.");
            },
        }
        proof {
            assert(tt@ =~= bat_time_text(st));
        }
        v.push(Elem { text: tt, color: String::from_str("#3d3d53") });
        proof {
            let n = bdv.len() as int;
            assert(v@.len() == n + 4);
            assert(forall|j: int| 0 <= j < n ==> v@[1 + j].deep_view() == #[trigger] bdv[j]);
            assert(v.deep_view() =~~= target) by {
                assert(forall|j: int|
                    0 <= j < v@.len() ==> #[trigger] v.deep_view()[j] == v@[j].deep_view());
            }
        }
        v
    }
}

impl Widget for BatteryW {
    fn cooldown(&self) -> (c: i32)
        ensures
            c == 6,
    {
        6
    }

    fn blit(&self, inp: &Readings) -> (r: Result<Vec<Elem>, Error>)
        ensures
            match inp.battery {
                Err(e0) => r matches Err(e) && crate::error_eqv(e, e0),
                Ok(t) => render_matches(battery_render_spec(acpi_captures_of(t@)), r),
            },
    {
        self.render(&inp.battery)
    }
}

} // verus!
