//! The clock widget: local date and time as one plain segment.
use vstd::prelude::*;
use crate::render::{Elem, ElemV};
use crate::text::{dec_str, pad2, push_char, push_dec, push_pad2};
use crate::w::{Readings, TimeParts, Widget, time_wf, readings_wf};
use crate::Error;

verus! {

/// Renders the current local date and time.
pub struct DateTimeW;

/// The three-letter month abbreviation for a 0-based month number.
pub open spec fn month_name(m0: int) -> Seq<char> {
    if m0 == 0 { "Jan"@ }
    else if m0 == 1 { "Feb"@ }
    else if m0 == 2 { "Mar"@ }
    else if m0 == 3 { "Apr"@ }
    else if m0 == 4 { "May"@ }
    else if m0 == 5 { "Jun"@ }
    else if m0 == 6 { "Jul"@ }
    else if m0 == 7 { "Aug"@ }
    else if m0 == 8 { "Sep"@ }
    else if m0 == 9 { "Oct"@ }
    else if m0 == 10 { "Nov"@ }
    else { "Dec"@ }
}

/// The clock's one segment: abbreviated month, unpadded day, four
/// spaces, then zero-padded hour, minute and second.
pub open spec fn date_elems_spec(t: TimeParts) -> Seq<ElemV> {
    seq![
        ElemV {
            text: month_name(t.month0 as int) + seq![' '] + dec_str(t.day as int)
                + seq![' ', ' ', ' ', ' '] + pad2(t.hour as int) + seq![':'] + pad2(
                t.minute as int,
            ) + seq![':'] + pad2(t.second as int),
            color: "#ffffff"@,
        },
    ]
}

impl DateTimeW {
    pub fn new() -> Self {
        DateTimeW
    }

    /// Renders the given time fields as the clock's segment.
    pub fn render(&self, t: &TimeParts) -> (v: Vec<Elem>)
        requires
            time_wf(*t),
        ensures
            v.deep_view() == date_elems_spec(*t),
    {
        let name: &str = match t.month0 {
            0 => "Jan",
            1 => "Feb",
            2 => "Mar",
            3 => "Apr",
            4 => "May",
            5 => "Jun",
            6 => "Jul",
            7 => "Aug",
            8 => "Sep",
            9 => "Oct",
            10 => "Nov",
            _ => "Dec",
        };
        assert(name@ == month_name(t.month0 as int));
        let mut text = String::from_str(name);
        push_char(&mut text, ' ');
        push_dec(&mut text, t.day as u64);
        text.append("    ");
        push_pad2(&mut text, t.hour as u64);
        push_char(&mut text, ':');
        push_pad2(&mut text, t.minute as u64);
        push_char(&mut text, ':');
        push_pad2(&mut text, t.second as u64);
        let mut v: Vec<Elem> = Vec::new();
        v.push(Elem { text, color: String::from_str("#ffffff") });
        proof {
            reveal_strlit("    ");
            assert("    "@ =~= seq![' ', ' ', ' ', ' ']);
            assert(v@[0].deep_view().text =~= date_elems_spec(*t)[0].text);
            assert(v.deep_view() =~~= date_elems_spec(*t));
        }
        v
    }
}

impl Widget for DateTimeW {
    fn cooldown(&self) -> (c: i32)
        ensures
            c == 1,
    {
        1
    }

    fn blit(&self, inp: &Readings) -> (r: Result<Vec<Elem>, Error>)
        ensures
            r matches Ok(v) && v.deep_view() == date_elems_spec(inp.time),
    {
        Ok(self.render(&inp.time))
    }
}

} // verus!
