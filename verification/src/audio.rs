//! Choosing the default audio sink to swap to, from the sound server's listing.

use vstd::prelude::*;
use crate::actions::{step_view, Step, StepView};
use crate::text::{contains, contains_seq, lines, lines_of, split_whitespace, views, ws_tokens};

verus! {

/// One listing line's effect on the `(hdmi, desk)` sink names: the line's second
/// word names a sink; one with "hdmi" in its name is the HDMI sink, one with
/// "Focusrite" the desk sink, and one with "usb" the desk sink if none is known yet.
pub open spec fn sinks_step(acc: (Seq<char>, Seq<char>), line: Seq<char>) -> (Seq<char>, Seq<char>) {
    let words = ws_tokens(line);
    if words.len() >= 2 {
        let s = words[1];
        if contains_seq(s, "hdmi"@) {
            (s, acc.1)
        } else if contains_seq(s, "Focusrite"@) {
            (acc.0, s)
        } else if acc.1.len() == 0 && contains_seq(s, "usb"@) {
            (acc.0, s)
        } else {
            acc
        }
    } else {
        acc
    }
}

/// The `(hdmi, desk)` sink names that the given listing lines give, in order.
pub open spec fn sinks_fold(ls: Seq<Seq<char>>) -> (Seq<char>, Seq<char>)
    decreases ls.len(),
{
    if ls.len() == 0 {
        (Seq::empty(), Seq::empty())
    } else {
        sinks_step(sinks_fold(ls.drop_last()), ls.last())
    }
}

/// The HDMI and desk sink names in the sound server's short sink listing (empty
/// where none is found).
pub fn pick_sinks(listing: &str) -> (r: (String, String))
    ensures
        (r.0@, r.1@) == sinks_fold(lines_of(listing@)),
{
    let ls = lines(listing);
    let mut hdmi = String::new();
    let mut desk = String::new();
    let mut i: usize = 0;
    assert(lines_of(listing@).take(0) =~= Seq::<Seq<char>>::empty());
    while i < ls.len()
        invariant
            views(ls@) == lines_of(listing@),
            i <= ls@.len(),
            (hdmi@, desk@) == sinks_fold(lines_of(listing@).take(i as int)),
        decreases ls@.len() - i,
    {
        let ghost prefix = lines_of(listing@).take(i + 1);
        assert(prefix.drop_last() =~= lines_of(listing@).take(i as int));
        assert(prefix.last() == ls@[i as int]@);
        let words = split_whitespace(ls[i].as_str());
        if words.len() >= 2 {
            assert(words@[1]@ == ws_tokens(ls@[i as int]@)[1]);
            let s = words[1].as_str();
            if contains(s, "hdmi") {
                hdmi = s.to_owned();
            } else if contains(s, "Focusrite") {
                desk = s.to_owned();
            } else if desk.as_str().unicode_len() == 0 && contains(s, "usb") {
                desk = s.to_owned();
            }
        }
        i = i + 1;
    }
    assert(lines_of(listing@).take(ls@.len() as int) =~= lines_of(listing@));
    (hdmi, desk)
}

/// The sink to make the default: the desk sink when the current default is an HDMI
/// sink and a desk sink is known, else the HDMI sink if one is known, else none.
pub open spec fn swap_target_spec(current: Seq<char>, hdmi: Seq<char>, desk: Seq<char>) -> Option<Seq<char>> {
    if contains_seq(current, "hdmi"@) && desk.len() > 0 {
        Some(desk)
    } else if hdmi.len() > 0 {
        Some(hdmi)
    } else {
        None
    }
}

/// The sink to make the default, given the current default's report.
pub fn swap_target(current: &str, hdmi: &str, desk: &str) -> (r: Option<String>)
    ensures
        match r {
            Some(s) => swap_target_spec(current@, hdmi@, desk@) == Some(s@),
            None => swap_target_spec(current@, hdmi@, desk@) is None,
        },
{
    if contains(current, "hdmi") && desk.unicode_len() > 0 {
        Some(desk.to_owned())
    } else if hdmi.unicode_len() > 0 {
        Some(hdmi.to_owned())
    } else {
        None
    }
}


/// The step that makes `sink` the default sink.
pub fn set_default_sink_step(sink: &str) -> (r: Step)
    ensures
        step_view(r) == StepView::Run(seq!["pactl"@, "set-default-sink"@, sink@]),
{
    let args = vec!["pactl".to_owned(), "set-default-sink".to_owned(), sink.to_owned()];
    assert(views(args@) =~= seq!["pactl"@, "set-default-sink"@, sink@]);
    Step::Run(args)
}

} // verus!
