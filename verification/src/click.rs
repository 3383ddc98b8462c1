//! Mouse clicks, and patterns of them as text.

use vstd::prelude::*;
use crate::screen::Color;
use crate::text;

verus! {

/// The type of the input events that report keys and buttons.
pub const EV_KEY: u16 = 0x01;

/// The code of the left mouse button.
pub const BTN_LEFT: u16 = 0x110;

/// The code of the right mouse button.
pub const BTN_RIGHT: u16 = 0x111;

/// The code of the middle mouse button.
pub const BTN_MIDDLE: u16 = 0x112;

/// The value of an event that reports a button going down.
pub const PRESSED: i32 = 1;

/// A single mouse click type.
#[derive(Clone, Copy, PartialEq, Eq, Structural, Debug)]
pub enum Click {
    Left,
    Right,
    Middle,
}

/// The click that a button code stands for.
pub open spec fn click_of_key(code: u16) -> Option<Click> {
    if code == BTN_LEFT {
        Some(Click::Left)
    } else if code == BTN_RIGHT {
        Some(Click::Right)
    } else if code == BTN_MIDDLE {
        Some(Click::Middle)
    } else {
        None
    }
}

/// The letter of a click.
pub open spec fn label_of(c: Click) -> char {
    match c {
        Click::Left => 'L',
        Click::Right => 'R',
        Click::Middle => 'M',
    }
}

/// The colour that a click is shown in.
pub open spec fn color_of(c: Click) -> Color {
    match c {
        Click::Left => Color::Green,
        Click::Right => Color::Cyan,
        Click::Middle => Color::Yellow,
    }
}

/// The letters of a row of clicks.
pub open spec fn labels(p: Seq<Click>) -> Seq<char> {
    p.map_values(|c: Click| label_of(c))
}

/// The click that a letter stands for, in upper or lower case.
pub open spec fn click_of_letter(c: char) -> Option<Click> {
    match text::ascii_upper(c) {
        'L' => Some(Click::Left),
        'R' => Some(Click::Right),
        'M' => Some(Click::Middle),
        _ => None,
    }
}

/// The clicks whose letters stand in a text, in order; every other character
/// is passed over.
pub open spec fn clicks_in(s: Seq<char>) -> Seq<Click>
    decreases s.len(),
{
    if s.len() == 0 {
        Seq::empty()
    } else {
        let before = clicks_in(s.drop_last());
        match click_of_letter(s.last()) {
            Some(c) => before.push(c),
            None => before,
        }
    }
}

/// `InputEvent::kind` of the `evdev` crate, on an event made from its plain
/// fields, with the code where it is a key. Claimed is that exactly the events
/// of the key type are keys, and that the key has the code of the event.
#[verifier::external_body]
fn event_key(event_type: u16, code: u16, value: i32) -> (r: Option<u16>)
    ensures
        r == (if event_type == EV_KEY {
            Some(code)
        } else {
            None
        }),
{
    match evdev::InputEvent::new(evdev::EventType(event_type), code, value).kind() {
        evdev::InputEventKind::Key(k) => Some(k.code()),
        _ => None,
    }
}

impl Click {
    /// The click that a button code stands for.
    pub fn from_key(code: u16) -> (r: Option<Click>)
        ensures
            r == click_of_key(code),
    {
        if code == BTN_LEFT {
            Some(Click::Left)
        } else if code == BTN_RIGHT {
            Some(Click::Right)
        } else if code == BTN_MIDDLE {
            Some(Click::Middle)
        } else {
            None
        }
    }

    /// The click that an input event reports: only a button that goes down
    /// counts.
    pub fn from_event(event_type: u16, code: u16, value: i32) -> (r: Option<Click>)
        ensures
            r == (if event_type == EV_KEY && value == PRESSED {
                click_of_key(code)
            } else {
                None
            }),
    {
        if value != PRESSED {
            return None;
        }
        match event_key(event_type, code, value) {
            Some(k) => Click::from_key(k),
            None => None,
        }
    }

    /// The letter of the click.
    pub fn label(self) -> (r: char)
        ensures
            r == label_of(self),
    {
        match self {
            Click::Left => 'L',
            Click::Right => 'R',
            Click::Middle => 'M',
        }
    }

    /// The colour that the click is shown in.
    pub fn color(self) -> (r: Color)
        ensures
            r == color_of(self),
    {
        match self {
            Click::Left => Color::Green,
            Click::Right => Color::Cyan,
            Click::Middle => Color::Yellow,
        }
    }
}

/// The letters of a row of clicks.
pub fn label_text(clicks: &Vec<Click>) -> (r: String)
    ensures
        r@ == labels(clicks@),
{
    let mut r: String = String::new();
    let mut i: usize = 0;
    while i < clicks.len()
        invariant
            i <= clicks@.len(),
            r@ == labels(clicks@.take(i as int)),
        decreases clicks@.len() - i,
    {
        r.push(clicks[i].label());
        assert(labels(clicks@.take(i + 1)) =~= labels(clicks@.take(i as int)).push(
            label_of(clicks@[i as int]),
        ));
        i += 1;
    }
    assert(clicks@.take(clicks@.len() as int) =~= clicks@);
    r
}

/// A copy of a row of clicks.
pub(crate) fn copy_clicks(v: &Vec<Click>) -> (r: Vec<Click>)
    ensures
        r@ == v@,
{
    let mut r: Vec<Click> = Vec::new();
    let mut i: usize = 0;
    while i < v.len()
        invariant
            i <= v@.len(),
            r@ == v@.take(i as int),
        decreases v@.len() - i,
    {
        r.push(v[i]);
        assert(v@.take(i + 1) =~= v@.take(i as int).push(v@[i as int]));
        i += 1;
    }
    assert(v@.take(v@.len() as int) =~= v@);
    r
}

/// Reads a pattern such as `LLRRL` or `L,R,M`; separators are passed over.
pub fn parse_pattern(s: &str) -> (r: Vec<Click>)
    ensures
        r@ == clicks_in(s@),
{
    let mut r: Vec<Click> = Vec::new();
    for c in it: s.chars()
        invariant
            r@ == clicks_in(s@.take(it.index())),
            it.seq() == s@,
    {
        assert(s@.take(it.index() + 1).drop_last() =~= s@.take(it.index()));
        match text::to_ascii_upper(c) {
            'L' => r.push(Click::Left),
            'R' => r.push(Click::Right),
            'M' => r.push(Click::Middle),
            _ => {},
        }
    }
    assert(s@.take(s@.len() as int) =~= s@);
    r
}

/// The clicks of a text are those of its first part, then those of the rest.
pub proof fn law_clicks_in_parts(a: Seq<char>, b: Seq<char>)
    ensures
        clicks_in(a + b) == clicks_in(a) + clicks_in(b),
    decreases b.len(),
{
    if b.len() == 0 {
        assert(a + b =~= a);
        assert(clicks_in(a) + clicks_in(b) =~= clicks_in(a));
    } else {
        law_clicks_in_parts(a, b.drop_last());
        assert((a + b).drop_last() =~= a + b.drop_last());
        assert(clicks_in(a + b) =~= clicks_in(a) + clicks_in(b));
    }
}

/// A character that stands for no click can be left out of a pattern, or put
/// in, wherever it stands.
pub proof fn law_separators_are_ignored(a: Seq<char>, c: char, b: Seq<char>)
    requires
        click_of_letter(c) is None,
    ensures
        clicks_in(a + seq![c] + b) == clicks_in(a + b),
{
    law_clicks_in_parts(a + seq![c], b);
    law_clicks_in_parts(a, seq![c]);
    law_clicks_in_parts(a, b);
    assert(seq![c].drop_last() =~= Seq::<char>::empty());
    assert(clicks_in(seq![c].drop_last()) =~= Seq::<Click>::empty());
    assert(clicks_in(a) + clicks_in(seq![c]) =~= clicks_in(a));
}

/// The case of the letters makes no difference to a pattern.
pub proof fn law_case_is_ignored(s: Seq<char>)
    ensures
        clicks_in(text::lowered(s)) == clicks_in(s),
    decreases s.len(),
{
    if s.len() > 0 {
        law_case_is_ignored(s.drop_last());
        assert(text::lowered(s).drop_last() =~= text::lowered(s.drop_last()));
    }
}

/// The letters of a pattern read back as the pattern.
pub proof fn law_pattern_round_trip(p: Seq<Click>)
    ensures
        clicks_in(labels(p)) == p,
    decreases p.len(),
{
    if p.len() == 0 {
        assert(clicks_in(labels(p)) =~= p);
    } else {
        law_pattern_round_trip(p.drop_last());
        assert(labels(p).drop_last() =~= labels(p.drop_last()));
        assert(labels(p).last() == label_of(p.last()));
        assert(clicks_in(labels(p)) =~= p);
    }
}

/// The letters of the clicks: `L`, `R` and `M` are written, these and their lower
/// case are read, and no other character stands for a click.
pub proof fn law_letters_of_the_clicks(c: char)
    ensures
        label_of(Click::Left) == 'L',
        label_of(Click::Right) == 'R',
        label_of(Click::Middle) == 'M',
        click_of_letter(c) == Some(Click::Left) <==> c == 'L' || c == 'l',
        click_of_letter(c) == Some(Click::Right) <==> c == 'R' || c == 'r',
        click_of_letter(c) == Some(Click::Middle) <==> c == 'M' || c == 'm',
{
}

/// The buttons of the mouse by their codes in the input events of Linux.
pub proof fn law_codes_of_the_buttons(code: u16)
    ensures
        click_of_key(code) == Some(Click::Left) <==> code == 0x110,
        click_of_key(code) == Some(Click::Right) <==> code == 0x111,
        click_of_key(code) == Some(Click::Middle) <==> code == 0x112,
        EV_KEY == 1,
        PRESSED == 1,
{
}

/// A click is shown in a colour of its own.
pub proof fn law_colours_of_the_clicks()
    ensures
        color_of(Click::Left) == Color::Green,
        color_of(Click::Right) == Color::Cyan,
        color_of(Click::Middle) == Color::Yellow,
{
}

/// The letters of a row of clicks are one for each, in order.
pub proof fn law_letters_one_for_each(p: Seq<Click>, i: int)
    requires
        0 <= i < p.len(),
    ensures
        labels(p).len() == p.len(),
        labels(p)[i] == 'L' <==> p[i] == Click::Left,
        labels(p)[i] == 'R' <==> p[i] == Click::Right,
        labels(p)[i] == 'M' <==> p[i] == Click::Middle,
{
}

} // verus!
