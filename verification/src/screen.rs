//! What the setup program shows: three panels, made of lines of styled text.

use vstd::prelude::*;
use crate::click;
use crate::click::Click;
use crate::keys;
use crate::number;
use crate::service;
use crate::setup::{App, Mode, State};
use crate::text;

verus! {

/// A colour of the terminal.
#[derive(Clone, Copy, PartialEq, Eq, Structural, Debug)]
pub enum Color {
    Red,
    Green,
    Yellow,
    Cyan,
    Gray,
    DarkGray,
}

/// How a piece of text looks.
#[derive(Clone, Copy, PartialEq, Eq, Structural, Debug)]
pub struct Style {
    pub fg: Option<Color>,
    pub bold: bool,
}

/// A piece of text with one look.
pub struct Span {
    pub text: String,
    pub style: Style,
}

impl View for Span {
    type V = (Seq<char>, Style);

    open spec fn view(&self) -> (Seq<char>, Style) {
        (self.text@, self.style)
    }
}

/// A line of text.
pub struct Line {
    pub spans: Vec<Span>,
}

impl View for Line {
    type V = Seq<(Seq<char>, Style)>;

    open spec fn view(&self) -> Seq<(Seq<char>, Style)> {
        span_views(self.spans@)
    }
}

/// Each span by its view.
pub open spec fn span_views(v: Seq<Span>) -> Seq<(Seq<char>, Style)> {
    v.map_values(|s: Span| s@)
}

/// Each line by its view.
pub open spec fn line_views(v: Seq<Line>) -> Seq<Seq<(Seq<char>, Style)>> {
    v.map_values(|l: Line| l@)
}

/// Text as it is.
pub open spec fn plain(t: Seq<char>) -> (Seq<char>, Style) {
    (t, Style { fg: None, bold: false })
}

/// Text in a colour.
pub open spec fn colored(t: Seq<char>, c: Color) -> (Seq<char>, Style) {
    (t, Style { fg: Some(c), bold: false })
}

/// Text in bold and in a colour.
pub open spec fn strong(t: Seq<char>, c: Color) -> (Seq<char>, Style) {
    (t, Style { fg: Some(c), bold: true })
}

/// Text in bold, as the title of a panel is.
pub open spec fn titled(t: Seq<char>) -> (Seq<char>, Style) {
    (t, Style { fg: None, bold: true })
}

/// The name of a setting.
pub open spec fn labelled(t: Seq<char>) -> (Seq<char>, Style) {
    strong(t, Color::Gray)
}

/// A key to press.
pub open spec fn keyed(k: Seq<char>) -> (Seq<char>, Style) {
    strong("["@ + k + "]"@, Color::Yellow)
}

/// Text as it is.
fn raw(t: &str) -> (r: Span)
    ensures
        r@ == plain(t@),
{
    Span { text: t.to_owned(), style: Style { fg: None, bold: false } }
}

/// Text in a colour.
fn tinted(t: &str, c: Color) -> (r: Span)
    ensures
        r@ == colored(t@, c),
{
    Span { text: t.to_owned(), style: Style { fg: Some(c), bold: false } }
}

/// The title of a panel.
fn title(t: &str) -> (r: Span)
    ensures
        r@ == titled(t@),
{
    Span { text: t.to_owned(), style: Style { fg: None, bold: true } }
}

/// The name of a setting.
pub fn label(t: &str) -> (r: Span)
    ensures
        r@ == labelled(t@),
{
    Span { text: t.to_owned(), style: Style { fg: Some(Color::Gray), bold: true } }
}

/// A key to press.
pub fn key(k: &str) -> (r: Span)
    ensures
        r@ == keyed(k@),
{
    Span { text: text::join3("[", k, "]"), style: Style { fg: Some(Color::Yellow), bold: true } }
}

/// Adds a span to the end of a line.
fn add_span(v: &mut Vec<Span>, s: Span)
    ensures
        span_views(final(v)@) == span_views(old(v)@).push(s@),
{
    v.push(s);
    assert(span_views(v@) =~= span_views(old(v)@).push(s@));
}

/// Adds a line to the end of a row of lines.
fn add_line(v: &mut Vec<Line>, spans: Vec<Span>)
    ensures
        line_views(final(v)@) == line_views(old(v)@).push(span_views(spans@)),
{
    let l: Line = Line { spans };
    v.push(l);
    assert(line_views(v@) =~= line_views(old(v)@).push(l@));
}

/// The letter of each click in its colour, a space between two.
pub open spec fn clicks_shown(p: Seq<Click>) -> Seq<(Seq<char>, Style)>
    decreases p.len(),
{
    if p.len() == 0 {
        Seq::empty()
    } else {
        let before = clicks_shown(p.drop_last());
        let spaced = if p.len() > 1 {
            before.push(plain(" "@))
        } else {
            before
        };
        spaced.push(strong(seq![click::label_of(p.last())], click::color_of(p.last())))
    }
}

/// The letter of each click in its colour, a space between two.
pub fn click_spans(clicks: &Vec<Click>) -> (r: Vec<Span>)
    ensures
        span_views(r@) == clicks_shown(clicks@),
{
    let mut r: Vec<Span> = Vec::new();
    let mut i: usize = 0;
    assert(span_views(r@) =~= Seq::empty());
    while i < clicks.len()
        invariant
            i <= clicks@.len(),
            span_views(r@) == clicks_shown(clicks@.take(i as int)),
        decreases clicks@.len() - i,
    {
        assert(clicks@.take(i + 1).drop_last() =~= clicks@.take(i as int));
        if i > 0 {
            add_span(&mut r, raw(" "));
        }
        let c: Click = clicks[i];
        let mut letter: String = String::new();
        letter.push(c.label());
        assert(letter@ =~= seq![click::label_of(c)]);
        add_span(
            &mut r,
            Span { text: letter, style: Style { fg: Some(c.color()), bold: true } },
        );
        i += 1;
    }
    assert(clicks@.take(clicks@.len() as int) =~= clicks@);
    r
}

/// Adds the spans of one row to another.
fn add_spans(v: &mut Vec<Span>, more: Vec<Span>)
    ensures
        span_views(final(v)@) == span_views(old(v)@) + span_views(more@),
{
    let mut more: Vec<Span> = more;
    let ghost all = more@;
    v.append(&mut more);
    assert(span_views(v@) =~= span_views(old(v)@) + span_views(all));
}

/// What is said of the pattern: the clicks that are recorded, or recorded and
/// not saved; a saved one stays hidden.
pub open spec fn pattern_shown(s: State) -> Seq<(Seq<char>, Style)> {
    if s.mode == Mode::Recording {
        if s.record_buf.len() == 0 {
            seq![colored("(recording…)"@, Color::Red)]
        } else {
            clicks_shown(s.record_buf)
        }
    } else {
        match s.new_pattern {
            Some(p) => clicks_shown(p).push(colored("  (new, unsaved)"@, Color::Yellow)),
            None => if s.existing_hash is Some {
                seq![colored("configured (hidden, hashed)"@, Color::Green)]
            } else {
                seq![colored("(not set)"@, Color::DarkGray)]
            },
        }
    }
}

/// What is said of the second factor.
pub open spec fn usb_shown(s: State) -> (Seq<char>, Style) {
    match s.require_usb {
        Some(u) => colored(u, Color::Green),
        None => colored("(none — optional)"@, Color::DarkGray),
    }
}

/// What is said of root.
pub open spec fn root_shown(root: bool) -> (Seq<char>, Style) {
    if root {
        colored("root: yes"@, Color::Green)
    } else {
        colored("root: no (sudo needed to install)"@, Color::Yellow)
    }
}

/// The line of what is edited, where something is.
pub open spec fn edit_shown(s: State) -> Seq<Seq<(Seq<char>, Style)>> {
    match s.mode {
        Mode::EditTimeout => seq![
            seq![colored("New timeout (ms): "@, Color::Cyan), plain(s.input + "_"@)],
        ],
        Mode::EditCmd => seq![
            seq![colored("New unlock cmd: "@, Color::Cyan), plain(s.input + "_"@)],
        ],
        _ => Seq::empty(),
    }
}

/// The lines of the settings.
pub open spec fn info_shown(s: State, root: bool) -> Seq<Seq<(Seq<char>, Style)>> {
    seq![
        seq![labelled("Pattern : "@)] + pattern_shown(s),
        seq![labelled("Timeout : "@), plain(number::decimal(s.timeout_ms) + " ms"@)],
        seq![labelled("Unlock  : "@), plain(s.unlock_cmd)],
        seq![labelled("USB 2FA : "@), usb_shown(s)],
        seq![
            labelled("Lockout : "@),
            plain(
                "after "@ + number::decimal(s.max_failures) + " fails, "@ + number::decimal(
                    s.lockout_base_ms,
                ) + "–"@ + number::decimal(s.lockout_max_ms) + " ms backoff"@,
            ),
        ],
        seq![
            labelled("Config  : "@),
            plain(service::place_of(root)),
            plain("   "@),
            root_shown(root),
        ],
    ] + edit_shown(s)
}

/// What is said of the pattern, behind its name.
fn pattern_line(app: &App) -> (r: Vec<Span>)
    ensures
        span_views(r@) == seq![labelled("Pattern : "@)] + pattern_shown(app@),
{
    let mut r: Vec<Span> = Vec::new();
    add_span(&mut r, label("Pattern : "));
    assert(span_views(r@) =~= seq![labelled("Pattern : "@)]);
    if app.mode == Mode::Recording {
        if app.record_buf.len() == 0 {
            add_span(&mut r, tinted("(recording…)", Color::Red));
        } else {
            add_spans(&mut r, click_spans(&app.record_buf));
        }
    } else {
        match &app.new_pattern {
            Some(p) => {
                add_spans(&mut r, click_spans(p));
                add_span(&mut r, tinted("  (new, unsaved)", Color::Yellow));
            },
            None => {
                if app.existing_hash.is_some() {
                    add_span(&mut r, tinted("configured (hidden, hashed)", Color::Green));
                } else {
                    add_span(&mut r, tinted("(not set)", Color::DarkGray));
                }
            },
        }
    }
    assert(span_views(r@) =~= seq![labelled("Pattern : "@)] + pattern_shown(app@));
    r
}

/// A name and what is said of it.
fn pair(a: Span, b: Span) -> (r: Vec<Span>)
    ensures
        span_views(r@) == seq![a@, b@],
{
    let mut r: Vec<Span> = Vec::new();
    r.push(a);
    r.push(b);
    assert(span_views(r@) =~= seq![a@, b@]);
    r
}

/// The lines of the settings.
pub fn info_lines(app: &App, root: bool) -> (r: Vec<Line>)
    ensures
        line_views(r@) == info_shown(app@, root),
{
    let mut r: Vec<Line> = Vec::new();
    add_line(&mut r, pattern_line(app));
    let timeout: String = text::join(number::to_decimal(app.timeout_ms).as_str(), " ms");
    add_line(&mut r, pair(label("Timeout : "), raw(timeout.as_str())));
    add_line(&mut r, pair(label("Unlock  : "), raw(app.unlock_cmd.as_str())));
    let usb: Span = match &app.require_usb {
        Some(u) => tinted(u.as_str(), Color::Green),
        None => tinted("(none — optional)", Color::DarkGray),
    };
    add_line(&mut r, pair(label("USB 2FA : "), usb));
    let mut lockout: String = text::join3(
        "after ",
        number::to_decimal(app.max_failures as u64).as_str(),
        " fails, ",
    );
    lockout.append(number::to_decimal(app.lockout_base_ms).as_str());
    lockout.append("–");
    lockout.append(number::to_decimal(app.lockout_max_ms).as_str());
    lockout.append(" ms backoff");
    add_line(&mut r, pair(label("Lockout : "), raw(lockout.as_str())));
    let mut place: Vec<Span> = pair(
        label("Config  : "),
        raw(service::config_display(root).as_str()),
    );
    add_span(&mut place, raw("   "));
    add_span(
        &mut place,
        if root {
            tinted("root: yes", Color::Green)
        } else {
            tinted("root: no (sudo needed to install)", Color::Yellow)
        },
    );
    assert(span_views(place@) =~= seq![
        labelled("Config  : "@),
        plain(service::place_of(root)),
        plain("   "@),
        root_shown(root),
    ]);
    add_line(&mut r, place);
    match app.mode {
        Mode::EditTimeout => {
            let input: String = text::join(app.input.as_str(), "_");
            add_line(
                &mut r,
                pair(tinted("New timeout (ms): ", Color::Cyan), raw(input.as_str())),
            );
        },
        Mode::EditCmd => {
            let input: String = text::join(app.input.as_str(), "_");
            add_line(
                &mut r,
                pair(tinted("New unlock cmd: ", Color::Cyan), raw(input.as_str())),
            );
        },
        _ => {},
    }
    assert(line_views(r@) =~= info_shown(app@, root));
    r
}

/// Adds a key and what it does to the end of a line.
fn add_key(v: &mut Vec<Span>, k: &str, does: &str)
    ensures
        span_views(final(v)@) == span_views(old(v)@).push(keyed(k@)).push(plain(does@)),
{
    add_span(v, key(k));
    add_span(v, raw(does));
}

/// A line of one key and what it does.
fn one_key(k: &str, does: &str) -> (r: Vec<Span>)
    ensures
        span_views(r@) == seq![keyed(k@), plain(does@)],
{
    pair(key(k), raw(does))
}

/// A line of two keys and what they do.
fn two_keys(k: &str, does: &str, k2: &str, does2: &str) -> (r: Vec<Span>)
    ensures
        span_views(r@) == seq![keyed(k@), plain(does@), keyed(k2@), plain(does2@)],
{
    let mut r: Vec<Span> = one_key(k, does);
    add_key(&mut r, k2, does2);
    assert(span_views(r@) =~= seq![keyed(k@), plain(does@), keyed(k2@), plain(does2@)]);
    r
}

/// A line of one span.
fn single(a: Span) -> (r: Vec<Span>)
    ensures
        span_views(r@) == seq![a@],
{
    let mut r: Vec<Span> = Vec::new();
    r.push(a);
    assert(span_views(r@) =~= seq![a@]);
    r
}

/// How many devices can be picked from.
pub const USB_CHOICES: usize = 9;

/// How many of a row of devices are offered.
pub open spec fn offered(n: nat) -> nat {
    if n < USB_CHOICES {
        n
    } else {
        USB_CHOICES as nat
    }
}

/// The line of a device that can be picked.
pub open spec fn usb_row(i: int, d: (Seq<char>, Seq<char>)) -> Seq<(Seq<char>, Style)> {
    seq![
        keyed(number::decimal((i + 1) as nat)),
        plain(" "@ + d.1 + "  "@),
        colored(d.0, Color::DarkGray),
    ]
}

/// The lines of the devices that can be picked.
pub open spec fn usb_rows(devices: Seq<(Seq<char>, Seq<char>)>) -> Seq<Seq<(Seq<char>, Style)>> {
    if devices.len() == 0 {
        seq![seq![colored("  (no USB devices detected)"@, Color::DarkGray)]]
    } else {
        Seq::new(offered(devices.len()), |i: int| usb_row(i, devices[i]))
    }
}

/// The lines of what can be done.
pub open spec fn actions_shown(s: State) -> Seq<Seq<(Seq<char>, Style)>> {
    match s.mode {
        Mode::Recording => seq![
            seq![plain("Click in this window to add:  Left=L   Right=R   Middle=M"@)],
            seq![
                keyed("Backspace"@),
                plain(" undo   "@),
                keyed("Enter"@),
                plain(" save   "@),
                keyed("Esc"@),
                plain(" cancel"@),
            ],
        ],
        Mode::EditTimeout | Mode::EditCmd => seq![
            seq![plain("Type a value, then confirm."@)],
            seq![
                keyed("Enter"@),
                plain(" confirm   "@),
                keyed("Esc"@),
                plain(" cancel   "@),
                keyed("Backspace"@),
                plain(" delete"@),
            ],
        ],
        Mode::UsbSelect => seq![seq![titled("Select a USB device as the second factor:"@)]]
            + usb_rows(s.usb_list) + seq![
            seq![keyed("c"@), plain(" disable USB factor   "@), keyed("Esc"@), plain(" cancel"@)],
        ],
        Mode::Normal => seq![
            seq![
                keyed("r"@),
                plain(" Record pattern     "@),
                keyed("c"@),
                plain(" Clear pattern"@),
            ],
            seq![
                keyed("t"@),
                plain(" Edit timeout       "@),
                keyed("u"@),
                plain(" Edit unlock cmd"@),
            ],
            seq![keyed("k"@), plain(" USB factor (optional)"@)],
            seq![
                keyed("1"@),
                plain(" Save config        "@),
                keyed("2"@),
                plain(" Install service"@),
            ],
            seq![
                keyed("3"@),
                plain(" Save + Install     "@),
                keyed("4"@),
                plain(" Uninstall service"@),
            ],
            seq![keyed("q"@), plain(" Quit"@)],
        ],
    }
}

/// Adds the lines of the devices that can be picked.
fn add_usb_lines(r: &mut Vec<Line>, app: &App)
    ensures
        line_views(final(r)@) == line_views(old(r)@) + usb_rows(app@.usb_list),
{
    let ghost before = line_views(r@);
    let ghost rows = usb_rows(app@.usb_list);
    if app.usb_list.len() == 0 {
        add_line(r, single(tinted("  (no USB devices detected)", Color::DarkGray)));
    } else {
        let n: usize = if app.usb_list.len() < USB_CHOICES {
            app.usb_list.len()
        } else {
            USB_CHOICES
        };
        let mut i: usize = 0;
        assert(rows.len() == n);
        assert(before + rows.take(0) =~= before);
        while i < n
            invariant
                i <= n <= app.usb_list@.len(),
                n <= USB_CHOICES,
                n == rows.len(),
                app.usb_list@.len() > 0,
                rows == usb_rows(app@.usb_list),
                line_views(r@) == before + rows.take(i as int),
            decreases n - i,
        {
            assert(app@.usb_list[i as int] == app.usb_list@[i as int]@);
            let number: String = number::to_decimal((i + 1) as u64);
            let name: String = text::join3(" ", app.usb_list[i].name.as_str(), "  ");
            let mut line: Vec<Span> = pair(key(number.as_str()), raw(name.as_str()));
            add_span(&mut line, tinted(app.usb_list[i].id.as_str(), Color::DarkGray));
            assert(span_views(line@) =~= usb_row(i as int, app@.usb_list[i as int]));
            add_line(r, line);
            assert(before + rows.take(i + 1) =~= (before + rows.take(i as int)).push(
                rows[i as int],
            ));
            i += 1;
        }
        assert(rows.take(n as int) =~= rows);
    }
    assert(line_views(r@) =~= before + rows);
}

/// The lines of what can be done.
pub fn action_lines(app: &App) -> (r: Vec<Line>)
    ensures
        line_views(r@) == actions_shown(app@),
{
    let mut r: Vec<Line> = Vec::new();
    match app.mode {
        Mode::Recording => {
            add_line(
                &mut r,
                single(raw("Click in this window to add:  Left=L   Right=R   Middle=M")),
            );
            let mut keys: Vec<Span> = two_keys("Backspace", " undo   ", "Enter", " save   ");
            add_key(&mut keys, "Esc", " cancel");
            assert(span_views(keys@) =~= actions_shown(app@)[1]);
            add_line(&mut r, keys);
        },
        Mode::EditTimeout | Mode::EditCmd => {
            add_line(&mut r, single(raw("Type a value, then confirm.")));
            let mut keys: Vec<Span> = two_keys("Enter", " confirm   ", "Esc", " cancel   ");
            add_key(&mut keys, "Backspace", " delete");
            assert(span_views(keys@) =~= actions_shown(app@)[1]);
            add_line(&mut r, keys);
        },
        Mode::UsbSelect => {
            add_line(&mut r, single(title("Select a USB device as the second factor:")));
            add_usb_lines(&mut r, app);
            add_line(&mut r, two_keys("c", " disable USB factor   ", "Esc", " cancel"));
        },
        Mode::Normal => {
            add_line(&mut r, two_keys("r", " Record pattern     ", "c", " Clear pattern"));
            add_line(&mut r, two_keys("t", " Edit timeout       ", "u", " Edit unlock cmd"));
            add_line(&mut r, one_key("k", " USB factor (optional)"));
            add_line(&mut r, two_keys("1", " Save config        ", "2", " Install service"));
            add_line(&mut r, two_keys("3", " Save + Install     ", "4", " Uninstall service"));
            add_line(&mut r, one_key("q", " Quit"));
        },
    }
    assert(line_views(r@) =~= actions_shown(app@));
    r
}

/// How high a panel is, in rows with its border.
#[derive(Clone, Copy, PartialEq, Eq, Structural, Debug)]
pub enum Height {
    Exactly(u16),
    AtLeast(u16),
}

/// What is in a panel.
pub enum Content {
    Lines(Vec<Line>),
    Text(String),
}

/// What is shown in a panel.
pub enum Shown {
    Lines(Seq<Seq<(Seq<char>, Style)>>),
    Text(Seq<char>),
}

/// A panel with a border and a title. Long lines are broken, and lose their
/// leading white space, where `wrap` is set; otherwise they are cut.
pub struct Panel {
    pub title: Span,
    pub content: Content,
    pub height: Height,
    pub wrap: bool,
}

/// What a panel shows.
pub struct Frame {
    pub title: (Seq<char>, Style),
    pub content: Shown,
    pub height: Height,
    pub wrap: bool,
}

impl View for Panel {
    type V = Frame;

    open spec fn view(&self) -> Frame {
        Frame {
            title: self.title@,
            content: match self.content {
                Content::Lines(l) => Shown::Lines(line_views(l@)),
                Content::Text(t) => Shown::Text(t@),
            },
            height: self.height,
            wrap: self.wrap,
        }
    }
}

/// Each panel by its view.
pub open spec fn panel_views(v: Seq<Panel>) -> Seq<Frame> {
    v.map_values(|p: Panel| p@)
}

/// The panels of the program, from top to bottom.
pub open spec fn ui_shown(s: State, root: bool) -> Seq<Frame> {
    seq![
        Frame {
            title: titled(" Mouse Unlock — Setup "@),
            content: Shown::Lines(info_shown(s, root)),
            height: Height::Exactly(11),
            wrap: false,
        },
        Frame {
            title: titled(" Actions "@),
            content: Shown::Lines(actions_shown(s)),
            height: Height::AtLeast(8),
            wrap: true,
        },
        Frame {
            title: titled(" Status "@),
            content: Shown::Text(s.status),
            height: Height::Exactly(3),
            wrap: true,
        },
    ]
}

/// The panels of the program, from top to bottom.
pub fn ui(app: &App, root: bool) -> (r: Vec<Panel>)
    ensures
        panel_views(r@) == ui_shown(app@, root),
{
    let mut r: Vec<Panel> = Vec::new();
    r.push(
        Panel {
            title: title(" Mouse Unlock — Setup "),
            content: Content::Lines(info_lines(app, root)),
            height: Height::Exactly(11),
            wrap: false,
        },
    );
    r.push(
        Panel {
            title: title(" Actions "),
            content: Content::Lines(action_lines(app)),
            height: Height::AtLeast(8),
            wrap: true,
        },
    );
    r.push(
        Panel {
            title: title(" Status "),
            content: Content::Text(app.status.clone()),
            height: Height::Exactly(3),
            wrap: true,
        },
    );
    assert(panel_views(r@) =~= ui_shown(app@, root));
    r
}

/// A saved pattern is never shown: the screen tells whether there is a hash, and
/// does not depend on which one it is.
pub proof fn law_saved_pattern_stays_hidden(s: State, hash: Seq<char>, other: Seq<char>, root: bool)
    requires
        s.existing_hash == Some(hash),
    ensures
        ui_shown(State { existing_hash: Some(other), ..s }, root) == ui_shown(s, root),
{
    assert(pattern_shown(State { existing_hash: Some(other), ..s }) == pattern_shown(s));
    assert(info_shown(State { existing_hash: Some(other), ..s }, root) =~= info_shown(s, root));
    assert(actions_shown(State { existing_hash: Some(other), ..s }) =~= actions_shown(s));
}

/// The keys that pick a device are those that its line shows: the digit on the
/// line of a device picks that device.
pub proof fn law_shown_number_picks_the_device(s: State, i: int)
    requires
        s.mode == Mode::UsbSelect,
        0 <= i < offered(s.usb_list.len()),
    ensures
        actions_shown(s)[i + 1] == usb_row(i, s.usb_list[i]),
        keyed(number::decimal((i + 1) as nat)) == keyed(seq![('1' as u32 + i) as char]),
        keys::key(s, keys::KeyCode::Char(('1' as u32 + i) as char)).require_usb == Some(
            s.usb_list[i].0,
        ),
{
    assert(usb_rows(s.usb_list)[i] == usb_row(i, s.usb_list[i]));
    assert(number::decimal((i + 1) as nat) =~= seq![('1' as u32 + i) as char]);
}

/// The text of a line, whatever its looks.
pub open spec fn line_text(line: Seq<(Seq<char>, Style)>) -> Seq<char>
    decreases line.len(),
{
    if line.len() == 0 {
        Seq::empty()
    } else {
        line_text(line.drop_last()) + line.last().0
    }
}

proof fn lemma_line_text(a: (Seq<char>, Style), rest: Seq<(Seq<char>, Style)>)
    ensures
        line_text(seq![a]) == a.0,
        line_text(seq![a] + rest) == a.0 + line_text(rest),
    decreases rest.len(),
{
    let one = seq![a];
    assert(one.drop_last() =~= Seq::<(Seq<char>, Style)>::empty());
    assert(line_text(one.drop_last()) =~= Seq::<char>::empty());
    assert(Seq::<char>::empty() + a.0 =~= a.0);
    if rest.len() == 0 {
        assert(one + rest =~= one);
        assert(a.0 + line_text(rest) =~= a.0);
    } else {
        lemma_line_text(a, rest.drop_last());
        assert((one + rest).drop_last() =~= one + rest.drop_last());
        assert((one + rest).last() == rest.last());
        assert(a.0 + line_text(rest.drop_last()) + rest.last().0 =~= a.0 + (line_text(
            rest.drop_last(),
        ) + rest.last().0));
    }
}

proof fn lemma_text_of_two(a: (Seq<char>, Style), b: (Seq<char>, Style))
    ensures
        line_text(seq![a, b]) == a.0 + b.0,
{
    lemma_line_text(a, seq![b]);
    lemma_line_text(b, Seq::empty());
    assert(seq![a] + seq![b] =~= seq![a, b]);
}

proof fn lemma_text_of_four(
    a: (Seq<char>, Style),
    b: (Seq<char>, Style),
    c: (Seq<char>, Style),
    d: (Seq<char>, Style),
)
    ensures
        line_text(seq![a, b, c, d]) == a.0 + b.0 + c.0 + d.0,
{
    lemma_text_of_two(c, d);
    lemma_line_text(b, seq![c, d]);
    lemma_line_text(a, seq![b, c, d]);
    assert(seq![b] + seq![c, d] =~= seq![b, c, d]);
    assert(seq![a] + seq![b, c, d] =~= seq![a, b, c, d]);
    assert(a.0 + (b.0 + (c.0 + d.0)) =~= a.0 + b.0 + c.0 + d.0);
}

/// The looks of a piece of text: in a colour or not, in bold or not.
pub proof fn law_the_looks_of_text(t: Seq<char>, c: Color)
    ensures
        plain(t) == (t, Style { fg: None, bold: false }),
        colored(t, c) == (t, Style { fg: Some(c), bold: false }),
        strong(t, c) == (t, Style { fg: Some(c), bold: true }),
        titled(t) == (t, Style { fg: None, bold: true }),
        labelled(t) == (t, Style { fg: Some(Color::Gray), bold: true }),
        keyed(t) == ("["@ + t + "]"@, Style { fg: Some(Color::Yellow), bold: true }),
{
}

/// Clicks are shown one by one, all of them, each by its letter and in its colour,
/// with a space between two.
pub proof fn law_clicks_are_shown_one_by_one(p: Seq<Click>, i: int)
    requires
        0 <= i < p.len(),
    ensures
        clicks_shown(p).len() == 2 * p.len() - 1,
        p[i] == Click::Left ==> clicks_shown(p)[2 * i] == (
            seq!['L'],
            Style { fg: Some(Color::Green), bold: true },
        ),
        p[i] == Click::Right ==> clicks_shown(p)[2 * i] == (
            seq!['R'],
            Style { fg: Some(Color::Cyan), bold: true },
        ),
        p[i] == Click::Middle ==> clicks_shown(p)[2 * i] == (
            seq!['M'],
            Style { fg: Some(Color::Yellow), bold: true },
        ),
        i + 1 < p.len() ==> clicks_shown(p)[2 * i + 1].0 == " "@,
    decreases p.len(),
{
    reveal_with_fuel(clicks_shown, 2);
    if i + 1 < p.len() {
        let r = p.drop_last();
        law_clicks_are_shown_one_by_one(r, i);
        assert(r[i] == p[i]);
        assert(clicks_shown(p)[2 * i] == clicks_shown(r)[2 * i]);
        if i + 1 < r.len() {
            assert(clicks_shown(p)[2 * i + 1] == clicks_shown(r)[2 * i + 1]);
        }
    } else if p.len() > 1 {
        let r = p.drop_last();
        law_clicks_are_shown_one_by_one(r, i - 1);
    }
}

/// The first line tells of the pattern: while one is recorded its clicks so far,
/// one that is recorded and not saved by its clicks, one that is saved only by
/// being there, or that there is none.
pub proof fn law_what_is_shown_of_the_pattern(s: State, root: bool)
    ensures
        ({
            let line = info_shown(s, root)[0];
            let rest = line.skip(1);
            &&& line.len() > 0
            &&& line[0].0 == "Pattern : "@
            &&& s.mode == Mode::Recording && s.record_buf.len() > 0 ==> rest == clicks_shown(
                s.record_buf,
            )
            &&& s.mode == Mode::Recording && s.record_buf.len() == 0 ==> rest.len() == 1
                && rest[0].0 == "(recording…)"@
            &&& s.mode != Mode::Recording ==> (s.new_pattern matches Some(p) ==> rest.len()
                == clicks_shown(p).len() + 1 && rest.drop_last() == clicks_shown(p)
                && rest.last().0 == "  (new, unsaved)"@)
            &&& s.mode != Mode::Recording && s.new_pattern is None && s.existing_hash is Some
                ==> rest.len() == 1 && rest[0].0 == "configured (hidden, hashed)"@
            &&& s.mode != Mode::Recording && s.new_pattern is None && s.existing_hash is None
                ==> rest.len() == 1 && rest[0].0 == "(not set)"@
        }),
{
    let line = info_shown(s, root)[0];
    assert(line == seq![labelled("Pattern : "@)] + pattern_shown(s));
    assert(line.skip(1) =~= pattern_shown(s));
    if s.mode != Mode::Recording && s.new_pattern is Some {
        assert(pattern_shown(s).drop_last() =~= clicks_shown(s.new_pattern.unwrap()));
    }
}

/// The lines below it tell each setting, whole: the timeout, the command, the
/// second factor, the limits, and which file they are in.
pub proof fn law_what_is_shown_of_the_settings(s: State, root: bool)
    ensures
        info_shown(s, root).len() >= 6,
        line_text(info_shown(s, root)[1]) == "Timeout : "@ + (number::decimal(s.timeout_ms)
            + " ms"@),
        line_text(info_shown(s, root)[2]) == "Unlock  : "@ + s.unlock_cmd,
        s.require_usb matches Some(u) ==> line_text(info_shown(s, root)[3]) == "USB 2FA : "@ + u,
        s.require_usb is None ==> line_text(info_shown(s, root)[3]) == "USB 2FA : "@
            + "(none — optional)"@,
        line_text(info_shown(s, root)[4]) == "Lockout : "@ + ("after "@ + number::decimal(
            s.max_failures,
        ) + " fails, "@ + number::decimal(s.lockout_base_ms) + "–"@ + number::decimal(
            s.lockout_max_ms,
        ) + " ms backoff"@),
        root ==> line_text(info_shown(s, root)[5]) == "Config  : "@ + "/etc/mouse-unlock.conf"@
            + "   "@ + "root: yes"@,
        !root ==> line_text(info_shown(s, root)[5]) == "Config  : "@
            + "mouse-unlock.conf (cwd, not root)"@ + "   "@
            + "root: no (sudo needed to install)"@,
{
    let lines = info_shown(s, root);
    lemma_text_of_two(lines[1][0], lines[1][1]);
    lemma_text_of_two(lines[2][0], lines[2][1]);
    lemma_text_of_two(lines[3][0], lines[3][1]);
    lemma_text_of_two(lines[4][0], lines[4][1]);
    lemma_text_of_four(lines[5][0], lines[5][1], lines[5][2], lines[5][3]);
    assert(lines[1] =~= seq![lines[1][0], lines[1][1]]);
    assert(lines[2] =~= seq![lines[2][0], lines[2][1]]);
    assert(lines[3] =~= seq![lines[3][0], lines[3][1]]);
    assert(lines[4] =~= seq![lines[4][0], lines[4][1]]);
    assert(lines[5] =~= seq![lines[5][0], lines[5][1], lines[5][2], lines[5][3]]);
}

/// While something is edited, one more line tells what is typed so far; otherwise
/// there is none.
pub proof fn law_what_is_shown_of_an_edit(s: State, root: bool)
    ensures
        s.mode == Mode::EditTimeout ==> info_shown(s, root).len() == 7 && line_text(
            info_shown(s, root)[6],
        ) == "New timeout (ms): "@ + (s.input + "_"@),
        s.mode == Mode::EditCmd ==> info_shown(s, root).len() == 7 && line_text(
            info_shown(s, root)[6],
        ) == "New unlock cmd: "@ + (s.input + "_"@),
        s.mode != Mode::EditTimeout && s.mode != Mode::EditCmd ==> info_shown(s, root).len() == 6,
{
    let lines = info_shown(s, root);
    if s.mode == Mode::EditTimeout || s.mode == Mode::EditCmd {
        let e = edit_shown(s)[0];
        assert(lines[6] == e);
        lemma_text_of_two(e[0], e[1]);
        assert(e =~= seq![e[0], e[1]]);
    }
}

/// The keys of normal mode are shown with what they do.
pub proof fn law_what_is_shown_of_the_keys(s: State)
    requires
        s.mode == Mode::Normal,
    ensures
        ({
            let lines = actions_shown(s);
            &&& lines.len() == 6
            &&& line_text(lines[0]) == "["@ + "r"@ + "]"@ + " Record pattern     "@ + ("["@ + "c"@
                + "]"@) + " Clear pattern"@
            &&& line_text(lines[1]) == "["@ + "t"@ + "]"@ + " Edit timeout       "@ + ("["@ + "u"@
                + "]"@) + " Edit unlock cmd"@
            &&& line_text(lines[2]) == "["@ + "k"@ + "]"@ + " USB factor (optional)"@
            &&& line_text(lines[3]) == "["@ + "1"@ + "]"@ + " Save config        "@ + ("["@ + "2"@
                + "]"@) + " Install service"@
            &&& line_text(lines[4]) == "["@ + "3"@ + "]"@ + " Save + Install     "@ + ("["@ + "4"@
                + "]"@) + " Uninstall service"@
            &&& line_text(lines[5]) == "["@ + "q"@ + "]"@ + " Quit"@
        }),
{
    let lines = actions_shown(s);
    lemma_text_of_four(lines[0][0], lines[0][1], lines[0][2], lines[0][3]);
    lemma_text_of_four(lines[1][0], lines[1][1], lines[1][2], lines[1][3]);
    lemma_text_of_two(lines[2][0], lines[2][1]);
    lemma_text_of_four(lines[3][0], lines[3][1], lines[3][2], lines[3][3]);
    lemma_text_of_four(lines[4][0], lines[4][1], lines[4][2], lines[4][3]);
    lemma_text_of_two(lines[5][0], lines[5][1]);
    assert(lines[0] =~= seq![lines[0][0], lines[0][1], lines[0][2], lines[0][3]]);
    assert(lines[1] =~= seq![lines[1][0], lines[1][1], lines[1][2], lines[1][3]]);
    assert(lines[2] =~= seq![lines[2][0], lines[2][1]]);
    assert(lines[3] =~= seq![lines[3][0], lines[3][1], lines[3][2], lines[3][3]]);
    assert(lines[4] =~= seq![lines[4][0], lines[4][1], lines[4][2], lines[4][3]]);
    assert(lines[5] =~= seq![lines[5][0], lines[5][1]]);
}

/// The devices that can be picked are shown in their order, up to nine, each by
/// its number, its name and what it is known by, between a heading and the keys;
/// where there is none, that is said.
pub proof fn law_what_is_shown_of_the_devices(s: State, i: int)
    requires
        s.mode == Mode::UsbSelect,
    ensures
        ({
            let lines = actions_shown(s);
            let n = s.usb_list.len() as int;
            let shown = if n < 9 {
                n
            } else {
                9
            };
            &&& lines[0][0].0 == "Select a USB device as the second factor:"@
            &&& n > 0 ==> lines.len() == shown + 2
            &&& n == 0 ==> lines.len() == 3 && lines[1][0].0 == "  (no USB devices detected)"@
            &&& 0 <= i < shown ==> lines[i + 1].len() == 3 && lines[i + 1][0].0 == "["@
                + number::decimal((i + 1) as nat) + "]"@ && lines[i + 1][1].0 == " "@
                + s.usb_list[i].1 + "  "@ && lines[i + 1][2].0 == s.usb_list[i].0
            &&& lines.last()[0].0 == "["@ + "c"@ + "]"@
            &&& lines.last()[1].0 == " disable USB factor   "@
            &&& lines.last()[2].0 == "["@ + "Esc"@ + "]"@
        }),
{
    let rows = usb_rows(s.usb_list);
    let lines = actions_shown(s);
    if s.usb_list.len() > 0 && 0 <= i < rows.len() {
        assert(rows[i] == usb_row(i, s.usb_list[i]));
        assert(lines[i + 1] == rows[i]);
    }
    if s.usb_list.len() == 0 {
        assert(lines[1] == rows[0]);
    }
}

/// While clicks are recorded or a value is typed, the keys for it are shown.
pub proof fn law_what_is_shown_of_the_other_keys(s: State)
    ensures
        s.mode == Mode::Recording ==> {
            let lines = actions_shown(s);
            &&& lines.len() == 2
            &&& lines[0][0].0 == "Click in this window to add:  Left=L   Right=R   Middle=M"@
            &&& lines[1].len() == 6
            &&& lines[1][0].0 == "["@ + "Backspace"@ + "]"@
            &&& lines[1][2].0 == "["@ + "Enter"@ + "]"@
            &&& lines[1][4].0 == "["@ + "Esc"@ + "]"@
        },
        s.mode == Mode::EditTimeout || s.mode == Mode::EditCmd ==> {
            let lines = actions_shown(s);
            &&& lines.len() == 2
            &&& lines[0][0].0 == "Type a value, then confirm."@
            &&& lines[1].len() == 6
            &&& lines[1][0].0 == "["@ + "Enter"@ + "]"@
            &&& lines[1][2].0 == "["@ + "Esc"@ + "]"@
            &&& lines[1][4].0 == "["@ + "Backspace"@ + "]"@
        },
{
}

/// The screen is three panels, from top to bottom: the settings, the keys, and the
/// status line as it is.
pub proof fn law_what_the_screen_is_made_of(s: State, root: bool)
    ensures
        ({
            let panels = ui_shown(s, root);
            &&& panels.len() == 3
            &&& panels[0].title.0 == " Mouse Unlock — Setup "@
            &&& panels[0].content == Shown::Lines(info_shown(s, root))
            &&& panels[0].height == Height::Exactly(11)
            &&& !panels[0].wrap
            &&& panels[1].title.0 == " Actions "@
            &&& panels[1].content == Shown::Lines(actions_shown(s))
            &&& panels[1].height == Height::AtLeast(8)
            &&& panels[1].wrap
            &&& panels[2].title.0 == " Status "@
            &&& panels[2].content == Shown::Text(s.status)
            &&& panels[2].height == Height::Exactly(3)
            &&& panels[2].wrap
        }),
{
}

/// What is said of spans, lines and panels is what they hold.
pub proof fn law_the_screen_is_what_it_holds(
    v: Seq<Span>,
    w: Seq<Line>,
    p: Seq<Panel>,
    i: int,
)
    ensures
        0 <= i < v.len() ==> span_views(v).len() == v.len() && span_views(v)[i] == (
            v[i].text@,
            v[i].style,
        ),
        0 <= i < w.len() ==> line_views(w).len() == w.len() && line_views(w)[i] == span_views(
            w[i].spans@,
        ),
        0 <= i < p.len() ==> panel_views(p).len() == p.len() && panel_views(p)[i].title == (
            p[i].title.text@,
            p[i].title.style,
        ) && panel_views(p)[i].height == p[i].height && panel_views(p)[i].wrap == p[i].wrap && (
        match p[i].content {
            Content::Lines(l) => panel_views(p)[i].content == Shown::Lines(line_views(l@)),
            Content::Text(t) => panel_views(p)[i].content == Shown::Text(t@),
        }),
{
}

/// What is shown of the other keys, word by word.
pub proof fn law_the_words_of_the_other_keys(s: State)
    ensures
        s.mode == Mode::Recording ==> {
            let line = actions_shown(s)[1];
            &&& line[1].0 == " undo   "@
            &&& line[3].0 == " save   "@
            &&& line[5].0 == " cancel"@
        },
        s.mode == Mode::EditTimeout || s.mode == Mode::EditCmd ==> {
            let line = actions_shown(s)[1];
            &&& line[1].0 == " confirm   "@
            &&& line[3].0 == " cancel   "@
            &&& line[5].0 == " delete"@
        },
        s.mode == Mode::UsbSelect ==> actions_shown(s).last().len() == 4
            && actions_shown(s).last()[3].0 == " cancel"@,
{
}

/// The colours of the first panel: labels stand out, what is missing is dimmed,
/// and what is not saved or needs root is yellow.
pub proof fn law_the_colours_of_the_settings(s: State, root: bool, i: int)
    ensures
        0 <= i < 6 ==> info_shown(s, root)[i][0].1 == (Style {
            fg: Some(Color::Gray),
            bold: true,
        }),
        s.mode == Mode::Recording && s.record_buf.len() == 0 ==> info_shown(s, root)[0][1].1.fg
            == Some(Color::Red),
        s.mode != Mode::Recording && s.new_pattern is Some ==> info_shown(s, root)[0].last().1.fg
            == Some(Color::Yellow),
        s.mode != Mode::Recording && s.new_pattern is None && s.existing_hash is Some
            ==> info_shown(s, root)[0][1].1.fg == Some(Color::Green),
        s.mode != Mode::Recording && s.new_pattern is None && s.existing_hash is None
            ==> info_shown(s, root)[0][1].1.fg == Some(Color::DarkGray),
        s.require_usb is Some ==> info_shown(s, root)[3][1].1.fg == Some(Color::Green),
        s.require_usb is None ==> info_shown(s, root)[3][1].1.fg == Some(Color::DarkGray),
        root ==> info_shown(s, root)[5][3].1.fg == Some(Color::Green),
        !root ==> info_shown(s, root)[5][3].1.fg == Some(Color::Yellow),
        s.mode == Mode::EditTimeout || s.mode == Mode::EditCmd
            ==> info_shown(s, root)[6][0].1.fg == Some(Color::Cyan),
{
}

} // verus!
