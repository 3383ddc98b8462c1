//! What keys and mouse clicks do to the setup program.

use vstd::prelude::*;
use crate::click;
use crate::click::Click;
use crate::entries;
use crate::number;
use crate::saved;
use crate::setup;
use crate::setup::{App, Mode, State};
use crate::text;
use crate::usb;
use crate::usb::UsbDev;

verus! {

/// A key of the keyboard.
#[derive(Clone, Copy, PartialEq, Eq, Structural, Debug)]
pub enum KeyCode {
    Enter,
    Esc,
    Backspace,
    Char(char),
    Other,
}

/// A button of the mouse.
#[derive(Clone, Copy, PartialEq, Eq, Structural, Debug)]
pub enum MouseButton {
    Left,
    Right,
    Middle,
}

/// What the mouse did.
#[derive(Clone, Copy, PartialEq, Eq, Structural, Debug)]
pub enum MouseEventKind {
    Down(MouseButton),
    Other,
}

/// What the terminal reports.
#[derive(Clone, Copy, PartialEq, Eq, Structural, Debug)]
pub enum Event {
    /// A key, and whether it went down.
    Key { code: KeyCode, press: bool },
    Mouse(MouseEventKind),
    Other,
}

/// What a key asks to be done outside the program.
#[derive(Clone, Copy, PartialEq, Eq, Structural, Debug)]
pub enum Request {
    ListUsb,
    Save,
    Install,
    SaveAndInstall,
    Uninstall,
}

/// A text without its last character.
pub open spec fn shortened<T>(s: Seq<T>) -> Seq<T> {
    if s.len() > 0 {
        s.drop_last()
    } else {
        s
    }
}

/// The program after a key in normal mode.
pub open spec fn key_normal(s: State, code: KeyCode) -> State {
    match code {
        KeyCode::Char('q') => State { should_quit: true, ..s },
        KeyCode::Char('r') => State {
            record_buf: Seq::empty(),
            mode: Mode::Recording,
            status: "recording — click in this window; Enter=save, Esc=cancel"@,
            ..s
        },
        KeyCode::Char('c') => State {
            new_pattern: None,
            status: "discarded the unsaved recording"@,
            ..s
        },
        KeyCode::Char('t') => State {
            input: number::decimal(s.timeout_ms),
            mode: Mode::EditTimeout,
            ..s
        },
        KeyCode::Char('u') => State { input: s.unlock_cmd, mode: Mode::EditCmd, ..s },
        _ => s,
    }
}

/// What a key in normal mode asks to be done outside the program.
pub open spec fn request_of(code: KeyCode) -> Option<Request> {
    match code {
        KeyCode::Char('k') => Some(Request::ListUsb),
        KeyCode::Char('1') => Some(Request::Save),
        KeyCode::Char('2') => Some(Request::Install),
        KeyCode::Char('3') => Some(Request::SaveAndInstall),
        KeyCode::Char('4') => Some(Request::Uninstall),
        _ => None,
    }
}

/// The program after a key while a pattern is recorded.
pub open spec fn key_recording(s: State, code: KeyCode) -> State {
    match code {
        KeyCode::Enter => if s.record_buf.len() == 0 {
            State { status: "nothing recorded"@, mode: Mode::Normal, ..s }
        } else {
            State {
                new_pattern: Some(s.record_buf),
                status: "recorded a "@ + number::decimal(s.record_buf.len())
                    + "-click pattern (unsaved) — press [1] to save"@,
                mode: Mode::Normal,
                ..s
            }
        },
        KeyCode::Esc => State { mode: Mode::Normal, status: "recording cancelled"@, ..s },
        KeyCode::Backspace => State { record_buf: shortened(s.record_buf), ..s },
        _ => s,
    }
}

/// The program after a key while the timeout is edited.
pub open spec fn key_timeout(s: State, code: KeyCode) -> State {
    match code {
        KeyCode::Enter => match number::parse_unsigned(s.input, u64::MAX as nat) {
            Some(n) if n > 0 => State {
                timeout_ms: n,
                status: "timeout set to "@ + number::decimal(n) + " ms"@,
                mode: Mode::Normal,
                ..s
            },
            _ => State {
                status: "invalid timeout (must be a positive number)"@,
                mode: Mode::Normal,
                ..s
            },
        },
        KeyCode::Esc => State { mode: Mode::Normal, ..s },
        KeyCode::Backspace => State { input: shortened(s.input), ..s },
        KeyCode::Char(c) => if number::is_digit(c) {
            State { input: s.input.push(c), ..s }
        } else {
            s
        },
        _ => s,
    }
}

/// The program after a key while the unlock command is edited.
pub open spec fn key_command(s: State, code: KeyCode) -> State {
    match code {
        KeyCode::Enter => if text::trimmed(s.input).len() == 0 {
            State { status: "unlock command cannot be empty"@, mode: Mode::Normal, ..s }
        } else {
            State {
                unlock_cmd: text::trimmed(s.input),
                status: "unlock command updated"@,
                mode: Mode::Normal,
                ..s
            }
        },
        KeyCode::Esc => State { mode: Mode::Normal, ..s },
        KeyCode::Backspace => State { input: shortened(s.input), ..s },
        KeyCode::Char(c) => State { input: s.input.push(c), ..s },
        _ => s,
    }
}

/// The program after a key while a USB device is picked: a digit from one to
/// nine picks by number.
pub open spec fn key_usb(s: State, code: KeyCode) -> State {
    match code {
        KeyCode::Esc => State { mode: Mode::Normal, ..s },
        KeyCode::Char('c') => State {
            require_usb: None,
            status: "USB factor disabled"@,
            mode: Mode::Normal,
            ..s
        },
        KeyCode::Char(d) => {
            let k = d as u32 - '1' as u32;
            if '1' <= d <= '9' && k < s.usb_list.len() {
                State {
                    require_usb: Some(s.usb_list[k].0),
                    status: "USB factor set: "@ + s.usb_list[k].1 + " ("@ + s.usb_list[k].0
                        + ")"@,
                    mode: Mode::Normal,
                    ..s
                }
            } else {
                s
            }
        },
        _ => s,
    }
}

/// The program after a key.
pub open spec fn key(s: State, code: KeyCode) -> State {
    match s.mode {
        Mode::Normal => key_normal(s, code),
        Mode::Recording => key_recording(s, code),
        Mode::EditTimeout => key_timeout(s, code),
        Mode::EditCmd => key_command(s, code),
        Mode::UsbSelect => key_usb(s, code),
    }
}

/// What a key asks to be done outside the program.
pub open spec fn key_request(s: State, code: KeyCode) -> Option<Request> {
    if s.mode == Mode::Normal {
        request_of(code)
    } else {
        None
    }
}

/// The click that the mouse made, if it made one.
pub open spec fn click_made(kind: MouseEventKind) -> Option<Click> {
    match kind {
        MouseEventKind::Down(MouseButton::Left) => Some(Click::Left),
        MouseEventKind::Down(MouseButton::Right) => Some(Click::Right),
        MouseEventKind::Down(MouseButton::Middle) => Some(Click::Middle),
        MouseEventKind::Other => None,
    }
}

/// The program after the mouse did something: a click counts while a pattern is
/// recorded.
pub open spec fn mouse(s: State, kind: MouseEventKind) -> State {
    match click_made(kind) {
        Some(c) => if s.mode == Mode::Recording {
            State { record_buf: s.record_buf.push(c), ..s }
        } else {
            s
        },
        None => s,
    }
}

/// The program after what the terminal reports; of a key only that it went
/// down counts.
pub open spec fn event(s: State, ev: Event) -> State {
    match ev {
        Event::Key { code, press } => if press {
            key(s, code)
        } else {
            s
        },
        Event::Mouse(kind) => mouse(s, kind),
        Event::Other => s,
    }
}

/// What an event asks to be done outside the program.
pub open spec fn event_request(s: State, ev: Event) -> Option<Request> {
    match ev {
        Event::Key { code, press } => if press {
            key_request(s, code)
        } else {
            None
        },
        _ => None,
    }
}

/// The program once the USB devices are listed.
pub open spec fn listed(s: State, devices: Seq<(Seq<char>, Seq<char>)>) -> State {
    State {
        usb_list: devices,
        mode: Mode::UsbSelect,
        status: "pick a USB device by number, [c] disable, [Esc] cancel"@,
        ..s
    }
}

/// Takes in a key.
pub fn on_key(app: &mut App, code: KeyCode) -> (r: Option<Request>)
    ensures
        final(app)@ == key(old(app)@, code),
        r == key_request(old(app)@, code),
{
    match app.mode {
        Mode::Normal => {
            return on_key_normal(app, code);
        },
        Mode::Recording => match code {
            KeyCode::Enter => {
                if app.record_buf.len() == 0 {
                    app.status = "nothing recorded".to_owned();
                } else {
                    let n: usize = app.record_buf.len();
                    let taken: Vec<Click> = click::copy_clicks(&app.record_buf);
                    app.new_pattern = Some(taken);
                    app.status = text::join3(
                        "recorded a ",
                        number::to_decimal(n as u64).as_str(),
                        "-click pattern (unsaved) — press [1] to save",
                    );
                }
                app.mode = Mode::Normal;
            },
            KeyCode::Esc => {
                app.mode = Mode::Normal;
                app.status = "recording cancelled".to_owned();
            },
            KeyCode::Backspace => {
                let _ = app.record_buf.pop();
            },
            _ => {},
        },
        Mode::EditTimeout => match code {
            KeyCode::Enter => {
                match number::parse_u64(app.input.as_str()) {
                    Some(n) if n > 0 => {
                        app.timeout_ms = n;
                        app.status = text::join3(
                            "timeout set to ",
                            number::to_decimal(n).as_str(),
                            " ms",
                        );
                    },
                    _ => {
                        app.status = "invalid timeout (must be a positive number)".to_owned();
                    },
                }
                app.mode = Mode::Normal;
            },
            KeyCode::Esc => {
                app.mode = Mode::Normal;
            },
            KeyCode::Backspace => {
                let _ = app.input.pop();
            },
            KeyCode::Char(c) => {
                if '0' <= c && c <= '9' {
                    app.input.push(c);
                }
            },
            _ => {},
        },
        Mode::EditCmd => match code {
            KeyCode::Enter => {
                let cmd: String = text::trim(app.input.as_str());
                if cmd.as_str().is_empty() {
                    app.status = "unlock command cannot be empty".to_owned();
                } else {
                    app.unlock_cmd = cmd;
                    app.status = "unlock command updated".to_owned();
                }
                app.mode = Mode::Normal;
            },
            KeyCode::Esc => {
                app.mode = Mode::Normal;
            },
            KeyCode::Backspace => {
                let _ = app.input.pop();
            },
            KeyCode::Char(c) => {
                app.input.push(c);
            },
            _ => {},
        },
        Mode::UsbSelect => match code {
            KeyCode::Esc => {
                app.mode = Mode::Normal;
            },
            KeyCode::Char('c') => {
                app.require_usb = None;
                app.status = "USB factor disabled".to_owned();
                app.mode = Mode::Normal;
            },
            KeyCode::Char(d) => {
                if '1' <= d && d <= '9' {
                    let k: usize = (d as u32 - '1' as u32) as usize;
                    if k < app.usb_list.len() {
                        assert(usb::device_views(app.usb_list@)[k as int]
                            == app.usb_list@[k as int]@);
                        let mut status: String = text::join3(
                            "USB factor set: ",
                            app.usb_list[k].name.as_str(),
                            " (",
                        );
                        status.append(app.usb_list[k].id.as_str());
                        status.append(")");
                        app.require_usb = Some(app.usb_list[k].id.clone());
                        app.status = status;
                        app.mode = Mode::Normal;
                    }
                }
            },
            _ => {},
        },
    }
    assert(app@ =~= key(old(app)@, code));
    None
}

/// Takes in a key in normal mode.
pub fn on_key_normal(app: &mut App, code: KeyCode) -> (r: Option<Request>)
    ensures
        final(app)@ == key_normal(old(app)@, code),
        r == request_of(code),
{
    let mut r: Option<Request> = None;
    match code {
        KeyCode::Char('q') => {
            app.should_quit = true;
        },
        KeyCode::Char('r') => {
            app.record_buf.clear();
            app.mode = Mode::Recording;
            app.status = "recording — click in this window; Enter=save, Esc=cancel".to_owned();
        },
        KeyCode::Char('c') => {
            app.new_pattern = None;
            app.status = "discarded the unsaved recording".to_owned();
        },
        KeyCode::Char('t') => {
            app.input = number::to_decimal(app.timeout_ms);
            app.mode = Mode::EditTimeout;
        },
        KeyCode::Char('u') => {
            app.input = app.unlock_cmd.clone();
            app.mode = Mode::EditCmd;
        },
        KeyCode::Char('k') => {
            r = Some(Request::ListUsb);
        },
        KeyCode::Char('1') => {
            r = Some(Request::Save);
        },
        KeyCode::Char('2') => {
            r = Some(Request::Install);
        },
        KeyCode::Char('3') => {
            r = Some(Request::SaveAndInstall);
        },
        KeyCode::Char('4') => {
            r = Some(Request::Uninstall);
        },
        _ => {},
    }
    assert(app@ =~= key_normal(old(app)@, code));
    r
}

/// Takes in what the mouse did.
pub fn on_mouse(app: &mut App, kind: MouseEventKind)
    ensures
        final(app)@ == mouse(old(app)@, kind),
{
    if app.mode != Mode::Recording {
        return;
    }
    let click: Click = match kind {
        MouseEventKind::Down(MouseButton::Left) => Click::Left,
        MouseEventKind::Down(MouseButton::Right) => Click::Right,
        MouseEventKind::Down(MouseButton::Middle) => Click::Middle,
        MouseEventKind::Other => {
            return;
        },
    };
    app.record_buf.push(click);
    assert(app@ =~= mouse(old(app)@, kind));
}

/// Takes in what the terminal reports.
pub fn on_event(app: &mut App, ev: Event) -> (r: Option<Request>)
    ensures
        final(app)@ == event(old(app)@, ev),
        r == event_request(old(app)@, ev),
{
    match ev {
        Event::Key { code, press } => {
            if press {
                on_key(app, code)
            } else {
                None
            }
        },
        Event::Mouse(kind) => {
            on_mouse(app, kind);
            None
        },
        Event::Other => None,
    }
}

/// Takes in the USB devices, to pick one of them.
pub fn usb_listed(app: &mut App, devices: Vec<UsbDev>)
    ensures
        final(app)@ == listed(old(app)@, usb::device_views(devices@)),
{
    app.usb_list = devices;
    app.mode = Mode::UsbSelect;
    app.status = "pick a USB device by number, [c] disable, [Esc] cancel".to_owned();
    assert(app@ =~= listed(old(app)@, usb::device_views(devices@)));
}

/// A text that is not empty and has no white space at its ends.
pub open spec fn is_word(s: Seq<char>) -> bool {
    s.len() > 0 && text::is_trimmed(s)
}

/// What holds of the program at all times: numbers are in their range, the
/// command, the hash and the second factor are proper values, a recorded
/// pattern has clicks, the devices to pick from have proper names, and a
/// timeout that is edited has digits only.
pub open spec fn is_sound(s: State) -> bool {
    &&& s.timeout_ms <= u64::MAX
    &&& s.max_failures <= u32::MAX
    &&& s.lockout_base_ms <= u64::MAX
    &&& s.lockout_max_ms <= u64::MAX
    &&& is_word(s.unlock_cmd)
    &&& s.existing_hash matches Some(h) ==> is_word(h) && text::one_line(h)
    &&& s.new_pattern matches Some(p) ==> p.len() > 0
    &&& s.require_usb matches Some(u) ==> is_word(u)
    &&& forall|i: int| 0 <= i < s.usb_list.len() ==> is_word((#[trigger] s.usb_list[i]).0)
    &&& s.mode == Mode::EditTimeout ==> number::all_digits(s.input)
}

/// The program starts sound from any settings that a settings file can hold.
pub proof fn law_starts_sound(c: saved::Saved)
    requires
        saved::is_storable(c),
    ensures
        is_sound(setup::started(c)),
{
}

/// Whatever the terminal reports, the program stays sound.
pub proof fn law_events_keep_it_sound(s: State, ev: Event)
    requires
        is_sound(s),
    ensures
        is_sound(event(s, ev)),
{
    match ev {
        Event::Key { code, press } => {
            if press {
                match s.mode {
                    Mode::Normal => {
                        number::lemma_decimal(s.timeout_ms);
                    },
                    Mode::EditTimeout => {
                        lemma_timeout_keeps_it_sound(s, code);
                    },
                    Mode::EditCmd => {
                        text::lemma_trimmed(s.input);
                    },
                    _ => {},
                }
            }
        },
        _ => {},
    }
}

proof fn lemma_timeout_keeps_it_sound(s: State, code: KeyCode)
    requires
        is_sound(s),
        s.mode == Mode::EditTimeout,
    ensures
        is_sound(key_timeout(s, code)),
{
    let t = key_timeout(s, code);
    assert forall|i: int| 0 <= i < t.input.len() implies number::is_digit(#[trigger] t.input[i]) by {
        if i < s.input.len() {
            assert(number::is_digit(s.input[i]));
        }
    }
}

/// The program stays sound when the devices among a row of nodes are listed.
pub proof fn law_listing_keeps_it_sound(s: State, nodes: Seq<usb::SysNode>)
    requires
        is_sound(s),
    ensures
        is_sound(listed(s, usb::devices_of(nodes))),
{
    lemma_devices_are_words(nodes);
}

proof fn lemma_devices_are_words(nodes: Seq<usb::SysNode>)
    ensures
        forall|i: int|
            0 <= i < usb::devices_of(nodes).len() ==> is_word(
                (#[trigger] usb::devices_of(nodes)[i]).0,
            ),
    decreases nodes.len(),
{
    if nodes.len() > 0 {
        let before = usb::devices_of(nodes.drop_last());
        lemma_devices_are_words(nodes.drop_last());
        usb::law_device_ids_are_trimmed(nodes.last()@);
        assert forall|i: int| 0 <= i < usb::devices_of(nodes).len() implies is_word(
            (#[trigger] usb::devices_of(nodes)[i]).0,
        ) by {
            if i < before.len() {
                assert(usb::devices_of(nodes)[i] == before[i]);
            }
        }
    }
}

/// The program stays sound when it saves a hash, and when it fails to.
pub proof fn law_saving_keeps_it_sound(s: State, hash: Seq<char>, ok: bool)
    requires
        is_sound(s),
        is_word(hash),
        text::one_line(hash),
    ensures
        is_sound(setup::after_save(s, hash, ok)),
{
}

/// A saved file reads back: once the program has saved settings that a settings
/// file can hold, they are the ones that it would start from.
pub proof fn law_saving_round_trip(s: State, hash: Seq<char>)
    requires
        saved::fits(setup::settings(s)),
        is_word(hash),
        text::one_line(hash),
    ensures
        saved::saved_of(entries::entries(saved::rendered(setup::settings(s), hash)))
            == setup::settings(setup::after_save(s, hash, true)),
{
    saved::law_saved_settings_read_back(setup::settings(s), hash);
}

/// The settings of a sound program fit into a settings file, unless its command
/// or its second factor takes more than a line, or a comment starts in its
/// command.
pub proof fn law_sound_settings_fit(s: State)
    requires
        is_sound(s),
    ensures
        saved::fits(setup::settings(s)) <==> {
            &&& text::one_line(s.unlock_cmd)
            &&& entries::no_comment(s.unlock_cmd)
            &&& s.require_usb matches Some(u) ==> text::one_line(u)
        },
{
}

/// What is saved tells nothing of the recorded clicks but their hash.
pub proof fn law_saved_file_hides_the_clicks(
    s: State,
    pattern: Option<Seq<Click>>,
    recorded: Seq<Click>,
    hash: Seq<char>,
)
    ensures
        saved::rendered(
            setup::settings(State { new_pattern: pattern, record_buf: recorded, ..s }),
            hash,
        ) == saved::rendered(setup::settings(s), hash),
{
}

/// Keys and clicks never touch the hash that is saved, and ask for outside work
/// in normal mode only.
pub proof fn law_only_saving_sets_the_hash(s: State, ev: Event)
    ensures
        event(s, ev).existing_hash == s.existing_hash,
        event_request(s, ev) is Some ==> s.mode == Mode::Normal && event(s, ev) == s,
{
}

/// Escape leaves every mode for the normal one, and changes no setting and no
/// recorded pattern.
pub proof fn law_escape_changes_nothing(s: State)
    ensures
        key(s, KeyCode::Esc).mode == Mode::Normal,
        setup::settings(key(s, KeyCode::Esc)) == setup::settings(s),
        key(s, KeyCode::Esc).new_pattern == s.new_pattern,
{
}

/// The clicks of a row, each as what the mouse did.
pub open spec fn mouse_all(s: State, clicks: Seq<MouseEventKind>) -> State
    decreases clicks.len(),
{
    if clicks.len() == 0 {
        s
    } else {
        mouse(mouse_all(s, clicks.drop_last()), clicks.last())
    }
}

/// A recording takes exactly the clicks that are made between its start and
/// Enter.
pub proof fn law_recording_takes_the_clicks(
    s: State,
    clicks: Seq<MouseEventKind>,
    pattern: Seq<Click>,
)
    requires
        s.mode == Mode::Normal,
        clicks.len() == pattern.len(),
        clicks.len() > 0,
        forall|i: int|
            0 <= i < clicks.len() ==> click_made(#[trigger] clicks[i]) == Some(pattern[i]),
    ensures
        key(mouse_all(key(s, KeyCode::Char('r')), clicks), KeyCode::Enter).new_pattern == Some(
            pattern,
        ),
        key(mouse_all(key(s, KeyCode::Char('r')), clicks), KeyCode::Enter).mode == Mode::Normal,
{
    lemma_mouse_all(key(s, KeyCode::Char('r')), clicks, pattern);
}

proof fn lemma_mouse_all(s: State, clicks: Seq<MouseEventKind>, pattern: Seq<Click>)
    requires
        s.mode == Mode::Recording,
        s.record_buf.len() == 0,
        clicks.len() == pattern.len(),
        forall|i: int|
            0 <= i < clicks.len() ==> click_made(#[trigger] clicks[i]) == Some(pattern[i]),
    ensures
        mouse_all(s, clicks).mode == Mode::Recording,
        mouse_all(s, clicks).record_buf == pattern,
    decreases clicks.len(),
{
    if clicks.len() > 0 {
        lemma_mouse_all(s, clicks.drop_last(), pattern.drop_last());
        assert(click_made(clicks[clicks.len() - 1]) == Some(pattern[pattern.len() - 1]));
        assert(mouse_all(s, clicks).record_buf =~= pattern);
    } else {
        assert(s.record_buf =~= pattern);
    }
}

/// Backspace takes the last click of a recording back.
pub proof fn law_backspace_undoes_a_click(s: State, kind: MouseEventKind)
    requires
        s.mode == Mode::Recording,
        click_made(kind) is Some,
    ensures
        key(mouse(s, kind), KeyCode::Backspace) == s,
{
    assert(key(mouse(s, kind), KeyCode::Backspace) =~= s);
}

/// To open the timeout and confirm it as it stands keeps it, unless it is zero,
/// which is refused.
pub proof fn law_confirming_the_timeout_keeps_it(s: State)
    requires
        s.mode == Mode::Normal,
        s.timeout_ms <= u64::MAX,
    ensures
        setup::settings(key(key(s, KeyCode::Char('t')), KeyCode::Enter)) == setup::settings(s),
{
    number::law_number_round_trip(s.timeout_ms, u64::MAX as nat);
}

/// To open the unlock command and confirm it as it stands keeps it.
pub proof fn law_confirming_the_command_keeps_it(s: State)
    requires
        s.mode == Mode::Normal,
        is_word(s.unlock_cmd),
    ensures
        setup::settings(key(key(s, KeyCode::Char('u')), KeyCode::Enter)) == setup::settings(s),
{
    text::lemma_trim_padded(s.unlock_cmd);
}

/// Which keys ask for what to be done, in normal mode and going down; no other
/// event asks for anything.
pub proof fn law_which_keys_ask_for_what(s: State, ev: Event, c: char)
    ensures
        event_request(s, ev) is Some ==> s.mode == Mode::Normal && ev is Key && ev->press,
        s.mode == Mode::Normal && ev == (Event::Key { code: KeyCode::Char(c), press: true }) ==> {
            &&& event_request(s, ev) == Some(Request::ListUsb) <==> c == 'k'
            &&& event_request(s, ev) == Some(Request::Save) <==> c == '1'
            &&& event_request(s, ev) == Some(Request::Install) <==> c == '2'
            &&& event_request(s, ev) == Some(Request::SaveAndInstall) <==> c == '3'
            &&& event_request(s, ev) == Some(Request::Uninstall) <==> c == '4'
        },
        ev matches Event::Key { code, press } ==> !(code is Char) ==> event_request(s, ev) is None,
{
}

/// The program ends on the key `q` in normal mode, and on nothing else.
pub proof fn law_what_ends_the_program(s: State, ev: Event)
    requires
        !s.should_quit,
    ensures
        event(s, ev).should_quit <==> s.mode == Mode::Normal && ev == (Event::Key {
            code: KeyCode::Char('q'),
            press: true,
        }),
{
}

/// A key that comes up, and whatever else the terminal reports, changes nothing;
/// and neither does the mouse but while a pattern is recorded.
pub proof fn law_what_changes_nothing(s: State, code: KeyCode, kind: MouseEventKind)
    ensures
        event(s, Event::Key { code, press: false }) == s,
        event(s, Event::Other) == s,
        s.mode != Mode::Recording ==> event(s, Event::Mouse(kind)) == s,
        event(s, Event::Mouse(MouseEventKind::Other)) == s,
{
}

/// Which setting an event can change: the timeout and the command only when they
/// are edited and confirmed, the second factor only when one is picked or it is
/// disabled, and the limits and the hash never.
pub proof fn law_which_events_change_settings(s: State, ev: Event)
    ensures
        ({
            let t = event(s, ev);
            let enter = ev == (Event::Key { code: KeyCode::Enter, press: true });
            &&& t.timeout_ms != s.timeout_ms ==> s.mode == Mode::EditTimeout && enter
            &&& t.unlock_cmd != s.unlock_cmd ==> s.mode == Mode::EditCmd && enter
            &&& t.require_usb != s.require_usb ==> s.mode == Mode::UsbSelect
            &&& t.new_pattern != s.new_pattern ==> s.mode == Mode::Recording && enter || s.mode
                == Mode::Normal && ev == (Event::Key { code: KeyCode::Char('c'), press: true })
            &&& t.existing_hash == s.existing_hash
            &&& t.max_failures == s.max_failures
            &&& t.lockout_base_ms == s.lockout_base_ms
            &&& t.lockout_max_ms == s.lockout_max_ms
        }),
{
}

/// The keys of normal mode that start something: recording starts from no clicks,
/// editing from the value there is, and none of them changes a setting or drops
/// what was recorded before.
pub proof fn law_keys_that_start_something(s: State)
    requires
        s.mode == Mode::Normal,
    ensures
        ({
            let t = key(s, KeyCode::Char('r'));
            &&& t.mode == Mode::Recording
            &&& t.record_buf.len() == 0
            &&& setup::settings(t) == setup::settings(s)
            &&& t.new_pattern == s.new_pattern
            &&& t.status == "recording — click in this window; Enter=save, Esc=cancel"@
        }),
        ({
            let t = key(s, KeyCode::Char('t'));
            &&& t.mode == Mode::EditTimeout
            &&& t.input == number::decimal(s.timeout_ms)
            &&& t == State { mode: t.mode, input: t.input, ..s }
        }),
        ({
            let t = key(s, KeyCode::Char('u'));
            &&& t.mode == Mode::EditCmd
            &&& t.input == s.unlock_cmd
            &&& t == State { mode: t.mode, input: t.input, ..s }
        }),
        ({
            let t = key(s, KeyCode::Char('c'));
            &&& t.new_pattern is None
            &&& t == State {
                new_pattern: None,
                status: "discarded the unsaved recording"@,
                ..s
            }
        }),
{
}

/// Every other key of normal mode changes nothing by itself.
pub proof fn law_other_keys_of_normal_mode(s: State, code: KeyCode)
    requires
        s.mode == Mode::Normal,
        code != KeyCode::Char('q'),
        code != KeyCode::Char('r'),
        code != KeyCode::Char('c'),
        code != KeyCode::Char('t'),
        code != KeyCode::Char('u'),
    ensures
        key(s, code) == s,
{
}

/// While a pattern is recorded, each button adds its click at the end.
pub proof fn law_each_button_adds_its_click(s: State)
    requires
        s.mode == Mode::Recording,
    ensures
        event(s, Event::Mouse(MouseEventKind::Down(MouseButton::Left))).record_buf
            == s.record_buf.push(Click::Left),
        event(s, Event::Mouse(MouseEventKind::Down(MouseButton::Right))).record_buf
            == s.record_buf.push(Click::Right),
        event(s, Event::Mouse(MouseEventKind::Down(MouseButton::Middle))).record_buf
            == s.record_buf.push(Click::Middle),
        forall|b: MouseButton|
            ({
                let t = #[trigger] event(s, Event::Mouse(MouseEventKind::Down(b)));
                t == State { record_buf: t.record_buf, ..s }
            }),
{
}

/// Enter takes the whole recording, however long, and says how many clicks it has;
/// an empty one, or one that is given up, keeps what was recorded before.
pub proof fn law_how_a_recording_ends(s: State)
    requires
        s.mode == Mode::Recording,
    ensures
        ({
            let t = key(s, KeyCode::Enter);
            &&& t.mode == Mode::Normal
            &&& setup::settings(t) == setup::settings(s)
            &&& s.record_buf.len() > 0 ==> t.new_pattern == Some(s.record_buf) && t.status
                == "recorded a "@ + number::decimal(s.record_buf.len())
                + "-click pattern (unsaved) — press [1] to save"@
            &&& s.record_buf.len() == 0 ==> t.new_pattern == s.new_pattern && t.status
                == "nothing recorded"@
        }),
        key(s, KeyCode::Esc) == (State {
            mode: Mode::Normal,
            status: "recording cancelled"@,
            ..s
        }),
        s.record_buf.len() > 0 ==> key(s, KeyCode::Backspace) == (State {
            record_buf: s.record_buf.drop_last(),
            ..s
        }),
        s.record_buf.len() == 0 ==> key(s, KeyCode::Backspace) == s,
        forall|c: char| #[trigger] key(s, KeyCode::Char(c)) == s,
        key(s, KeyCode::Other) == s,
{
}

/// The program after a row of characters is typed.
pub open spec fn typed(s: State, t: Seq<char>) -> State
    decreases t.len(),
{
    if t.len() == 0 {
        s
    } else {
        key(typed(s, t.drop_last()), KeyCode::Char(t.last()))
    }
}

proof fn lemma_typed(s: State, t: Seq<char>)
    requires
        s.mode == Mode::EditCmd || s.mode == Mode::EditTimeout && number::all_digits(t),
    ensures
        typed(s, t) == (State { input: s.input + t, ..s }),
    decreases t.len(),
{
    if t.len() == 0 {
        assert(s.input + t =~= s.input);
    } else {
        let r = t.drop_last();
        assert forall|i: int| number::all_digits(t) && 0 <= i < r.len() implies number::is_digit(
            #[trigger] r[i],
        ) by {
            assert(r[i] == t[i]);
        }
        lemma_typed(s, r);
        if s.mode == Mode::EditTimeout {
            assert(number::is_digit(t[t.len() - 1]));
        }
        assert((s.input + r).push(t.last()) =~= s.input + t);
    }
}

/// A timeout that is typed in and confirmed is the timeout, whatever number it is
/// from one on; nothing else changes but the status line.
pub proof fn law_a_typed_timeout_is_taken(s: State, n: nat)
    requires
        s.mode == Mode::EditTimeout,
        s.input.len() == 0,
        1 <= n <= 0xffff_ffff_ffff_ffff,
    ensures
        ({
            let t = key(typed(s, number::decimal(n)), KeyCode::Enter);
            &&& t.timeout_ms == n
            &&& t.mode == Mode::Normal
            &&& t.status == "timeout set to "@ + number::decimal(n) + " ms"@
            &&& setup::settings(t) == saved::Saved { timeout_ms: n, ..setup::settings(s) }
            &&& t.new_pattern == s.new_pattern
        }),
{
    number::lemma_decimal(n);
    number::law_number_round_trip(n, u64::MAX as nat);
    lemma_typed(s, number::decimal(n));
    assert(s.input + number::decimal(n) =~= number::decimal(n));
}

/// While the timeout is edited, digits are added at the end, Backspace takes the
/// last one away, other characters are passed over, and Escape gives up. What is
/// no number, too large or zero is refused, and the timeout kept.
pub proof fn law_how_the_timeout_is_edited(s: State, c: char)
    requires
        s.mode == Mode::EditTimeout,
    ensures
        '0' <= c <= '9' ==> key(s, KeyCode::Char(c)) == (State { input: s.input.push(c), ..s }),
        !('0' <= c <= '9') ==> key(s, KeyCode::Char(c)) == s,
        s.input.len() > 0 ==> key(s, KeyCode::Backspace) == (State {
            input: s.input.drop_last(),
            ..s
        }),
        s.input.len() == 0 ==> key(s, KeyCode::Backspace) == s,
        key(s, KeyCode::Esc) == (State { mode: Mode::Normal, ..s }),
        key(s, KeyCode::Other) == s,
        ({
            let n = number::parse_unsigned(s.input, 0xffff_ffff_ffff_ffff);
            n is None || n == Some(0nat) ==> key(s, KeyCode::Enter) == (State {
                mode: Mode::Normal,
                status: "invalid timeout (must be a positive number)"@,
                ..s
            })
        }),
{
}

/// A command that is typed in and confirmed is the command, without the white
/// space around it; nothing else changes but the status line.
pub proof fn law_a_typed_command_is_taken(s: State, front: Seq<char>, cmd: Seq<char>, back: Seq<char>)
    requires
        s.mode == Mode::EditCmd,
        s.input.len() == 0,
        is_word(cmd),
        forall|i: int| 0 <= i < front.len() ==> text::white_space(#[trigger] front[i]),
        forall|i: int| 0 <= i < back.len() ==> text::white_space(#[trigger] back[i]),
    ensures
        ({
            let t = key(typed(s, front + cmd + back), KeyCode::Enter);
            &&& t.unlock_cmd == cmd
            &&& t.mode == Mode::Normal
            &&& t.status == "unlock command updated"@
            &&& setup::settings(t) == saved::Saved { unlock_cmd: cmd, ..setup::settings(s) }
            &&& t.new_pattern == s.new_pattern
        }),
{
    lemma_typed(s, front + cmd + back);
    assert(s.input + (front + cmd + back) =~= front + cmd + back);
    text::law_trimming_takes_off_the_ends_only(front, cmd, back);
}

/// While the command is edited, every character is added at the end, Backspace
/// takes the last one away, and Escape gives up. White space alone is refused,
/// and the command kept.
pub proof fn law_how_the_command_is_edited(s: State, c: char)
    requires
        s.mode == Mode::EditCmd,
    ensures
        key(s, KeyCode::Char(c)) == (State { input: s.input.push(c), ..s }),
        s.input.len() > 0 ==> key(s, KeyCode::Backspace) == (State {
            input: s.input.drop_last(),
            ..s
        }),
        s.input.len() == 0 ==> key(s, KeyCode::Backspace) == s,
        key(s, KeyCode::Esc) == (State { mode: Mode::Normal, ..s }),
        key(s, KeyCode::Other) == s,
        (forall|i: int| 0 <= i < s.input.len() ==> text::white_space(#[trigger] s.input[i])) ==> key(
            s,
            KeyCode::Enter,
        ) == (State { mode: Mode::Normal, status: "unlock command cannot be empty"@, ..s }),
{
    if forall|i: int| 0 <= i < s.input.len() ==> text::white_space(#[trigger] s.input[i]) {
        let none: Seq<char> = Seq::empty();
        text::law_trimming_takes_off_the_ends_only(s.input, none, none);
        assert(s.input + none + none =~= s.input);
    }
}

/// The digits from one to nine pick the device of that number, where there is one,
/// by what it is known by; `c` disables the second factor, Escape gives up, and
/// every other key changes nothing.
pub proof fn law_how_a_device_is_picked(s: State, k: int, c: char)
    requires
        s.mode == Mode::UsbSelect,
        0 <= k < 9,
    ensures
        k < s.usb_list.len() ==> key(s, KeyCode::Char(('1' as int + k) as char)) == (State {
            require_usb: Some(s.usb_list[k].0),
            status: "USB factor set: "@ + s.usb_list[k].1 + " ("@ + s.usb_list[k].0 + ")"@,
            mode: Mode::Normal,
            ..s
        }),
        k >= s.usb_list.len() ==> key(s, KeyCode::Char(('1' as int + k) as char)) == s,
        key(s, KeyCode::Char('c')) == (State {
            require_usb: None,
            status: "USB factor disabled"@,
            mode: Mode::Normal,
            ..s
        }),
        key(s, KeyCode::Esc) == (State { mode: Mode::Normal, ..s }),
        c != 'c' && !('1' <= c <= '9') ==> key(s, KeyCode::Char(c)) == s,
        key(s, KeyCode::Enter) == s,
        key(s, KeyCode::Backspace) == s,
        key(s, KeyCode::Other) == s,
{
}

/// Once the devices are listed, all of them are there to be picked, in their
/// order, and no setting has changed.
pub proof fn law_what_listing_changes(s: State, devices: Seq<(Seq<char>, Seq<char>)>)
    ensures
        ({
            let t = listed(s, devices);
            &&& t.usb_list == devices
            &&& t.mode == Mode::UsbSelect
            &&& t == State {
                usb_list: devices,
                mode: Mode::UsbSelect,
                status: "pick a USB device by number, [c] disable, [Esc] cancel"@,
                ..s
            }
        }),
{
}

} // verus!
