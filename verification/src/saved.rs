//! The settings as the setup program saves them and reads them back.

use vstd::prelude::*;
use crate::click;
use crate::daemon;
use crate::entries;
use crate::entries::Entry;
use crate::number;
use crate::text;

verus! {

/// The number of failed tries before a lockout, where the settings name none.
pub const DEFAULT_MAX_FAILURES: u32 = 5;

/// The first lockout in milliseconds, where the settings name none.
pub const DEFAULT_LOCKOUT_BASE_MS: u64 = 2000;

/// The longest lockout in milliseconds, where the settings name none.
pub const DEFAULT_LOCKOUT_MAX_MS: u64 = 300_000;

/// The settings that the setup program works on.
pub struct LoadedConfig {
    pub pattern_hash: Option<String>,
    pub timeout_ms: u64,
    pub unlock_cmd: String,
    pub max_failures: u32,
    pub lockout_base_ms: u64,
    pub lockout_max_ms: u64,
    pub require_usb: Option<String>,
}

/// What those settings say.
#[verifier::ext_equal]
pub struct Saved {
    pub pattern_hash: Option<Seq<char>>,
    pub timeout_ms: nat,
    pub unlock_cmd: Seq<char>,
    pub max_failures: nat,
    pub lockout_base_ms: nat,
    pub lockout_max_ms: nat,
    pub require_usb: Option<Seq<char>>,
}

impl View for LoadedConfig {
    type V = Saved;

    open spec fn view(&self) -> Saved {
        Saved {
            pattern_hash: text::maybe(self.pattern_hash),
            timeout_ms: self.timeout_ms as nat,
            unlock_cmd: self.unlock_cmd@,
            max_failures: self.max_failures as nat,
            lockout_base_ms: self.lockout_base_ms as nat,
            lockout_max_ms: self.lockout_max_ms as nat,
            require_usb: text::maybe(self.require_usb),
        }
    }
}

/// The settings of an empty file, or of none.
pub open spec fn default_saved() -> Saved {
    Saved {
        pattern_hash: None,
        timeout_ms: daemon::DEFAULT_TIMEOUT_MS as nat,
        unlock_cmd: daemon::DEFAULT_UNLOCK_CMD@,
        max_failures: DEFAULT_MAX_FAILURES as nat,
        lockout_base_ms: DEFAULT_LOCKOUT_BASE_MS as nat,
        lockout_max_ms: DEFAULT_LOCKOUT_MAX_MS as nat,
        require_usb: None,
    }
}

/// The number that a value spells, or else the one that held before.
pub open spec fn number_or(value: Seq<char>, max: nat, before: nat) -> nat {
    match number::parse_unsigned(value, max) {
        Some(n) => n,
        None => before,
    }
}

/// The settings after an entry: an empty value, a number that does not read and
/// a key that is not known change nothing. A comment may follow the timeout and
/// the unlock command.
pub open spec fn saved_with(s: Saved, e: (Seq<char>, Seq<char>)) -> Saved {
    if e.0 == "pattern_hash"@ {
        if e.1.len() > 0 {
            Saved { pattern_hash: Some(e.1), ..s }
        } else {
            s
        }
    } else if e.0 == "timeout_ms"@ {
        Saved {
            timeout_ms: number_or(entries::uncommented(e.1), u64::MAX as nat, s.timeout_ms),
            ..s
        }
    } else if e.0 == "unlock_cmd"@ {
        let cmd = entries::uncommented(e.1);
        if cmd.len() > 0 {
            Saved { unlock_cmd: cmd, ..s }
        } else {
            s
        }
    } else if e.0 == "max_failures"@ {
        Saved { max_failures: number_or(e.1, u32::MAX as nat, s.max_failures), ..s }
    } else if e.0 == "lockout_base_ms"@ {
        Saved { lockout_base_ms: number_or(e.1, u64::MAX as nat, s.lockout_base_ms), ..s }
    } else if e.0 == "lockout_max_ms"@ {
        Saved { lockout_max_ms: number_or(e.1, u64::MAX as nat, s.lockout_max_ms), ..s }
    } else if e.0 == "require_usb"@ && e.1.len() > 0 {
        Saved { require_usb: Some(e.1), ..s }
    } else {
        s
    }
}

/// The settings that a row of entries makes; later ones win.
pub open spec fn saved_of(es: Seq<(Seq<char>, Seq<char>)>) -> Saved
    decreases es.len(),
{
    if es.len() == 0 {
        default_saved()
    } else {
        saved_with(saved_of(es.drop_last()), es.last())
    }
}

/// The settings of an empty file, or of none.
pub(crate) fn default_config() -> (r: LoadedConfig)
    ensures
        r@ == default_saved(),
{
    LoadedConfig {
        pattern_hash: None,
        timeout_ms: daemon::DEFAULT_TIMEOUT_MS,
        unlock_cmd: daemon::DEFAULT_UNLOCK_CMD.to_owned(),
        max_failures: DEFAULT_MAX_FAILURES,
        lockout_base_ms: DEFAULT_LOCKOUT_BASE_MS,
        lockout_max_ms: DEFAULT_LOCKOUT_MAX_MS,
        require_usb: None,
    }
}

/// Makes the settings from what the settings file holds, or from nothing where
/// it could not be read.
pub fn load_config(content: Option<&str>) -> (r: LoadedConfig)
    ensures
        r@ == (match content {
            Some(c) => saved_of(entries::entries(c@)),
            None => default_saved(),
        }),
{
    let mut r: LoadedConfig = default_config();
    match content {
        Some(c) => {
            let es: Vec<Entry> = entries::read_entries(c);
            let ghost all = entries::entries(c@);
            let mut i: usize = 0;
            assert(all.take(0) =~= Seq::empty());
            while i < es.len()
                invariant
                    i <= es@.len(),
                    all == entries::entry_views(es@),
                    r@ == saved_of(all.take(i as int)),
                decreases es@.len() - i,
            {
                let e: &Entry = &es[i];
                proof {
                    assert(all[i as int] == e@);
                    assert(all.take(i + 1).drop_last() =~= all.take(i as int));
                    assert(all.take(i + 1).last() == e@);
                }
                set_saved(&mut r, e);
                i += 1;
            }
            assert(all.take(all.len() as int) =~= all);
        },
        None => {},
    }
    r
}

/// Takes an entry into the settings.
pub(crate) fn set_saved(c: &mut LoadedConfig, e: &Entry)
    ensures
        final(c)@ == saved_with(old(c)@, e@),
{
    let empty: bool = e.value.as_str().is_empty();
    if text::same_text(&e.key, "pattern_hash") {
        if !empty {
            c.pattern_hash = Some(e.value.clone());
        }
    } else if text::same_text(&e.key, "timeout_ms") {
        let bare: String = entries::strip_comment(e.value.as_str());
        match number::parse_u64(bare.as_str()) {
            Some(n) => {
                c.timeout_ms = n;
            },
            None => {},
        }
    } else if text::same_text(&e.key, "unlock_cmd") {
        let cmd: String = entries::strip_comment(e.value.as_str());
        if !cmd.as_str().is_empty() {
            c.unlock_cmd = cmd;
        }
    } else if text::same_text(&e.key, "max_failures") {
        match number::parse_u32(e.value.as_str()) {
            Some(n) => {
                c.max_failures = n;
            },
            None => {},
        }
    } else if text::same_text(&e.key, "lockout_base_ms") {
        match number::parse_u64(e.value.as_str()) {
            Some(n) => {
                c.lockout_base_ms = n;
            },
            None => {},
        }
    } else if text::same_text(&e.key, "lockout_max_ms") {
        match number::parse_u64(e.value.as_str()) {
            Some(n) => {
                c.lockout_max_ms = n;
            },
            None => {},
        }
    } else if text::same_text(&e.key, "require_usb") && !empty {
        c.require_usb = Some(e.value.clone());
    }
}

/// A line that holds an entry.
pub open spec fn field(key: Seq<char>, value: Seq<char>) -> Seq<char> {
    key + " = "@ + value
}

/// The lines of the settings file, with a hash as the pattern.
pub open spec fn rendered_rows(s: Saved, hash: Seq<char>) -> Seq<Seq<char>> {
    seq![
        "# mouse-unlock configuration (managed by mouse-unlock-setup)"@,
        "# pattern_hash is an Argon2 hash of your click sequence — keep this file 0600."@,
        ""@,
        field("pattern_hash"@, hash),
        field("timeout_ms"@, number::decimal(s.timeout_ms)),
        field("unlock_cmd"@, s.unlock_cmd),
        ""@,
        "# Brute-force lockout (failures counted only while the screen is locked):"@,
        field("max_failures"@, number::decimal(s.max_failures)),
        field("lockout_base_ms"@, number::decimal(s.lockout_base_ms)),
        field("lockout_max_ms"@, number::decimal(s.lockout_max_ms)),
        ""@,
        "# Optional second factor: only unlock if this USB device is present"@,
        "# (vendor:product[:serial]). Empty = disabled."@,
        field(
            "require_usb"@,
            match s.require_usb {
                Some(u) => u,
                None => ""@,
            },
        ),
    ]
}

/// A row of lines as one text, a line feed behind each.
pub open spec fn unlines(rows: Seq<Seq<char>>) -> Seq<char>
    decreases rows.len(),
{
    if rows.len() == 0 {
        Seq::empty()
    } else {
        unlines(rows.drop_last()) + rows.last() + seq!['\n']
    }
}

/// The settings file, with a hash as the pattern.
pub open spec fn rendered(s: Saved, hash: Seq<char>) -> Seq<char> {
    unlines(rendered_rows(s, hash))
}

/// A row of lines as one text, a line feed behind each.
fn join_lines(rows: &Vec<String>) -> (r: String)
    ensures
        r@ == unlines(text::texts(rows@)),
{
    let ghost all = text::texts(rows@);
    let mut r: String = String::new();
    let mut i: usize = 0;
    assert(all.take(0) =~= Seq::empty());
    while i < rows.len()
        invariant
            i <= rows@.len(),
            all == text::texts(rows@),
            r@ == unlines(all.take(i as int)),
        decreases rows@.len() - i,
    {
        r.append(rows[i].as_str());
        r.push('\n');
        proof {
            assert(all.take(i + 1).drop_last() =~= all.take(i as int));
            assert(all.take(i + 1).last() == rows@[i as int]@);
            assert(r@ =~= unlines(all.take(i + 1)));
        }
        i += 1;
    }
    assert(all.take(all.len() as int) =~= all);
    r
}

/// A line that holds an entry.
fn field_line(key: &str, value: &str) -> (r: String)
    ensures
        r@ == field(key@, value@),
{
    text::join3(key, " = ", value)
}

impl LoadedConfig {
    /// The settings file, with a hash as the pattern.
    pub fn render(&self, hash: &str) -> (r: String)
        ensures
            r@ == rendered(self@, hash@),
    {
        let mut rows: Vec<String> = Vec::new();
        let timeout: String = number::to_decimal(self.timeout_ms);
        let failures: String = number::to_decimal(self.max_failures as u64);
        let base: String = number::to_decimal(self.lockout_base_ms);
        let longest: String = number::to_decimal(self.lockout_max_ms);
        let usb: String = match &self.require_usb {
            Some(u) => u.clone(),
            None => "".to_owned(),
        };
        rows.push("# mouse-unlock configuration (managed by mouse-unlock-setup)".to_owned());
        rows.push(
            "# pattern_hash is an Argon2 hash of your click sequence — keep this file 0600.".to_owned(),
        );
        rows.push("".to_owned());
        rows.push(field_line("pattern_hash", hash));
        rows.push(field_line("timeout_ms", timeout.as_str()));
        rows.push(field_line("unlock_cmd", self.unlock_cmd.as_str()));
        rows.push("".to_owned());
        rows.push(
            "# Brute-force lockout (failures counted only while the screen is locked):".to_owned(),
        );
        rows.push(field_line("max_failures", failures.as_str()));
        rows.push(field_line("lockout_base_ms", base.as_str()));
        rows.push(field_line("lockout_max_ms", longest.as_str()));
        rows.push("".to_owned());
        rows.push(
            "# Optional second factor: only unlock if this USB device is present".to_owned(),
        );
        rows.push("# (vendor:product[:serial]). Empty = disabled.".to_owned());
        rows.push(field_line("require_usb", usb.as_str()));
        assert(text::texts(rows@) =~= rendered_rows(self@, hash@));
        join_lines(&rows)
    }
}

/// A value that an entry can hold as it is: it has no line feed, and no white
/// space at its ends.
pub open spec fn is_clean(s: Seq<char>) -> bool {
    text::is_trimmed(s) && text::one_line(s)
}

/// Settings that can be written next to a hash, an entry each: numbers in their
/// range, and texts that are clean and not empty.
pub open spec fn is_writable(s: Saved) -> bool {
    &&& s.timeout_ms <= u64::MAX
    &&& s.max_failures <= u32::MAX
    &&& s.lockout_base_ms <= u64::MAX
    &&& s.lockout_max_ms <= u64::MAX
    &&& s.unlock_cmd.len() > 0
    &&& is_clean(s.unlock_cmd)
    &&& s.require_usb matches Some(u) ==> u.len() > 0 && is_clean(u)
}

/// Settings that a settings file can hold next to a hash: they can be written,
/// and no comment starts in the command.
pub open spec fn fits(s: Saved) -> bool {
    is_writable(s) && entries::no_comment(s.unlock_cmd)
}

/// What settings that are written with a hash read back as: the hash is their
/// pattern, and a comment in the command is left out.
pub open spec fn read_back(s: Saved, hash: Seq<char>) -> Saved {
    Saved {
        pattern_hash: Some(hash),
        unlock_cmd: entries::uncommented(s.unlock_cmd),
        ..s
    }
}

/// Settings that a settings file can hold, with a hash that it can hold.
pub open spec fn is_storable(s: Saved) -> bool {
    &&& fits(s)
    &&& s.pattern_hash matches Some(h) ==> h.len() > 0 && is_clean(h)
}

/// The text of a row of lines begins with the first of them.
proof fn lemma_unlines_cons(rows: Seq<Seq<char>>)
    requires
        rows.len() > 0,
    ensures
        unlines(rows) == rows[0] + seq!['\n'] + unlines(rows.drop_first()),
    decreases rows.len(),
{
    if rows.len() == 1 {
        assert(rows.drop_last() =~= Seq::empty());
        assert(rows.drop_first() =~= Seq::empty());
        assert(unlines(rows) =~= rows[0] + seq!['\n'] + unlines(rows.drop_first()));
    } else {
        lemma_unlines_cons(rows.drop_last());
        assert(rows.drop_last().drop_first() =~= rows.drop_first().drop_last());
        assert(unlines(rows) =~= rows[0] + seq!['\n'] + unlines(rows.drop_first()));
    }
}

/// What a text of lines holds is what its lines hold.
proof fn lemma_entries_of_unlines(rows: Seq<Seq<char>>)
    requires
        forall|i: int| 0 <= i < rows.len() ==> text::one_line(#[trigger] rows[i]),
    ensures
        entries::entries(unlines(rows)) == entries::entries_of(rows),
    decreases rows.len(),
{
    if rows.len() == 0 {
        let none: Seq<char> = Seq::empty();
        assert(entries::lines(none) =~= seq![none]);
        let one = seq![none];
        assert(one.drop_last() =~= Seq::empty());
        assert(entries::entries_of(one.drop_last()) =~= Seq::empty());
        assert(one.last() == none);
        assert(entries::entry_of(none) is None);
    } else {
        let rest = rows.drop_first();
        assert forall|i: int| 0 <= i < rest.len() implies text::one_line(#[trigger] rest[i]) by {
            assert(rest[i] == rows[i + 1]);
        }
        lemma_entries_of_unlines(rest);
        lemma_unlines_cons(rows);
        entries::lemma_entries_cons(rows[0], unlines(rest));
        let head = seq![rows[0]];
        assert(head + rest =~= rows);
        entries::lemma_entries_split(head, rest);
        assert(head.drop_last() =~= Seq::empty());
        assert(entries::entries_of(head.drop_last()) =~= Seq::empty());
        assert(entries::entries(unlines(rows)) =~= entries::entries_of(rows));
    }
}

/// A number in decimal is clean, and no comment starts in it.
proof fn lemma_decimal_is_clean(n: nat)
    ensures
        is_clean(number::decimal(n)),
        number::decimal(n).len() > 0,
        entries::uncommented(number::decimal(n)) == number::decimal(n),
{
    let d = number::decimal(n);
    number::lemma_decimal(n);
    assert(number::is_digit(d[0]));
    assert(number::is_digit(d[d.len() - 1]));
    assert forall|i: int| 0 <= i < d.len() implies #[trigger] d[i] != '\n' by {
        assert(number::is_digit(d[i]));
    }
    assert forall|i: int| 0 <= i < d.len() implies !#[trigger] entries::comment_at(d, i) by {
        assert(number::is_digit(d[i]));
    }
    entries::lemma_no_comment_kept(d);
}

/// A line with an entry reads back as that entry.
proof fn lemma_field(key: Seq<char>, value: Seq<char>)
    requires
        key.len() > 0,
        key[0] != '#',
        is_clean(key),
        forall|i: int| 0 <= i < key.len() ==> #[trigger] key[i] != '=',
        is_clean(value),
    ensures
        text::one_line(field(key, value)),
        entries::entry_of(field(key, value)) == Some((key, value)),
{
    reveal_strlit(" = ");
    assert(" = "@ =~= seq![' ', '=', ' ']);
    entries::lemma_entry_reads_back(key, value);
    let line = field(key, value);
    assert forall|i: int| 0 <= i < line.len() implies #[trigger] line[i] != '\n' by {
        if i < key.len() {
            assert(line[i] == key[i]);
        } else if i >= key.len() + 3 {
            assert(line[i] == value[i - key.len() - 3]);
        }
    }
}

/// A line that starts with `#` holds no entry.
proof fn lemma_comment_line(line: Seq<char>)
    requires
        line.len() > 0,
        line[0] == '#',
    ensures
        entries::entry_of(line) is None,
{
    text::lemma_trimmed_head(line);
}

/// The keys of the settings file are clean, are not taken for comments and have
/// no `=` in them.
spec fn is_key(key: Seq<char>) -> bool {
    &&& key.len() > 0
    &&& key[0] != '#'
    &&& is_clean(key)
    &&& forall|i: int| 0 <= i < key.len() ==> #[trigger] key[i] != '='
}

proof fn lemma_keys()
    ensures
        is_key("pattern_hash"@),
        is_key("timeout_ms"@),
        is_key("unlock_cmd"@),
        is_key("max_failures"@),
        is_key("lockout_base_ms"@),
        is_key("lockout_max_ms"@),
        is_key("require_usb"@),
{
    reveal_strlit("pattern_hash");
    reveal_strlit("timeout_ms");
    reveal_strlit("unlock_cmd");
    reveal_strlit("max_failures");
    reveal_strlit("lockout_base_ms");
    reveal_strlit("lockout_max_ms");
    reveal_strlit("require_usb");
}

/// The lines of the settings file that hold no entry.
proof fn lemma_plain_rows()
    ensures
        ({
            let a = "# mouse-unlock configuration (managed by mouse-unlock-setup)"@;
            text::one_line(a) && entries::entry_of(a) is None
        }),
        ({
            let a =
                "# pattern_hash is an Argon2 hash of your click sequence — keep this file 0600."@;
            text::one_line(a) && entries::entry_of(a) is None
        }),
        ({
            let a = "# Brute-force lockout (failures counted only while the screen is locked):"@;
            text::one_line(a) && entries::entry_of(a) is None
        }),
        ({
            let a = "# Optional second factor: only unlock if this USB device is present"@;
            text::one_line(a) && entries::entry_of(a) is None
        }),
        ({
            let a = "# (vendor:product[:serial]). Empty = disabled."@;
            text::one_line(a) && entries::entry_of(a) is None
        }),
        text::one_line(""@) && entries::entry_of(""@) is None,
{
    reveal_strlit("");
    reveal_strlit("# mouse-unlock configuration (managed by mouse-unlock-setup)");
    lemma_comment_line("# mouse-unlock configuration (managed by mouse-unlock-setup)"@);
    reveal_strlit("# pattern_hash is an Argon2 hash of your click sequence — keep this file 0600.");
    lemma_comment_line(
        "# pattern_hash is an Argon2 hash of your click sequence — keep this file 0600."@,
    );
    reveal_strlit("# Brute-force lockout (failures counted only while the screen is locked):");
    lemma_comment_line(
        "# Brute-force lockout (failures counted only while the screen is locked):"@,
    );
    reveal_strlit("# Optional second factor: only unlock if this USB device is present");
    lemma_comment_line("# Optional second factor: only unlock if this USB device is present"@);
    reveal_strlit("# (vendor:product[:serial]). Empty = disabled.");
    lemma_comment_line("# (vendor:product[:serial]). Empty = disabled."@);
}

/// The entries of a settings file that was written from `s`.
pub open spec fn rendered_entries(s: Saved, hash: Seq<char>) -> Seq<(Seq<char>, Seq<char>)> {
    seq![
        ("pattern_hash"@, hash),
        ("timeout_ms"@, number::decimal(s.timeout_ms)),
        ("unlock_cmd"@, s.unlock_cmd),
        ("max_failures"@, number::decimal(s.max_failures)),
        ("lockout_base_ms"@, number::decimal(s.lockout_base_ms)),
        ("lockout_max_ms"@, number::decimal(s.lockout_max_ms)),
        (
            "require_usb"@,
            match s.require_usb {
                Some(u) => u,
                None => ""@,
            },
        ),
    ]
}

proof fn lemma_rows_push(rows: Seq<Seq<char>>, row: Seq<char>)
    ensures
        entries::entries_of(rows.push(row)) == (match entries::entry_of(row) {
            Some(e) => entries::entries_of(rows).push(e),
            None => entries::entries_of(rows),
        }),
{
    assert(rows.push(row).drop_last() =~= rows);
}

/// A settings file that was written from settings it can hold has one entry for
/// each of them.
pub proof fn law_rendered_entries(s: Saved, hash: Seq<char>)
    requires
        is_writable(s),
        is_clean(hash),
    ensures
        entries::entries(rendered(s, hash)) == rendered_entries(s, hash),
{
    let rows = rendered_rows(s, hash);
    let usb = match s.require_usb {
        Some(u) => u,
        None => ""@,
    };
    lemma_keys();
    lemma_plain_rows();
    reveal_strlit("");
    lemma_decimal_is_clean(s.timeout_ms);
    lemma_decimal_is_clean(s.max_failures);
    lemma_decimal_is_clean(s.lockout_base_ms);
    lemma_decimal_is_clean(s.lockout_max_ms);
    lemma_field("pattern_hash"@, hash);
    lemma_field("timeout_ms"@, number::decimal(s.timeout_ms));
    lemma_field("unlock_cmd"@, s.unlock_cmd);
    lemma_field("max_failures"@, number::decimal(s.max_failures));
    lemma_field("lockout_base_ms"@, number::decimal(s.lockout_base_ms));
    lemma_field("lockout_max_ms"@, number::decimal(s.lockout_max_ms));
    lemma_field("require_usb"@, usb);
    assert forall|i: int| 0 <= i < rows.len() implies text::one_line(#[trigger] rows[i]) by {}
    lemma_entries_of_unlines(rows);
    let r0: Seq<Seq<char>> = Seq::empty();
    let r1 = r0.push(rows[0]);
    let r2 = r1.push(rows[1]);
    let r3 = r2.push(rows[2]);
    let r4 = r3.push(rows[3]);
    let r5 = r4.push(rows[4]);
    let r6 = r5.push(rows[5]);
    let r7 = r6.push(rows[6]);
    let r8 = r7.push(rows[7]);
    let r9 = r8.push(rows[8]);
    let r10 = r9.push(rows[9]);
    let r11 = r10.push(rows[10]);
    let r12 = r11.push(rows[11]);
    let r13 = r12.push(rows[12]);
    let r14 = r13.push(rows[13]);
    let r15 = r14.push(rows[14]);
    lemma_rows_push(r0, rows[0]);
    lemma_rows_push(r1, rows[1]);
    lemma_rows_push(r2, rows[2]);
    lemma_rows_push(r3, rows[3]);
    lemma_rows_push(r4, rows[4]);
    lemma_rows_push(r5, rows[5]);
    lemma_rows_push(r6, rows[6]);
    lemma_rows_push(r7, rows[7]);
    lemma_rows_push(r8, rows[8]);
    lemma_rows_push(r9, rows[9]);
    lemma_rows_push(r10, rows[10]);
    lemma_rows_push(r11, rows[11]);
    lemma_rows_push(r12, rows[12]);
    lemma_rows_push(r13, rows[13]);
    lemma_rows_push(r14, rows[14]);
    assert(r15 =~= rows);
    assert(entries::entries_of(rows) =~= rendered_entries(s, hash));
}

/// The keys differ from one another.
pub proof fn lemma_keys_differ()
    ensures
        "pattern_hash"@ != "timeout_ms"@,
        "pattern_hash"@ != "unlock_cmd"@,
        "pattern_hash"@ != "max_failures"@,
        "pattern_hash"@ != "lockout_base_ms"@,
        "pattern_hash"@ != "lockout_max_ms"@,
        "pattern_hash"@ != "require_usb"@,
        "pattern_hash"@ != "pattern"@,
        "timeout_ms"@ != "unlock_cmd"@,
        "timeout_ms"@ != "max_failures"@,
        "timeout_ms"@ != "lockout_base_ms"@,
        "timeout_ms"@ != "lockout_max_ms"@,
        "timeout_ms"@ != "require_usb"@,
        "timeout_ms"@ != "pattern"@,
        "unlock_cmd"@ != "max_failures"@,
        "unlock_cmd"@ != "lockout_base_ms"@,
        "unlock_cmd"@ != "lockout_max_ms"@,
        "unlock_cmd"@ != "require_usb"@,
        "unlock_cmd"@ != "pattern"@,
        "max_failures"@ != "lockout_base_ms"@,
        "max_failures"@ != "lockout_max_ms"@,
        "max_failures"@ != "require_usb"@,
        "max_failures"@ != "pattern"@,
        "lockout_base_ms"@ != "lockout_max_ms"@,
        "lockout_base_ms"@ != "require_usb"@,
        "lockout_base_ms"@ != "pattern"@,
        "lockout_max_ms"@ != "require_usb"@,
        "lockout_max_ms"@ != "pattern"@,
        "require_usb"@ != "pattern"@,
{
    reveal_strlit("pattern_hash");
    reveal_strlit("timeout_ms");
    reveal_strlit("unlock_cmd");
    reveal_strlit("max_failures");
    reveal_strlit("lockout_base_ms");
    reveal_strlit("lockout_max_ms");
    reveal_strlit("require_usb");
    reveal_strlit("pattern");
    assert("pattern_hash"@[0] == 'p' && "pattern_hash"@.len() == 12);
    assert("timeout_ms"@[0] == 't');
    assert("unlock_cmd"@[0] == 'u');
    assert("max_failures"@[0] == 'm');
    assert("lockout_base_ms"@[0] == 'l' && "lockout_base_ms"@[8] == 'b');
    assert("lockout_max_ms"@[0] == 'l' && "lockout_max_ms"@[8] == 'm');
    assert("require_usb"@[0] == 'r');
    assert("pattern"@[0] == 'p' && "pattern"@.len() == 7);
}

proof fn lemma_saved_push(es: Seq<(Seq<char>, Seq<char>)>, e: (Seq<char>, Seq<char>))
    ensures
        saved_of(es.push(e)) == saved_with(saved_of(es), e),
{
    assert(es.push(e).drop_last() =~= es);
}

/// What is saved reads back: from the file that is written with a hash, the
/// setup program gets the settings that it wrote, with that hash as the
/// pattern, and without a comment that starts in the command.
pub proof fn law_saved_settings_read_back(s: Saved, hash: Seq<char>)
    requires
        is_writable(s),
        is_clean(hash),
        hash.len() > 0,
    ensures
        saved_of(entries::entries(rendered(s, hash))) == read_back(s, hash),
        entries::no_comment(s.unlock_cmd) ==> read_back(s, hash) == (Saved {
            pattern_hash: Some(hash),
            ..s
        }),
{
    law_rendered_entries(s, hash);
    lemma_keys_differ();
    reveal_strlit("");
    lemma_decimal_is_clean(s.timeout_ms);
    entries::lemma_uncommented(s.unlock_cmd);
    if entries::no_comment(s.unlock_cmd) {
        entries::lemma_no_comment_kept(s.unlock_cmd);
    }
    number::law_number_round_trip(s.timeout_ms, u64::MAX as nat);
    number::law_number_round_trip(s.max_failures, u32::MAX as nat);
    number::law_number_round_trip(s.lockout_base_ms, u64::MAX as nat);
    number::law_number_round_trip(s.lockout_max_ms, u64::MAX as nat);
    let es = rendered_entries(s, hash);
    let e0: Seq<(Seq<char>, Seq<char>)> = Seq::empty();
    let e1 = e0.push(es[0]);
    let e2 = e1.push(es[1]);
    let e3 = e2.push(es[2]);
    let e4 = e3.push(es[3]);
    let e5 = e4.push(es[4]);
    let e6 = e5.push(es[5]);
    let e7 = e6.push(es[6]);
    lemma_saved_push(e0, es[0]);
    lemma_saved_push(e1, es[1]);
    lemma_saved_push(e2, es[2]);
    lemma_saved_push(e3, es[3]);
    lemma_saved_push(e4, es[4]);
    lemma_saved_push(e5, es[5]);
    lemma_saved_push(e6, es[6]);
    assert(e7 =~= es);
    assert(saved_of(es) =~= read_back(s, hash));
}

/// Entries that the daemon knows and that name no pattern leave it as it is.
proof fn lemma_no_pattern_named(es: Seq<(Seq<char>, Seq<char>)>)
    requires
        forall|i: int|
            0 <= i < es.len() ==> daemon::is_known((#[trigger] es[i]).0) && es[i].0 != "pattern"@,
    ensures
        daemon::pattern_of(es) == click::clicks_in(daemon::DEFAULT_PATTERN@),
        daemon::unknown_key_notes(es).len() == 0,
    decreases es.len(),
{
    if es.len() > 0 {
        lemma_no_pattern_named(es.drop_last());
        assert(daemon::is_known(es[es.len() - 1].0));
    }
}

/// From a file that the setup program saved, the daemon takes every setting, the
/// hash in place of the pattern, and it knows every key. A comment that starts in
/// the command is left out.
pub proof fn law_daemon_reads_saved_settings(s: Saved, hash: Seq<char>)
    requires
        is_writable(s),
        is_clean(hash),
        hash.len() > 0,
    ensures
        daemon::settings_of(entries::entries(rendered(s, hash))) == daemon::settings(
            click::clicks_in(daemon::DEFAULT_PATTERN@),
            read_back(s, hash),
        ),
        daemon::unknown_key_notes(entries::entries(rendered(s, hash))).len() == 0,
{
    law_saved_settings_read_back(s, hash);
    law_rendered_entries(s, hash);
    lemma_keys_differ();
    lemma_no_pattern_named(rendered_entries(s, hash));
}

/// Whatever a settings file holds, the settings read from it can be saved.
pub proof fn law_loaded_settings_are_storable(content: Seq<char>)
    ensures
        is_storable(saved_of(entries::entries(content))),
        is_storable(default_saved()),
{
    entries::law_entries_are_clean(content);
    lemma_default_is_storable();
    lemma_saved_is_storable(entries::entries(content));
}

proof fn lemma_default_is_storable()
    ensures
        is_storable(default_saved()),
{
    reveal_strlit("loginctl unlock-sessions");
    let cmd = daemon::DEFAULT_UNLOCK_CMD@;
    assert forall|i: int| 0 <= i < cmd.len() implies !#[trigger] entries::comment_at(cmd, i) by {}
}

proof fn lemma_saved_is_storable(es: Seq<(Seq<char>, Seq<char>)>)
    requires
        forall|i: int| 0 <= i < es.len() ==> is_clean((#[trigger] es[i]).1),
    ensures
        is_storable(saved_of(es)),
    decreases es.len(),
{
    if es.len() == 0 {
        lemma_default_is_storable();
    } else {
        lemma_saved_is_storable(es.drop_last());
        assert(is_clean(es[es.len() - 1].1));
        entries::lemma_uncommented(es.last().1);
    }
}

/// The settings where there is no file, or nothing in it.
pub proof fn law_settings_without_a_file()
    ensures
        default_saved() == (Saved {
            pattern_hash: None,
            timeout_ms: 2000,
            unlock_cmd: "loginctl unlock-sessions"@,
            max_failures: 5,
            lockout_base_ms: 2000,
            lockout_max_ms: 300_000,
            require_usb: None,
        }),
        saved_of(entries::entries(Seq::empty())) == default_saved(),
{
    lemma_entries_of_unlines(Seq::empty());
}

/// A line behind a file that holds an entry adds that entry to its entries.
pub proof fn lemma_entry_behind(before: Seq<char>, key: Seq<char>, value: Seq<char>)
    requires
        key.len() > 0,
        key[0] != '#',
        is_clean(key),
        forall|i: int| 0 <= i < key.len() ==> #[trigger] key[i] != '=',
        is_clean(value),
    ensures
        entries::entries(before + seq!['\n'] + (key + " = "@ + value)) == entries::entries(
            before,
        ).push((key, value)),
{
    lemma_field(key, value);
    let line = key + " = "@ + value;
    entries::law_entries_of_the_parts(before, line);
    entries::law_entries_of_a_line(line);
    assert(entries::entries(before) + seq![(key, value)] =~= entries::entries(before).push(
        (key, value),
    ));
}

/// A text with a further line behind it: a key, an equals sign and a value.
pub open spec fn with_line(before: Seq<char>, key: Seq<char>, value: Seq<char>) -> Seq<char> {
    before + seq!['\n'] + (key + " = "@ + value)
}

/// Each key sets its own setting and no other, to what its value says, whatever
/// stands before it in the file: so later lines win.
pub proof fn law_a_line_sets_its_setting(
    before: Seq<char>,
    hash: Seq<char>,
    cmd: Seq<char>,
    usb: Seq<char>,
    n: nat,
    failures: nat,
)
    requires
        is_clean(hash) && hash.len() > 0,
        is_clean(cmd) && cmd.len() > 0,
        entries::without_number_sign(cmd),
        is_clean(usb) && usb.len() > 0,
        n <= 0xffff_ffff_ffff_ffff,
        failures <= 0xffff_ffff,
    ensures
        ({
            let s = saved_of(entries::entries(before));
            let read = |key: Seq<char>, value: Seq<char>|
                saved_of(entries::entries(with_line(before, key, value)));
            let d = number::decimal(n);
            &&& read("pattern_hash"@, hash) == Saved { pattern_hash: Some(hash), ..s }
            &&& read("timeout_ms"@, d) == Saved { timeout_ms: n, ..s }
            &&& read("unlock_cmd"@, cmd) == Saved { unlock_cmd: cmd, ..s }
            &&& read("max_failures"@, number::decimal(failures)) == Saved {
                max_failures: failures,
                ..s
            }
            &&& read("lockout_base_ms"@, d) == Saved { lockout_base_ms: n, ..s }
            &&& read("lockout_max_ms"@, d) == Saved { lockout_max_ms: n, ..s }
            &&& read("require_usb"@, usb) == Saved { require_usb: Some(usb), ..s }
        }),
{
    let es = entries::entries(before);
    let d = number::decimal(n);
    lemma_keys();
    lemma_keys_differ();
    lemma_decimal_is_clean(n);
    lemma_decimal_is_clean(failures);
    number::law_number_round_trip(n, u64::MAX as nat);
    number::law_number_round_trip(failures, u32::MAX as nat);
    entries::law_a_number_sign_in_a_word_is_kept(cmd);
    lemma_entry_behind(before, "pattern_hash"@, hash);
    lemma_entry_behind(before, "timeout_ms"@, d);
    lemma_entry_behind(before, "unlock_cmd"@, cmd);
    lemma_entry_behind(before, "max_failures"@, number::decimal(failures));
    lemma_entry_behind(before, "lockout_base_ms"@, d);
    lemma_entry_behind(before, "lockout_max_ms"@, d);
    lemma_entry_behind(before, "require_usb"@, usb);
    lemma_saved_push(es, ("pattern_hash"@, hash));
    lemma_saved_push(es, ("timeout_ms"@, d));
    lemma_saved_push(es, ("unlock_cmd"@, cmd));
    lemma_saved_push(es, ("max_failures"@, number::decimal(failures)));
    lemma_saved_push(es, ("lockout_base_ms"@, d));
    lemma_saved_push(es, ("lockout_max_ms"@, d));
    lemma_saved_push(es, ("require_usb"@, usb));
}

/// A line changes nothing where its key is none of those that are known, where
/// its value is empty, and where a number is asked for and the value is none, or
/// one that is too large.
pub proof fn law_other_lines_set_nothing(
    before: Seq<char>,
    key: Seq<char>,
    value: Seq<char>,
    n: nat,
)
    requires
        key.len() > 0,
        key[0] != '#',
        is_clean(key),
        forall|i: int| 0 <= i < key.len() ==> #[trigger] key[i] != '=',
        is_clean(value),
    ensures
        ({
            let s = saved_of(entries::entries(before));
            let read = |k: Seq<char>, v: Seq<char>|
                saved_of(entries::entries(with_line(before, k, v)));
            let none: Seq<char> = Seq::empty();
            &&& key != "pattern_hash"@ && key != "timeout_ms"@ && key != "unlock_cmd"@ && key
                != "max_failures"@ && key != "lockout_base_ms"@ && key != "lockout_max_ms"@ && key
                != "require_usb"@ ==> read(key, value) == s
            &&& read(key, none) == s
            &&& number::parse_unsigned(value, n) is None && n == 0xffff_ffff ==> read(
                "max_failures"@,
                value,
            ) == s
            &&& number::parse_unsigned(value, n) is None && n == 0xffff_ffff_ffff_ffff ==> read(
                "lockout_base_ms"@,
                value,
            ) == s && read("lockout_max_ms"@, value) == s
            &&& number::parse_unsigned(value, n) is None && n == 0xffff_ffff_ffff_ffff
                && entries::without_number_sign(value) ==> read("timeout_ms"@, value) == s
        }),
{
    let es = entries::entries(before);
    let none: Seq<char> = Seq::empty();
    lemma_keys();
    lemma_keys_differ();
    entries::lemma_uncommented(none);
    entries::lemma_uncommented(value);
    assert(entries::uncommented(none) =~= none);
    if entries::without_number_sign(value) {
        entries::law_a_number_sign_in_a_word_is_kept(value);
    }
    lemma_entry_behind(before, key, value);
    lemma_entry_behind(before, key, none);
    lemma_entry_behind(before, "max_failures"@, value);
    lemma_entry_behind(before, "lockout_base_ms"@, value);
    lemma_entry_behind(before, "lockout_max_ms"@, value);
    lemma_entry_behind(before, "timeout_ms"@, value);
    lemma_saved_push(es, (key, value));
    lemma_saved_push(es, (key, none));
    lemma_saved_push(es, ("max_failures"@, value));
    lemma_saved_push(es, ("lockout_base_ms"@, value));
    lemma_saved_push(es, ("lockout_max_ms"@, value));
    lemma_saved_push(es, ("timeout_ms"@, value));
}

/// The file that is saved keeps each setting on a line of its own, behind its
/// key: to read it gives each of them back, one by one.
pub proof fn law_each_saved_setting_reads_back(s: Saved, hash: Seq<char>)
    requires
        is_writable(s),
        entries::no_comment(s.unlock_cmd),
        is_clean(hash),
        hash.len() > 0,
    ensures
        ({
            let r = saved_of(entries::entries(rendered(s, hash)));
            &&& r.pattern_hash == Some(hash)
            &&& r.timeout_ms == s.timeout_ms
            &&& r.unlock_cmd == s.unlock_cmd
            &&& r.max_failures == s.max_failures
            &&& r.lockout_base_ms == s.lockout_base_ms
            &&& r.lockout_max_ms == s.lockout_max_ms
            &&& r.require_usb == s.require_usb
        }),
{
    law_saved_settings_read_back(s, hash);
}

/// The settings file, line by line: each setting behind its key, and what is said
/// around them.
pub proof fn law_the_settings_file_line_by_line(s: Saved, hash: Seq<char>)
    ensures
        ({
            let rows = rendered_rows(s, hash);
            &&& rendered(s, hash) == unlines(rows)
            &&& rows.len() == 15
            &&& rows[0] == "# mouse-unlock configuration (managed by mouse-unlock-setup)"@
            &&& rows[1]
                == "# pattern_hash is an Argon2 hash of your click sequence — keep this file 0600."@
            &&& rows[2] == ""@
            &&& rows[3] == "pattern_hash"@ + " = "@ + hash
            &&& rows[4] == "timeout_ms"@ + " = "@ + number::decimal(s.timeout_ms)
            &&& rows[5] == "unlock_cmd"@ + " = "@ + s.unlock_cmd
            &&& rows[6] == ""@
            &&& rows[7]
                == "# Brute-force lockout (failures counted only while the screen is locked):"@
            &&& rows[8] == "max_failures"@ + " = "@ + number::decimal(s.max_failures)
            &&& rows[9] == "lockout_base_ms"@ + " = "@ + number::decimal(s.lockout_base_ms)
            &&& rows[10] == "lockout_max_ms"@ + " = "@ + number::decimal(s.lockout_max_ms)
            &&& rows[11] == ""@
            &&& rows[12] == "# Optional second factor: only unlock if this USB device is present"@
            &&& rows[13] == "# (vendor:product[:serial]). Empty = disabled."@
            &&& s.require_usb matches Some(u) ==> rows[14] == "require_usb"@ + " = "@ + u
            &&& s.require_usb is None ==> rows[14] == "require_usb"@ + " = "@ + ""@
        }),
{
}

/// Lines are put behind each other, a line feed behind each.
pub proof fn law_lines_put_together(rows: Seq<Seq<char>>, row: Seq<char>)
    ensures
        unlines(rows.push(row)) == unlines(rows) + row + seq!['\n'],
        unlines(Seq::empty()) == Seq::<char>::empty(),
{
    assert(rows.push(row).drop_last() =~= rows);
}

} // verus!
