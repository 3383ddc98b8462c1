# mouse-unlock

Unlock a Linux screen with a secret pattern of mouse clicks, such as
Left-Left-Right-Right-Left. A daemon watches the mice and runs an unlock command
on a match; a terminal program records the pattern, saves the settings and
manages the service.

The logic of both programs is a library that is verified with Verus:

- `src/click.rs`, `src/matcher.rs`: clicks, and the matcher for a plain pattern.
  From a fresh start it fires on exactly those clicks with which the pattern ends
  in time.
- `src/tries.rs`: tries at a hashed pattern, and the lockout after too many
  failures. Only clicks that verify against the hash open, and none does while
  failures lock out.
- `src/daemon.rs`: arguments, settings, and what a click leads to. What is recorded
  and saved unlocks; without the required USB device, and in test mode, nothing is
  run.
- `src/entries.rs`, `src/saved.rs`: the settings file. What the setup program
  saves reads back in both programs: as it was, where each text fits on a line,
  is not empty, has no white space at its ends, and no comment starts in the
  command; without the comment, where one does.
- `src/setup.rs`, `src/keys.rs`, `src/requests.rs`, `src/screen.rs`: the state of
  the setup program, what keys and clicks do to it, what answers its requests, and
  what it shows.
- `src/hash.rs`: patterns are stored as Argon2id hashes.
- `src/service.rs`, `src/usb.rs`: what is done to the system, step by step, and USB
  devices as a second factor.
- `src/text.rs`, `src/number.rs`: strings and numbers.

`app/` holds the programs around it: devices, files, processes and the terminal.

## Settings

    pattern    = LLRRL                    # L=left, R=right, M=middle
    timeout_ms = 2000                     # max time between two clicks
    unlock_cmd = loginctl unlock-sessions # command to run on match

A `#` at the start of a line starts a comment. So does one behind a space or a tab
after one of these three values, unless a backslash or quotes guard it. Where more
than that decides how a shell reads it, the value is kept whole: behind a
backquote, an arithmetic expression, a parameter expansion of more than a name, a
command substitution inside double quotes, or `$'...'`.

The setup program saves the hash of the pattern in place of the pattern, and adds
what a hashed pattern is guarded by:

    pattern_hash    = $argon2id$v=19$m=8192,t=3,p=1$...
    max_failures    = 5
    lockout_base_ms = 2000
    lockout_max_ms  = 300000
    require_usb     = 1234:5678

A hash takes the place of a plain pattern. It does not tell how long its pattern
is, so the clicks since the last pause are one try, and each click puts the whole
try to the test. A try that a pause ends on a locked screen is a failure. With the
failure that reaches `max_failures`, clicks are ignored for `lockout_base_ms`, and
with each one after it for twice as long, up to `lockout_max_ms`. A match forgives
them.

Where `require_usb` names a device, as `vendor:product` or
`vendor:product:serial`, the command is run only while it is there.
