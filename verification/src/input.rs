//! What the virtual keyboard sends: Linux key codes for chords, and the
//! press/release event sequences with the set of keys held down.
//!
//! The device itself (`/dev/uinput`) is opened and written around this
//! module; here the keyboard's decisions are made: which key codes a chord
//! uses, which events a press, a release or a release-all emits, and which
//! keys are down afterwards.
use vstd::prelude::*;

use crate::mapping::KeyChord;

verus! {

/// Error type for virtual hardware input.
#[derive(Debug)]
pub enum InputError {
    /// `/dev/uinput` could not be opened or set up; the underlying error text.
    Open(String),
    /// Writing events to the device failed; the underlying error text.
    Emit(String),
    /// The chord's key has no key code.
    UnknownKey(KeyChord),
}

/// Linux input key codes of the modifier keys (`KEY_LEFTSHIFT`, ...).
pub const KEY_LEFTSHIFT: u16 = 42;
pub const KEY_RIGHTSHIFT: u16 = 54;
pub const KEY_LEFTCTRL: u16 = 29;
pub const KEY_RIGHTCTRL: u16 = 97;
pub const KEY_LEFTALT: u16 = 56;
pub const KEY_RIGHTALT: u16 = 100;

/// ASCII letters lowered; every other character unchanged.
pub open spec fn ascii_lowercase(c: char) -> char {
    if 'A' <= c <= 'Z' {
        ((c as u32) + 32) as char
    } else {
        c
    }
}

/// Linux key code (scan-code layout, not alphabetical) of a lowercase letter,
/// digit or one of `; , . /`.
pub open spec fn key_code_of(c: char) -> Option<u16> {
    if c == 'q' { Some(16) } else if c == 'w' { Some(17) } else if c == 'e' { Some(18) }
    else if c == 'r' { Some(19) } else if c == 't' { Some(20) } else if c == 'y' { Some(21) }
    else if c == 'u' { Some(22) } else if c == 'i' { Some(23) } else if c == 'o' { Some(24) }
    else if c == 'p' { Some(25) } else if c == 'a' { Some(30) } else if c == 's' { Some(31) }
    else if c == 'd' { Some(32) } else if c == 'f' { Some(33) } else if c == 'g' { Some(34) }
    else if c == 'h' { Some(35) } else if c == 'j' { Some(36) } else if c == 'k' { Some(37) }
    else if c == 'l' { Some(38) } else if c == ';' { Some(39) } else if c == 'z' { Some(44) }
    else if c == 'x' { Some(45) } else if c == 'c' { Some(46) } else if c == 'v' { Some(47) }
    else if c == 'b' { Some(48) } else if c == 'n' { Some(49) } else if c == 'm' { Some(50) }
    else if c == ',' { Some(51) } else if c == '.' { Some(52) } else if c == '/' { Some(53) }
    else if c == '1' { Some(2) } else if c == '2' { Some(3) } else if c == '3' { Some(4) }
    else if c == '4' { Some(5) } else if c == '5' { Some(6) } else if c == '6' { Some(7) }
    else if c == '7' { Some(8) } else if c == '8' { Some(9) } else if c == '9' { Some(10) }
    else if c == '0' { Some(11) } else { None }
}

/// Modifier and base key codes of a chord: `Shift` chords use left shift,
/// `Ctrl` chords left control; `None` when the base key has no code.
pub open spec fn chord_codes(chord: KeyChord) -> Option<(Option<u16>, u16)> {
    match key_code_of(ascii_lowercase(chord.base())) {
        None => None,
        Some(base) => Some(
            (
                match chord {
                    KeyChord::Key(_) => None,
                    KeyChord::Shift(_) => Some(KEY_LEFTSHIFT),
                    KeyChord::Ctrl(_) => Some(KEY_LEFTCTRL),
                },
                base,
            ),
        ),
    }
}

/// Map a character to its Linux key code. Linux key codes follow the physical
/// (scan-code) layout, not alphabetical order, so this is an explicit table.
pub fn key_for_char(c: char) -> (code: Option<u16>)
    ensures
        code == key_code_of(ascii_lowercase(c)),
{
    match c {
        'q' | 'Q' => Some(16),
        'w' | 'W' => Some(17),
        'e' | 'E' => Some(18),
        'r' | 'R' => Some(19),
        't' | 'T' => Some(20),
        'y' | 'Y' => Some(21),
        'u' | 'U' => Some(22),
        'i' | 'I' => Some(23),
        'o' | 'O' => Some(24),
        'p' | 'P' => Some(25),
        'a' | 'A' => Some(30),
        's' | 'S' => Some(31),
        'd' | 'D' => Some(32),
        'f' | 'F' => Some(33),
        'g' | 'G' => Some(34),
        'h' | 'H' => Some(35),
        'j' | 'J' => Some(36),
        'k' | 'K' => Some(37),
        'l' | 'L' => Some(38),
        ';' => Some(39),
        'z' | 'Z' => Some(44),
        'x' | 'X' => Some(45),
        'c' | 'C' => Some(46),
        'v' | 'V' => Some(47),
        'b' | 'B' => Some(48),
        'n' | 'N' => Some(49),
        'm' | 'M' => Some(50),
        ',' => Some(51),
        '.' => Some(52),
        '/' => Some(53),
        '1' => Some(2),
        '2' => Some(3),
        '3' => Some(4),
        '4' => Some(5),
        '5' => Some(6),
        '6' => Some(7),
        '7' => Some(8),
        '8' => Some(9),
        '9' => Some(10),
        '0' => Some(11),
        _ => None,
    }
}

/// Resolve a [`KeyChord`] into `(modifier, base)` key codes.
///
/// `Shift` chords use `KEY_LEFTSHIFT`, `Ctrl` chords use `KEY_LEFTCTRL`.
pub fn resolve(chord: KeyChord) -> (r: Option<(Option<u16>, u16)>)
    ensures
        r == chord_codes(chord),
{
    let base = match chord {
        KeyChord::Key(c) => key_for_char(c),
        KeyChord::Shift(c) => key_for_char(c),
        KeyChord::Ctrl(c) => key_for_char(c),
    };
    match base {
        None => None,
        Some(b) => {
            let modifier = match chord {
                KeyChord::Key(_) => None,
                KeyChord::Shift(_) => Some(KEY_LEFTSHIFT),
                KeyChord::Ctrl(_) => Some(KEY_LEFTCTRL),
            };
            Some((modifier, b))
        },
    }
}

/// The characters whose keys the virtual keyboard supports.
pub open spec fn supported_chars() -> Seq<char> {
    seq![
        'a', 'b', 'c', 'd', 'e', 'f', 'g', 'h', 'i', 'j', 'k', 'l', 'm', 'n', 'o', 'p', 'q', 'r',
        's', 't', 'u', 'v', 'w', 'x', 'y', 'z', '0', '1', '2', '3', '4', '5', '6', '7', '8', '9',
        ';', ',', '.', '/',
    ]
}

/// Every key code the device advertises: those of all mappable characters,
/// then the left/right shift, control and alt keys.
pub fn all_supported_keys() -> (keys: Vec<u16>)
    ensures
        keys@.len() == supported_chars().len() + 6,
        forall|i: int|
            0 <= i < supported_chars().len() ==> key_code_of(supported_chars()[i]) == Some(
                #[trigger] keys@[i],
            ),
        keys@.subrange(supported_chars().len() as int, keys@.len() as int) == seq![
            KEY_LEFTSHIFT,
            KEY_RIGHTSHIFT,
            KEY_LEFTCTRL,
            KEY_RIGHTCTRL,
            KEY_LEFTALT,
            KEY_RIGHTALT,
        ],
{
    let chars: [char; 40] = [
        'a', 'b', 'c', 'd', 'e', 'f', 'g', 'h', 'i', 'j', 'k', 'l', 'm', 'n', 'o', 'p', 'q', 'r',
        's', 't', 'u', 'v', 'w', 'x', 'y', 'z', '0', '1', '2', '3', '4', '5', '6', '7', '8', '9',
        ';', ',', '.', '/',
    ];
    proof {
        assert(chars@ =~= supported_chars());
    }
    let mut keys: Vec<u16> = Vec::new();
    let mut i: usize = 0;
    while i < 40
        invariant
            chars@ == supported_chars(),
            i <= 40,
            keys.len() == i,
            forall|k: int| 0 <= k < i ==> key_code_of(supported_chars()[k]) == Some(#[trigger] keys@[k]),
        decreases 40 - i,
    {
        let c = chars[i];
        match key_for_char(c) {
            Some(code) => keys.push(code),
            None => {
                proof {
                    assert(key_code_of(ascii_lowercase(c)) is Some);
                }
            },
        }
        i = i + 1;
    }
    keys.push(KEY_LEFTSHIFT);
    keys.push(KEY_RIGHTSHIFT);
    keys.push(KEY_LEFTCTRL);
    keys.push(KEY_RIGHTCTRL);
    keys.push(KEY_LEFTALT);
    keys.push(KEY_RIGHTALT);
    proof {
        assert(keys@.subrange(40, 46) =~= seq![
            KEY_LEFTSHIFT,
            KEY_RIGHTSHIFT,
            KEY_LEFTCTRL,
            KEY_RIGHTCTRL,
            KEY_LEFTALT,
            KEY_RIGHTALT,
        ]);
    }
    keys
}

/// One event for the device: a key going down or up, or the report that
/// flushes a batch (`SYN_REPORT`).
#[derive(Debug, Clone, Copy, PartialEq, Eq, Structural)]
pub enum KeyEvent {
    Down(u16),
    Up(u16),
    Sync,
}

/// The events of pressing a chord: modifier down, then base key down.
pub open spec fn press_events(modifier: Option<u16>, base: u16) -> Seq<KeyEvent> {
    match modifier {
        Some(m) => seq![KeyEvent::Down(m), KeyEvent::Down(base), KeyEvent::Sync],
        None => seq![KeyEvent::Down(base), KeyEvent::Sync],
    }
}

/// The events of releasing a chord: base key up, then modifier up.
pub open spec fn release_events(modifier: Option<u16>, base: u16) -> Seq<KeyEvent> {
    match modifier {
        Some(m) => seq![KeyEvent::Up(base), KeyEvent::Up(m), KeyEvent::Sync],
        None => seq![KeyEvent::Up(base), KeyEvent::Sync],
    }
}

/// Releasing a chord lifts exactly the keys pressing it put down: for every
/// chord, a key goes up in its release events if and only if it goes down in
/// its press events, and those are the chord's keys; both end with one
/// report.
pub proof fn lemma_release_undoes_press(modifier: Option<u16>, base: u16, k: u16)
    ensures
        press_events(modifier, base).contains(KeyEvent::Down(k)) <==> release_events(
            modifier,
            base,
        ).contains(KeyEvent::Up(k)),
        release_events(modifier, base).contains(KeyEvent::Up(k)) <==> chord_keys(
            modifier,
            base,
        ).contains(k),
        !release_events(modifier, base).contains(KeyEvent::Down(k)),
        release_events(modifier, base).len() == press_events(modifier, base).len(),
        release_events(modifier, base).last() == KeyEvent::Sync,
{
    let p = press_events(modifier, base);
    let r = release_events(modifier, base);
    match modifier {
        Some(m) => {
            assert(p[0] == KeyEvent::Down(m) && p[1] == KeyEvent::Down(base));
            assert(r[0] == KeyEvent::Up(base) && r[1] == KeyEvent::Up(m));
        },
        None => {
            assert(p[0] == KeyEvent::Down(base));
            assert(r[0] == KeyEvent::Up(base));
        },
    }
    if r.contains(KeyEvent::Up(k)) {
        let i = choose|i: int| 0 <= i < r.len() && r[i] == KeyEvent::Up(k);
        assert(i < r.len() - 1);
    }
    if p.contains(KeyEvent::Down(k)) {
        let i = choose|i: int| 0 <= i < p.len() && p[i] == KeyEvent::Down(k);
        assert(i < p.len() - 1);
    }
    if r.contains(KeyEvent::Down(k)) {
        let i = choose|i: int| 0 <= i < r.len() && r[i] == KeyEvent::Down(k);
        assert(false);
    }
}

/// The keys of a chord as a set.
pub open spec fn chord_keys(modifier: Option<u16>, base: u16) -> Set<u16> {
    match modifier {
        Some(m) => set![m, base],
        None => set![base],
    }
}

/// The set of keys a virtual keyboard holds down.
pub struct KeyTracker {
    pressed: Vec<u16>,
}

impl View for KeyTracker {
    type V = Set<u16>;

    closed spec fn view(&self) -> Set<u16> {
        self.pressed@.to_set()
    }
}

impl KeyTracker {
    /// The held keys are listed once each.
    pub closed spec fn wf(&self) -> bool {
        self.pressed@.no_duplicates()
    }

    /// A tracker with no key held.
    pub fn new() -> (t: KeyTracker)
        ensures
            t.wf(),
            t@ == Set::<u16>::empty(),
    {
        let t = KeyTracker { pressed: Vec::new() };
        proof {
            assert(t.pressed@.to_set() =~= Set::<u16>::empty());
        }
        t
    }

    fn mark(&mut self, key: u16, down: bool)
        requires
            old(self).wf(),
        ensures
            final(self).wf(),
            down ==> final(self)@ == old(self)@.insert(key),
            !down ==> final(self)@ == old(self)@.remove(key),
    {
        let mut i: usize = 0;
        while i < self.pressed.len() && self.pressed[i] != key
            invariant
                i <= self.pressed.len(),
                self.pressed@ == old(self).pressed@,
                forall|k: int| 0 <= k < i ==> self.pressed@[k] != key,
            decreases self.pressed.len() - i,
        {
            i = i + 1;
        }
        let ghost before = self.pressed@;
        if i < self.pressed.len() {
            if !down {
                self.pressed.remove(i);
                proof {
                    assert forall|x: u16| #[trigger] self.pressed@.contains(x) == before.remove(
                        i as int,
                    ).contains(x) by {}
                    assert forall|x: u16| self.pressed@.contains(x) == (before.contains(x) && x != key) by {
                        if x != key && before.contains(x) {
                            let k = choose|k: int| 0 <= k < before.len() && before[k] == x;
                            assert(k != i);
                            if k < i {
                                assert(self.pressed@[k] == x);
                            } else {
                                assert(self.pressed@[k - 1] == x);
                            }
                        }
                        if self.pressed@.contains(x) {
                            let k = choose|k: int| 0 <= k < self.pressed@.len() && self.pressed@[k] == x;
                            if k < i {
                                assert(before[k] == x);
                            } else {
                                assert(before[k + 1] == x);
                                assert(k + 1 != i);
                            }
                        }
                    }
                    assert(self.pressed@.to_set() =~= before.to_set().remove(key));
                }
            } else {
                proof {
                    assert(before.to_set().contains(key));
                    assert(before.to_set() =~= before.to_set().insert(key));
                }
            }
        } else {
            if down {
                self.pressed.push(key);
                proof {
                    assert(self.pressed@.to_set() =~= before.to_set().insert(key)) by {
                        assert forall|x: u16| self.pressed@.contains(x) == (before.contains(x) || x == key) by {
                            if self.pressed@.contains(x) && x != key {
                                let k = choose|k: int| 0 <= k < self.pressed@.len() && self.pressed@[k] == x;
                                assert(before[k] == x);
                            }
                            if x == key {
                                assert(self.pressed@[before.len() as int] == key);
                            }
                            if before.contains(x) {
                                let k = choose|k: int| 0 <= k < before.len() && before[k] == x;
                                assert(self.pressed@[k] == x);
                            }
                        }
                    }
                }
            } else {
                proof {
                    assert(!before.contains(key));
                    assert(before.to_set() =~= before.to_set().remove(key));
                }
            }
        }
    }

    /// Press (and hold) a chord: modifier down, then base key down.
    pub fn press(&mut self, chord: KeyChord) -> (r: Result<Vec<KeyEvent>, InputError>)
        requires
            old(self).wf(),
        ensures
            final(self).wf(),
            match chord_codes(chord) {
                None => r matches Err(InputError::UnknownKey(c)) && c == chord && final(self)@ == old(self)@,
                Some((m, b)) => r matches Ok(events) && events@ == press_events(m, b)
                    && final(self)@ == old(self)@.union(chord_keys(m, b)),
            },
    {
        match resolve(chord) {
            None => Err(InputError::UnknownKey(chord)),
            Some((modifier, base)) => {
                let mut events: Vec<KeyEvent> = Vec::new();
                match modifier {
                    Some(m) => {
                        events.push(KeyEvent::Down(m));
                        self.mark(m, true);
                    },
                    None => {},
                }
                events.push(KeyEvent::Down(base));
                self.mark(base, true);
                events.push(KeyEvent::Sync);
                proof {
                    assert(events@ =~= press_events(modifier, base));
                    assert(self@ =~= old(self)@.union(chord_keys(modifier, base)));
                }
                Ok(events)
            },
        }
    }

    /// Release a chord: base key up, then modifier up.
    pub fn release(&mut self, chord: KeyChord) -> (r: Result<Vec<KeyEvent>, InputError>)
        requires
            old(self).wf(),
        ensures
            final(self).wf(),
            match chord_codes(chord) {
                None => r matches Err(InputError::UnknownKey(c)) && c == chord && final(self)@ == old(self)@,
                Some((m, b)) => r matches Ok(events) && events@ == release_events(m, b)
                    && final(self)@ == old(self)@.difference(chord_keys(m, b)),
            },
    {
        match resolve(chord) {
            None => Err(InputError::UnknownKey(chord)),
            Some((modifier, base)) => {
                let mut events: Vec<KeyEvent> = Vec::new();
                events.push(KeyEvent::Up(base));
                self.mark(base, false);
                match modifier {
                    Some(m) => {
                        events.push(KeyEvent::Up(m));
                        self.mark(m, false);
                    },
                    None => {},
                }
                events.push(KeyEvent::Sync);
                proof {
                    assert(events@ =~= release_events(modifier, base));
                    assert(self@ =~= old(self)@.difference(chord_keys(modifier, base)));
                }
                Ok(events)
            },
        }
    }

    /// Release every key that is still pressed: one key-up per held key and a
    /// final report, or no events at all when nothing is held.
    pub fn release_all(&mut self) -> (events: Vec<KeyEvent>)
        requires
            old(self).wf(),
        ensures
            final(self).wf(),
            final(self)@ == Set::<u16>::empty(),
            old(self)@ == Set::<u16>::empty() ==> events@.len() == 0,
            old(self)@ != Set::<u16>::empty() ==> events@.len() == old(self)@.len() + 1
                && events@.last() == KeyEvent::Sync,
            forall|k: u16| old(self)@.contains(k) <==> events@.contains(KeyEvent::Up(k)),
            forall|i: int| 0 <= i < events@.len() - 1 ==> #[trigger] events@[i] is Up,
    {
        let mut events: Vec<KeyEvent> = Vec::new();
        let mut i: usize = 0;
        let n = self.pressed.len();
        proof {
            self.pressed@.unique_seq_to_set();
        }
        while i < n
            invariant
                n == self.pressed.len(),
                self.pressed@ == old(self).pressed@,
                i <= n,
                events.len() == i,
                forall|k: int| 0 <= k < i ==> #[trigger] events@[k] == KeyEvent::Up(self.pressed@[k]),
            decreases n - i,
        {
            events.push(KeyEvent::Up(self.pressed[i]));
            i = i + 1;
        }
        proof {
            assert forall|k: u16| old(self)@.contains(k) <==> events@.contains(KeyEvent::Up(k)) by {
                if old(self)@.contains(k) {
                    let j = choose|j: int| 0 <= j < self.pressed@.len() && self.pressed@[j] == k;
                    assert(events@[j] == KeyEvent::Up(k));
                }
                if events@.contains(KeyEvent::Up(k)) {
                    let j = choose|j: int| 0 <= j < events@.len() && events@[j] == KeyEvent::Up(k);
                    assert(self.pressed@[j] == k);
                }
            }
        }
        if n > 0 {
            events.push(KeyEvent::Sync);
            proof {
                assert forall|k: u16| old(self)@.contains(k) <==> events@.contains(KeyEvent::Up(k)) by {
                    if old(self)@.contains(k) {
                        let j = choose|j: int| 0 <= j < n && self.pressed@[j] == k;
                        assert(events@[j] == KeyEvent::Up(k));
                    }
                    if events@.contains(KeyEvent::Up(k)) {
                        let j = choose|j: int| 0 <= j < events@.len() && events@[j] == KeyEvent::Up(k);
                        assert(j < n);
                        assert(self.pressed@[j] == k);
                    }
                }
            }
        } else {
            proof {
                assert(old(self).pressed@ =~= Seq::<u16>::empty());
                assert(old(self)@ =~= Set::<u16>::empty());
            }
        }
        proof {
            if n > 0 {
                assert(old(self)@.contains(self.pressed@[0]));
                assert(old(self)@ != Set::<u16>::empty());
            }
        }
        self.pressed = Vec::new();
        proof {
            assert(self.pressed@.to_set() =~= Set::<u16>::empty());
        }
        events
    }
}

} // verus!
