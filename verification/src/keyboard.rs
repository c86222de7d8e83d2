//! The text form of a key chord: modifiers and a key, joined by `+`, as in
//! `super+ctrl+Left`.
//!
//! The names of keys belong to the keyboard library of the system. This
//! module reads and writes everything around them: it finds the key token of
//! a chord, reads the modifiers and writes a chord back with the name of its
//! key.

use crate::shortcuts::KEY_NO_SYMBOL;
use crate::shortcuts::Keybinding;
use vstd::prelude::*;

verus! {

/// The largest keysym that has a name.
pub const KEYSYM_MAX: u32 = 0x1fff_ffff;

/// Why a text is no key chord.
#[derive(Debug, PartialEq, Eq, Structural, Clone, Copy)]
pub enum ChordError {
    /// The key token names no key.
    InvalidKey,
    /// A token before the key is none of `alt`, `ctrl`, `shift`, `super`
    /// and `logo`.
    InvalidModifier,
}

/// The modifiers of a chord.
#[derive(Debug, PartialEq, Eq, Structural, Clone, Copy)]
pub struct Modifiers {
    pub alt: bool,
    pub ctrl: bool,
    pub logo: bool,
    pub shift: bool,
}

/// Whether `c` is white space.
pub open spec fn is_whitespace(c: char) -> bool {
    let u = c as u32;
    ||| 0x09 <= u <= 0x0d
    ||| u == 0x20
    ||| u == 0x85
    ||| u == 0xa0
    ||| u == 0x1680
    ||| 0x2000 <= u <= 0x200a
    ||| u == 0x2028
    ||| u == 0x2029
    ||| u == 0x202f
    ||| u == 0x205f
    ||| u == 0x3000
}

/// The first index from `from` on at which `s` holds no white space.
pub open spec fn skip_space(s: Seq<char>, from: int) -> int
    decreases s.len() - from,
{
    if 0 <= from < s.len() && is_whitespace(s[from]) {
        skip_space(s, from + 1)
    } else {
        from
    }
}

/// The end of `s` without the white space before `to`, not going below
/// `from`.
pub open spec fn drop_space(s: Seq<char>, from: int, to: int) -> int
    decreases to - from,
{
    if from < to <= s.len() && is_whitespace(s[to - 1]) {
        drop_space(s, from, to - 1)
    } else {
        to
    }
}

/// `s` without the white space at its ends.
pub open spec fn trimmed(s: Seq<char>) -> Seq<char> {
    let from = skip_space(s, 0);
    s.subrange(from, drop_space(s, from, s.len() as int))
}

/// The first index from `from` on at which `s` holds a `+`; the length of
/// `s` if there is none.
pub open spec fn first_plus(s: Seq<char>, from: int) -> int
    decreases s.len() - from,
{
    if from < 0 || from >= s.len() {
        s.len() as int
    } else if s[from] == '+' {
        from
    } else {
        first_plus(s, from + 1)
    }
}

/// Whether `c` is the lower-case letter `letter` in either case.
pub open spec fn same_letter(c: char, letter: char) -> bool {
    c == letter || ('A' <= c <= 'Z' && c as u32 + 32 == letter as u32)
}

/// Whether `token` is the lower-case word `word` in any mix of cases.
pub open spec fn is_word(token: Seq<char>, word: Seq<char>) -> bool {
    &&& token.len() == word.len()
    &&& forall|i: int| 0 <= i < token.len() ==> same_letter(token[i], #[trigger] word[i])
}

/// The modifiers that `token` adds to `to`; `None` if it names none.
pub open spec fn with_modifier(to: Modifiers, token: Seq<char>) -> Option<Modifiers> {
    if is_word(token, "alt"@) {
        Some(Modifiers { alt: true, ..to })
    } else if is_word(token, "ctrl"@) {
        Some(Modifiers { ctrl: true, ..to })
    } else if is_word(token, "shift"@) {
        Some(Modifiers { shift: true, ..to })
    } else if is_word(token, "super"@) || is_word(token, "logo"@) {
        Some(Modifiers { logo: true, ..to })
    } else {
        None
    }
}

/// The modifiers `held` with those of the chord `s` added: every token
/// before the last `+` names one; `None` if one of them names none.
pub open spec fn chord_modifiers(s: Seq<char>, held: Modifiers) -> Option<Modifiers>
    decreases s.len(),
{
    let i = first_plus(s, 0);
    if i < 0 || i >= s.len() {
        Some(held)
    } else {
        match with_modifier(held, trimmed(s.subrange(0, i))) {
            Some(more) => chord_modifiers(s.subrange(i + 1, s.len() as int), more),
            None => None,
        }
    }
}

/// The key token of the chord `s`: what follows the last `+`, without the
/// white space at its ends.
pub open spec fn key_token(s: Seq<char>) -> Seq<char>
    decreases s.len(),
{
    let i = first_plus(s, 0);
    if i < 0 || i >= s.len() {
        trimmed(s)
    } else {
        key_token(s.subrange(i + 1, s.len() as int))
    }
}

/// No modifier.
pub open spec fn no_modifiers() -> Modifiers {
    Modifiers { alt: false, ctrl: false, logo: false, shift: false }
}

/// Whether `key` is the keysym of a key: it is not the one that stands for
/// no key, and it is among the keysyms that have a name.
pub open spec fn is_key(key: u32) -> bool {
    key != KEY_NO_SYMBOL && key <= KEYSYM_MAX
}

/// What reading the chord `s` gives when the keyboard library takes its key
/// token for the keysym `key`: no key is an error, and so is a token before
/// the key that names no modifier.
pub open spec fn read_chord(s: Seq<char>, key: u32) -> Result<Keybinding, ChordError> {
    if !is_key(key) {
        Err(ChordError::InvalidKey)
    } else {
        match chord_modifiers(s, no_modifiers()) {
            Some(m) => Ok(
                Keybinding { alt: m.alt, ctrl: m.ctrl, logo: m.logo, shift: m.shift, key },
            ),
            None => Err(ChordError::InvalidModifier),
        }
    }
}

/// `word` and a `+` if `held`, else nothing.
pub open spec fn modifier_text(held: bool, word: Seq<char>) -> Seq<char> {
    if held {
        word.push('+')
    } else {
        Seq::empty()
    }
}

/// The text of the chord `chord` whose key the keyboard library calls
/// `key_name`: the modifiers in the order alt, ctrl, shift, super, then the
/// key.
pub open spec fn chord_text(chord: Keybinding, key_name: Seq<char>) -> Seq<char> {
    modifier_text(chord.alt, "alt"@) + modifier_text(chord.ctrl, "ctrl"@) + modifier_text(
        chord.shift,
        "shift"@,
    ) + modifier_text(chord.logo, "super"@) + key_name
}

/// Whether `name` can stand as the key of a chord as it is: it holds no `+`
/// and no white space at its ends.
pub open spec fn is_key_name(name: Seq<char>) -> bool {
    &&& first_plus(name, 0) == name.len()
    &&& trimmed(name) == name
}

/// A `+` at `i` with none before it from `from` on is the first one.
pub proof fn lemma_first_plus(s: Seq<char>, from: int, i: int)
    requires
        0 <= from <= i <= s.len(),
        forall|k: int| from <= k < i ==> s[k] != '+',
        i < s.len() ==> s[i] == '+',
    ensures
        first_plus(s, from) == i,
    decreases i - from,
{
    if from < i {
        lemma_first_plus(s, from + 1, i);
    }
}

/// Where white space ends from `from` on.
pub proof fn lemma_skip_space(s: Seq<char>, from: int, a: int)
    requires
        0 <= from <= a <= s.len(),
        forall|k: int| from <= k < a ==> is_whitespace(s[k]),
        a < s.len() ==> !is_whitespace(s[a]),
    ensures
        skip_space(s, from) == a,
    decreases a - from,
{
    if from < a {
        lemma_skip_space(s, from + 1, a);
    }
}

/// Where white space begins before `to`.
pub proof fn lemma_drop_space(s: Seq<char>, from: int, to: int, b: int)
    requires
        0 <= from <= b <= to <= s.len(),
        forall|k: int| b <= k < to ==> is_whitespace(s[k]),
        from < b ==> !is_whitespace(s[b - 1]),
    ensures
        drop_space(s, from, to) == b,
    decreases to - b,
{
    if b < to {
        lemma_drop_space(s, from, to - 1, b);
    }
}

/// A word of letters reads as itself: it has no white space to trim.
pub proof fn lemma_trimmed_word(word: Seq<char>)
    requires
        forall|i: int| 0 <= i < word.len() ==> !is_whitespace(#[trigger] word[i]),
    ensures
        trimmed(word) == word,
{
    lemma_skip_space(word, 0, 0);
    lemma_drop_space(word, 0, word.len() as int, word.len() as int);
    assert(word.subrange(0, word.len() as int) =~= word);
}

/// Reading a modifier word followed by `+` and the rest of a chord adds the
/// modifier and goes on with the rest.
pub proof fn lemma_read_modifier(word: Seq<char>, rest: Seq<char>, held: Modifiers)
    requires
        forall|i: int|
            0 <= i < word.len() ==> !is_whitespace(#[trigger] word[i]) && word[i] != '+',
        with_modifier(held, word).is_some(),
    ensures
        chord_modifiers(word.push('+') + rest, held) == chord_modifiers(
            rest,
            with_modifier(held, word).unwrap(),
        ),
        key_token(word.push('+') + rest) == key_token(rest),
{
    let s = word.push('+') + rest;
    let n = word.len() as int;
    assert forall|k: int| 0 <= k < n implies s[k] != '+' by {
        assert(s[k] == word[k]);
    }
    assert(s[n] == '+');
    lemma_first_plus(s, 0, n);
    assert(s.subrange(0, n) =~= word);
    assert(s.subrange(n + 1, s.len() as int) =~= rest);
    lemma_trimmed_word(word);
}

/// What `modifier_text` adds when read.
pub open spec fn held_with(held: Modifiers, present: bool, word: Seq<char>) -> Modifiers {
    if present {
        with_modifier(held, word).unwrap()
    } else {
        held
    }
}

/// Reading an optional modifier and the rest of a chord.
proof fn lemma_read_optional(present: bool, word: Seq<char>, rest: Seq<char>, held: Modifiers)
    requires
        forall|i: int|
            0 <= i < word.len() ==> !is_whitespace(#[trigger] word[i]) && word[i] != '+',
        with_modifier(held, word).is_some(),
    ensures
        chord_modifiers(modifier_text(present, word) + rest, held) == chord_modifiers(
            rest,
            held_with(held, present, word),
        ),
        key_token(modifier_text(present, word) + rest) == key_token(rest),
{
    if present {
        lemma_read_modifier(word, rest, held);
    } else {
        assert(Seq::<char>::empty() + rest =~= rest);
    }
}

/// The text of a chord reads back as the chord it was written from: its
/// modifiers and, as key token, the name of its key. So writing a chord
/// that was read gives back the text, if that text is in the form in which
/// chords are written.
pub proof fn lemma_chord_round_trip(chord: Keybinding, key_name: Seq<char>)
    requires
        is_key_name(key_name),
    ensures
        key_token(chord_text(chord, key_name)) == key_name,
        chord_modifiers(chord_text(chord, key_name), no_modifiers()) == Some(
            Modifiers { alt: chord.alt, ctrl: chord.ctrl, logo: chord.logo, shift: chord.shift },
        ),
        is_key(chord.key) ==> read_chord(chord_text(chord, key_name), chord.key)
            == Ok::<Keybinding, ChordError>(chord),
{
    reveal_strlit("alt");
    reveal_strlit("ctrl");
    reveal_strlit("shift");
    reveal_strlit("super");
    reveal_strlit("logo");
    let alt = "alt"@;
    let ctrl = "ctrl"@;
    let shift = "shift"@;
    let logo = "super"@;
    let none = no_modifiers();
    let m1 = held_with(none, chord.alt, alt);
    let m2 = held_with(m1, chord.ctrl, ctrl);
    let m3 = held_with(m2, chord.shift, shift);
    let m4 = held_with(m3, chord.logo, logo);
    let t4 = modifier_text(chord.logo, logo) + key_name;
    let t3 = modifier_text(chord.shift, shift) + t4;
    let t2 = modifier_text(chord.ctrl, ctrl) + t3;
    let t1 = modifier_text(chord.alt, alt) + t2;
    assert(is_word(alt, alt));
    assert(is_word(ctrl, ctrl));
    assert(is_word(shift, shift));
    assert(is_word(logo, logo));
    assert(!is_word(ctrl, alt));
    assert(!is_word(shift, alt));
    assert(!is_word(shift, ctrl)) by {
        assert(shift.len() != ctrl.len());
    }
    assert(!is_word(logo, alt));
    assert(!is_word(logo, ctrl));
    assert(!is_word(logo, shift)) by {
        assert(!same_letter(logo[1], shift[1]));
    }
    lemma_read_optional(chord.alt, alt, t2, none);
    lemma_read_optional(chord.ctrl, ctrl, t3, m1);
    lemma_read_optional(chord.shift, shift, t4, m2);
    lemma_read_optional(chord.logo, logo, key_name, m3);
    assert(chord_text(chord, key_name) =~= t1);
    assert(chord_modifiers(key_name, m4) == Some(m4));
    assert(key_token(key_name) == key_name);
}

/// Whether `c` is white space.
pub fn is_space(c: char) -> (space: bool)
    ensures
        space == is_whitespace(c),
{
    let u: u32 = c as u32;
    (0x09 <= u && u <= 0x0d) || u == 0x20 || u == 0x85 || u == 0xa0 || u == 0x1680 || (0x2000 <= u
        && u <= 0x200a) || u == 0x2028 || u == 0x2029 || u == 0x202f || u == 0x205f || u
        == 0x3000
}

/// The bounds in `text` of what is left of its characters from `from` to
/// `to` without the white space at the ends.
fn trim_bounds(text: &str, from: usize, to: usize) -> (bounds: (usize, usize))
    requires
        from <= to <= text@.len(),
    ensures
        from <= bounds.0 <= bounds.1 <= to,
        text@.subrange(bounds.0 as int, bounds.1 as int) == trimmed(
            text@.subrange(from as int, to as int),
        ),
{
    let ghost token = text@.subrange(from as int, to as int);
    let mut a: usize = from;
    while a < to && is_space(text.get_char(a))
        invariant
            from <= a <= to <= text@.len(),
            token == text@.subrange(from as int, to as int),
            forall|k: int| 0 <= k < a - from ==> is_whitespace(token[k]),
        decreases to - a,
    {
        a = a + 1;
    }
    let mut b: usize = to;
    while b > a && is_space(text.get_char(b - 1))
        invariant
            from <= a <= b <= to <= text@.len(),
            token == text@.subrange(from as int, to as int),
            forall|k: int| b - from <= k < to - from ==> is_whitespace(token[k]),
        decreases b - a,
    {
        b = b - 1;
    }
    proof {
        assert(a < to ==> !is_whitespace(token[a - from]));
        lemma_skip_space(token, 0, a - from);
        assert(a < b ==> !is_whitespace(token[b - from - 1]));
        lemma_drop_space(token, a - from, token.len() as int, b - from);
        assert(text@.subrange(a as int, b as int) =~= token.subrange(a - from, b - from));
    }
    (a, b)
}

/// Whether the characters of `text` from `from` to `to` spell the
/// lower-case word `word` in any mix of cases.
fn spells(text: &str, from: usize, to: usize, word: &str) -> (same: bool)
    requires
        from <= to <= text@.len(),
    ensures
        same == is_word(text@.subrange(from as int, to as int), word@),
{
    let n: usize = word.unicode_len();
    if to - from != n {
        return false;
    }
    let ghost token = text@.subrange(from as int, to as int);
    let mut i: usize = 0;
    while i < n
        invariant
            from <= to <= text@.len(),
            to - from == n,
            n == word@.len(),
            token == text@.subrange(from as int, to as int),
            i <= n,
            forall|k: int| 0 <= k < i ==> same_letter(token[k], #[trigger] word@[k]),
        decreases n - i,
    {
        let c = text.get_char(from + i);
        let letter = word.get_char(i);
        let upper = 'A' <= c && c <= 'Z' && c as u32 + 32 == letter as u32;
        if c != letter && !upper {
            assert(!same_letter(token[i as int], word@[i as int]));
            return false;
        }
        i = i + 1;
    }
    true
}

/// The modifiers `held` with the one that the characters of `text` from
/// `from` to `to` name.
fn add_modifier(held: Modifiers, text: &str, from: usize, to: usize) -> (more: Option<Modifiers>)
    requires
        from <= to <= text@.len(),
    ensures
        more == with_modifier(held, trimmed(text@.subrange(from as int, to as int))),
{
    let (a, b) = trim_bounds(text, from, to);
    if spells(text, a, b, "alt") {
        Some(Modifiers { alt: true, ..held })
    } else if spells(text, a, b, "ctrl") {
        Some(Modifiers { ctrl: true, ..held })
    } else if spells(text, a, b, "shift") {
        Some(Modifiers { shift: true, ..held })
    } else if spells(text, a, b, "super") || spells(text, a, b, "logo") {
        Some(Modifiers { logo: true, ..held })
    } else {
        None
    }
}

/// Whether the keyboard library can be asked for the name of `key`: above
/// `KEYSYM_MAX` there are no names.
pub fn has_key_name(key: u32) -> (named: bool)
    ensures
        named == (key <= KEYSYM_MAX),
{
    key <= KEYSYM_MAX
}

/// Whether `text` holds a NUL.
pub fn holds_nul(text: &str) -> (found: bool)
    ensures
        found == text@.contains('\0'),
{
    let n: usize = text.unicode_len();
    let mut i: usize = 0;
    while i < n
        invariant
            n == text@.len(),
            i <= n,
            forall|k: int| 0 <= k < i ==> text@[k] != '\0',
        decreases n - i,
    {
        if text.get_char(i) == '\0' {
            return true;
        }
        i = i + 1;
    }
    false
}

/// The key token of the chord `chord` if it can be looked up as the name of
/// a key; `None` if it holds a NUL, which no name of a key does.
pub fn chord_lookup_token(chord: &str) -> (token: Option<&str>)
    ensures
        match token {
            Some(name) => name@ == key_token(chord@) && !name@.contains('\0'),
            None => key_token(chord@).contains('\0'),
        },
{
    let name = chord_key_token(chord);
    if holds_nul(name) {
        None
    } else {
        Some(name)
    }
}

/// The key token of the chord `chord`: the text to look up as the name of a
/// key.
pub fn chord_key_token(chord: &str) -> (token: &str)
    ensures
        token@ == key_token(chord@),
{
    let n: usize = chord.unicode_len();
    let mut start: usize = 0;
    let mut i: usize = 0;
    assert(chord@.subrange(0, n as int) =~= chord@);
    while i < n
        invariant
            n == chord@.len(),
            start <= i <= n,
            key_token(chord@) == key_token(chord@.subrange(start as int, n as int)),
            forall|k: int| start <= k < i ==> chord@[k] != '+',
        decreases n - i,
    {
        if chord.get_char(i) == '+' {
            proof {
                let rest = chord@.subrange(start as int, n as int);
                lemma_first_plus(rest, 0, i - start);
                assert(rest.subrange(i - start + 1, rest.len() as int) =~= chord@.subrange(
                    i + 1,
                    n as int,
                ));
            }
            start = i + 1;
        }
        i = i + 1;
    }
    proof {
        let rest = chord@.subrange(start as int, n as int);
        lemma_first_plus(rest, 0, rest.len() as int);
    }
    let (a, b) = trim_bounds(chord, start, n);
    chord.substring_char(a, b)
}

impl Keybinding {
    /// The chord without modifiers of the key `key`.
    pub fn new(key: u32) -> (chord: Keybinding)
        ensures
            chord == (Keybinding { alt: false, ctrl: false, logo: false, shift: false, key }),
    {
        Keybinding { alt: false, ctrl: false, logo: false, shift: false, key }
    }

    /// Reads the chord `chord`, whose key token the keyboard library takes
    /// for the keysym `key`.
    pub fn from_chord(chord: &str, key: u32) -> (result: Result<Keybinding, ChordError>)
        ensures
            result == read_chord(chord@, key),
    {
        if key == KEY_NO_SYMBOL || key > KEYSYM_MAX {
            return Err(ChordError::InvalidKey);
        }
        let mut held = Modifiers { alt: false, ctrl: false, logo: false, shift: false };
        let n: usize = chord.unicode_len();
        let mut start: usize = 0;
        let mut i: usize = 0;
        assert(chord@.subrange(0, n as int) =~= chord@);
        while i < n
            invariant
                is_key(key),
                n == chord@.len(),
                start <= i <= n,
                chord_modifiers(chord@, no_modifiers()) == chord_modifiers(
                    chord@.subrange(start as int, n as int),
                    held,
                ),
                forall|k: int| start <= k < i ==> chord@[k] != '+',
            decreases n - i,
        {
            if chord.get_char(i) == '+' {
                proof {
                    let rest = chord@.subrange(start as int, n as int);
                    lemma_first_plus(rest, 0, i - start);
                    assert(rest.subrange(0, i - start) =~= chord@.subrange(
                        start as int,
                        i as int,
                    ));
                    assert(rest.subrange(i - start + 1, rest.len() as int) =~= chord@.subrange(
                        i + 1,
                        n as int,
                    ));
                    assert(chord_modifiers(rest, held) == match with_modifier(
                        held,
                        trimmed(chord@.subrange(start as int, i as int)),
                    ) {
                        Some(more) => chord_modifiers(chord@.subrange(i + 1, n as int), more),
                        None => None,
                    });
                }
                match add_modifier(held, chord, start, i) {
                    Some(more) => {
                        held = more;
                    },
                    None => {
                        return Err(ChordError::InvalidModifier);
                    },
                }
                start = i + 1;
            }
            i = i + 1;
        }
        proof {
            let rest = chord@.subrange(start as int, n as int);
            lemma_first_plus(rest, 0, rest.len() as int);
        }
        Ok(
            Keybinding {
                alt: held.alt,
                ctrl: held.ctrl,
                logo: held.logo,
                shift: held.shift,
                key,
            },
        )
    }

    /// Writes the chord, whose key the keyboard library calls `key_name`.
    pub fn to_chord(&self, key_name: &str) -> (text: String)
        ensures
            text@ == chord_text(*self, key_name@),
    {
        proof {
            reveal_strlit("alt+");
            reveal_strlit("ctrl+");
            reveal_strlit("shift+");
            reveal_strlit("super+");
            reveal_strlit("alt");
            reveal_strlit("ctrl");
            reveal_strlit("shift");
            reveal_strlit("super");
            assert("alt+"@ =~= "alt"@.push('+'));
            assert("ctrl+"@ =~= "ctrl"@.push('+'));
            assert("shift+"@ =~= "shift"@.push('+'));
            assert("super+"@ =~= "super"@.push('+'));
        }
        let mut text = String::new();
        if self.alt {
            text.append("alt+");
        }
        assert(text@ =~= modifier_text(self.alt, "alt"@));
        if self.ctrl {
            text.append("ctrl+");
        }
        assert(text@ =~= modifier_text(self.alt, "alt"@) + modifier_text(self.ctrl, "ctrl"@));
        if self.shift {
            text.append("shift+");
        }
        assert(text@ =~= modifier_text(self.alt, "alt"@) + modifier_text(self.ctrl, "ctrl"@)
            + modifier_text(self.shift, "shift"@));
        if self.logo {
            text.append("super+");
        }
        assert(text@ =~= modifier_text(self.alt, "alt"@) + modifier_text(self.ctrl, "ctrl"@)
            + modifier_text(self.shift, "shift"@) + modifier_text(self.logo, "super"@));
        text.append(key_name);
        text
    }
}

} // verus!
