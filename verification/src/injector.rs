//! What the input injector writes to its virtual device: the raw input events
//! and pauses for each kind of action, the US QWERTY key map used to type
//! text, and the check of commands against the list of allowed programs.
use vstd::prelude::*;
use crate::text::{contains_char, str_eq, split_whitespace, words, owned, concat3};
use crate::device::key_name;

verus! {

/// Synchronisation events.
pub const EV_SYN: u16 = 0x00;
/// Key and button events.
pub const EV_KEY: u16 = 0x01;
/// Relative axis events.
pub const EV_REL: u16 = 0x02;
/// End of a batch of events.
pub const SYN_REPORT: u16 = 0x00;
/// Horizontal movement.
pub const REL_X: u16 = 0x00;
/// Vertical movement.
pub const REL_Y: u16 = 0x01;
/// Wheel movement.
pub const REL_WHEEL: u16 = 0x08;
/// The left shift key.
pub const KEY_LEFTSHIFT: u16 = 42;
/// Mouse button `n` has the button code `BTN_BASE + n` (1 is `BTN_LEFT`, 272).
pub const BTN_BASE: u16 = 271;
/// Characters typed with shift held.
pub const SHIFT_SYMBOLS: &'static str = "!@#$%^&*()_+{}|:\"<>?~";

/// One step of the injector: write an input event, or pause.
#[derive(Debug, Clone, Copy, PartialEq, Eq, Structural)]
pub enum InjectStep {
    /// Write the input event `(type, code, value)`.
    Emit(u16, u16, i32),
    /// Pause for this many milliseconds.
    Sleep(u64),
}

/// A key (or button) going down or up, followed by a synchronisation.
pub open spec fn key_steps(code: u16, value: i32) -> Seq<InjectStep> {
    seq![InjectStep::Emit(EV_KEY, code, value), InjectStep::Emit(EV_SYN, SYN_REPORT, 0)]
}

/// Events of a key press.
pub fn key_press_events(key_code: u16) -> (r: Vec<InjectStep>)
    ensures
        r@ == key_steps(key_code, 1),
{
    let r = vec![InjectStep::Emit(EV_KEY, key_code, 1), InjectStep::Emit(EV_SYN, SYN_REPORT, 0)];
    assert(r@ =~= key_steps(key_code, 1));
    r
}

/// Events of a key release.
pub fn key_release_events(key_code: u16) -> (r: Vec<InjectStep>)
    ensures
        r@ == key_steps(key_code, 0),
{
    let r = vec![InjectStep::Emit(EV_KEY, key_code, 0), InjectStep::Emit(EV_SYN, SYN_REPORT, 0)];
    assert(r@ =~= key_steps(key_code, 0));
    r
}

/// Events of a mouse button press: button `n` is the key code `271 + n`.
pub fn mouse_press_events(button: u16) -> (r: Vec<InjectStep>)
    requires
        button + BTN_BASE <= u16::MAX,
    ensures
        r@ == key_steps((BTN_BASE + button) as u16, 1),
{
    key_press_events(BTN_BASE + button)
}

/// Events of a mouse button release.
pub fn mouse_release_events(button: u16) -> (r: Vec<InjectStep>)
    requires
        button + BTN_BASE <= u16::MAX,
    ensures
        r@ == key_steps((BTN_BASE + button) as u16, 0),
{
    key_release_events(BTN_BASE + button)
}

/// Events of a relative mouse movement: an axis event for each axis that
/// moves, then a synchronisation.
pub open spec fn move_steps(x: i32, y: i32) -> Seq<InjectStep> {
    (if x != 0 { seq![InjectStep::Emit(EV_REL, REL_X, x)] } else { Seq::empty() }) + (if y != 0 {
        seq![InjectStep::Emit(EV_REL, REL_Y, y)]
    } else {
        Seq::empty()
    }) + seq![InjectStep::Emit(EV_SYN, SYN_REPORT, 0)]
}

/// Events of a relative mouse movement.
pub fn mouse_move_events(x: i32, y: i32) -> (r: Vec<InjectStep>)
    ensures
        r@ == move_steps(x, y),
{
    let mut r: Vec<InjectStep> = Vec::new();
    if x != 0 {
        r.push(InjectStep::Emit(EV_REL, REL_X, x));
    }
    if y != 0 {
        r.push(InjectStep::Emit(EV_REL, REL_Y, y));
    }
    r.push(InjectStep::Emit(EV_SYN, SYN_REPORT, 0));
    assert(r@ =~= move_steps(x, y));
    r
}

/// Events of a wheel movement.
pub fn mouse_scroll_events(amount: i32) -> (r: Vec<InjectStep>)
    ensures
        r@ == seq![InjectStep::Emit(EV_REL, REL_WHEEL, amount), InjectStep::Emit(EV_SYN, SYN_REPORT, 0)],
{
    let r = vec![InjectStep::Emit(EV_REL, REL_WHEEL, amount), InjectStep::Emit(EV_SYN, SYN_REPORT, 0)];
    assert(r@ =~= seq![InjectStep::Emit(EV_REL, REL_WHEEL, amount), InjectStep::Emit(EV_SYN, SYN_REPORT, 0)]);
    r
}

// ---------------------------------------------------------------------
// Key map
// ---------------------------------------------------------------------

/// The position of a lower-case letter in its row of a QWERTY keyboard, and
/// the key code of the row's first key (`q`: 16, `a`: 30, `z`: 44).
pub open spec fn qwerty_position(c: char) -> Option<(u16, u16)> {
    let top = seq!['q', 'w', 'e', 'r', 't', 'y', 'u', 'i', 'o', 'p'];
    let middle = seq!['a', 's', 'd', 'f', 'g', 'h', 'j', 'k', 'l'];
    let bottom = seq!['z', 'x', 'c', 'v', 'b', 'n', 'm'];
    if top.contains(c) {
        Some((16, top.index_of(c) as u16))
    } else if middle.contains(c) {
        Some((30, middle.index_of(c) as u16))
    } else if bottom.contains(c) {
        Some((44, bottom.index_of(c) as u16))
    } else {
        None
    }
}

/// The lower-case form of an ASCII letter; other characters are unchanged.
pub open spec fn ascii_lower(c: char) -> char {
    if 'A' <= c && c <= 'Z' {
        ((c as u32) + 32) as char
    } else {
        c
    }
}

/// The key code that types `c` on a US QWERTY keyboard (shift aside):
/// digits, letters of either case, space, punctuation, newline and tab.
pub open spec fn key_map(c: char) -> Option<u16> {
    if '1' <= c && c <= '9' {
        Some((c as u32 - '1' as u32 + 2) as u16)
    } else if c == '0' {
        Some(11)
    } else if qwerty_position(ascii_lower(c)) is Some {
        let (base, pos) = qwerty_position(ascii_lower(c)).unwrap();
        Some((base + pos) as u16)
    } else if c == ' ' {
        Some(57)
    } else if c == '-' {
        Some(12)
    } else if c == '=' {
        Some(13)
    } else if c == '[' {
        Some(26)
    } else if c == ']' {
        Some(27)
    } else if c == '\\' {
        Some(43)
    } else if c == ';' {
        Some(39)
    } else if c == '\'' {
        Some(40)
    } else if c == '`' {
        Some(41)
    } else if c == ',' {
        Some(51)
    } else if c == '.' {
        Some(52)
    } else if c == '/' {
        Some(53)
    } else if c == '\n' {
        Some(28)
    } else if c == '\t' {
        Some(15)
    } else {
        None
    }
}

proof fn lemma_row_position(row: Seq<char>, c: char, i: int)
    requires
        row.no_duplicates(),
        0 <= i < row.len(),
        row[i] == c,
    ensures
        row.contains(c),
        row.index_of(c) == i,
{
    crate::strmap::lemma_index_of_unique(row, c, i);
}

/// The key code that types `c` on a US QWERTY keyboard, if it has one.
pub fn key_code_for_char(c: char) -> (r: Option<u16>)
    ensures
        r == key_map(c),
{
    let ghost top = seq!['q', 'w', 'e', 'r', 't', 'y', 'u', 'i', 'o', 'p'];
    let ghost middle = seq!['a', 's', 'd', 'f', 'g', 'h', 'j', 'k', 'l'];
    let ghost bottom = seq!['z', 'x', 'c', 'v', 'b', 'n', 'm'];
    if '1' <= c && c <= '9' {
        return Some((c as u32 - '1' as u32 + 2) as u16);
    }
    if c == '0' {
        return Some(11);
    }
    let lower = if 'A' <= c && c <= 'Z' { ((c as u32) + 32) as u8 as char } else { c };
    assert(lower == ascii_lower(c)) by {
        if 'A' <= c && c <= 'Z' {
            assert(((c as u32) + 32) as u8 as char == ((c as u32) + 32) as char);
        }
    }
    let (base, pos): (u16, Option<u16>) = match lower {
        'q' => (16, Some(0)), 'w' => (16, Some(1)), 'e' => (16, Some(2)), 'r' => (16, Some(3)),
        't' => (16, Some(4)), 'y' => (16, Some(5)), 'u' => (16, Some(6)), 'i' => (16, Some(7)),
        'o' => (16, Some(8)), 'p' => (16, Some(9)),
        'a' => (30, Some(0)), 's' => (30, Some(1)), 'd' => (30, Some(2)), 'f' => (30, Some(3)),
        'g' => (30, Some(4)), 'h' => (30, Some(5)), 'j' => (30, Some(6)), 'k' => (30, Some(7)),
        'l' => (30, Some(8)),
        'z' => (44, Some(0)), 'x' => (44, Some(1)), 'c' => (44, Some(2)), 'v' => (44, Some(3)),
        'b' => (44, Some(4)), 'n' => (44, Some(5)), 'm' => (44, Some(6)),
        _ => (0, None),
    };
    proof {
        assert(top.no_duplicates());
        assert(middle.no_duplicates());
        assert(bottom.no_duplicates());
        match pos {
            Some(p) => {
                if base == 16 {
                    lemma_row_position(top, lower, p as int);
                } else if base == 30 {
                    assert(!top.contains(lower));
                    lemma_row_position(middle, lower, p as int);
                } else {
                    assert(!top.contains(lower));
                    assert(!middle.contains(lower));
                    lemma_row_position(bottom, lower, p as int);
                }
            },
            None => {
                assert(!top.contains(lower));
                assert(!middle.contains(lower));
                assert(!bottom.contains(lower));
            },
        }
    }
    match pos {
        Some(p) => Some(base + p),
        None => {
            if c == ' ' { Some(57) }
            else if c == '-' { Some(12) }
            else if c == '=' { Some(13) }
            else if c == '[' { Some(26) }
            else if c == ']' { Some(27) }
            else if c == '\\' { Some(43) }
            else if c == ';' { Some(39) }
            else if c == '\'' { Some(40) }
            else if c == '`' { Some(41) }
            else if c == ',' { Some(51) }
            else if c == '.' { Some(52) }
            else if c == '/' { Some(53) }
            else if c == '\n' { Some(28) }
            else if c == '\t' { Some(15) }
            else { None }
        },
    }
}

/// The upper-case form of an ASCII letter; other characters are unchanged.
pub open spec fn ascii_upper(c: char) -> char {
    if 'a' <= c && c <= 'z' {
        ((c as u32) - 32) as char
    } else {
        c
    }
}

/// The key that types a lower-case letter is named by that letter in upper case.
pub proof fn lemma_letter_keys_named(c: char)
    requires
        'a' <= c && c <= 'z',
    ensures
        key_map(c) matches Some(k) && key_name(k) == seq![ascii_upper(c)],
{
    let top = seq!['q', 'w', 'e', 'r', 't', 'y', 'u', 'i', 'o', 'p'];
    let middle = seq!['a', 's', 'd', 'f', 'g', 'h', 'j', 'k', 'l'];
    let bottom = seq!['z', 'x', 'c', 'v', 'b', 'n', 'm'];
    assert(top.no_duplicates());
    assert(middle.no_duplicates());
    assert(bottom.no_duplicates());
    assert(ascii_lower(c) == c);
    if c == 'q' {
        lemma_row_position(top, c, 0);
        reveal_strlit("Q");
        assert("Q"@ =~= seq!['Q']);
        assert(key_map(c) == Some(16u16));
    } else if c == 'w' {
        lemma_row_position(top, c, 1);
        reveal_strlit("W");
        assert("W"@ =~= seq!['W']);
        assert(key_map(c) == Some(17u16));
    } else if c == 'e' {
        lemma_row_position(top, c, 2);
        reveal_strlit("E");
        assert("E"@ =~= seq!['E']);
        assert(key_map(c) == Some(18u16));
    } else if c == 'r' {
        lemma_row_position(top, c, 3);
        reveal_strlit("R");
        assert("R"@ =~= seq!['R']);
        assert(key_map(c) == Some(19u16));
    } else if c == 't' {
        lemma_row_position(top, c, 4);
        reveal_strlit("T");
        assert("T"@ =~= seq!['T']);
        assert(key_map(c) == Some(20u16));
    } else if c == 'y' {
        lemma_row_position(top, c, 5);
        reveal_strlit("Y");
        assert("Y"@ =~= seq!['Y']);
        assert(key_map(c) == Some(21u16));
    } else if c == 'u' {
        lemma_row_position(top, c, 6);
        reveal_strlit("U");
        assert("U"@ =~= seq!['U']);
        assert(key_map(c) == Some(22u16));
    } else if c == 'i' {
        lemma_row_position(top, c, 7);
        reveal_strlit("I");
        assert("I"@ =~= seq!['I']);
        assert(key_map(c) == Some(23u16));
    } else if c == 'o' {
        lemma_row_position(top, c, 8);
        reveal_strlit("O");
        assert("O"@ =~= seq!['O']);
        assert(key_map(c) == Some(24u16));
    } else if c == 'p' {
        lemma_row_position(top, c, 9);
        reveal_strlit("P");
        assert("P"@ =~= seq!['P']);
        assert(key_map(c) == Some(25u16));
    } else if c == 'a' {
        assert(!top.contains(c));
        lemma_row_position(middle, c, 0);
        reveal_strlit("A");
        assert("A"@ =~= seq!['A']);
        assert(key_map(c) == Some(30u16));
    } else if c == 's' {
        assert(!top.contains(c));
        lemma_row_position(middle, c, 1);
        reveal_strlit("S");
        assert("S"@ =~= seq!['S']);
        assert(key_map(c) == Some(31u16));
    } else if c == 'd' {
        assert(!top.contains(c));
        lemma_row_position(middle, c, 2);
        reveal_strlit("D");
        assert("D"@ =~= seq!['D']);
        assert(key_map(c) == Some(32u16));
    } else if c == 'f' {
        assert(!top.contains(c));
        lemma_row_position(middle, c, 3);
        reveal_strlit("F");
        assert("F"@ =~= seq!['F']);
        assert(key_map(c) == Some(33u16));
    } else if c == 'g' {
        assert(!top.contains(c));
        lemma_row_position(middle, c, 4);
        reveal_strlit("G");
        assert("G"@ =~= seq!['G']);
        assert(key_map(c) == Some(34u16));
    } else if c == 'h' {
        assert(!top.contains(c));
        lemma_row_position(middle, c, 5);
        reveal_strlit("H");
        assert("H"@ =~= seq!['H']);
        assert(key_map(c) == Some(35u16));
    } else if c == 'j' {
        assert(!top.contains(c));
        lemma_row_position(middle, c, 6);
        reveal_strlit("J");
        assert("J"@ =~= seq!['J']);
        assert(key_map(c) == Some(36u16));
    } else if c == 'k' {
        assert(!top.contains(c));
        lemma_row_position(middle, c, 7);
        reveal_strlit("K");
        assert("K"@ =~= seq!['K']);
        assert(key_map(c) == Some(37u16));
    } else if c == 'l' {
        assert(!top.contains(c));
        lemma_row_position(middle, c, 8);
        reveal_strlit("L");
        assert("L"@ =~= seq!['L']);
        assert(key_map(c) == Some(38u16));
    } else if c == 'z' {
        assert(!top.contains(c));
        assert(!middle.contains(c));
        lemma_row_position(bottom, c, 0);
        reveal_strlit("Z");
        assert("Z"@ =~= seq!['Z']);
        assert(key_map(c) == Some(44u16));
    } else if c == 'x' {
        assert(!top.contains(c));
        assert(!middle.contains(c));
        lemma_row_position(bottom, c, 1);
        reveal_strlit("X");
        assert("X"@ =~= seq!['X']);
        assert(key_map(c) == Some(45u16));
    } else if c == 'c' {
        assert(!top.contains(c));
        assert(!middle.contains(c));
        lemma_row_position(bottom, c, 2);
        reveal_strlit("C");
        assert("C"@ =~= seq!['C']);
        assert(key_map(c) == Some(46u16));
    } else if c == 'v' {
        assert(!top.contains(c));
        assert(!middle.contains(c));
        lemma_row_position(bottom, c, 3);
        reveal_strlit("V");
        assert("V"@ =~= seq!['V']);
        assert(key_map(c) == Some(47u16));
    } else if c == 'b' {
        assert(!top.contains(c));
        assert(!middle.contains(c));
        lemma_row_position(bottom, c, 4);
        reveal_strlit("B");
        assert("B"@ =~= seq!['B']);
        assert(key_map(c) == Some(48u16));
    } else if c == 'n' {
        assert(!top.contains(c));
        assert(!middle.contains(c));
        lemma_row_position(bottom, c, 5);
        reveal_strlit("N");
        assert("N"@ =~= seq!['N']);
        assert(key_map(c) == Some(49u16));
    } else if c == 'm' {
        assert(!top.contains(c));
        assert(!middle.contains(c));
        lemma_row_position(bottom, c, 6);
        reveal_strlit("M");
        assert("M"@ =~= seq!['M']);
        assert(key_map(c) == Some(50u16));
    }
}

/// The key that types a digit is named by that digit.
pub proof fn lemma_digit_keys_named(c: char)
    requires
        '0' <= c && c <= '9',
    ensures
        key_map(c) matches Some(k) && key_name(k) == seq![c],
{
    if c == '0' {
        reveal_strlit("0");
        assert("0"@ =~= seq!['0']);
        assert(key_map(c) == Some(11u16));
    } else if c == '1' {
        reveal_strlit("1");
        assert("1"@ =~= seq!['1']);
        assert(key_map(c) == Some(2u16));
    } else if c == '2' {
        reveal_strlit("2");
        assert("2"@ =~= seq!['2']);
        assert(key_map(c) == Some(3u16));
    } else if c == '3' {
        reveal_strlit("3");
        assert("3"@ =~= seq!['3']);
        assert(key_map(c) == Some(4u16));
    } else if c == '4' {
        reveal_strlit("4");
        assert("4"@ =~= seq!['4']);
        assert(key_map(c) == Some(5u16));
    } else if c == '5' {
        reveal_strlit("5");
        assert("5"@ =~= seq!['5']);
        assert(key_map(c) == Some(6u16));
    } else if c == '6' {
        reveal_strlit("6");
        assert("6"@ =~= seq!['6']);
        assert(key_map(c) == Some(7u16));
    } else if c == '7' {
        reveal_strlit("7");
        assert("7"@ =~= seq!['7']);
        assert(key_map(c) == Some(8u16));
    } else if c == '8' {
        reveal_strlit("8");
        assert("8"@ =~= seq!['8']);
        assert(key_map(c) == Some(9u16));
    } else if c == '9' {
        reveal_strlit("9");
        assert("9"@ =~= seq!['9']);
        assert(key_map(c) == Some(10u16));
    }
}

/// The keys of the typing key map are named after what they type: a letter
/// key by the letter in upper case, a digit key by the digit, space, newline
/// and tab by `SPACE`, `ENTER` and `TAB`, and each punctuation key by the
/// name of its character (`COMMA` for `,`, `DOT` for `.`, and so on).
pub proof fn lemma_key_map_names(c: char)
    ensures
        'a' <= c && c <= 'z' ==> (key_map(c) matches Some(k) && key_name(k) == seq![ascii_upper(c)]),
        '0' <= c && c <= '9' ==> (key_map(c) matches Some(k) && key_name(k) == seq![c]),
        c == ' ' ==> (key_map(c) matches Some(k) && key_name(k) == "SPACE"@),
        c == '\n' ==> (key_map(c) matches Some(k) && key_name(k) == "ENTER"@),
        c == '\t' ==> (key_map(c) matches Some(k) && key_name(k) == "TAB"@),
        c == ',' ==> (key_map(c) matches Some(k) && key_name(k) == "COMMA"@),
        c == '.' ==> (key_map(c) matches Some(k) && key_name(k) == "DOT"@),
        c == '/' ==> (key_map(c) matches Some(k) && key_name(k) == "SLASH"@),
        c == '-' ==> (key_map(c) matches Some(k) && key_name(k) == "MINUS"@),
        c == '=' ==> (key_map(c) matches Some(k) && key_name(k) == "EQUAL"@),
        c == '[' ==> (key_map(c) matches Some(k) && key_name(k) == "LEFTBRACE"@),
        c == ']' ==> (key_map(c) matches Some(k) && key_name(k) == "RIGHTBRACE"@),
        c == '\\' ==> (key_map(c) matches Some(k) && key_name(k) == "BACKSLASH"@),
        c == ';' ==> (key_map(c) matches Some(k) && key_name(k) == "SEMICOLON"@),
        c == '\'' ==> (key_map(c) matches Some(k) && key_name(k) == "APOSTROPHE"@),
        c == '`' ==> (key_map(c) matches Some(k) && key_name(k) == "GRAVE"@),
{
    if 'a' <= c && c <= 'z' {
        lemma_letter_keys_named(c);
    }
    if '0' <= c && c <= '9' {
        lemma_digit_keys_named(c);
    }
    if c == ' ' || c == '\n' || c == '\t' || c == ',' || c == '.' || c == '/' || c == '-' || c == '=' || c == '[' || c == ']' || c == '\\' || c == ';' || c == '\'' || c == '`' {
        let top = seq!['q', 'w', 'e', 'r', 't', 'y', 'u', 'i', 'o', 'p'];
        let middle = seq!['a', 's', 'd', 'f', 'g', 'h', 'j', 'k', 'l'];
        let bottom = seq!['z', 'x', 'c', 'v', 'b', 'n', 'm'];
        assert(!top.contains(c));
        assert(!middle.contains(c));
        assert(!bottom.contains(c));
    }
}

// ---------------------------------------------------------------------
// Typing text
// ---------------------------------------------------------------------

/// Whether typing `c` holds shift: upper-case letters and the shifted symbols.
pub open spec fn needs_shift(c: char) -> bool {
    ('A' <= c && c <= 'Z') || SHIFT_SYMBOLS@.contains(c)
}

/// The steps that type one character: nothing for a character without a key;
/// otherwise shift down (when needed) and a pause of 10 ms, the key down, a
/// pause of 20 ms, the key up, then (when shifted) a pause of 10 ms and shift
/// up, and a pause of 30 ms.
pub open spec fn char_steps(c: char) -> Seq<InjectStep> {
    match key_map(c) {
        None => Seq::empty(),
        Some(k) => {
            let shift_down = if needs_shift(c) {
                key_steps(KEY_LEFTSHIFT, 1) + seq![InjectStep::Sleep(10)]
            } else {
                Seq::empty()
            };
            let shift_up = if needs_shift(c) {
                seq![InjectStep::Sleep(10)] + key_steps(KEY_LEFTSHIFT, 0)
            } else {
                Seq::empty()
            };
            shift_down + key_steps(k, 1) + seq![InjectStep::Sleep(20)] + key_steps(k, 0) + shift_up
                + seq![InjectStep::Sleep(30)]
        },
    }
}

/// The steps that type a text, character after character.
pub open spec fn text_steps(s: Seq<char>) -> Seq<InjectStep>
    decreases s.len(),
{
    if s.len() == 0 {
        Seq::empty()
    } else {
        text_steps(s.drop_last()) + char_steps(s.last())
    }
}

fn append_steps(out: &mut Vec<InjectStep>, more: Vec<InjectStep>)
    ensures
        final(out)@ == old(out)@ + more@,
{
    let mut more = more;
    out.append(&mut more);
}

/// The steps that type one character.
pub fn char_type_steps(c: char) -> (r: Vec<InjectStep>)
    ensures
        r@ == char_steps(c),
{
    let mut out: Vec<InjectStep> = Vec::new();
    match key_code_for_char(c) {
        None => {
            assert(out@ =~= char_steps(c));
            out
        },
        Some(k) => {
            let shift = ('A' <= c && c <= 'Z') || contains_char(SHIFT_SYMBOLS, c);
            if shift {
                append_steps(&mut out, key_press_events(KEY_LEFTSHIFT));
                out.push(InjectStep::Sleep(10));
            }
            append_steps(&mut out, key_press_events(k));
            out.push(InjectStep::Sleep(20));
            append_steps(&mut out, key_release_events(k));
            if shift {
                out.push(InjectStep::Sleep(10));
                append_steps(&mut out, key_release_events(KEY_LEFTSHIFT));
            }
            out.push(InjectStep::Sleep(30));
            assert(out@ =~= char_steps(c));
            out
        },
    }
}

/// The steps that type `text`; characters without a key are skipped.
pub fn type_string_steps(text: &str) -> (r: Vec<InjectStep>)
    ensures
        r@ == text_steps(text@),
{
    let n = text.unicode_len();
    let mut out: Vec<InjectStep> = Vec::new();
    let mut i: usize = 0;
    assert(text@.subrange(0, 0) =~= Seq::<char>::empty());
    while i < n
        invariant
            n == text@.len(),
            i <= n,
            out@ == text_steps(text@.subrange(0, i as int)),
        decreases n - i,
    {
        let c = text.get_char(i);
        let steps = char_type_steps(c);
        append_steps(&mut out, steps);
        assert(text@.subrange(0, i + 1).drop_last() =~= text@.subrange(0, i as int));
        i = i + 1;
    }
    assert(text@.subrange(0, n as int) =~= text@);
    out
}

// ---------------------------------------------------------------------
// Commands
// ---------------------------------------------------------------------

/// The programs that a macro may run.
pub open spec fn allowed_program(p: Seq<char>) -> bool {
    p == "xdotool"@ || p == "xrandr"@ || p == "amixer"@ || p == "notify-send"@ || p == "pactl"@
        || p == "playerctl"@ || p == "brightnessctl"@ || p == "xbacklight"@
}

/// Whether `program` may be run.
pub fn is_allowed_program(program: &str) -> (r: bool)
    ensures
        r == allowed_program(program@),
{
    str_eq(program, "xdotool") || str_eq(program, "xrandr") || str_eq(program, "amixer") || str_eq(
        program,
        "notify-send",
    ) || str_eq(program, "pactl") || str_eq(program, "playerctl") || str_eq(program, "brightnessctl")
        || str_eq(program, "xbacklight")
}

/// The programs that a macro may run are exactly these eight: `xdotool`,
/// `xrandr`, `amixer`, `notify-send`, `pactl`, `playerctl`, `brightnessctl`
/// and `xbacklight`; any other program is refused.
pub proof fn lemma_allowed_programs(p: Seq<char>)
    ensures
        allowed_program(p) <==> seq![
            "xdotool"@,
            "xrandr"@,
            "amixer"@,
            "notify-send"@,
            "pactl"@,
            "playerctl"@,
            "brightnessctl"@,
            "xbacklight"@,
        ].contains(p),
        allowed_program("xdotool"@),
        allowed_program("xrandr"@),
        allowed_program("amixer"@),
        allowed_program("notify-send"@),
        allowed_program("pactl"@),
        allowed_program("playerctl"@),
        allowed_program("brightnessctl"@),
        allowed_program("xbacklight"@),
{
    let list = seq![
        "xdotool"@,
        "xrandr"@,
        "amixer"@,
        "notify-send"@,
        "pactl"@,
        "playerctl"@,
        "brightnessctl"@,
        "xbacklight"@,
    ];
    if allowed_program(p) {
        if p == "xdotool"@ {
            assert(list[0] == p);
        } else if p == "xrandr"@ {
            assert(list[1] == p);
        } else if p == "amixer"@ {
            assert(list[2] == p);
        } else if p == "notify-send"@ {
            assert(list[3] == p);
        } else if p == "pactl"@ {
            assert(list[4] == p);
        } else if p == "playerctl"@ {
            assert(list[5] == p);
        } else if p == "brightnessctl"@ {
            assert(list[6] == p);
        } else {
            assert(list[7] == p);
        }
    }
    if list.contains(p) {
        let i = choose|i: int| 0 <= i < list.len() && list[i] == p;
        assert(0 <= i < 8);
    }
}

/// A command split into the program and its arguments.
#[derive(Debug)]
pub struct CommandLine {
    pub program: String,
    pub args: Vec<String>,
}

/// Splits `command` at white space and checks its program against the
/// allowed list: an empty command and a program that is not allowed are refused.
pub fn parse_command(command: &str) -> (r: Result<CommandLine, String>)
    ensures
        words(command@).len() == 0 ==> (r matches Err(e) && e@ == "Empty command"@),
        words(command@).len() > 0 && !allowed_program(words(command@)[0]) ==> (r matches Err(e) && e@
            == "Command '"@ + words(command@)[0] + "' is not allowed"@),
        words(command@).len() > 0 && allowed_program(words(command@)[0]) ==> (r matches Ok(cl)
            && cl.program@ == words(command@)[0] && cl.args@.len() == words(command@).len() - 1
            && forall|k: int| 0 <= k < cl.args@.len() ==> #[trigger] cl.args@[k]@ == words(command@)[k + 1]),
{
    let mut parts = split_whitespace(command);
    if parts.len() == 0 {
        return Err(owned("Empty command"));
    }
    let ghost ws = parts@;
    let program = parts.remove(0);
    if !is_allowed_program(program.as_str()) {
        return Err(concat3("Command '", program.as_str(), "' is not allowed"));
    }
    proof {
        assert forall|k: int| 0 <= k < parts@.len() implies #[trigger] parts@[k]@ == words(command@)[k + 1] by {
            assert(parts@[k] == ws[k + 1]);
        }
    }
    Ok(CommandLine { program, args: parts })
}

} // verus!
