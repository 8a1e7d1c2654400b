use vstd::prelude::*;

verus! {

/// The host keys of the keypad layout:
///
/// ```text
/// 1 2 3 C      1 2 3 4
/// 4 5 6 D  ->  Q W E R
/// 7 8 9 E      A S D F
/// A 0 B F      Z X C V
/// ```
#[derive(Debug, Clone, Copy, PartialEq, Eq, Structural)]
pub enum HostKey {
    Key1,
    Key2,
    Key3,
    Key4,
    Q,
    W,
    E,
    R,
    A,
    S,
    D,
    F,
    Z,
    X,
    C,
    V,
}

/// The 4-bit keypad code of a host key.
pub open spec fn spec_keypad_code(k: HostKey) -> u8 {
    match k {
        HostKey::Key1 => 0x1,
        HostKey::Key2 => 0x2,
        HostKey::Key3 => 0x3,
        HostKey::Key4 => 0xC,
        HostKey::Q => 0x4,
        HostKey::W => 0x5,
        HostKey::E => 0x6,
        HostKey::R => 0xD,
        HostKey::A => 0x7,
        HostKey::S => 0x8,
        HostKey::D => 0x9,
        HostKey::F => 0xE,
        HostKey::Z => 0xA,
        HostKey::X => 0x0,
        HostKey::C => 0xB,
        HostKey::V => 0xF,
    }
}

/// The host key for a keypad code; `None` for a value that is no keypad code.
pub open spec fn spec_host_key(code: u8) -> Option<HostKey> {
    if code == 0x1 {
        Some(HostKey::Key1)
    } else if code == 0x2 {
        Some(HostKey::Key2)
    } else if code == 0x3 {
        Some(HostKey::Key3)
    } else if code == 0xC {
        Some(HostKey::Key4)
    } else if code == 0x4 {
        Some(HostKey::Q)
    } else if code == 0x5 {
        Some(HostKey::W)
    } else if code == 0x6 {
        Some(HostKey::E)
    } else if code == 0xD {
        Some(HostKey::R)
    } else if code == 0x7 {
        Some(HostKey::A)
    } else if code == 0x8 {
        Some(HostKey::S)
    } else if code == 0x9 {
        Some(HostKey::D)
    } else if code == 0xE {
        Some(HostKey::F)
    } else if code == 0xA {
        Some(HostKey::Z)
    } else if code == 0x0 {
        Some(HostKey::X)
    } else if code == 0xB {
        Some(HostKey::C)
    } else if code == 0xF {
        Some(HostKey::V)
    } else {
        None
    }
}

/// The keypad code of a host key.
pub fn keypad_code(k: HostKey) -> (r: u8)
    ensures
        r == spec_keypad_code(k),
        r < 16,
{
    match k {
        HostKey::Key1 => 0x1,
        HostKey::Key2 => 0x2,
        HostKey::Key3 => 0x3,
        HostKey::Key4 => 0xC,
        HostKey::Q => 0x4,
        HostKey::W => 0x5,
        HostKey::E => 0x6,
        HostKey::R => 0xD,
        HostKey::A => 0x7,
        HostKey::S => 0x8,
        HostKey::D => 0x9,
        HostKey::F => 0xE,
        HostKey::Z => 0xA,
        HostKey::X => 0x0,
        HostKey::C => 0xB,
        HostKey::V => 0xF,
    }
}

/// The host key for a keypad code, if the value is one.
pub fn host_key_for(code: u8) -> (r: Option<HostKey>)
    ensures
        r == spec_host_key(code),
{
    match code {
        0x1 => Some(HostKey::Key1),
        0x2 => Some(HostKey::Key2),
        0x3 => Some(HostKey::Key3),
        0xC => Some(HostKey::Key4),
        0x4 => Some(HostKey::Q),
        0x5 => Some(HostKey::W),
        0x6 => Some(HostKey::E),
        0xD => Some(HostKey::R),
        0x7 => Some(HostKey::A),
        0x8 => Some(HostKey::S),
        0x9 => Some(HostKey::D),
        0xE => Some(HostKey::F),
        0xA => Some(HostKey::Z),
        0x0 => Some(HostKey::X),
        0xB => Some(HostKey::C),
        0xF => Some(HostKey::V),
        _ => None,
    }
}

/// The two directions of the key map are inverse: every host key has a code below 16, every
/// code below 16 has exactly one host key, and no other value has one.
pub proof fn lemma_keymap_bijective(k: HostKey, code: u8)
    ensures
        spec_keypad_code(k) < 16,
        spec_host_key(spec_keypad_code(k)) == Some(k),
        code < 16 <==> spec_host_key(code) is Some,
        spec_host_key(code) matches Some(h) ==> spec_keypad_code(h) == code,
{
}

/// Whether a host key is in a sample of pressed keys.
pub fn is_pressed(keys: &Vec<HostKey>, k: HostKey) -> (r: bool)
    ensures
        r == keys@.contains(k),
{
    let mut j: usize = 0;
    while j < keys.len()
        invariant
            j <= keys@.len(),
            forall|t: int| 0 <= t < j ==> keys@[t] != k,
        decreases keys@.len() - j,
    {
        if keys[j] == k {
            return true;
        }
        j = j + 1;
    }
    false
}

/// The first key of the previous sample that is missing from the current one: the first
/// release edge.
pub open spec fn first_released(last: Seq<HostKey>, pressed: Seq<HostKey>) -> Option<HostKey>
    decreases last.len(),
{
    if last.len() == 0 {
        None
    } else if !pressed.contains(last[0]) {
        Some(last[0])
    } else {
        first_released(last.drop_first(), pressed)
    }
}

/// A released key is one that was down in the previous sample and is up in the current one;
/// when there is none, nothing is released.
pub proof fn lemma_first_released(last: Seq<HostKey>, pressed: Seq<HostKey>)
    ensures
        first_released(last, pressed) matches Some(k) ==> last.contains(k) && !pressed.contains(k),
        first_released(last, pressed) is None <==> forall|t: int|
            0 <= t < last.len() ==> pressed.contains(#[trigger] last[t]),
    decreases last.len(),
{
    if last.len() > 0 {
        lemma_first_released(last.drop_first(), pressed);
        if let Some(k) = first_released(last, pressed) {
            if pressed.contains(last[0]) {
                let j = choose|j: int| 0 <= j < last.drop_first().len() && last.drop_first()[j] == k;
                assert(last[j + 1] == k);
            }
        }
        if pressed.contains(last[0]) && first_released(last.drop_first(), pressed) is None {
            assert forall|t: int| 0 <= t < last.len() implies pressed.contains(#[trigger] last[t]) by {
                if t > 0 {
                    assert(last[t] == last.drop_first()[t - 1]);
                }
            }
        }
    }
}

/// The first release edge between two samples, as in `first_released`.
pub fn find_released(last: &Vec<HostKey>, pressed: &Vec<HostKey>) -> (r: Option<HostKey>)
    ensures
        r == first_released(last@, pressed@),
{
    let mut j: usize = 0;
    assert(last@.subrange(0, last@.len() as int) == last@);
    while j < last.len()
        invariant
            j <= last@.len(),
            first_released(last@, pressed@) == first_released(
                last@.subrange(j as int, last@.len() as int),
                pressed@,
            ),
        decreases last@.len() - j,
    {
        let ghost rest = last@.subrange(j as int, last@.len() as int);
        assert(rest.drop_first() == last@.subrange(j + 1, last@.len() as int));
        if !is_pressed(pressed, last[j]) {
            return Some(last[j]);
        }
        j = j + 1;
    }
    assert(last@.subrange(j as int, last@.len() as int).len() == 0);
    None
}

} // verus!
