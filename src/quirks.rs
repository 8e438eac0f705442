use vstd::prelude::*;
use vstd::string::StrSliceExecFns;

verus! {

/// The compatibility switches that tell the dialects apart.
///
/// A profile is a plain value: it is swapped as a whole by [`Quirks::get_chip`].
#[derive(Clone, Copy, Debug, PartialEq, Eq, Structural)]
pub struct Quirks {
    /// Shifts read only the destination register.
    pub shift_quirks: bool,
    /// Bulk register save/load leaves the index register unchanged.
    pub load_store_quirks: bool,
    /// Sprite pixels past the screen edge are dropped instead of wrapping.
    pub clip_quirks: bool,
    /// Jump-with-offset takes its register from the address's high nibble.
    pub jump_quirks: bool,
    /// OR / AND / XOR clear the flag register.
    pub logic_quirks: bool,
    /// Drawing stalls the CPU until the next timer tick.
    pub v_blank_quirks: bool,
    /// Advisory upper bound on a program image, in bytes.
    pub max_size: u16,
}

/// The behaviour of the first CHIP-8 interpreter, on the COSMAC VIP.
pub open spec fn chip8_profile() -> Quirks {
    Quirks {
        shift_quirks: false,
        load_store_quirks: false,
        clip_quirks: true,
        jump_quirks: false,
        logic_quirks: true,
        v_blank_quirks: true,
        max_size: 3232,
    }
}

/// SUPER-CHIP's behaviour.
pub open spec fn schip_profile() -> Quirks {
    Quirks {
        shift_quirks: true,
        load_store_quirks: true,
        clip_quirks: true,
        jump_quirks: true,
        logic_quirks: false,
        v_blank_quirks: false,
        max_size: 3583,
    }
}

/// XO-CHIP's behaviour.
pub open spec fn xo_profile() -> Quirks {
    Quirks {
        shift_quirks: false,
        load_store_quirks: false,
        clip_quirks: false,
        jump_quirks: false,
        logic_quirks: false,
        v_blank_quirks: false,
        max_size: 65024,
    }
}

/// The profile selected by a name: `"schip"`, `"xo"`, and `chip8` for any other name.
pub open spec fn profile_for(name: Seq<char>) -> Quirks {
    if name =~= seq!['s', 'c', 'h', 'i', 'p'] {
        schip_profile()
    } else if name =~= seq!['x', 'o'] {
        xo_profile()
    } else {
        chip8_profile()
    }
}

/// Whether `s` spells exactly the characters of `word`.
fn spells(s: &str, word: &[char]) -> (r: bool)
    ensures
        r == (s@ =~= word@),
{
    let n = s.unicode_len();
    if n != word.len() {
        return false;
    }
    let mut i: usize = 0;
    while i < n
        invariant
            n == s@.len(),
            n == word@.len(),
            i <= n,
            forall|j: int| 0 <= j < i ==> s@[j] == word@[j],
        decreases n - i,
    {
        if s.get_char(i) != word[i] {
            return false;
        }
        i = i + 1;
    }
    true
}

impl Quirks {
    /// The default profile, `chip8`.
    pub fn new() -> (q: Quirks)
        ensures
            q == chip8_profile(),
    {
        Quirks {
            shift_quirks: false,
            load_store_quirks: false,
            clip_quirks: true,
            jump_quirks: false,
            logic_quirks: true,
            v_blank_quirks: true,
            max_size: 3232,
        }
    }

    /// Replaces every switch with those of the profile named `chip`.
    pub fn get_chip(&mut self, chip: &str)
        ensures
            *final(self) == profile_for(chip@),
    {
        if spells(chip, &['s', 'c', 'h', 'i', 'p']) {
            *self = Quirks {
                shift_quirks: true,
                load_store_quirks: true,
                clip_quirks: true,
                jump_quirks: true,
                logic_quirks: false,
                v_blank_quirks: false,
                max_size: 3583,
            };
        } else if spells(chip, &['x', 'o']) {
            *self = Quirks {
                shift_quirks: false,
                load_store_quirks: false,
                clip_quirks: false,
                jump_quirks: false,
                logic_quirks: false,
                v_blank_quirks: false,
                max_size: 65024,
            };
        } else {
            *self = Quirks::new();
        }
    }
}

} // verus!
