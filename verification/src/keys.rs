//! Per-platform key codes, modifier flags and the layer-key name tables.
//!
//! macOS codes are Carbon virtual key codes and `CGEventFlags` bits; Windows
//! codes are virtual-key codes. `Platform::Other` is the fallback used where no
//! keyboard backend exists: it shares the Windows codes so that the pure
//! layer logic still runs there.

use vstd::prelude::*;

verus! {

/// Platform virtual key code (`CGKeyCode` on macOS, `VIRTUAL_KEY` on Windows).
pub type KeyCode = u16;

/// Platform keyboard modifier flags (`CGEventFlags` on macOS).
pub type EventFlags = u64;

/// The operating system whose key codes and conventions apply.
#[derive(Clone, Copy, Debug, PartialEq, Eq, Structural)]
pub enum Platform {
    MacOs,
    Windows,
    Other,
}

impl Platform {
    #[verifier::allow_in_spec]
    pub fn key_h(self) -> KeyCode
        returns
            (match self {
                Platform::MacOs => 4u16,
                _ => 72u16,
            }),
    {
        match self {
            Platform::MacOs => 4,
            _ => 72,
        }
    }

    #[verifier::allow_in_spec]
    pub fn key_j(self) -> KeyCode
        returns
            (match self {
                Platform::MacOs => 38u16,
                _ => 74u16,
            }),
    {
        match self {
            Platform::MacOs => 38,
            _ => 74,
        }
    }

    #[verifier::allow_in_spec]
    pub fn key_k(self) -> KeyCode
        returns
            (match self {
                Platform::MacOs => 40u16,
                _ => 75u16,
            }),
    {
        match self {
            Platform::MacOs => 40,
            _ => 75,
        }
    }

    #[verifier::allow_in_spec]
    pub fn key_l(self) -> KeyCode
        returns
            (match self {
                Platform::MacOs => 37u16,
                _ => 76u16,
            }),
    {
        match self {
            Platform::MacOs => 37,
            _ => 76,
        }
    }

    #[verifier::allow_in_spec]
    pub fn key_semicolon(self) -> KeyCode
        returns
            (match self {
                Platform::MacOs => 41u16,
                _ => 0xBAu16,
            }),
    {
        match self {
            Platform::MacOs => 41,
            _ => 0xBA,
        }
    }

    #[verifier::allow_in_spec]
    pub fn key_left_arrow(self) -> KeyCode
        returns
            (match self {
                Platform::MacOs => 123u16,
                _ => 0x25u16,
            }),
    {
        match self {
            Platform::MacOs => 123,
            _ => 0x25,
        }
    }

    #[verifier::allow_in_spec]
    pub fn key_right_arrow(self) -> KeyCode
        returns
            (match self {
                Platform::MacOs => 124u16,
                _ => 0x27u16,
            }),
    {
        match self {
            Platform::MacOs => 124,
            _ => 0x27,
        }
    }

    #[verifier::allow_in_spec]
    pub fn key_down_arrow(self) -> KeyCode
        returns
            (match self {
                Platform::MacOs => 125u16,
                _ => 0x28u16,
            }),
    {
        match self {
            Platform::MacOs => 125,
            _ => 0x28,
        }
    }

    #[verifier::allow_in_spec]
    pub fn key_up_arrow(self) -> KeyCode
        returns
            (match self {
                Platform::MacOs => 126u16,
                _ => 0x26u16,
            }),
    {
        match self {
            Platform::MacOs => 126,
            _ => 0x26,
        }
    }

    /// The flag bit of the platform shortcut modifier: `kCGEventFlagMaskCommand`
    /// on macOS; on Windows (which sends a synthetic Control key instead) the
    /// Control bit is kept for the pure flag helper.
    #[verifier::allow_in_spec]
    pub fn shortcut_modifier_flag_mask(self) -> EventFlags
        returns
            (match self {
                Platform::MacOs => 0x0010_0000u64,
                _ => 0x0004_0000u64,
            }),
    {
        match self {
            Platform::MacOs => 0x0010_0000,
            _ => 0x0004_0000,
        }
    }

    /// Display name of the platform shortcut modifier.
    pub open spec fn spec_shortcut_modifier_name(self) -> Seq<char> {
        match self {
            Platform::MacOs => "Command"@,
            _ => "Control"@,
        }
    }

    /// What a raw numeric layer key is interpreted as.
    pub open spec fn spec_key_code_name(self) -> Seq<char> {
        match self {
            Platform::MacOs => "macOS key code"@,
            Platform::Windows => "Windows virtual key code"@,
            Platform::Other => "virtual key code"@,
        }
    }

    /// Number of entries in the layer-key name table.
    #[verifier::allow_in_spec]
    pub fn layer_key_table_len(self) -> usize
        returns
            (match self {
                Platform::MacOs => 33usize,
                _ => 36usize,
            }),
    {
        match self {
            Platform::MacOs => 33,
            _ => 36,
        }
    }

    /// Entry `i` of the layer-key name table: a friendly name and its key
    /// code. Several names may share a code (aliases); the first one is the
    /// canonical display name.
    pub open spec fn layer_key_entry(self, i: int) -> (Seq<char>, KeyCode) {
        match self {
            Platform::MacOs => mac_entry(i),
            _ => windows_entry(i),
        }
    }

    pub fn layer_key_entry_at(self, i: usize) -> (r: (&'static str, KeyCode))
        requires
            i < self.layer_key_table_len(),
        ensures
            r.0@ == self.layer_key_entry(i as int).0,
            r.1 == self.layer_key_entry(i as int).1,
    {
        match self {
            Platform::MacOs => mac_entry_at(i),
            _ => windows_entry_at(i),
        }
    }

    /// Modifier keys that can serve as the layer key; they have no key-down /
    /// key-up events of their own on macOS.
    pub open spec fn is_modifier_key(self, k: KeyCode) -> bool {
        match self {
            Platform::MacOs => k == 55 || k == 54 || k == 56 || k == 60 || k == 59 || k == 62 || k
                == 58 || k == 61,
            _ => k == 0x5B || k == 0x5C || k == 0xA0 || k == 0xA1 || k == 0xA2 || k == 0xA3 || k
                == 0xA4 || k == 0xA5,
        }
    }

    /// Device-dependent flag bit (macOS `NX_DEVICE*KEYMASK`) set while that
    /// physical modifier key is held. Only macOS has these.
    pub open spec fn device_flag(self, k: KeyCode) -> Option<EventFlags> {
        match self {
            Platform::MacOs => if k == 55 {
                Some(0x0000_0008)
            } else if k == 54 {
                Some(0x0000_0010)
            } else if k == 56 {
                Some(0x0000_0002)
            } else if k == 60 {
                Some(0x0000_0004)
            } else if k == 59 {
                Some(0x0000_0001)
            } else if k == 62 {
                Some(0x0000_2000)
            } else if k == 58 {
                Some(0x0000_0020)
            } else if k == 61 {
                Some(0x0000_0040)
            } else {
                None
            },
            _ => None,
        }
    }

    /// All flag bits (device bit plus general modifier mask) that holding the
    /// modifier key contributes. Only macOS has these.
    pub open spec fn clear_mask(self, k: KeyCode) -> Option<EventFlags> {
        match self {
            Platform::MacOs => if k == 55 {
                Some(0x0010_0008)
            } else if k == 54 {
                Some(0x0010_0010)
            } else if k == 56 {
                Some(0x0002_0002)
            } else if k == 60 {
                Some(0x0002_0004)
            } else if k == 58 {
                Some(0x0008_0020)
            } else if k == 61 {
                Some(0x0008_0040)
            } else if k == 59 {
                Some(0x0004_0001)
            } else if k == 62 {
                Some(0x0004_2000)
            } else {
                None
            },
            _ => None,
        }
    }

    /// Keys with special/toggle behaviour that cannot be the layer key: Caps
    /// Lock and Fn on macOS, Caps Lock elsewhere.
    pub open spec fn is_unsupported_layer_code(self, k: KeyCode) -> bool {
        match self {
            Platform::MacOs => k == 57 || k == 63,
            _ => k == 0x14,
        }
    }
}

/// Entry `i` of the mac layer-key name table.
pub open spec fn mac_entry(i: int) -> (Seq<char>, u16) {
    if i == 0 {
        ("semicolon"@, 41)
    } else if i == 1 {
        ("quote"@, 39)
    } else if i == 2 {
        ("apostrophe"@, 39)
    } else if i == 3 {
        ("grave"@, 50)
    } else if i == 4 {
        ("backtick"@, 50)
    } else if i == 5 {
        ("tab"@, 48)
    } else if i == 6 {
        ("return"@, 36)
    } else if i == 7 {
        ("enter"@, 36)
    } else if i == 8 {
        ("space"@, 49)
    } else if i == 9 {
        ("escape"@, 53)
    } else if i == 10 {
        ("delete"@, 51)
    } else if i == 11 {
        ("backslash"@, 42)
    } else if i == 12 {
        ("left_bracket"@, 33)
    } else if i == 13 {
        ("right_bracket"@, 30)
    } else if i == 14 {
        ("comma"@, 43)
    } else if i == 15 {
        ("period"@, 47)
    } else if i == 16 {
        ("slash"@, 44)
    } else if i == 17 {
        ("minus"@, 27)
    } else if i == 18 {
        ("equal"@, 24)
    } else if i == 19 {
        ("left_command"@, 55)
    } else if i == 20 {
        ("right_command"@, 54)
    } else if i == 21 {
        ("left_windows"@, 55)
    } else if i == 22 {
        ("right_windows"@, 54)
    } else if i == 23 {
        ("left_option"@, 58)
    } else if i == 24 {
        ("right_option"@, 61)
    } else if i == 25 {
        ("left_alt"@, 58)
    } else if i == 26 {
        ("right_alt"@, 61)
    } else if i == 27 {
        ("left_control"@, 59)
    } else if i == 28 {
        ("right_control"@, 62)
    } else if i == 29 {
        ("left_ctrl"@, 59)
    } else if i == 30 {
        ("right_ctrl"@, 62)
    } else if i == 31 {
        ("left_shift"@, 56)
    } else {
        ("right_shift"@, 60)
    }
}

fn mac_entry_at(i: usize) -> (r: (&'static str, u16))
    requires
        i < 33,
    ensures
        r.0@ == mac_entry(i as int).0,
        r.1 == mac_entry(i as int).1,
{
    match i {
        0 => ("semicolon", 41),
        1 => ("quote", 39),
        2 => ("apostrophe", 39),
        3 => ("grave", 50),
        4 => ("backtick", 50),
        5 => ("tab", 48),
        6 => ("return", 36),
        7 => ("enter", 36),
        8 => ("space", 49),
        9 => ("escape", 53),
        10 => ("delete", 51),
        11 => ("backslash", 42),
        12 => ("left_bracket", 33),
        13 => ("right_bracket", 30),
        14 => ("comma", 43),
        15 => ("period", 47),
        16 => ("slash", 44),
        17 => ("minus", 27),
        18 => ("equal", 24),
        19 => ("left_command", 55),
        20 => ("right_command", 54),
        21 => ("left_windows", 55),
        22 => ("right_windows", 54),
        23 => ("left_option", 58),
        24 => ("right_option", 61),
        25 => ("left_alt", 58),
        26 => ("right_alt", 61),
        27 => ("left_control", 59),
        28 => ("right_control", 62),
        29 => ("left_ctrl", 59),
        30 => ("right_ctrl", 62),
        31 => ("left_shift", 56),
        _ => ("right_shift", 60),
    }
}

/// Entry `i` of the windows layer-key name table.
pub open spec fn windows_entry(i: int) -> (Seq<char>, u16) {
    if i == 0 {
        ("semicolon"@, 186)
    } else if i == 1 {
        ("quote"@, 222)
    } else if i == 2 {
        ("apostrophe"@, 222)
    } else if i == 3 {
        ("grave"@, 192)
    } else if i == 4 {
        ("backtick"@, 192)
    } else if i == 5 {
        ("tab"@, 9)
    } else if i == 6 {
        ("return"@, 13)
    } else if i == 7 {
        ("enter"@, 13)
    } else if i == 8 {
        ("space"@, 32)
    } else if i == 9 {
        ("escape"@, 27)
    } else if i == 10 {
        ("delete"@, 46)
    } else if i == 11 {
        ("backspace"@, 8)
    } else if i == 12 {
        ("backslash"@, 220)
    } else if i == 13 {
        ("left_bracket"@, 219)
    } else if i == 14 {
        ("right_bracket"@, 221)
    } else if i == 15 {
        ("comma"@, 188)
    } else if i == 16 {
        ("period"@, 190)
    } else if i == 17 {
        ("slash"@, 191)
    } else if i == 18 {
        ("minus"@, 189)
    } else if i == 19 {
        ("equal"@, 187)
    } else if i == 20 {
        ("left_command"@, 91)
    } else if i == 21 {
        ("right_command"@, 92)
    } else if i == 22 {
        ("left_option"@, 164)
    } else if i == 23 {
        ("right_option"@, 165)
    } else if i == 24 {
        ("left_windows"@, 91)
    } else if i == 25 {
        ("right_windows"@, 92)
    } else if i == 26 {
        ("left_win"@, 91)
    } else if i == 27 {
        ("right_win"@, 92)
    } else if i == 28 {
        ("left_alt"@, 164)
    } else if i == 29 {
        ("right_alt"@, 165)
    } else if i == 30 {
        ("left_control"@, 162)
    } else if i == 31 {
        ("right_control"@, 163)
    } else if i == 32 {
        ("left_ctrl"@, 162)
    } else if i == 33 {
        ("right_ctrl"@, 163)
    } else if i == 34 {
        ("left_shift"@, 160)
    } else {
        ("right_shift"@, 161)
    }
}

fn windows_entry_at(i: usize) -> (r: (&'static str, u16))
    requires
        i < 36,
    ensures
        r.0@ == windows_entry(i as int).0,
        r.1 == windows_entry(i as int).1,
{
    match i {
        0 => ("semicolon", 186),
        1 => ("quote", 222),
        2 => ("apostrophe", 222),
        3 => ("grave", 192),
        4 => ("backtick", 192),
        5 => ("tab", 9),
        6 => ("return", 13),
        7 => ("enter", 13),
        8 => ("space", 32),
        9 => ("escape", 27),
        10 => ("delete", 46),
        11 => ("backspace", 8),
        12 => ("backslash", 220),
        13 => ("left_bracket", 219),
        14 => ("right_bracket", 221),
        15 => ("comma", 188),
        16 => ("period", 190),
        17 => ("slash", 191),
        18 => ("minus", 189),
        19 => ("equal", 187),
        20 => ("left_command", 91),
        21 => ("right_command", 92),
        22 => ("left_option", 164),
        23 => ("right_option", 165),
        24 => ("left_windows", 91),
        25 => ("right_windows", 92),
        26 => ("left_win", 91),
        27 => ("right_win", 92),
        28 => ("left_alt", 164),
        29 => ("right_alt", 165),
        30 => ("left_control", 162),
        31 => ("right_control", 163),
        32 => ("left_ctrl", 162),
        33 => ("right_ctrl", 163),
        34 => ("left_shift", 160),
        _ => ("right_shift", 161),
    }
}

} // verus!
