//! Key names, as the browser shim sends them.

use crate::text;
use vstd::prelude::*;

verus! {

/// A key the application answers to.
#[derive(Clone, Copy, Debug, PartialEq, Eq, Structural)]
pub enum Key {
    Enter,
    Escape,
    Space,
    Tab,
    Left,
    Right,
    Up,
    Down,
    Home,
    End,
    Backspace,
    Slash,
    Question,
    Bang,
    OpenBracket,
    CloseBracket,
    Minus,
    Equals,
    Plus,
    Zero,
    C,
    D,
    G,
    H,
    I,
    J,
    K,
    L,
    M,
    P,
    Q,
    R,
    S,
    T,
    U,
    X,
    Other,
}

/// The key a name stands for.
pub open spec fn key_named(name: Seq<char>) -> Key {
    if name == "enter"@ {
        Key::Enter
    } else if name == "escape"@ {
        Key::Escape
    } else if name == "space"@ {
        Key::Space
    } else if name == "tab"@ {
        Key::Tab
    } else if name == "left"@ {
        Key::Left
    } else if name == "right"@ {
        Key::Right
    } else if name == "up"@ {
        Key::Up
    } else if name == "down"@ {
        Key::Down
    } else if name == "home"@ {
        Key::Home
    } else if name == "end"@ {
        Key::End
    } else if name == "backspace"@ {
        Key::Backspace
    } else if name == "/"@ {
        Key::Slash
    } else if name == "?"@ {
        Key::Question
    } else if name == "!"@ {
        Key::Bang
    } else if name == "["@ {
        Key::OpenBracket
    } else if name == "]"@ {
        Key::CloseBracket
    } else if name == "-"@ {
        Key::Minus
    } else if name == "="@ {
        Key::Equals
    } else if name == "+"@ {
        Key::Plus
    } else if name == "0"@ {
        Key::Zero
    } else {
        letter_named(name)
    }
}

/// The letter key a name stands for.
pub open spec fn letter_named(name: Seq<char>) -> Key {
    if name == "c"@ {
        Key::C
    } else if name == "d"@ {
        Key::D
    } else if name == "g"@ {
        Key::G
    } else if name == "h"@ {
        Key::H
    } else if name == "i"@ {
        Key::I
    } else if name == "j"@ {
        Key::J
    } else if name == "k"@ {
        Key::K
    } else if name == "l"@ {
        Key::L
    } else if name == "m"@ {
        Key::M
    } else if name == "p"@ {
        Key::P
    } else if name == "q"@ {
        Key::Q
    } else if name == "r"@ {
        Key::R
    } else if name == "s"@ {
        Key::S
    } else if name == "t"@ {
        Key::T
    } else if name == "u"@ {
        Key::U
    } else if name == "x"@ {
        Key::X
    } else {
        Key::Other
    }
}

impl Key {
    /// The key a name stands for.
    pub fn named(name: &str) -> (r: Key)
        ensures
            r == key_named(name@),
    {
        if text::same(name, "enter") {
            Key::Enter
        } else if text::same(name, "escape") {
            Key::Escape
        } else if text::same(name, "space") {
            Key::Space
        } else if text::same(name, "tab") {
            Key::Tab
        } else if text::same(name, "left") {
            Key::Left
        } else if text::same(name, "right") {
            Key::Right
        } else if text::same(name, "up") {
            Key::Up
        } else if text::same(name, "down") {
            Key::Down
        } else if text::same(name, "home") {
            Key::Home
        } else if text::same(name, "end") {
            Key::End
        } else if text::same(name, "backspace") {
            Key::Backspace
        } else if text::same(name, "/") {
            Key::Slash
        } else if text::same(name, "?") {
            Key::Question
        } else if text::same(name, "!") {
            Key::Bang
        } else if text::same(name, "[") {
            Key::OpenBracket
        } else if text::same(name, "]") {
            Key::CloseBracket
        } else if text::same(name, "-") {
            Key::Minus
        } else if text::same(name, "=") {
            Key::Equals
        } else if text::same(name, "+") {
            Key::Plus
        } else if text::same(name, "0") {
            Key::Zero
        } else {
            Key::letter(name)
        }
    }

    fn letter(name: &str) -> (r: Key)
        ensures
            r == letter_named(name@),
    {
        if text::same(name, "c") {
            Key::C
        } else if text::same(name, "d") {
            Key::D
        } else if text::same(name, "g") {
            Key::G
        } else if text::same(name, "h") {
            Key::H
        } else if text::same(name, "i") {
            Key::I
        } else if text::same(name, "j") {
            Key::J
        } else if text::same(name, "k") {
            Key::K
        } else if text::same(name, "l") {
            Key::L
        } else if text::same(name, "m") {
            Key::M
        } else if text::same(name, "p") {
            Key::P
        } else if text::same(name, "q") {
            Key::Q
        } else if text::same(name, "r") {
            Key::R
        } else if text::same(name, "s") {
            Key::S
        } else if text::same(name, "t") {
            Key::T
        } else if text::same(name, "u") {
            Key::U
        } else if text::same(name, "x") {
            Key::X
        } else {
            Key::Other
        }
    }
}

} // verus!
