use vstd::prelude::*;

verus! {

/// A physical key, independent of the windowing backend that reported it.
#[derive(Debug, Clone, Copy, PartialEq, Eq, Hash, Structural)]
pub enum KeyCode {
    Esc,

    Num1,
    Num2,
    Num3,
    Num4,
    Num5,
    Num6,
    Num7,
    Num8,
    Num9,
    Num0,

    A,
    B,
    C,
    D,
    E,
    F,
    G,
    H,
    I,
    J,
    K,
    L,
    M,
    N,
    O,
    P,
    Q,
    R,
    S,
    T,
    U,
    V,
    W,
    X,
    Y,
    Z,

    F1,
    F2,
    F3,
    F4,
    F5,
    F6,
    F7,
    F8,
    F9,
    F10,
    F11,
    F12,
    F13,
    F14,
    F15,
    F16,
    F17,
    F18,
    F19,
    F20,
    F21,
    F22,
    F23,
    F24,

    PrintScreen,
    ScrollLock,
    /// Pause or Break
    Pause,

    /// ` or ~
    Grave,
    /// - or _
    Minus,
    /// = or +
    Equals,
    /// [ or {
    LBracket,
    /// ] or }
    RBracket,
    /// \ or |
    Backslash,
    /// ; or :
    Semicolon,
    /// ' or "
    Apostrophe,
    /// , or <
    Comma,
    /// . or >
    Period,
    /// / or ?
    Slash,

    Tab,
    CapsLock,
    LShift,
    RShift,
    LCtrl,
    RCtrl,
    /// or left option on macOS
    LAlt,
    /// or right option on macOs
    RAlt,
    /// or left command on macOS
    LWin,
    /// or right command on macOS
    RWin,
    /// or delete on macOS
    Backspace,
    /// or return on macOS
    Enter,
    Space,
    Menu,

    Insert,
    Delete,
    Home,
    End,
    PageUp,
    PageDown,

    Up,
    Down,
    Left,
    Right,

    NumLock,
    NumpadSlash,
    NumpadMultiply,
    NumpadMinus,
    NumpadDecimal,
    NumpadAdd,
    NumpadEnter,
    Numpad0,
    Numpad1,
    Numpad2,
    Numpad3,
    Numpad4,
    Numpad5,
    Numpad6,
    Numpad7,
    Numpad8,
    Numpad9,

    Other(u32),
}

} // verus!
