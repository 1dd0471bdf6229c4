//! Colors and ranks: the nick color palette, the mIRC palette and prefix ranks.

use vstd::prelude::*;
use crate::text::to_owned_string;
use vstd::utf8::encode_utf8;

verus! {

/// A color as red, green and blue components.
#[derive(Debug, Clone, Copy, PartialEq, Eq, Structural)]
pub struct Rgb {
    pub r: u8,
    pub g: u8,
    pub b: u8,
}

/// FNV-1a offset basis (64 bit).
pub const FNV_OFFSET_BASIS: u64 = 1469598103934665603u64;

/// FNV-1a prime (64 bit).
pub const FNV_PRIME: u64 = 1099511628211u64;

/// The 64-bit FNV-1a hash of `bytes`.
pub open spec fn fnv1a(bytes: Seq<u8>) -> u64
    decreases bytes.len(),
{
    if bytes.len() == 0 {
        FNV_OFFSET_BASIS
    } else {
        (fnv1a(bytes.drop_last()) ^ (bytes.last() as u64)).wrapping_mul(FNV_PRIME)
    }
}

/// Computes the 64-bit FNV-1a hash of `bytes`.
pub fn fnv1a_hash(bytes: &[u8]) -> (h: u64)
    ensures
        h == fnv1a(bytes@),
{
    let mut hash: u64 = FNV_OFFSET_BASIS;
    let mut i: usize = 0;
    while i < bytes.len()
        invariant
            i <= bytes@.len(),
            hash == fnv1a(bytes@.take(i as int)),
        decreases bytes@.len() - i,
    {
        assert(bytes@.take(i + 1).drop_last() =~= bytes@.take(i as int));
        hash = hash ^ (bytes[i] as u64);
        hash = hash.wrapping_mul(FNV_PRIME);
        i += 1;
    }
    assert(bytes@.take(bytes@.len() as int) =~= bytes@);
    hash
}

/// Number of colors in the nick palette.
pub const NICK_COLOR_COUNT: usize = 16;

/// Index into the nick palette for `nick`: its FNV-1a hash (over its UTF-8
/// bytes) modulo the palette size, so the same nick always gets the same color.
pub fn nick_color_index(nick: &str) -> (i: usize)
    ensures
        i < NICK_COLOR_COUNT,
        i as u64 == fnv1a(encode_utf8(nick@)) % (NICK_COLOR_COUNT as u64),
{
    let h = fnv1a_hash(nick.as_bytes());
    (h % 16) as usize
}

/// The nick palette.
pub open spec fn nick_palette() -> Seq<Rgb> {
    seq![
        Rgb { r: 231, g: 76, b: 60 },
        Rgb { r: 46, g: 204, b: 113 },
        Rgb { r: 52, g: 152, b: 219 },
        Rgb { r: 155, g: 89, b: 182 },
        Rgb { r: 241, g: 196, b: 15 },
        Rgb { r: 230, g: 126, b: 34 },
        Rgb { r: 26, g: 188, b: 156 },
        Rgb { r: 236, g: 100, b: 166 },
        Rgb { r: 142, g: 68, b: 173 },
        Rgb { r: 41, g: 128, b: 185 },
        Rgb { r: 39, g: 174, b: 96 },
        Rgb { r: 243, g: 156, b: 18 },
        Rgb { r: 192, g: 57, b: 43 },
        Rgb { r: 22, g: 160, b: 133 },
        Rgb { r: 211, g: 84, b: 0 },
        Rgb { r: 102, g: 178, b: 255 },
    ]
}

/// A consistent color for a nickname: the palette entry at `nick_color_index`.
pub fn nick_color(nick: &str) -> (c: Rgb)
    ensures
        c == nick_palette()[(fnv1a(encode_utf8(nick@)) % (NICK_COLOR_COUNT as u64)) as int],
{
    let i = nick_color_index(nick);
    let palette: [Rgb; 16] = [
        Rgb { r: 231, g: 76, b: 60 },
        Rgb { r: 46, g: 204, b: 113 },
        Rgb { r: 52, g: 152, b: 219 },
        Rgb { r: 155, g: 89, b: 182 },
        Rgb { r: 241, g: 196, b: 15 },
        Rgb { r: 230, g: 126, b: 34 },
        Rgb { r: 26, g: 188, b: 156 },
        Rgb { r: 236, g: 100, b: 166 },
        Rgb { r: 142, g: 68, b: 173 },
        Rgb { r: 41, g: 128, b: 185 },
        Rgb { r: 39, g: 174, b: 96 },
        Rgb { r: 243, g: 156, b: 18 },
        Rgb { r: 192, g: 57, b: 43 },
        Rgb { r: 22, g: 160, b: 133 },
        Rgb { r: 211, g: 84, b: 0 },
        Rgb { r: 102, g: 178, b: 255 },
    ];
    assert(palette@ =~= nick_palette());
    palette[i]
}

/// The standard mIRC palette (16 colors).
pub open spec fn mirc_palette() -> Seq<Rgb> {
    seq![
        Rgb { r: 255, g: 255, b: 255 },
        Rgb { r: 0, g: 0, b: 0 },
        Rgb { r: 0, g: 0, b: 127 },
        Rgb { r: 0, g: 147, b: 0 },
        Rgb { r: 255, g: 0, b: 0 },
        Rgb { r: 127, g: 0, b: 0 },
        Rgb { r: 156, g: 0, b: 156 },
        Rgb { r: 252, g: 127, b: 0 },
        Rgb { r: 255, g: 255, b: 0 },
        Rgb { r: 0, g: 252, b: 0 },
        Rgb { r: 0, g: 147, b: 147 },
        Rgb { r: 0, g: 255, b: 255 },
        Rgb { r: 0, g: 0, b: 252 },
        Rgb { r: 255, g: 0, b: 255 },
        Rgb { r: 127, g: 127, b: 127 },
        Rgb { r: 210, g: 210, b: 210 },
    ]
}

/// The mIRC color for `code`; codes past the palette give white.
pub open spec fn mirc_rgb(code: u8) -> Rgb {
    if (code as int) < 16 { mirc_palette()[code as int] } else { Rgb { r: 255, g: 255, b: 255 } }
}

/// The mIRC color for `code`; codes past the palette give white.
pub fn mirc_color(code: u8) -> (c: Rgb)
    ensures
        c == mirc_rgb(code),
{
    let palette: [Rgb; 16] = [
        Rgb { r: 255, g: 255, b: 255 },
        Rgb { r: 0, g: 0, b: 0 },
        Rgb { r: 0, g: 0, b: 127 },
        Rgb { r: 0, g: 147, b: 0 },
        Rgb { r: 255, g: 0, b: 0 },
        Rgb { r: 127, g: 0, b: 0 },
        Rgb { r: 156, g: 0, b: 156 },
        Rgb { r: 252, g: 127, b: 0 },
        Rgb { r: 255, g: 255, b: 0 },
        Rgb { r: 0, g: 252, b: 0 },
        Rgb { r: 0, g: 147, b: 147 },
        Rgb { r: 0, g: 255, b: 255 },
        Rgb { r: 0, g: 0, b: 252 },
        Rgb { r: 255, g: 0, b: 255 },
        Rgb { r: 127, g: 127, b: 127 },
        Rgb { r: 210, g: 210, b: 210 },
    ];
    assert(palette@ =~= mirc_palette());
    if (code as usize) < 16 {
        palette[code as usize]
    } else {
        Rgb { r: 255, g: 255, b: 255 }
    }
}

/// Rank of an IRC prefix (higher = more privileged):
/// `~` 5, `&` 4, `@` 3, `%` 2, `+` 1, anything else 0.
pub open spec fn rank_of(prefix: Option<char>) -> u8 {
    match prefix {
        Some('~') => 5,
        Some('&') => 4,
        Some('@') => 3,
        Some('%') => 2,
        Some('+') => 1,
        _ => 0,
    }
}

/// IRC user prefix ranks (higher = more privileged).
pub fn prefix_rank(prefix: Option<char>) -> (r: u8)
    ensures
        r == rank_of(prefix),
{
    match prefix {
        Some('~') => 5,
        Some('&') => 4,
        Some('@') => 3,
        Some('%') => 2,
        Some('+') => 1,
        _ => 0,
    }
}

/// Which semantic color a prefix is shown in.
#[derive(Debug, Clone, Copy, PartialEq, Eq, Structural)]
pub enum PrefixTone {
    /// Operators, owners and admins (`@`, `~`, `&`).
    Success,
    /// Voiced users and half-ops (`+`, `%`).
    Warning,
    /// Everyone else.
    Muted,
}

/// The semantic color class of a prefix: ops green, voice orange, others gray.
pub fn prefix_tone(prefix: Option<char>) -> (t: PrefixTone)
    ensures
        t == match prefix {
            Some('@') | Some('~') | Some('&') => PrefixTone::Success,
            Some('+') | Some('%') => PrefixTone::Warning,
            _ => PrefixTone::Muted,
        },
{
    match prefix {
        Some('@') | Some('~') | Some('&') => PrefixTone::Success,
        Some('+') | Some('%') => PrefixTone::Warning,
        _ => PrefixTone::Muted,
    }
}


/// A theme: its name and colors.
#[derive(Debug)]
pub struct SlircTheme {
    pub name: String,
    pub surface: [Rgb; 7],
    pub accent: Rgb,
    pub accent_hover: Rgb,
    pub accent_active: Rgb,
    pub success: Rgb,
    pub warning: Rgb,
    pub error: Rgb,
    pub info: Rgb,
    pub text_primary: Rgb,
    pub text_secondary: Rgb,
    pub text_muted: Rgb,
    pub text_disabled: Rgb,
    pub border_subtle: Rgb,
    pub border_medium: Rgb,
    pub border_strong: Rgb,
}

/// A theme as plain values.
pub struct ThemeView {
    pub name: Seq<char>,
    pub surface: Seq<Rgb>,
    pub accent: Rgb,
    pub accent_hover: Rgb,
    pub accent_active: Rgb,
    pub success: Rgb,
    pub warning: Rgb,
    pub error: Rgb,
    pub info: Rgb,
    pub text_primary: Rgb,
    pub text_secondary: Rgb,
    pub text_muted: Rgb,
    pub text_disabled: Rgb,
    pub border_subtle: Rgb,
    pub border_medium: Rgb,
    pub border_strong: Rgb,
}

impl View for SlircTheme {
    type V = ThemeView;

    open spec fn view(&self) -> ThemeView {
        ThemeView {
            name: self.name@,
            surface: self.surface@,
            accent: self.accent,
            accent_hover: self.accent_hover,
            accent_active: self.accent_active,
            success: self.success,
            warning: self.warning,
            error: self.error,
            info: self.info,
            text_primary: self.text_primary,
            text_secondary: self.text_secondary,
            text_muted: self.text_muted,
            text_disabled: self.text_disabled,
            border_subtle: self.border_subtle,
            border_medium: self.border_medium,
            border_strong: self.border_strong,
        }
    }
}

/// The dark theme's colors.
pub open spec fn dark_theme() -> ThemeView {
    ThemeView {
        name: "Dark"@,
        surface: seq![Rgb { r: 10, g: 10, b: 15 }, Rgb { r: 19, g: 19, b: 26 }, Rgb { r: 28, g: 28, b: 38 }, Rgb { r: 37, g: 37, b: 50 }, Rgb { r: 46, g: 46, b: 62 }, Rgb { r: 56, g: 56, b: 74 }, Rgb { r: 66, g: 66, b: 86 }],
        accent: Rgb { r: 88, g: 101, b: 242 },
        accent_hover: Rgb { r: 71, g: 82, b: 196 },
        accent_active: Rgb { r: 60, g: 69, b: 165 },
        success: Rgb { r: 67, g: 181, b: 129 },
        warning: Rgb { r: 250, g: 166, b: 26 },
        error: Rgb { r: 240, g: 71, b: 71 },
        info: Rgb { r: 0, g: 175, b: 244 },
        text_primary: Rgb { r: 255, g: 255, b: 255 },
        text_secondary: Rgb { r: 185, g: 187, b: 190 },
        text_muted: Rgb { r: 114, g: 118, b: 125 },
        text_disabled: Rgb { r: 79, g: 84, b: 92 },
        border_subtle: Rgb { r: 32, g: 34, b: 37 },
        border_medium: Rgb { r: 47, g: 49, b: 54 },
        border_strong: Rgb { r: 64, g: 68, b: 75 },
    }
}

/// The light theme's colors.
pub open spec fn light_theme() -> ThemeView {
    ThemeView {
        name: "Light"@,
        surface: seq![Rgb { r: 255, g: 255, b: 255 }, Rgb { r: 246, g: 246, b: 247 }, Rgb { r: 242, g: 243, b: 245 }, Rgb { r: 227, g: 229, b: 232 }, Rgb { r: 212, g: 215, b: 220 }, Rgb { r: 196, g: 201, b: 208 }, Rgb { r: 181, g: 187, b: 196 }],
        accent: Rgb { r: 88, g: 101, b: 242 },
        accent_hover: Rgb { r: 71, g: 82, b: 196 },
        accent_active: Rgb { r: 60, g: 69, b: 165 },
        success: Rgb { r: 67, g: 181, b: 129 },
        warning: Rgb { r: 250, g: 166, b: 26 },
        error: Rgb { r: 240, g: 71, b: 71 },
        info: Rgb { r: 0, g: 175, b: 244 },
        text_primary: Rgb { r: 6, g: 6, b: 7 },
        text_secondary: Rgb { r: 79, g: 86, b: 96 },
        text_muted: Rgb { r: 116, g: 127, b: 141 },
        text_disabled: Rgb { r: 180, g: 187, b: 196 },
        border_subtle: Rgb { r: 230, g: 232, b: 236 },
        border_medium: Rgb { r: 210, g: 213, b: 219 },
        border_strong: Rgb { r: 180, g: 185, b: 192 },
    }
}

impl SlircTheme {
    /// Dark theme.
    pub fn dark() -> (r: Self)
        ensures
            r@ == dark_theme(),
    {
        let r = SlircTheme {
            name: to_owned_string("Dark"),
            surface: [Rgb { r: 10, g: 10, b: 15 }, Rgb { r: 19, g: 19, b: 26 }, Rgb { r: 28, g: 28, b: 38 }, Rgb { r: 37, g: 37, b: 50 }, Rgb { r: 46, g: 46, b: 62 }, Rgb { r: 56, g: 56, b: 74 }, Rgb { r: 66, g: 66, b: 86 }],
            accent: Rgb { r: 88, g: 101, b: 242 },
            accent_hover: Rgb { r: 71, g: 82, b: 196 },
            accent_active: Rgb { r: 60, g: 69, b: 165 },
            success: Rgb { r: 67, g: 181, b: 129 },
            warning: Rgb { r: 250, g: 166, b: 26 },
            error: Rgb { r: 240, g: 71, b: 71 },
            info: Rgb { r: 0, g: 175, b: 244 },
            text_primary: Rgb { r: 255, g: 255, b: 255 },
            text_secondary: Rgb { r: 185, g: 187, b: 190 },
            text_muted: Rgb { r: 114, g: 118, b: 125 },
            text_disabled: Rgb { r: 79, g: 84, b: 92 },
            border_subtle: Rgb { r: 32, g: 34, b: 37 },
            border_medium: Rgb { r: 47, g: 49, b: 54 },
            border_strong: Rgb { r: 64, g: 68, b: 75 },
        };
        assert(r@.surface =~= dark_theme().surface);
        r
    }

    /// Light theme.
    pub fn light() -> (r: Self)
        ensures
            r@ == light_theme(),
    {
        let r = SlircTheme {
            name: to_owned_string("Light"),
            surface: [Rgb { r: 255, g: 255, b: 255 }, Rgb { r: 246, g: 246, b: 247 }, Rgb { r: 242, g: 243, b: 245 }, Rgb { r: 227, g: 229, b: 232 }, Rgb { r: 212, g: 215, b: 220 }, Rgb { r: 196, g: 201, b: 208 }, Rgb { r: 181, g: 187, b: 196 }],
            accent: Rgb { r: 88, g: 101, b: 242 },
            accent_hover: Rgb { r: 71, g: 82, b: 196 },
            accent_active: Rgb { r: 60, g: 69, b: 165 },
            success: Rgb { r: 67, g: 181, b: 129 },
            warning: Rgb { r: 250, g: 166, b: 26 },
            error: Rgb { r: 240, g: 71, b: 71 },
            info: Rgb { r: 0, g: 175, b: 244 },
            text_primary: Rgb { r: 6, g: 6, b: 7 },
            text_secondary: Rgb { r: 79, g: 86, b: 96 },
            text_muted: Rgb { r: 116, g: 127, b: 141 },
            text_disabled: Rgb { r: 180, g: 187, b: 196 },
            border_subtle: Rgb { r: 230, g: 232, b: 236 },
            border_medium: Rgb { r: 210, g: 213, b: 219 },
            border_strong: Rgb { r: 180, g: 185, b: 192 },
        };
        assert(r@.surface =~= light_theme().surface);
        r
    }
}

/// The color of a user prefix: the success color for `@`, `~` and `&`, the
/// warning color for `+` and `%`, muted text otherwise.
pub open spec fn prefix_color_spec(t: ThemeView, prefix: Option<char>) -> Rgb {
    match prefix {
        Some(c) => if c == '@' || c == '~' || c == '&' {
            t.success
        } else if c == '+' || c == '%' {
            t.warning
        } else {
            t.text_muted
        },
        None => t.text_muted,
    }
}

/// Color for a user prefix/status indicator.
pub fn prefix_color(theme: &SlircTheme, prefix: Option<char>) -> (r: Rgb)
    ensures
        r == prefix_color_spec(theme@, prefix),
{
    match prefix {
        Some(c) => if c == '@' || c == '~' || c == '&' {
            theme.success
        } else if c == '+' || c == '%' {
            theme.warning
        } else {
            theme.text_muted
        },
        None => theme.text_muted,
    }
}

} // verus!
