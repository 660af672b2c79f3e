//! Text in terminal control sequences.
use vstd::prelude::*;
use crate::text::chars::control;
use crate::text::chars::is_control;

verus! {

/// The control characters and those that are invisible or change the direction of
/// the text, none of which belongs in a control sequence.
pub open spec fn disallowed(c: char) -> bool {
    ||| control(c)
    ||| c == '\u{ad}'
    ||| c == '\u{34f}'
    ||| c == '\u{61c}'
    ||| c == '\u{180e}'
    ||| '\u{200b}' <= c <= '\u{200f}'
    ||| '\u{202a}' <= c <= '\u{202e}'
    ||| '\u{2060}' <= c <= '\u{206f}'
    ||| '\u{fe00}' <= c <= '\u{fe0f}'
    ||| c == '\u{feff}'
    ||| '\u{fff9}' <= c <= '\u{fffb}'
    ||| '\u{1bca0}' <= c <= '\u{1bca3}'
    ||| '\u{e0100}' <= c <= '\u{e01ef}'
}

/// Whether a character is unsafe in a control sequence.
pub fn is_disallowed_osc_text_char(ch: char) -> (r: bool)
    ensures
        r == disallowed(ch),
{
    is_control(ch) || ch == '\u{ad}' || ch == '\u{34f}' || ch == '\u{61c}' || ch == '\u{180e}' || (
    '\u{200b}' <= ch && ch <= '\u{200f}') || ('\u{202a}' <= ch && ch <= '\u{202e}') || ('\u{2060}'
        <= ch && ch <= '\u{206f}') || ('\u{fe00}' <= ch && ch <= '\u{fe0f}') || ch == '\u{feff}'
        || ('\u{fff9}' <= ch && ch <= '\u{fffb}') || ('\u{1bca0}' <= ch && ch <= '\u{1bca3}') || (
    '\u{e0100}' <= ch && ch <= '\u{e01ef}')
}

/// Every control character is kept out, and so are the soft hyphen, the marks that
/// join or order characters without being seen, the marks of direction, the
/// selectors of variants and the other invisible ones; all the rest may be shown,
/// the visible characters of ASCII and the space among it.
pub proof fn law_only_invisible_characters_are_kept_out(c: char)
    ensures
        ({
            let n = c as int;
            disallowed(c) <==> {
                ||| 0x20 > n
                ||| 0x7f <= n <= 0x9f
                ||| n == 0xad
                ||| n == 0x34f
                ||| n == 0x61c
                ||| n == 0x180e
                ||| 0x200b <= n <= 0x200f
                ||| 0x202a <= n <= 0x202e
                ||| 0x2060 <= n <= 0x206f
                ||| 0xfe00 <= n <= 0xfe0f
                ||| n == 0xfeff
                ||| 0xfff9 <= n <= 0xfffb
                ||| 0x1bca0 <= n <= 0x1bca3
                ||| 0xe0100 <= n <= 0xe01ef
            }
        }),
        control(c) ==> disallowed(c),
        0x20 <= c as int <= 0x7e ==> !disallowed(c),
{
}

} // verus!
