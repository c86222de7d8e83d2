//! What the configuration says beyond the key bindings: the background and
//! the keyboard layouts.

use vstd::prelude::*;

verus! {

/// How the background image fills the screen.
#[derive(Debug, PartialEq, Eq, Structural, Clone, Copy)]
pub enum ImageMode {
    Stretch,
    Fit,
    Fill,
    Center,
    Tile,
}

impl Default for ImageMode {
    fn default() -> (mode: ImageMode)
        ensures
            mode == ImageMode::Fill,
    {
        ImageMode::Fill
    }
}

impl ImageMode {
    /// The name of the mode as the configuration writes it.
    pub open spec fn name(self) -> Seq<char> {
        match self {
            ImageMode::Stretch => "stretch"@,
            ImageMode::Fit => "fit"@,
            ImageMode::Fill => "fill"@,
            ImageMode::Center => "center"@,
            ImageMode::Tile => "tile"@,
        }
    }

    /// The name of the mode as the configuration writes it.
    pub fn to_string(&self) -> (name: String)
        ensures
            name@ == self.name(),
    {
        match self {
            ImageMode::Stretch => String::from_str("stretch"),
            ImageMode::Fit => String::from_str("fit"),
            ImageMode::Fill => String::from_str("fill"),
            ImageMode::Center => String::from_str("center"),
            ImageMode::Tile => String::from_str("tile"),
        }
    }
}

/// A colour, each part from 0 to 255.
#[derive(Debug, PartialEq, Eq, Structural, Clone, Copy)]
pub struct BackgroundColor {
    pub red: u8,
    pub green: u8,
    pub blue: u8,
}

/// Why a text is no colour.
#[derive(Debug, PartialEq, Eq, Structural, Clone, Copy)]
pub enum ColorError {
    /// The text is not of the form `#000000`.
    Format,
    /// What stands after the `#` is not six hexadecimal digits.
    Digits,
}

/// The pattern of a colour: a `#` and six hexadecimal digits, with white
/// space around them at most.
pub open spec fn color_pattern() -> Seq<char> {
    "^\\s*#([0-9a-fA-F]{6})\\s*$"@
}

/// What the group `group` of the regular expression `pattern` captures in
/// the first match of the pattern in `text`: `None` if `pattern` is no
/// regular expression, `Some(None)` if it matches nowhere or the match
/// leaves the group out.
pub uninterp spec fn captured_group(pattern: Seq<char>, text: Seq<char>, group: usize) -> Option<
    Option<Seq<char>>,
>;

/// Matches `text` against the regular expression `pattern` and returns what
/// the group `group` captures in the first match.
///
/// Calls `regex::Regex::new`, then `Regex::captures` and `Captures::get` of
/// the `regex` crate. The result is `None` if the pattern does not compile,
/// and else what the group holds, if anything. It depends on the pattern,
/// the text and the number of the group alone; nothing is claimed of what a
/// pattern matches.
#[verifier::external_body]
fn regex_group(pattern: &str, text: &str, group: usize) -> (captured: Option<Option<String>>)
    ensures
        match (captured, captured_group(pattern@, text@, group)) {
            (Some(Some(found)), Some(Some(named))) => found@ == named,
            (Some(None), Some(None)) => true,
            (None, None) => true,
            _ => false,
        },
{
    match regex::Regex::new(pattern) {
        Ok(re) => Some(re.captures(text).and_then(|c| c.get(group)).map(|m| m.as_str().to_owned())),
        Err(_) => None,
    }
}

/// The value of the hexadecimal digit `c`.
pub open spec fn hex_value(c: char) -> Option<int> {
    if '0' <= c <= '9' {
        Some(c as u32 - '0' as u32)
    } else if 'a' <= c <= 'f' {
        Some(c as u32 - 'a' as u32 + 10)
    } else if 'A' <= c <= 'F' {
        Some(c as u32 - 'A' as u32 + 10)
    } else {
        None
    }
}

/// The value of the two hexadecimal digits of `s` at `at`.
pub open spec fn hex_pair(s: Seq<char>, at: int) -> Option<int> {
    match (hex_value(s[at]), hex_value(s[at + 1])) {
        (Some(high), Some(low)) => Some(16 * high + low),
        _ => None,
    }
}

/// The colour that the digits `digits` stand for: two for red, two for
/// green and two for blue.
pub open spec fn color_of_digits(digits: Seq<char>) -> Result<BackgroundColor, ColorError> {
    if digits.len() != 6 {
        Err(ColorError::Digits)
    } else {
        match (hex_pair(digits, 0), hex_pair(digits, 2), hex_pair(digits, 4)) {
            (Some(red), Some(green), Some(blue)) => Ok(
                BackgroundColor { red: red as u8, green: green as u8, blue: blue as u8 },
            ),
            _ => Err(ColorError::Digits),
        }
    }
}

/// The colour that a match of the colour pattern stands for.
pub open spec fn color_of_group(group: Option<Option<Seq<char>>>) -> Result<
    BackgroundColor,
    ColorError,
> {
    match group {
        Some(Some(digits)) => color_of_digits(digits),
        _ => Err(ColorError::Format),
    }
}

/// The value of the hexadecimal digit `c`.
fn hex_digit(c: char) -> (value: Option<u8>)
    ensures
        match value {
            Some(v) => hex_value(c) == Some(v as int) && v < 16,
            None => hex_value(c).is_none(),
        },
{
    let u: u32 = c as u32;
    if '0' <= c && c <= '9' {
        Some((u - 48) as u8)
    } else if 'a' <= c && c <= 'f' {
        Some((u - 97 + 10) as u8)
    } else if 'A' <= c && c <= 'F' {
        Some((u - 65 + 10) as u8)
    } else {
        None
    }
}

/// The value of the two hexadecimal digits of `digits` at `at`.
fn hex_byte(digits: &str, at: usize) -> (value: Option<u8>)
    requires
        digits@.len() == 6,
        at <= 4,
    ensures
        match value {
            Some(v) => hex_pair(digits@, at as int) == Some(v as int),
            None => hex_pair(digits@, at as int).is_none(),
        },
{
    match hex_digit(digits.get_char(at)) {
        Some(high) => match hex_digit(digits.get_char(at + 1)) {
            Some(low) => Some(16 * high + low),
            None => None,
        },
        None => None,
    }
}

/// The colour that the six hexadecimal digits `digits` stand for.
pub fn color_from_digits(digits: &str) -> (color: Result<BackgroundColor, ColorError>)
    ensures
        color == color_of_digits(digits@),
{
    if digits.unicode_len() != 6 {
        return Err(ColorError::Digits);
    }
    let red = hex_byte(digits, 0);
    let green = hex_byte(digits, 2);
    let blue = hex_byte(digits, 4);
    match red {
        Some(red) => match green {
            Some(green) => match blue {
                Some(blue) => Ok(BackgroundColor { red, green, blue }),
                None => Err(ColorError::Digits),
            },
            None => Err(ColorError::Digits),
        },
        None => Err(ColorError::Digits),
    }
}

/// Reads a colour of the form `#000000`, with white space around it at
/// most.
pub fn parse_color(color: &str) -> (parsed: Result<BackgroundColor, ColorError>)
    ensures
        parsed == color_of_group(captured_group(color_pattern(), color@, 1)),
{
    match regex_group("^\\s*#([0-9a-fA-F]{6})\\s*$", color, 1) {
        Some(group) => match group {
            Some(digits) => color_from_digits(digits.as_str()),
            None => Err(ColorError::Format),
        },
        None => Err(ColorError::Format),
    }
}

/// Whether the layouts at `i` and `j` are one layout named twice.
pub open spec fn is_duplicate(layouts: Seq<String>, i: int, j: int) -> bool {
    &&& 0 <= i < layouts.len()
    &&& 0 <= j < layouts.len()
    &&& i != j
    &&& layouts[i]@ == layouts[j]@
}

/// Whether the pair `(a, b)` comes before the pair `(i, j)`.
pub open spec fn pair_before(a: int, b: int, i: int, j: int) -> bool {
    a < i || (a == i && b < j)
}

/// The first two places at which the list of keyboard layouts names one
/// layout twice; `None` if the layouts are pairwise distinct.
pub fn find_duplicate_layout(layouts: &Vec<String>) -> (found: Option<(usize, usize)>)
    ensures
        match found {
            Some((i, j)) => is_duplicate(layouts@, i as int, j as int) && forall|a: int, b: int|
                pair_before(a, b, i as int, j as int) ==> !is_duplicate(layouts@, a, b),
            None => forall|a: int, b: int| !is_duplicate(layouts@, a, b),
        },
{
    let n: usize = layouts.len();
    let mut i: usize = 0;
    while i < n
        invariant
            n == layouts@.len(),
            i <= n,
            forall|a: int, b: int| a < i ==> !is_duplicate(layouts@, a, b),
        decreases n - i,
    {
        let mut j: usize = 0;
        while j < n
            invariant
                n == layouts@.len(),
                i < n,
                j <= n,
                forall|a: int, b: int| a < i ==> !is_duplicate(layouts@, a, b),
                forall|b: int| b < j ==> !is_duplicate(layouts@, i as int, b),
            decreases n - j,
        {
            if i != j && layouts[i] == layouts[j] {
                return Some((i, j));
            }
            j = j + 1;
        }
        i = i + 1;
    }
    None
}

} // verus!
