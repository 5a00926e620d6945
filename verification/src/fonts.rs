//! Font data read without I/O: unicode ranges written as `U+XXXX` or
//! `U+XXXX-YYYY`, the format of font data from its signature, and the
//! metrics read from it.

use vstd::prelude::*;
use crate::error::{Error, Result};
use crate::text::{str_chars, str_to_string, trim, trim_chars, has_prefix, first_index_of, find_char, slice_chars,
    chars_start_with, decimal, decimal_string, concat_str};

verus! {

/// Unicode range
#[derive(Debug, Clone, Copy, PartialEq, Eq, Structural)]
pub struct UnicodeRange {
    /// Start code point
    pub start: u32,
    /// End code point
    pub end: u32,
}

/// Font format
#[derive(Debug, Clone, Copy, PartialEq, Eq, Structural)]
pub enum FontFormat {
    /// TrueType
    TrueType,
    /// OpenType
    OpenType,
    /// Web Open Font Format
    WOFF,
    /// Web Open Font Format 2
    WOFF2,
    /// Embedded OpenType
    EOT,
    /// Scalable Vector Graphics
    SVG,
}

/// Font metrics
#[derive(Debug, Clone, Copy, PartialEq, Eq, Structural)]
pub struct FontMetrics {
    /// Units per em
    pub units_per_em: u16,
    /// Ascent
    pub ascent: i16,
    /// Descent
    pub descent: i16,
    /// Line gap
    pub line_gap: i16,
    /// Cap height
    pub cap_height: i16,
    /// X height
    pub x_height: i16,
    /// Underline position
    pub underline_position: i16,
    /// Underline thickness
    pub underline_thickness: u16,
    /// Strikeout position
    pub strikeout_position: i16,
    /// Strikeout thickness
    pub strikeout_thickness: u16,
}

/// The value of a hexadecimal digit, if the character is one.
pub open spec fn hex_digit_value(c: char) -> Option<nat> {
    if '0' <= c && c <= '9' {
        Some((c as u32 - '0' as u32) as nat)
    } else if 'a' <= c && c <= 'f' {
        Some((c as u32 - 'a' as u32 + 10) as nat)
    } else if 'A' <= c && c <= 'F' {
        Some((c as u32 - 'A' as u32 + 10) as nat)
    } else {
        None
    }
}

/// Every character is a hexadecimal digit.
pub open spec fn all_hex(s: Seq<char>) -> bool {
    forall|i: int| 0 <= i < s.len() ==> (#[trigger] hex_digit_value(s[i])) is Some
}

/// The number that hexadecimal digits write, most significant first.
pub open spec fn hex_value(s: Seq<char>) -> nat
    decreases s.len(),
{
    if s.len() == 0 {
        0
    } else {
        hex_value(s.drop_last()) * 16 + hex_digit_value(s.last()).unwrap()
    }
}

/// A hexadecimal number as `u32::from_str_radix` with radix 16 reads it: an
/// optional plus sign, then at least one digit, with a value that fits.
pub open spec fn parse_hex(s: Seq<char>) -> Option<u32> {
    let d = if s.len() > 0 && s[0] == '+' {
        s.drop_first()
    } else {
        s
    };
    if d.len() > 0 && all_hex(d) && hex_value(d) <= u32::MAX {
        Some(hex_value(d) as u32)
    } else {
        None
    }
}

/// The range a text writes, after trimming white space: `U+` and one code
/// point, or `U+`, a first code point, a dash and a last one.
pub open spec fn unicode_range_of(s: Seq<char>) -> Option<(u32, u32)> {
    let t = trim(s);
    if !has_prefix(t, seq!['U', '+']) {
        None
    } else {
        let rest = t.subrange(2, t.len() as int);
        match first_index_of(rest, '-') {
            Some(d) => match (parse_hex(rest.subrange(0, d)), parse_hex(rest.subrange(d + 1, rest.len() as int))) {
                (Some(a), Some(b)) => Some((a, b)),
                _ => None,
            },
            None => match parse_hex(rest) {
                Some(a) => Some((a, a)),
                None => None,
            },
        }
    }
}

/// A four-byte signature.
pub open spec fn signature_is(data: Seq<u8>, a: u8, b: u8, c: u8, d: u8) -> bool {
    data[0] == a && data[1] == b && data[2] == c && data[3] == d
}

/// The format that font data's signature announces: `OTTO`, `ttcf`, `wOFF`,
/// `wO2F`, or the TrueType version number in data of at least twelve bytes.
pub open spec fn font_format_of(data: Seq<u8>) -> Option<FontFormat> {
    if data.len() < 4 {
        None
    } else if signature_is(data, 0x4F, 0x54, 0x54, 0x4F) {
        Some(FontFormat::OpenType)
    } else if signature_is(data, 0x74, 0x74, 0x63, 0x66) {
        Some(FontFormat::TrueType)
    } else if signature_is(data, 0x77, 0x4F, 0x46, 0x46) {
        Some(FontFormat::WOFF)
    } else if signature_is(data, 0x77, 0x4F, 0x32, 0x46) {
        Some(FontFormat::WOFF2)
    } else if data.len() >= 12 && signature_is(data, 0x00, 0x01, 0x00, 0x00) {
        Some(FontFormat::TrueType)
    } else {
        None
    }
}

/// The metrics used where a font's own are not read.
pub open spec fn default_metrics() -> FontMetrics {
    FontMetrics {
        units_per_em: 1000,
        ascent: 800,
        descent: -200i16,
        line_gap: 0,
        cap_height: 700,
        x_height: 500,
        underline_position: -100i16,
        underline_thickness: 50,
        strikeout_position: 400,
        strikeout_thickness: 50,
    }
}

/// The metrics of OpenType data: the units per em from bytes 18 and 19,
/// the rest fixed.
pub open spec fn opentype_metrics(units_per_em: u16) -> FontMetrics {
    FontMetrics {
        units_per_em,
        ascent: 1900,
        descent: -500i16,
        line_gap: 0,
        cap_height: 1456,
        x_height: 1062,
        underline_position: -100i16,
        underline_thickness: 50,
        strikeout_position: 600,
        strikeout_thickness: 50,
    }
}

/// OpenType data long enough for its header to be read, or too short to be
/// taken for one.
pub open spec fn opentype_readable(data: Seq<u8>) -> bool {
    data.len() < 12 || data.len() >= 20
}

/// The value of a hexadecimal digit.
fn hex_digit(c: char) -> (r: Option<u32>)
    ensures
        match hex_digit_value(c) {
            Some(v) => r == Some(v as u32),
            None => r is None,
        },
{
    if '0' <= c && c <= '9' {
        Some((c as u32) - ('0' as u32))
    } else if 'a' <= c && c <= 'f' {
        Some((c as u32) - ('a' as u32) + 10)
    } else if 'A' <= c && c <= 'F' {
        Some((c as u32) - ('A' as u32) + 10)
    } else {
        None
    }
}

/// Reads a hexadecimal number as `u32::from_str_radix` with radix 16 does.
fn parse_hex_chars(s: &[char]) -> (r: Option<u32>)
    ensures
        r == parse_hex(s@),
{
    let mut i: usize = 0;
    if s.len() > 0 && s[0] == '+' {
        i = 1;
    }
    let ghost d = if s@.len() > 0 && s@[0] == '+' {
        s@.drop_first()
    } else {
        s@
    };
    assert(d =~= s@.subrange(i as int, s@.len() as int));
    if i == s.len() {
        return None;
    }
    let start = i;
    let mut value: u32 = 0;
    while i < s.len()
        invariant
            start <= i <= s@.len(),
            start < s@.len(),
            d == s@.subrange(start as int, s@.len() as int),
            d == (if s@.len() > 0 && s@[0] == '+' {
                s@.drop_first()
            } else {
                s@
            }),
            all_hex(s@.subrange(start as int, i as int)),
            value == hex_value(s@.subrange(start as int, i as int)),
        decreases s@.len() - i,
    {
        let digit = match hex_digit(s[i]) {
            Some(v) => v,
            None => {
                assert(hex_digit_value(d[i - start]) is None);
                return None;
            },
        };
        let ghost prefix = s@.subrange(start as int, i + 1);
        assert(prefix.drop_last() =~= s@.subrange(start as int, i as int));
        if value > (u32::MAX - digit) / 16 {
            proof {
                lemma_hex_value_prefix(d, (i + 1 - start) as int);
                assert(d.subrange(0, (i + 1 - start) as int) =~= prefix);
                assert(hex_value(prefix) == value * 16 + digit) by (nonlinear_arith)
                    requires
                        hex_value(prefix) == hex_value(prefix.drop_last()) * 16 + digit,
                        hex_value(prefix.drop_last()) == value;
                assert(value * 16 + digit > u32::MAX) by (nonlinear_arith)
                    requires
                        value > (u32::MAX - digit) / 16,
                        digit < 16;
                if all_hex(d) {
                    assert(hex_value(d) >= hex_value(prefix));
                }
            }
            return None;
        }
        assert(value * 16 + digit <= u32::MAX) by (nonlinear_arith)
            requires
                value <= (u32::MAX - digit) / 16,
                digit < 16;
        value = value * 16 + digit;
        assert forall|k: int| 0 <= k < prefix.len() implies (#[trigger] hex_digit_value(prefix[k])) is Some by {
            if k < prefix.len() - 1 {
                assert(prefix[k] == s@.subrange(start as int, i as int)[k]);
            }
        }
        i = i + 1;
    }
    Some(value)
}

/// The number of a longer prefix of hexadecimal digits is at least that of a
/// shorter one, and every prefix of an all-hexadecimal text is all hexadecimal.
proof fn lemma_hex_value_prefix(d: Seq<char>, n: int)
    requires
        0 <= n <= d.len(),
    ensures
        all_hex(d) ==> all_hex(d.subrange(0, n)) && hex_value(d) >= hex_value(d.subrange(0, n)),
    decreases d.len() - n,
{
    if n < d.len() && all_hex(d) {
        lemma_hex_value_prefix(d, n + 1);
        let p = d.subrange(0, n + 1);
        assert(p.drop_last() =~= d.subrange(0, n));
        assert(hex_digit_value(p.last()) is Some);
    }
    if n == d.len() {
        assert(d.subrange(0, n) =~= d);
    }
}

impl UnicodeRange {
    /// Create new unicode range
    pub fn new(start: u32, end: u32) -> (r: Self)
        ensures
            r.start == start && r.end == end,
    {
        Self { start, end }
    }

    /// Parse unicode range from string
    pub fn from_string(range_str: &str) -> (r: Result<Self>)
        ensures
            match unicode_range_of(range_str@) {
                Some((a, b)) => r matches Ok(u) && u.start == a && u.end == b,
                None => r matches Err(e) && e is Typography,
            },
    {
        let all = str_chars(range_str);
        let t = trim_chars(all.as_slice());
        let prefix: Vec<char> = vec!['U', '+'];
        assert(prefix@ =~= seq!['U', '+']);
        if !chars_start_with(t.as_slice(), prefix.as_slice()) {
            return Err(Error::typography(str_to_string("Invalid unicode range format")));
        }
        let range_part = slice_chars(t.as_slice(), 2, t.len());
        match find_char(range_part.as_slice(), '-') {
            Some(dash_pos) => {
                let start_str = slice_chars(range_part.as_slice(), 0, dash_pos);
                let end_str = slice_chars(range_part.as_slice(), dash_pos + 1, range_part.len());
                let start = match parse_hex_chars(start_str.as_slice()) {
                    Some(v) => v,
                    None => return Err(Error::typography(str_to_string("Invalid unicode range start"))),
                };
                let end = match parse_hex_chars(end_str.as_slice()) {
                    Some(v) => v,
                    None => return Err(Error::typography(str_to_string("Invalid unicode range end"))),
                };
                Ok(UnicodeRange { start, end })
            },
            None => {
                let code_point = match parse_hex_chars(range_part.as_slice()) {
                    Some(v) => v,
                    None => return Err(Error::typography(str_to_string("Invalid unicode range"))),
                };
                Ok(UnicodeRange { start: code_point, end: code_point })
            },
        }
    }

    /// Check if code point is in range
    pub fn contains(&self, code_point: u32) -> (r: bool)
        ensures
            r == (self.start <= code_point && code_point <= self.end),
    {
        code_point >= self.start && code_point <= self.end
    }
}

impl FontMetrics {
    /// Create default font metrics
    pub fn default() -> (r: Self)
        ensures
            r == default_metrics(),
    {
        Self {
            units_per_em: 1000,
            ascent: 800,
            descent: -200,
            line_gap: 0,
            cap_height: 700,
            x_height: 500,
            underline_position: -100,
            underline_thickness: 50,
            strikeout_position: 400,
            strikeout_thickness: 50,
        }
    }
}

/// Detect font format
pub fn detect_font_format(data: &[u8]) -> (r: Result<FontFormat>)
    ensures
        match font_format_of(data@) {
            Some(f) => r matches Ok(g) && g == f,
            None => r matches Err(e) && e is Typography,
        },
{
    if data.len() < 4 {
        return Err(Error::typography(str_to_string("Invalid font data")));
    }
    let (a, b, c, d) = (data[0], data[1], data[2], data[3]);
    if a == 0x4F && b == 0x54 && c == 0x54 && d == 0x4F {
        Ok(FontFormat::OpenType)
    } else if a == 0x74 && b == 0x74 && c == 0x63 && d == 0x66 {
        Ok(FontFormat::TrueType)
    } else if a == 0x77 && b == 0x4F && c == 0x46 && d == 0x46 {
        Ok(FontFormat::WOFF)
    } else if a == 0x77 && b == 0x4F && c == 0x32 && d == 0x46 {
        Ok(FontFormat::WOFF2)
    } else if data.len() >= 12 && a == 0x00 && b == 0x01 && c == 0x00 && d == 0x00 {
        Ok(FontFormat::TrueType)
    } else {
        Err(Error::typography(str_to_string("Unknown font format")))
    }
}

/// Parse font metrics: read from TrueType and OpenType data, the defaults
/// for every other format.
pub fn parse_font_metrics(data: &[u8], format: FontFormat) -> (r: Result<FontMetrics>)
    requires
        (format is TrueType || format is OpenType) ==> opentype_readable(data@),
    ensures
        (format is TrueType || format is OpenType) ==> match r {
            Ok(m) => data@.len() >= 20 && m == opentype_metrics(crate::tls::be16(data@[18], data@[19])),
            Err(e) => data@.len() < 12 && e is Typography,
        },
        !(format is TrueType || format is OpenType) ==> (r matches Ok(m) && m == default_metrics()),
{
    match format {
        FontFormat::TrueType | FontFormat::OpenType => parse_opentype_metrics(data),
        FontFormat::WOFF => parse_woff_metrics(data),
        FontFormat::WOFF2 => parse_woff2_metrics(data),
        _ => Ok(FontMetrics::default()),
    }
}

/// Parse OpenType metrics: the units per em from the header, fixed values
/// for the rest.
pub fn parse_opentype_metrics(data: &[u8]) -> (r: Result<FontMetrics>)
    requires
        opentype_readable(data@),
    ensures
        match r {
            Ok(m) => data@.len() >= 20 && m == opentype_metrics(crate::tls::be16(data@[18], data@[19])),
            Err(e) => data@.len() < 12 && e is Typography,
        },
        data@.len() >= 20 ==> r is Ok,
{
    if data.len() < 12 {
        return Err(Error::typography(str_to_string("Invalid OpenType font data")));
    }
    let units_per_em = ((data[18] as u16) << 8) | (data[19] as u16);
    Ok(
        FontMetrics {
            units_per_em,
            ascent: 1900,
            descent: -500,
            line_gap: 0,
            cap_height: 1456,
            x_height: 1062,
            underline_position: -100,
            underline_thickness: 50,
            strikeout_position: 600,
            strikeout_thickness: 50,
        },
    )
}

/// Parse WOFF metrics: the defaults.
pub fn parse_woff_metrics(data: &[u8]) -> (r: Result<FontMetrics>)
    ensures
        r matches Ok(m) && m == default_metrics(),
{
    Ok(FontMetrics::default())
}

/// Parse WOFF2 metrics: the defaults.
pub fn parse_woff2_metrics(data: &[u8]) -> (r: Result<FontMetrics>)
    ensures
        r matches Ok(m) && m == default_metrics(),
{
    Ok(FontMetrics::default())
}

/// Font source
#[derive(Debug, Clone)]
pub enum FontSource {
    /// Local font
    Local(String),
    /// URL font
    Url(String),
    /// Format hint
    FormatHint(String),
}

/// Font display
#[derive(Debug, Clone, Copy, PartialEq, Eq, Structural)]
pub enum FontDisplay {
    /// Auto display
    Auto,
    /// Block display
    Block,
    /// Swap display
    Swap,
    /// Fallback display
    Fallback,
    /// Optional display
    Optional,
}

/// Font feature setting
#[derive(Debug, Clone)]
pub struct FontFeatureSetting {
    /// Feature tag
    pub tag: String,
    /// Feature value
    pub value: u32,
}

/// Font loading state
#[derive(Debug, Clone, Copy, PartialEq, Eq, Structural)]
pub enum FontLoadingState {
    /// Pending
    Pending,
    /// Loading
    Loading,
    /// Loaded
    Loaded,
    /// Failed
    Failed,
}

/// Font loading priority
#[derive(Debug, Clone, Copy, PartialEq, Eq, Structural)]
pub enum FontLoadingPriority {
    /// High priority
    High,
    /// Normal priority
    Normal,
    /// Low priority
    Low,
}

/// Font face set loading state
#[derive(Debug, Clone, Copy, PartialEq, Eq, Structural)]
pub enum FontFaceSetLoadingState {
    /// Loading
    Loading,
    /// Loaded
    Loaded,
}

/// Some range holds the code point.
pub open spec fn covered_by(ranges: Seq<UnicodeRange>, code_point: u32) -> bool {
    exists|i: int| 0 <= i < ranges.len() && #[trigger] ranges[i].start <= code_point && code_point <= ranges[i].end
}

/// Whether a font face with these unicode ranges supports the character:
/// some range holds its code point.
pub fn ranges_support_char(ranges: &Vec<UnicodeRange>, ch: char) -> (r: bool)
    ensures
        r == covered_by(ranges@, ch as u32),
{
    let code_point = ch as u32;
    let mut i: usize = 0;
    while i < ranges.len()
        invariant
            i <= ranges@.len(),
            code_point == ch as u32,
            forall|j: int| 0 <= j < i ==> !(ranges@[j].start <= code_point && code_point <= ranges@[j].end),
        decreases ranges@.len() - i,
    {
        if code_point >= ranges[i].start && code_point <= ranges[i].end {
            return true;
        }
        i = i + 1;
    }
    false
}

/// The registry key of a font face: its family, weight, style and stretch,
/// joined by colons, the numbers in decimal.
pub open spec fn face_key(family: Seq<char>, weight: u16, style: u8, stretch: u16) -> Seq<char> {
    family + ":"@ + decimal(weight as nat) + ":"@ + decimal(style as nat) + ":"@ + decimal(stretch as nat)
}

/// The key under which a font face is registered and looked up, from its
/// family and the numbers of its weight, style and stretch.
pub fn font_face_key(family: &str, weight: u16, style: u8, stretch: u16) -> (r: String)
    ensures
        r@ == face_key(family@, weight, style, stretch),
{
    let w = decimal_string(weight as u128);
    let st = decimal_string(style as u128);
    let sr = decimal_string(stretch as u128);
    let k1 = concat_str(family, ":");
    let k2 = concat_str(k1.as_str(), w.as_str());
    let k3 = concat_str(k2.as_str(), ":");
    let k4 = concat_str(k3.as_str(), st.as_str());
    let k5 = concat_str(k4.as_str(), ":");
    concat_str(k5.as_str(), sr.as_str())
}

/// The loading state of a face: loaded once its font is cached, loading
/// while a task for it is queued, pending otherwise.
pub fn font_loading_state(cached: bool, queued: bool) -> (r: FontLoadingState)
    ensures
        r == (if cached {
            FontLoadingState::Loaded
        } else if queued {
            FontLoadingState::Loading
        } else {
            FontLoadingState::Pending
        }),
{
    if cached {
        FontLoadingState::Loaded
    } else if queued {
        FontLoadingState::Loading
    } else {
        FontLoadingState::Pending
    }
}

/// What a face's display strategy does while its font loads.
#[derive(Debug, Clone, Copy, PartialEq, Eq, Structural)]
pub enum DisplayAction {
    /// Wait for the font; a failure to load is the result
    Wait,
    /// Try the font; a failure to load falls back
    TryFont,
    /// Use the fallback font without loading
    UseFallback,
}

/// The action for a display strategy: `block` and `auto` wait for the font,
/// `swap` tries it, `fallback` and `optional` use the fallback font at once.
pub fn display_action(display: FontDisplay) -> (r: DisplayAction)
    ensures
        r == (match display {
            FontDisplay::Block | FontDisplay::Auto => DisplayAction::Wait,
            FontDisplay::Swap => DisplayAction::TryFont,
            FontDisplay::Fallback | FontDisplay::Optional => DisplayAction::UseFallback,
        }),
{
    match display {
        FontDisplay::Block | FontDisplay::Auto => DisplayAction::Wait,
        FontDisplay::Swap => DisplayAction::TryFont,
        FontDisplay::Fallback | FontDisplay::Optional => DisplayAction::UseFallback,
    }
}

} // verus!
