//! Output formats and their per-format encode options.
//!
//! Each output format names the file extension its artifacts carry and owns
//! the algorithm seed of its encoder stage. Format selectors are parsed
//! case-insensitively; `jpg` and `jpeg` select the same format.

use vstd::prelude::*;

use crate::fingerprint::{AVIF_SEED, JPEG_SEED, PNG_SEED, WEBP_SEED};
use vstd::string::StrSliceExecFns;

verus! {

/// An output format the pipeline can encode to.
#[derive(Clone, Copy, Debug, PartialEq, Eq, Structural)]
pub enum OutputFormat {
    Avif,
    Jpeg,
    Png,
    Webp,
}

/// A format selector that names no known output format.
#[derive(Clone, Copy, Debug, PartialEq, Eq, Structural)]
pub struct ParseOutputFormatError;

/// The file extension of a format's artifacts.
pub open spec fn ext_spec(f: OutputFormat) -> Seq<char> {
    match f {
        OutputFormat::Avif => seq!['a', 'v', 'i', 'f'],
        OutputFormat::Jpeg => seq!['j', 'p', 'g'],
        OutputFormat::Png => seq!['p', 'n', 'g'],
        OutputFormat::Webp => seq!['w', 'e', 'b', 'p'],
    }
}

/// The algorithm seed of a format's encoder stage.
pub open spec fn format_seed_spec(f: OutputFormat) -> u64 {
    match f {
        OutputFormat::Avif => AVIF_SEED,
        OutputFormat::Jpeg => JPEG_SEED,
        OutputFormat::Png => PNG_SEED,
        OutputFormat::Webp => WEBP_SEED,
    }
}

/// ASCII-lowercase folding of one character; everything outside `A`..=`Z`
/// is left as it is.
pub open spec fn lower_char(c: char) -> char {
    if c == 'A' {
        'a'
    } else if c == 'B' {
        'b'
    } else if c == 'C' {
        'c'
    } else if c == 'D' {
        'd'
    } else if c == 'E' {
        'e'
    } else if c == 'F' {
        'f'
    } else if c == 'G' {
        'g'
    } else if c == 'H' {
        'h'
    } else if c == 'I' {
        'i'
    } else if c == 'J' {
        'j'
    } else if c == 'K' {
        'k'
    } else if c == 'L' {
        'l'
    } else if c == 'M' {
        'm'
    } else if c == 'N' {
        'n'
    } else if c == 'O' {
        'o'
    } else if c == 'P' {
        'p'
    } else if c == 'Q' {
        'q'
    } else if c == 'R' {
        'r'
    } else if c == 'S' {
        's'
    } else if c == 'T' {
        't'
    } else if c == 'U' {
        'u'
    } else if c == 'V' {
        'v'
    } else if c == 'W' {
        'w'
    } else if c == 'X' {
        'x'
    } else if c == 'Y' {
        'y'
    } else if c == 'Z' {
        'z'
    } else {
        c
    }
}

/// ASCII-lowercase folding of a character sequence.
pub open spec fn lower_of(s: Seq<char>) -> Seq<char> {
    s.map_values(|c: char| lower_char(c))
}

/// The format a selector string names, if any: its ASCII-lowercase folding
/// must be one of `avif`, `jpg`, `jpeg`, `png`, `webp`.
pub open spec fn parse_format_spec(s: Seq<char>) -> Option<OutputFormat> {
    let l = lower_of(s);
    if l == seq!['a', 'v', 'i', 'f'] {
        Option::Some(OutputFormat::Avif)
    } else if l == seq!['j', 'p', 'g'] || l == seq!['j', 'p', 'e', 'g'] {
        Option::Some(OutputFormat::Jpeg)
    } else if l == seq!['p', 'n', 'g'] {
        Option::Some(OutputFormat::Png)
    } else if l == seq!['w', 'e', 'b', 'p'] {
        Option::Some(OutputFormat::Webp)
    } else {
        Option::None
    }
}

/// ASCII-lowercase folding of one character.
fn lower_char_exec(c: char) -> (r: char)
    ensures
        r == lower_char(c),
{
    match c {
        'A' => 'a',
        'B' => 'b',
        'C' => 'c',
        'D' => 'd',
        'E' => 'e',
        'F' => 'f',
        'G' => 'g',
        'H' => 'h',
        'I' => 'i',
        'J' => 'j',
        'K' => 'k',
        'L' => 'l',
        'M' => 'm',
        'N' => 'n',
        'O' => 'o',
        'P' => 'p',
        'Q' => 'q',
        'R' => 'r',
        'S' => 's',
        'T' => 't',
        'U' => 'u',
        'V' => 'v',
        'W' => 'w',
        'X' => 'x',
        'Y' => 'y',
        'Z' => 'z',
        _ => c,
    }
}

/// Whether the ASCII-lowercase folding of `s` equals `lit`.
fn eq_lowered(s: &str, lit: &str) -> (r: bool)
    ensures
        r == (lower_of(s@) == lit@),
{
    let n = s.unicode_len();
    let m = lit.unicode_len();
    if n != m {
        proof {
            assert(lower_of(s@).len() == s@.len());
        }
        return false;
    }
    let mut i: usize = 0;
    while i < n
        invariant
            n == s@.len(),
            n == lit@.len(),
            i <= n,
            forall|j: int| 0 <= j < i ==> lower_char(s@[j]) == lit@[j],
        decreases n - i,
    {
        let c = s.get_char(i);
        if lower_char_exec(c) != lit.get_char(i) {
            proof {
                assert(lower_of(s@)[i as int] != lit@[i as int]);
            }
            return false;
        }
        i = i + 1;
    }
    proof {
        assert(lower_of(s@) =~= lit@);
    }
    true
}

impl OutputFormat {
    /// The file extension used for this format's artifacts, lowercase and
    /// without the leading dot.
    pub fn ext(&self) -> (r: &'static str)
        ensures
            r@ == ext_spec(*self),
    {
        match self {
            OutputFormat::Avif => {
                proof {
                    reveal_strlit("avif");
                    assert("avif"@ =~= ext_spec(OutputFormat::Avif));
                }
                "avif"
            },
            OutputFormat::Jpeg => {
                proof {
                    reveal_strlit("jpg");
                    assert("jpg"@ =~= ext_spec(OutputFormat::Jpeg));
                }
                "jpg"
            },
            OutputFormat::Png => {
                proof {
                    reveal_strlit("png");
                    assert("png"@ =~= ext_spec(OutputFormat::Png));
                }
                "png"
            },
            OutputFormat::Webp => {
                proof {
                    reveal_strlit("webp");
                    assert("webp"@ =~= ext_spec(OutputFormat::Webp));
                }
                "webp"
            },
        }
    }

    /// The algorithm seed of this format's encoder stage.
    pub fn seed(&self) -> (r: u64)
        ensures
            r == format_seed_spec(*self),
    {
        match self {
            OutputFormat::Avif => AVIF_SEED,
            OutputFormat::Jpeg => JPEG_SEED,
            OutputFormat::Png => PNG_SEED,
            OutputFormat::Webp => WEBP_SEED,
        }
    }

    /// Parse a format selector, case-insensitively. Returns the named
    /// format, or an error exactly when the selector names none.
    pub fn parse(s: &str) -> (r: Result<OutputFormat, ParseOutputFormatError>)
        ensures
            match r {
                Ok(f) => parse_format_spec(s@) == Option::Some(f),
                Err(_) => parse_format_spec(s@) is None,
            },
    {
        proof {
            reveal_strlit("avif");
            reveal_strlit("jpg");
            reveal_strlit("jpeg");
            reveal_strlit("png");
            reveal_strlit("webp");
            assert("avif"@ =~= seq!['a', 'v', 'i', 'f']);
            assert("jpg"@ =~= seq!['j', 'p', 'g']);
            assert("jpeg"@ =~= seq!['j', 'p', 'e', 'g']);
            assert("png"@ =~= seq!['p', 'n', 'g']);
            assert("webp"@ =~= seq!['w', 'e', 'b', 'p']);
        }
        if eq_lowered(s, "avif") {
            Ok(OutputFormat::Avif)
        } else if eq_lowered(s, "jpg") || eq_lowered(s, "jpeg") {
            Ok(OutputFormat::Jpeg)
        } else if eq_lowered(s, "png") {
            Ok(OutputFormat::Png)
        } else if eq_lowered(s, "webp") {
            Ok(OutputFormat::Webp)
        } else {
            Err(ParseOutputFormatError)
        }
    }
}

impl core::str::FromStr for OutputFormat {
    type Err = ParseOutputFormatError;

    /// Parse a format selector, case-insensitively.
    fn from_str(s: &str) -> (r: Result<OutputFormat, ParseOutputFormatError>)
        ensures
            match r {
                Ok(f) => parse_format_spec(s@) == Option::Some(f),
                Err(_) => parse_format_spec(s@) is None,
            },
    {
        OutputFormat::parse(s)
    }
}

impl ParseOutputFormatError {
    /// What went wrong, in words.
    pub fn message(&self) -> (r: &'static str)
        ensures
            r@ == "invalid output format"@,
    {
        "invalid output format"
    }
}

/// Encode options of the JPEG stage.
#[derive(Clone, Copy, Debug, PartialEq, Eq, Structural)]
pub struct JpegOptions {
    /// 0-100 scale.
    pub quality: u16,
}

/// Encode options of the WebP stage.
#[derive(Clone, Copy, Debug, PartialEq, Eq, Structural)]
pub struct WebpOptions {
    /// 0-100 scale.
    pub quality: u16,
}

/// Encode options of the AVIF stage.
#[derive(Clone, Copy, Debug, PartialEq, Eq, Structural)]
pub struct AvifOptions {
    /// 0-100 scale.
    pub quality: u16,
    /// Encoder preset: 1 (slow) to 10 (fast but crappy).
    pub speed: u8,
}

impl Default for JpegOptions {
    /// Default quality 80.
    fn default() -> (r: Self)
        ensures
            r.quality == 80,
    {
        JpegOptions { quality: 80 }
    }
}

impl Default for WebpOptions {
    /// Default quality 80.
    fn default() -> (r: Self)
        ensures
            r.quality == 80,
    {
        WebpOptions { quality: 80 }
    }
}

impl Default for AvifOptions {
    /// Default quality 60 and speed 5.
    fn default() -> (r: Self)
        ensures
            r.quality == 60,
            r.speed == 5,
    {
        AvifOptions { quality: 60, speed: 5 }
    }
}

} // verus!
