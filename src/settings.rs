//! The settings of one run: the size of the picture and the depth of the
//! escape test, each read from an optional command-line value or defaulted.
use vstd::prelude::*;

verus! {

/// Width and height of the picture, in pixels, when none is given.
pub const DEFAULT_DIMENSION: u32 = 1080;

/// Depth of the escape test when none is given.
pub const DEFAULT_DEPTH: usize = 64;

/// The value of a run of decimal digits.
pub open spec fn digits_value(d: Seq<char>) -> nat
    decreases d.len(),
{
    if d.len() == 0 {
        0
    } else {
        digits_value(d.drop_last()) * 10 + (d.last() as nat - '0' as nat) as nat
    }
}

/// One or more ASCII decimal digits, and nothing else.
pub open spec fn all_digits(d: Seq<char>) -> bool {
    d.len() > 0 && forall|i: int| 0 <= i < d.len() ==> '0' <= #[trigger] d[i] <= '9'
}

/// The number that `s` writes in decimal: an optional `+` followed by one or
/// more ASCII digits; `None` for any other text.
pub open spec fn decimal_value(s: Seq<char>) -> Option<nat> {
    let d = if s.len() > 0 && s[0] == '+' { s.drop_first() } else { s };
    if all_digits(d) { Some(digits_value(d)) } else { None }
}

/// The `u32` that `s` writes, if it writes one.
pub open spec fn read_u32(s: Seq<char>) -> Option<u32> {
    match decimal_value(s) {
        Some(n) => if n <= u32::MAX { Some(n as u32) } else { None },
        None => None,
    }
}

/// The `usize` that `s` writes, if it writes one.
pub open spec fn read_usize(s: Seq<char>) -> Option<usize> {
    match decimal_value(s) {
        Some(n) => if n <= usize::MAX { Some(n as usize) } else { None },
        None => None,
    }
}

/// Relies on `str::parse::<u32>`: it accepts exactly an optional `+` followed
/// by decimal digits alone, whose value fits in a `u32`.
#[verifier::external_body]
fn parse_u32(s: &str) -> (r: Option<u32>)
    ensures
        r == read_u32(s@),
{
    s.parse::<u32>().ok()
}

/// Relies on `str::parse::<usize>`: it accepts exactly an optional `+`
/// followed by decimal digits alone, whose value fits in a `usize`.
#[verifier::external_body]
fn parse_usize(s: &str) -> (r: Option<usize>)
    ensures
        r == read_usize(s@),
{
    s.parse::<usize>().ok()
}

/// A width or height: the given value read as a `u32`, or the default when
/// none is given. `None` when the given value is no `u32`.
pub fn dimension_arg(arg: Option<&str>) -> (r: Option<u32>)
    ensures
        arg is None ==> r == Some(DEFAULT_DIMENSION),
        arg is Some ==> r == read_u32(arg->0@),
{
    match arg {
        Some(s) => parse_u32(s),
        None => Some(DEFAULT_DIMENSION),
    }
}

/// A depth: the given value read as a `usize`, or the default when none is
/// given. `None` when the given value is no `usize`.
pub fn depth_arg(arg: Option<&str>) -> (r: Option<usize>)
    ensures
        arg is None ==> r == Some(DEFAULT_DEPTH),
        arg is Some ==> r == read_usize(arg->0@),
{
    match arg {
        Some(s) => parse_usize(s),
        None => Some(DEFAULT_DEPTH),
    }
}

/// Which given value could not be read.
#[derive(Clone, Copy, Debug, PartialEq, Eq)]
pub enum SettingsError {
    Height,
    Width,
    Depth,
}

/// The settings of one run.
#[derive(Clone, Copy, Debug, PartialEq, Eq)]
pub struct Settings {
    pub width: u32,
    pub height: u32,
    pub depth: usize,
}

/// True when `arg` is given and is not what `read` accepts.
pub open spec fn rejected<T>(arg: Option<&str>, read: spec_fn(Seq<char>) -> Option<T>) -> bool {
    arg is Some && read(arg->0@) is None
}

/// The value that `arg` gives, `default` when it is absent.
pub open spec fn given_or<T>(arg: Option<&str>, read: spec_fn(Seq<char>) -> Option<T>, default: T) -> T {
    match arg {
        Some(s) => read(s@)->0,
        None => default,
    }
}

impl Settings {
    /// The settings from the optional height, width and depth values, read
    /// in that order; the first one that cannot be read is the error.
    pub fn from_args(height: Option<&str>, width: Option<&str>, depth: Option<&str>) -> (r: Result<
        Settings,
        SettingsError,
    >)
        ensures
            r == (if rejected(height, |s| read_u32(s)) {
                Err(SettingsError::Height)
            } else if rejected(width, |s| read_u32(s)) {
                Err(SettingsError::Width)
            } else if rejected(depth, |s| read_usize(s)) {
                Err(SettingsError::Depth)
            } else {
                Ok(
                    Settings {
                        width: given_or(width, |s| read_u32(s), DEFAULT_DIMENSION),
                        height: given_or(height, |s| read_u32(s), DEFAULT_DIMENSION),
                        depth: given_or(depth, |s| read_usize(s), DEFAULT_DEPTH),
                    },
                )
            }),
    {
        let h = match dimension_arg(height) {
            Some(h) => h,
            None => return Err(SettingsError::Height),
        };
        let w = match dimension_arg(width) {
            Some(w) => w,
            None => return Err(SettingsError::Width),
        };
        let d = match depth_arg(depth) {
            Some(d) => d,
            None => return Err(SettingsError::Depth),
        };
        Ok(Settings { width: w, height: h, depth: d })
    }
}

} // verus!
