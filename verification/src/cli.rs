//! Input-classification helpers for the command-line front end: which kind
//! of place file a path names, and the terminal color choice.

use vstd::prelude::*;

verus! {

use vstd::string::StringSliceAdditionalSpecFns;

/// The place-file formats that can be read.
#[derive(Debug, Clone, Copy, PartialEq, Eq, Structural)]
pub enum OutputKind {
    /// An XML place file.
    Rbxlx,
    /// A binary place file.
    Rbxl,
}

/// Where the path's UTF-8 bytes end once trailing `/` separators are
/// dropped: the recursion walks left from `e` past every separator.
pub open spec fn spec_trimmed_end(bytes: Seq<u8>, e: int) -> int
    decreases e,
{
    if e <= 0 {
        0
    } else if bytes[e - 1] == 47 {
        spec_trimmed_end(bytes, e - 1)
    } else {
        e
    }
}

/// Where the path's final component begins: the recursion walks left from
/// `e` to the byte after the last `/` separator, or to the start.
pub open spec fn spec_component_start(bytes: Seq<u8>, e: int) -> int
    decreases e,
{
    if e <= 0 {
        0
    } else if bytes[e - 1] == 47 {
        e
    } else {
        spec_component_start(bytes, e - 1)
    }
}

/// The file kind a path's UTF-8 bytes name, by the extension of the final
/// path component: trailing `/` separators are dropped, the component is
/// the text after the last remaining `/`, and it has the extension
/// "rbxlx" or "rbxl" exactly when it ends in ".rbxlx" or ".rbxl" with the
/// final dot not the component's first byte (a name that is only a dotted
/// suffix has no extension).
pub open spec fn spec_file_kind(bytes: Seq<u8>) -> Option<OutputKind> {
    let n = spec_trimmed_end(bytes, bytes.len() as int);
    let s = spec_component_start(bytes, n);
    if n - s > 6 && bytes[n - 6] == 46 && bytes[n - 5] == 114 && bytes[n - 4] == 98
        && bytes[n - 3] == 120 && bytes[n - 2] == 108 && bytes[n - 1] == 120 {
        Some(OutputKind::Rbxlx)
    } else if n - s > 5 && bytes[n - 5] == 46 && bytes[n - 4] == 114 && bytes[n - 3] == 98
        && bytes[n - 2] == 120 && bytes[n - 1] == 108 {
        Some(OutputKind::Rbxl)
    } else {
        None
    }
}

/// Classifies a path by the extension of its final component: `.rbxlx` is
/// an XML place file, `.rbxl` a binary one; anything else, including a
/// component that is nothing but a dotted suffix, is not recognized.
pub fn detect_file_kind(name: &str) -> (r: Option<OutputKind>)
    ensures
        r == spec_file_kind(name.spec_bytes()),
{
    let bytes = name.as_bytes();
    let len = bytes.len();
    let mut n: usize = len;
    while n > 0 && bytes[n - 1] == 47
        invariant
            n <= len,
            len == bytes@.len(),
            bytes@ == name.spec_bytes(),
            spec_trimmed_end(bytes@, len as int) == spec_trimmed_end(bytes@, n as int),
        decreases n,
    {
        n = n - 1;
    }
    let mut s: usize = n;
    while s > 0 && bytes[s - 1] != 47
        invariant
            s <= n <= len,
            len == bytes@.len(),
            bytes@ == name.spec_bytes(),
            spec_component_start(bytes@, n as int) == spec_component_start(bytes@, s as int),
        decreases s,
    {
        s = s - 1;
    }
    if n - s > 6 && bytes[n - 6] == 46 && bytes[n - 5] == 114 && bytes[n - 4] == 98
        && bytes[n - 3] == 120 && bytes[n - 2] == 108 && bytes[n - 1] == 120 {
        Some(OutputKind::Rbxlx)
    } else if n - s > 5 && bytes[n - 5] == 46 && bytes[n - 4] == 114 && bytes[n - 3] == 98
        && bytes[n - 2] == 120 && bytes[n - 1] == 108 {
        Some(OutputKind::Rbxl)
    } else {
        None
    }
}

/// Terminal color behavior.
#[derive(Debug, Clone, Copy, PartialEq, Eq, Structural)]
pub enum ColorChoice {
    Auto,
    Always,
    Never,
}

/// The error for a color choice that is none of "auto", "always", "never";
/// it keeps the rejected text.
#[derive(Debug)]
pub struct ColorChoiceParseError {
    pub attempted: String,
}

impl ColorChoiceParseError {
    /// The message a user sees for the rejected value.
    pub fn message(&self) -> (m: String)
        ensures
            m@ == "Invalid color choice. Valid values are: auto, always, never"@,
    {
        "Invalid color choice. Valid values are: auto, always, never".to_owned()
    }
}

impl ColorChoice {
    /// Parses a color choice: exactly "auto", "always" or "never"; any
    /// other text is rejected, and the error carries it.
    pub fn from_str(source: &str) -> (r: Result<ColorChoice, ColorChoiceParseError>)
        ensures
            source@ == "auto"@ ==> r == Ok::<ColorChoice, ColorChoiceParseError>(ColorChoice::Auto),
            source@ == "always"@ ==> r == Ok::<ColorChoice, ColorChoiceParseError>(ColorChoice::Always),
            source@ == "never"@ ==> r == Ok::<ColorChoice, ColorChoiceParseError>(ColorChoice::Never),
            source@ != "auto"@ && source@ != "always"@ && source@ != "never"@
                ==> r is Err && r->Err_0.attempted@ == source@,
    {
        proof {
            reveal_strlit("auto");
            reveal_strlit("always");
            reveal_strlit("never");
            assert("auto"@.len() == 4);
            assert("always"@.len() == 6);
            assert("never"@.len() == 5);
            assert("auto"@ != "always"@);
            assert("auto"@ != "never"@);
            assert("always"@ != "never"@);
        }
        let s = source.to_owned();
        if s == "auto".to_owned() {
            Ok(ColorChoice::Auto)
        } else if s == "always".to_owned() {
            Ok(ColorChoice::Always)
        } else if s == "never".to_owned() {
            Ok(ColorChoice::Never)
        } else {
            Err(ColorChoiceParseError { attempted: s })
        }
    }
}

/// Options that apply to every subcommand: verbosity and color behavior.
#[derive(Debug, Clone, Copy)]
pub struct GlobalOptions {
    /// How many times the verbose flag was given.
    pub verbosity: u8,
    /// Terminal color behavior.
    pub color: ColorChoice,
}

/// The log filter each verbosity level selects.
pub fn log_filter_for(verbosity: u8) -> (r: &'static str)
    ensures
        verbosity == 0 ==> r@ == "info"@,
        verbosity == 1 ==> r@ == "info,librojo=debug"@,
        verbosity == 2 ==> r@ == "info,librojo=trace"@,
        verbosity >= 3 ==> r@ == "trace"@,
{
    match verbosity {
        0 => "info",
        1 => "info,librojo=debug",
        2 => "info,librojo=trace",
        _ => "trace",
    }
}

/// The smoke-test subcommand: feeds a 45-degree yaw matrix through the
/// rotation extractor.
#[derive(Debug, Clone, Copy)]
pub struct TestCommand {
}

} // verus!
