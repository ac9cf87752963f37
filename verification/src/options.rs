//! The named options of a tool call.

use vstd::prelude::*;

use crate::arguments;
use crate::arguments::message;
use crate::json::{Json, JsonView};
use crate::snapshot::SnapshotScope;
use crate::text;
use crate::values::{ValueRefinement, ValueType};

verus! {

/// How text is encoded in memory.
#[derive(Debug, Clone, Copy, PartialEq, Eq, Structural)]
pub enum TextEncoding {
    Utf8,
    Utf16Le,
    Both,
}

impl TextEncoding {
    /// What the encoding is called.
    pub open spec fn name(self) -> Seq<char> {
        match self {
            TextEncoding::Utf8 => "utf8"@,
            TextEncoding::Utf16Le => "utf16le"@,
            TextEncoding::Both => "both"@,
        }
    }

    /// Whether UTF-8 text is looked for.
    pub open spec fn takes_utf8(self) -> bool {
        self == TextEncoding::Utf8 || self == TextEncoding::Both
    }

    /// Whether UTF-16 text is looked for.
    pub open spec fn takes_utf16(self) -> bool {
        self == TextEncoding::Utf16Le || self == TextEncoding::Both
    }

    pub fn label(self) -> (label: &'static str)
        ensures
            label@ == self.name(),
    {
        match self {
            Self::Utf8 => "utf8",
            Self::Utf16Le => "utf16le",
            Self::Both => "both",
        }
    }

    /// Whether UTF-8 text is looked for.
    pub fn has_utf8(self) -> (wanted: bool)
        ensures
            wanted == self.takes_utf8(),
    {
        matches!(self, TextEncoding::Utf8 | TextEncoding::Both)
    }

    /// Whether UTF-16 text is looked for.
    pub fn has_utf16(self) -> (wanted: bool)
        ensures
            wanted == self.takes_utf16(),
    {
        matches!(self, TextEncoding::Utf16Le | TextEncoding::Both)
    }
}

/// How the hits of a scan are written to a file.
#[derive(Debug, Clone, Copy, PartialEq, Eq, Structural)]
pub enum ScanOutputFormat {
    Csv,
    Json,
}

impl ScanOutputFormat {
    /// What the format is called.
    pub open spec fn name(self) -> Seq<char> {
        match self {
            ScanOutputFormat::Csv => "csv"@,
            ScanOutputFormat::Json => "json"@,
        }
    }

    pub fn label(self) -> (label: &'static str)
        ensures
            label@ == self.name(),
    {
        match self {
            Self::Csv => "csv",
            Self::Json => "json",
        }
    }
}

/// The type of number that a name stands for.
pub open spec fn named_value_type(value: Seq<char>) -> Result<ValueType, Seq<char>> {
    if value == "u32"@ {
        Ok(ValueType::U32)
    } else {
        Err("unsupported value type: "@ + value)
    }
}

pub fn parse_value_type(value: &str) -> (result: Result<ValueType, String>)
    ensures
        arguments::told(result) == named_value_type(value@),
{
    if text::same_text(value, "u32") {
        Ok(ValueType::U32)
    } else {
        Err(message("unsupported value type: ", value))
    }
}

/// The scope that a name stands for.
pub open spec fn named_scope(value: Seq<char>) -> Result<SnapshotScope, Seq<char>> {
    if value == "all"@ {
        Ok(SnapshotScope::All)
    } else if value == "module"@ {
        Ok(SnapshotScope::Module)
    } else if value == "heap"@ {
        Ok(SnapshotScope::Heap)
    } else if value == "executable"@ {
        Ok(SnapshotScope::Executable)
    } else {
        Err("unsupported region scope: "@ + value)
    }
}

pub fn parse_snapshot_scope(value: &str) -> (result: Result<SnapshotScope, String>)
    ensures
        arguments::told(result) == named_scope(value@),
{
    if text::same_text(value, "all") {
        Ok(SnapshotScope::All)
    } else if text::same_text(value, "module") {
        Ok(SnapshotScope::Module)
    } else if text::same_text(value, "heap") {
        Ok(SnapshotScope::Heap)
    } else if text::same_text(value, "executable") {
        Ok(SnapshotScope::Executable)
    } else {
        Err(message("unsupported region scope: ", value))
    }
}

/// The name of a scope stands for the scope.
pub proof fn law_scope_names(scope: SnapshotScope)
    ensures
        named_scope(scope.name()) == Ok::<SnapshotScope, Seq<char>>(scope),
{
    reveal_strlit("all");
    reveal_strlit("module");
    reveal_strlit("heap");
    reveal_strlit("executable");
    assert("all"@.len() == 3 && "module"@.len() == 6 && "heap"@.len() == 4);
    assert("executable"@.len() == 10);
}

/// The encoding that a name stands for.
pub open spec fn named_encoding(value: Seq<char>) -> Result<TextEncoding, Seq<char>> {
    if value == "utf8"@ || value == "utf-8"@ {
        Ok(TextEncoding::Utf8)
    } else if value == "utf16le"@ || value == "utf-16le"@ || value == "utf16"@ || value
        == "utf-16"@ {
        Ok(TextEncoding::Utf16Le)
    } else if value == "both"@ {
        Ok(TextEncoding::Both)
    } else {
        Err("unsupported text encoding: "@ + value)
    }
}

pub fn parse_text_encoding(value: &str) -> (result: Result<TextEncoding, String>)
    ensures
        arguments::told(result) == named_encoding(value@),
{
    if text::same_text(value, "utf8") || text::same_text(value, "utf-8") {
        Ok(TextEncoding::Utf8)
    } else if text::same_text(value, "utf16le") || text::same_text(value, "utf-16le")
        || text::same_text(value, "utf16") || text::same_text(value, "utf-16") {
        Ok(TextEncoding::Utf16Le)
    } else if text::same_text(value, "both") {
        Ok(TextEncoding::Both)
    } else {
        Err(message("unsupported text encoding: ", value))
    }
}

/// The name of an encoding stands for the encoding.
pub proof fn law_encoding_names(encoding: TextEncoding)
    ensures
        named_encoding(encoding.name()) == Ok::<TextEncoding, Seq<char>>(encoding),
{
    reveal_strlit("utf8");
    reveal_strlit("utf-8");
    reveal_strlit("utf16le");
    reveal_strlit("utf-16le");
    reveal_strlit("utf16");
    reveal_strlit("utf-16");
    reveal_strlit("both");
    assert("utf8"@.len() == 4 && "utf-8"@.len() == 5 && "both"@.len() == 4);
    assert("utf16le"@.len() == 7 && "utf-16le"@.len() == 8);
    assert("utf16"@.len() == 5 && "utf-16"@.len() == 6);
    assert("utf8"@[0] == 'u' && "both"@[0] == 'b');
}

/// The output format that a name stands for.
pub open spec fn named_format(value: Seq<char>) -> Result<ScanOutputFormat, Seq<char>> {
    if value == "csv"@ {
        Ok(ScanOutputFormat::Csv)
    } else if value == "json"@ {
        Ok(ScanOutputFormat::Json)
    } else {
        Err("unsupported output format: "@ + value)
    }
}

pub fn parse_scan_output_format(value: &str) -> (result: Result<ScanOutputFormat, String>)
    ensures
        arguments::told(result) == named_format(value@),
{
    if text::same_text(value, "csv") {
        Ok(ScanOutputFormat::Csv)
    } else if text::same_text(value, "json") {
        Ok(ScanOutputFormat::Json)
    } else {
        Err(message("unsupported output format: ", value))
    }
}

/// The name of an output format stands for the format.
pub proof fn law_format_names(format: ScanOutputFormat)
    ensures
        named_format(format.name()) == Ok::<ScanOutputFormat, Seq<char>>(format),
{
    reveal_strlit("csv");
    reveal_strlit("json");
    assert("csv"@.len() == 3 && "json"@.len() == 4);
}

/// The scope argument of a name, or a default.
pub open spec fn scope_or(arguments: JsonView, key: Seq<char>, default: SnapshotScope) -> Result<
    SnapshotScope,
    Seq<char>,
> {
    match arguments::optional_text(arguments, key) {
        Some(value) => named_scope(value),
        None => Ok(default),
    }
}

pub fn optional_snapshot_scope(arguments: &Json, key: &str, default: SnapshotScope) -> (result:
    Result<SnapshotScope, String>)
    ensures
        arguments::told(result) == scope_or(arguments.deep_view(), key@, default),
{
    match arguments::optional_str(arguments, key) {
        Some(value) => parse_snapshot_scope(value),
        None => Ok(default),
    }
}

/// The encoding argument, or a default.
pub open spec fn encoding_or(arguments: JsonView, default: TextEncoding) -> Result<
    TextEncoding,
    Seq<char>,
> {
    match arguments::optional_text(arguments, "encoding"@) {
        Some(value) => named_encoding(value),
        None => Ok(default),
    }
}

pub fn optional_text_encoding(arguments: &Json, default: TextEncoding) -> (result: Result<
    TextEncoding,
    String,
>)
    ensures
        arguments::told(result) == encoding_or(arguments.deep_view(), default),
{
    match arguments::optional_str(arguments, "encoding") {
        Some(value) => parse_text_encoding(value),
        None => Ok(default),
    }
}

/// The output format argument; without one, the extension of the output file
/// decides, and CSV is the default.
pub open spec fn format_or(arguments: JsonView, extension: Option<Seq<char>>) -> Result<
    ScanOutputFormat,
    Seq<char>,
> {
    let given = match arguments::optional_text(arguments, "out_format"@) {
        Some(value) => Some(value),
        None => arguments::optional_text(arguments, "format"@),
    };
    match given {
        Some(value) => named_format(value),
        None => match extension {
            Some(extension) => if text::lowered(extension) == text::lowered("json"@) {
                Ok(ScanOutputFormat::Json)
            } else {
                Ok(ScanOutputFormat::Csv)
            },
            None => Ok(ScanOutputFormat::Csv),
        },
    }
}

pub fn optional_scan_output_format(arguments: &Json, extension: Option<&str>) -> (result: Result<
    ScanOutputFormat,
    String,
>)
    ensures
        arguments::told(result) == format_or(arguments.deep_view(), extension.deep_view()),
{
    let given = match arguments::optional_str(arguments, "out_format") {
        Some(value) => Some(value),
        None => arguments::optional_str(arguments, "format"),
    };
    match given {
        Some(value) => parse_scan_output_format(value),
        None => match extension {
            Some(extension) => {
                if text::same_ignoring_case(extension, "json") {
                    Ok(ScanOutputFormat::Json)
                } else {
                    Ok(ScanOutputFormat::Csv)
                }
            },
            None => Ok(ScanOutputFormat::Csv),
        },
    }
}

/// The refinement that a name stands for; the exact one takes its number from the
/// arguments.
pub open spec fn named_refinement(value: Seq<char>, arguments: JsonView) -> Result<
    ValueRefinement,
    Seq<char>,
> {
    if value == "changed"@ {
        Ok(ValueRefinement::Changed)
    } else if value == "unchanged"@ {
        Ok(ValueRefinement::Unchanged)
    } else if value == "increased"@ {
        Ok(ValueRefinement::Increased)
    } else if value == "decreased"@ {
        Ok(ValueRefinement::Decreased)
    } else if value == "exact"@ {
        match arguments.get_unsigned("exact"@) {
            Some(exact) => Ok(ValueRefinement::ExactU64(exact)),
            None => Err("missing integer argument for exact refinement: exact"@),
        }
    } else {
        Err("unsupported value refinement: "@ + value)
    }
}

pub fn parse_value_refinement(value: &str, arguments: &Json) -> (result: Result<
    ValueRefinement,
    String,
>)
    ensures
        arguments::told(result) == named_refinement(value@, arguments.deep_view()),
{
    if text::same_text(value, "changed") {
        Ok(ValueRefinement::Changed)
    } else if text::same_text(value, "unchanged") {
        Ok(ValueRefinement::Unchanged)
    } else if text::same_text(value, "increased") {
        Ok(ValueRefinement::Increased)
    } else if text::same_text(value, "decreased") {
        Ok(ValueRefinement::Decreased)
    } else if text::same_text(value, "exact") {
        match arguments.get_u64("exact") {
            Some(exact) => Ok(ValueRefinement::ExactU64(exact)),
            None => Err("missing integer argument for exact refinement: exact".to_string()),
        }
    } else {
        Err(message("unsupported value refinement: ", value))
    }
}

} // verus!
