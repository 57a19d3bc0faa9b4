//! Static Unicode data consumed by the grammar: which `\p{...}` property
//! names and values are recognised.  This is a data table, not an algorithm:
//! it ships the General_Category values, a set of scripts, and the binary
//! properties.  Like the ASCII identifier approximation, completeness of the
//! table is a data dependency, replaceable without touching the grammar.

use crate::grammar::{spec_version_ge, EcmaVersion};
use vstd::prelude::*;

verus! {

/// A text as code points, the form in which the grammar collects names.
pub open spec fn spec_str_u32(s: Seq<char>) -> Seq<u32> {
    Seq::new(s.len(), |i: int| s[i] as u32)
}

/// Whether the collected code points spell exactly the text `s`.
fn name_is(v: &Vec<u32>, s: &str) -> (r: bool)
    ensures
        r == (v@ == spec_str_u32(s@)),
{
    let n = s.unicode_len();
    if v.len() != n {
        proof {
            assert(spec_str_u32(s@).len() == s@.len());
        }
        return false;
    }
    let mut i: usize = 0;
    while i < n
        invariant
            i <= n,
            n == s@.len(),
            v@.len() == n,
            forall|j: int| 0 <= j < i ==> v@[j] == s@[j] as u32,
        decreases n - i,
    {
        if v[i] != s.get_char(i) as u32 {
            proof {
                assert(v@[i as int] != spec_str_u32(s@)[i as int]);
            }
            return false;
        }
        i = i + 1;
    }
    proof {
        assert(v@ =~= spec_str_u32(s@));
    }
    true
}

/// The values of the General_Category property, long and short forms.
pub open spec fn spec_is_general_category_value(v: Seq<u32>) -> bool {
    ||| v == spec_str_u32("C"@)
    ||| v == spec_str_u32("Cased_Letter"@)
    ||| v == spec_str_u32("Cc"@)
    ||| v == spec_str_u32("Cf"@)
    ||| v == spec_str_u32("Close_Punctuation"@)
    ||| v == spec_str_u32("Cn"@)
    ||| v == spec_str_u32("Co"@)
    ||| v == spec_str_u32("Connector_Punctuation"@)
    ||| v == spec_str_u32("Control"@)
    ||| v == spec_str_u32("Cs"@)
    ||| v == spec_str_u32("Currency_Symbol"@)
    ||| v == spec_str_u32("Dash_Punctuation"@)
    ||| v == spec_str_u32("Decimal_Number"@)
    ||| v == spec_str_u32("Enclosing_Mark"@)
    ||| v == spec_str_u32("Final_Punctuation"@)
    ||| v == spec_str_u32("Format"@)
    ||| v == spec_str_u32("Initial_Punctuation"@)
    ||| v == spec_str_u32("L"@)
    ||| v == spec_str_u32("LC"@)
    ||| v == spec_str_u32("Letter"@)
    ||| v == spec_str_u32("Letter_Number"@)
    ||| v == spec_str_u32("Line_Separator"@)
    ||| v == spec_str_u32("Ll"@)
    ||| v == spec_str_u32("Lm"@)
    ||| v == spec_str_u32("Lo"@)
    ||| v == spec_str_u32("Lowercase_Letter"@)
    ||| v == spec_str_u32("Lt"@)
    ||| v == spec_str_u32("Lu"@)
    ||| v == spec_str_u32("M"@)
    ||| v == spec_str_u32("Mark"@)
    ||| v == spec_str_u32("Math_Symbol"@)
    ||| v == spec_str_u32("Mc"@)
    ||| v == spec_str_u32("Me"@)
    ||| v == spec_str_u32("Mn"@)
    ||| v == spec_str_u32("Modifier_Letter"@)
    ||| v == spec_str_u32("Modifier_Symbol"@)
    ||| v == spec_str_u32("N"@)
    ||| v == spec_str_u32("Nd"@)
    ||| v == spec_str_u32("Nl"@)
    ||| v == spec_str_u32("No"@)
    ||| v == spec_str_u32("Nonspacing_Mark"@)
    ||| v == spec_str_u32("Number"@)
    ||| v == spec_str_u32("Open_Punctuation"@)
    ||| v == spec_str_u32("Other"@)
    ||| v == spec_str_u32("Other_Letter"@)
    ||| v == spec_str_u32("Other_Number"@)
    ||| v == spec_str_u32("Other_Punctuation"@)
    ||| v == spec_str_u32("Other_Symbol"@)
    ||| v == spec_str_u32("P"@)
    ||| v == spec_str_u32("Paragraph_Separator"@)
    ||| v == spec_str_u32("Pc"@)
    ||| v == spec_str_u32("Pd"@)
    ||| v == spec_str_u32("Pe"@)
    ||| v == spec_str_u32("Pf"@)
    ||| v == spec_str_u32("Pi"@)
    ||| v == spec_str_u32("Po"@)
    ||| v == spec_str_u32("Private_Use"@)
    ||| v == spec_str_u32("Ps"@)
    ||| v == spec_str_u32("Punctuation"@)
    ||| v == spec_str_u32("S"@)
    ||| v == spec_str_u32("Sc"@)
    ||| v == spec_str_u32("Separator"@)
    ||| v == spec_str_u32("Sk"@)
    ||| v == spec_str_u32("Sm"@)
    ||| v == spec_str_u32("So"@)
    ||| v == spec_str_u32("Space_Separator"@)
    ||| v == spec_str_u32("Spacing_Mark"@)
    ||| v == spec_str_u32("Surrogate"@)
    ||| v == spec_str_u32("Symbol"@)
    ||| v == spec_str_u32("Titlecase_Letter"@)
    ||| v == spec_str_u32("Unassigned"@)
    ||| v == spec_str_u32("Uppercase_Letter"@)
    ||| v == spec_str_u32("Z"@)
    ||| v == spec_str_u32("Zl"@)
    ||| v == spec_str_u32("Zp"@)
    ||| v == spec_str_u32("Zs"@)
}

/// The script names this table carries.
pub open spec fn spec_is_script_value(v: Seq<u32>) -> bool {
    ||| v == spec_str_u32("Adlam"@)
    ||| v == spec_str_u32("Arabic"@)
    ||| v == spec_str_u32("Armenian"@)
    ||| v == spec_str_u32("Bengali"@)
    ||| v == spec_str_u32("Bopomofo"@)
    ||| v == spec_str_u32("Braille"@)
    ||| v == spec_str_u32("Cherokee"@)
    ||| v == spec_str_u32("Common"@)
    ||| v == spec_str_u32("Coptic"@)
    ||| v == spec_str_u32("Cyrillic"@)
    ||| v == spec_str_u32("Deseret"@)
    ||| v == spec_str_u32("Devanagari"@)
    ||| v == spec_str_u32("Ethiopic"@)
    ||| v == spec_str_u32("Georgian"@)
    ||| v == spec_str_u32("Glagolitic"@)
    ||| v == spec_str_u32("Gothic"@)
    ||| v == spec_str_u32("Greek"@)
    ||| v == spec_str_u32("Gujarati"@)
    ||| v == spec_str_u32("Gurmukhi"@)
    ||| v == spec_str_u32("Han"@)
    ||| v == spec_str_u32("Hangul"@)
    ||| v == spec_str_u32("Hebrew"@)
    ||| v == spec_str_u32("Hiragana"@)
    ||| v == spec_str_u32("Inherited"@)
    ||| v == spec_str_u32("Kannada"@)
    ||| v == spec_str_u32("Katakana"@)
    ||| v == spec_str_u32("Khmer"@)
    ||| v == spec_str_u32("Lao"@)
    ||| v == spec_str_u32("Latin"@)
    ||| v == spec_str_u32("Malayalam"@)
    ||| v == spec_str_u32("Mongolian"@)
    ||| v == spec_str_u32("Myanmar"@)
    ||| v == spec_str_u32("Ogham"@)
    ||| v == spec_str_u32("Oriya"@)
    ||| v == spec_str_u32("Phoenician"@)
    ||| v == spec_str_u32("Runic"@)
    ||| v == spec_str_u32("Samaritan"@)
    ||| v == spec_str_u32("Sinhala"@)
    ||| v == spec_str_u32("Syriac"@)
    ||| v == spec_str_u32("Tagalog"@)
    ||| v == spec_str_u32("Tamil"@)
    ||| v == spec_str_u32("Telugu"@)
    ||| v == spec_str_u32("Thaana"@)
    ||| v == spec_str_u32("Thai"@)
    ||| v == spec_str_u32("Tibetan"@)
    ||| v == spec_str_u32("Yi"@)
}

/// The binary (lone) property names, with the edition that introduced each.
pub open spec fn spec_is_valid_lone_unicode_property(version: EcmaVersion, v: Seq<u32>) -> bool {
    ||| v == spec_str_u32("AHex"@)
    ||| v == spec_str_u32("ASCII"@)
    ||| v == spec_str_u32("ASCII_Hex_Digit"@)
    ||| v == spec_str_u32("Alpha"@)
    ||| v == spec_str_u32("Alphabetic"@)
    ||| v == spec_str_u32("Any"@)
    ||| v == spec_str_u32("Assigned"@)
    ||| v == spec_str_u32("Bidi_Control"@)
    ||| v == spec_str_u32("Bidi_Mirrored"@)
    ||| v == spec_str_u32("Case_Ignorable"@)
    ||| v == spec_str_u32("Cased"@)
    ||| v == spec_str_u32("Dash"@)
    ||| v == spec_str_u32("Default_Ignorable_Code_Point"@)
    ||| v == spec_str_u32("Deprecated"@)
    ||| v == spec_str_u32("Diacritic"@)
    ||| v == spec_str_u32("Emoji"@)
    ||| v == spec_str_u32("Emoji_Component"@)
    ||| v == spec_str_u32("Emoji_Modifier"@)
    ||| v == spec_str_u32("Emoji_Modifier_Base"@)
    ||| v == spec_str_u32("Emoji_Presentation"@)
    ||| v == spec_str_u32("Extender"@)
    ||| v == spec_str_u32("Grapheme_Base"@)
    ||| v == spec_str_u32("Grapheme_Extend"@)
    ||| v == spec_str_u32("Hex_Digit"@)
    ||| v == spec_str_u32("IDS_Binary_Operator"@)
    ||| v == spec_str_u32("IDS_Trinary_Operator"@)
    ||| v == spec_str_u32("ID_Continue"@)
    ||| v == spec_str_u32("ID_Start"@)
    ||| v == spec_str_u32("Ideographic"@)
    ||| v == spec_str_u32("Join_Control"@)
    ||| v == spec_str_u32("Logical_Order_Exception"@)
    ||| v == spec_str_u32("Lowercase"@)
    ||| v == spec_str_u32("Math"@)
    ||| v == spec_str_u32("Noncharacter_Code_Point"@)
    ||| v == spec_str_u32("Pattern_Syntax"@)
    ||| v == spec_str_u32("Pattern_White_Space"@)
    ||| v == spec_str_u32("Quotation_Mark"@)
    ||| v == spec_str_u32("Radical"@)
    ||| v == spec_str_u32("Regional_Indicator"@)
    ||| v == spec_str_u32("Sentence_Terminal"@)
    ||| v == spec_str_u32("Soft_Dotted"@)
    ||| v == spec_str_u32("Terminal_Punctuation"@)
    ||| v == spec_str_u32("Unified_Ideograph"@)
    ||| v == spec_str_u32("Uppercase"@)
    ||| v == spec_str_u32("Variation_Selector"@)
    ||| v == spec_str_u32("White_Space"@)
    ||| v == spec_str_u32("XID_Continue"@)
    ||| v == spec_str_u32("XID_Start"@)
    ||| (spec_version_ge(version, EcmaVersion::ES2019) && v == spec_str_u32(
        "Extended_Pictographic"@,
    ))
}

/// A key=value property expression: General_Category (or `gc`) with one of
/// its values, or Script / Script_Extensions (or `sc` / `scx`) with a script
/// name.
pub open spec fn spec_is_valid_unicode_property(
    version: EcmaVersion,
    key: Seq<u32>,
    value: Seq<u32>,
) -> bool {
    ||| ((key == spec_str_u32("General_Category"@) || key == spec_str_u32("gc"@))
        && spec_is_general_category_value(value))
    ||| ((key == spec_str_u32("Script"@) || key == spec_str_u32("sc"@) || key == spec_str_u32(
        "Script_Extensions"@,
    ) || key == spec_str_u32("scx"@)) && spec_is_script_value(value))
}

pub(crate) fn is_general_category_value(v: &Vec<u32>) -> (r: bool)
    ensures
        r == spec_is_general_category_value(v@),
{
    name_is(v, "C") || name_is(v, "Cased_Letter") || name_is(v, "Cc") || name_is(v, "Cf")
        || name_is(v, "Close_Punctuation") || name_is(v, "Cn") || name_is(v, "Co") || name_is(
        v,
        "Connector_Punctuation",
    ) || name_is(v, "Control") || name_is(v, "Cs") || name_is(v, "Currency_Symbol") || name_is(
        v,
        "Dash_Punctuation",
    ) || name_is(v, "Decimal_Number") || name_is(v, "Enclosing_Mark") || name_is(
        v,
        "Final_Punctuation",
    ) || name_is(v, "Format") || name_is(v, "Initial_Punctuation") || name_is(v, "L") || name_is(
        v,
        "LC",
    ) || name_is(v, "Letter") || name_is(v, "Letter_Number") || name_is(v, "Line_Separator")
        || name_is(v, "Ll") || name_is(v, "Lm") || name_is(v, "Lo") || name_is(
        v,
        "Lowercase_Letter",
    ) || name_is(v, "Lt") || name_is(v, "Lu") || name_is(v, "M") || name_is(v, "Mark") || name_is(
        v,
        "Math_Symbol",
    ) || name_is(v, "Mc") || name_is(v, "Me") || name_is(v, "Mn") || name_is(v, "Modifier_Letter")
        || name_is(v, "Modifier_Symbol") || name_is(v, "N") || name_is(v, "Nd") || name_is(v, "Nl")
        || name_is(v, "No") || name_is(v, "Nonspacing_Mark") || name_is(v, "Number") || name_is(
        v,
        "Open_Punctuation",
    ) || name_is(v, "Other") || name_is(v, "Other_Letter") || name_is(v, "Other_Number")
        || name_is(v, "Other_Punctuation") || name_is(v, "Other_Symbol") || name_is(v, "P")
        || name_is(v, "Paragraph_Separator") || name_is(v, "Pc") || name_is(v, "Pd") || name_is(
        v,
        "Pe",
    ) || name_is(v, "Pf") || name_is(v, "Pi") || name_is(v, "Po") || name_is(v, "Private_Use")
        || name_is(v, "Ps") || name_is(v, "Punctuation") || name_is(v, "S") || name_is(v, "Sc")
        || name_is(v, "Separator") || name_is(v, "Sk") || name_is(v, "Sm") || name_is(v, "So")
        || name_is(v, "Space_Separator") || name_is(v, "Spacing_Mark") || name_is(v, "Surrogate")
        || name_is(v, "Symbol") || name_is(v, "Titlecase_Letter") || name_is(v, "Unassigned")
        || name_is(v, "Uppercase_Letter") || name_is(v, "Z") || name_is(v, "Zl") || name_is(
        v,
        "Zp",
    ) || name_is(v, "Zs")
}

fn is_script_value(v: &Vec<u32>) -> (r: bool)
    ensures
        r == spec_is_script_value(v@),
{
    name_is(v, "Adlam") || name_is(v, "Arabic") || name_is(v, "Armenian") || name_is(v, "Bengali")
        || name_is(v, "Bopomofo") || name_is(v, "Braille") || name_is(v, "Cherokee") || name_is(
        v,
        "Common",
    ) || name_is(v, "Coptic") || name_is(v, "Cyrillic") || name_is(v, "Deseret") || name_is(
        v,
        "Devanagari",
    ) || name_is(v, "Ethiopic") || name_is(v, "Georgian") || name_is(v, "Glagolitic") || name_is(
        v,
        "Gothic",
    ) || name_is(v, "Greek") || name_is(v, "Gujarati") || name_is(v, "Gurmukhi") || name_is(
        v,
        "Han",
    ) || name_is(v, "Hangul") || name_is(v, "Hebrew") || name_is(v, "Hiragana") || name_is(
        v,
        "Inherited",
    ) || name_is(v, "Kannada") || name_is(v, "Katakana") || name_is(v, "Khmer") || name_is(
        v,
        "Lao",
    ) || name_is(v, "Latin") || name_is(v, "Malayalam") || name_is(v, "Mongolian") || name_is(
        v,
        "Myanmar",
    ) || name_is(v, "Ogham") || name_is(v, "Oriya") || name_is(v, "Phoenician") || name_is(
        v,
        "Runic",
    ) || name_is(v, "Samaritan") || name_is(v, "Sinhala") || name_is(v, "Syriac") || name_is(
        v,
        "Tagalog",
    ) || name_is(v, "Tamil") || name_is(v, "Telugu") || name_is(v, "Thaana") || name_is(v, "Thai")
        || name_is(v, "Tibetan") || name_is(v, "Yi")
}

/// Whether a lone `\p{name}` expression names a known binary property.
pub(crate) fn is_valid_lone_unicode_property(version: EcmaVersion, v: &Vec<u32>) -> (r: bool)
    ensures
        r == spec_is_valid_lone_unicode_property(version, v@),
{
    name_is(v, "AHex") || name_is(v, "ASCII") || name_is(v, "ASCII_Hex_Digit") || name_is(
        v,
        "Alpha",
    ) || name_is(v, "Alphabetic") || name_is(v, "Any") || name_is(v, "Assigned") || name_is(
        v,
        "Bidi_Control",
    ) || name_is(v, "Bidi_Mirrored") || name_is(v, "Case_Ignorable") || name_is(v, "Cased")
        || name_is(v, "Dash") || name_is(v, "Default_Ignorable_Code_Point") || name_is(
        v,
        "Deprecated",
    ) || name_is(v, "Diacritic") || name_is(v, "Emoji") || name_is(v, "Emoji_Component")
        || name_is(v, "Emoji_Modifier") || name_is(v, "Emoji_Modifier_Base") || name_is(
        v,
        "Emoji_Presentation",
    ) || name_is(v, "Extender") || name_is(v, "Grapheme_Base") || name_is(v, "Grapheme_Extend")
        || name_is(v, "Hex_Digit") || name_is(v, "IDS_Binary_Operator") || name_is(
        v,
        "IDS_Trinary_Operator",
    ) || name_is(v, "ID_Continue") || name_is(v, "ID_Start") || name_is(v, "Ideographic")
        || name_is(v, "Join_Control") || name_is(v, "Logical_Order_Exception") || name_is(
        v,
        "Lowercase",
    ) || name_is(v, "Math") || name_is(v, "Noncharacter_Code_Point") || name_is(
        v,
        "Pattern_Syntax",
    ) || name_is(v, "Pattern_White_Space") || name_is(v, "Quotation_Mark") || name_is(v, "Radical")
        || name_is(v, "Regional_Indicator") || name_is(v, "Sentence_Terminal") || name_is(
        v,
        "Soft_Dotted",
    ) || name_is(v, "Terminal_Punctuation") || name_is(v, "Unified_Ideograph") || name_is(
        v,
        "Uppercase",
    ) || name_is(v, "Variation_Selector") || name_is(v, "White_Space") || name_is(
        v,
        "XID_Continue",
    ) || name_is(v, "XID_Start") || (version.at_least(EcmaVersion::ES2019) && name_is(
        v,
        "Extended_Pictographic",
    ))
}

/// Whether a `\p{key=value}` expression is a known property with a known
/// value.
pub(crate) fn is_valid_unicode_property(version: EcmaVersion, key: &Vec<u32>, value: &Vec<u32>) -> (r:
    bool)
    ensures
        r == spec_is_valid_unicode_property(version, key@, value@),
{
    let gc_key = name_is(key, "General_Category") || name_is(key, "gc");
    let script_key = name_is(key, "Script") || name_is(key, "sc") || name_is(
        key,
        "Script_Extensions",
    ) || name_is(key, "scx");
    (gc_key && is_general_category_value(value)) || (script_key && is_script_value(value))
}

} // verus!
