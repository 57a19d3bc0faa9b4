//! Specification-level model of the ECMAScript `Pattern` grammar.
//!
//! Every function here is a mathematical recogniser over the decoded code
//! units of a pattern: given a configuration (edition, Unicode mode,
//! named-capture mode, pre-scanned capturing-group count) and a parse state
//! (cursor offset, declared group names, referenced backreference names) it
//! yields either the state after the production or the first syntax error.
//! The executable validator proves that it returns exactly what these
//! functions say.
//!
//! A few tail recursions are guarded by an explicit check that the cursor
//! moved forward (`rem` shrank).  The cursor never moves backward, so the
//! guards always hold; they only make the recursion visibly well-founded.

use crate::reader::{spec_advance_index, spec_peek_at, spec_utf16};
use crate::unicode::{
    spec_is_general_category_value, spec_is_valid_lone_unicode_property,
    spec_is_valid_unicode_property,
};
use vstd::prelude::*;

verus! {

/// ECMAScript language editions, in chronological order.  Every grammar
/// alternative gated "available since edition X" is decided by comparing
/// ranks, so the order of the variants is semantically meaningful.
#[derive(Clone, Copy, Debug, PartialEq, Eq, Hash, Structural)]
pub enum EcmaVersion {
    ES5,
    ES2015,
    ES2016,
    ES2017,
    ES2018,
    ES2019,
    ES2020,
    ES2021,
}

/// The rank of an edition in chronological order.
pub open spec fn spec_version_rank(v: EcmaVersion) -> int {
    match v {
        EcmaVersion::ES5 => 0,
        EcmaVersion::ES2015 => 1,
        EcmaVersion::ES2016 => 2,
        EcmaVersion::ES2017 => 3,
        EcmaVersion::ES2018 => 4,
        EcmaVersion::ES2019 => 5,
        EcmaVersion::ES2020 => 6,
        EcmaVersion::ES2021 => 7,
    }
}

/// Whether edition `v` is `at` or later.
pub open spec fn spec_version_ge(v: EcmaVersion, at: EcmaVersion) -> bool {
    spec_version_rank(v) >= spec_version_rank(at)
}

impl EcmaVersion {
    /// Whether this edition is `at` or later.
    pub fn at_least(self, at: EcmaVersion) -> (r: bool)
        ensures
            r == spec_version_ge(self, at),
    {
        self.rank() >= at.rank()
    }

    fn rank(self) -> (r: u32)
        ensures
            r as int == spec_version_rank(self),
    {
        match self {
            EcmaVersion::ES5 => 0,
            EcmaVersion::ES2015 => 1,
            EcmaVersion::ES2016 => 2,
            EcmaVersion::ES2017 => 3,
            EcmaVersion::ES2018 => 4,
            EcmaVersion::ES2019 => 5,
            EcmaVersion::ES2020 => 6,
            EcmaVersion::ES2021 => 7,
        }
    }
}

/// The reasons a pattern is rejected.  Each variant corresponds to one
/// diagnostic of the validator.
#[derive(Clone, Copy, Debug, PartialEq, Eq, Structural)]
pub enum RegexSyntaxError {
    /// A `)` with no group open at the top level.
    UnmatchedParen,
    /// A `\` as the last character of the pattern.
    BackslashAtEndOfPattern,
    /// A `]` or `}` (or an unfinished `{`) with nothing it could close.
    LoneQuantifierBrackets,
    /// A leftover character the grammar cannot start a term with.
    UnexpectedCharacter(u32),
    /// A quantifier with no atom before it.
    NothingToRepeat,
    /// A group opened but never closed.
    UnterminatedGroup,
    /// A `[` class opened but never closed.
    UnterminatedCharacterClass,
    /// `(?` introducing none of the known group forms.
    InvalidGroup,
    /// The same `(?<name>` declared twice.
    DuplicateCaptureGroupName,
    /// A malformed `<name>` after `(?` or `\k`.
    InvalidCaptureGroupName,
    /// `\k` not followed by a well-formed `<name>`.
    InvalidNamedReference,
    /// A `\k<name>` whose name no group declares.
    InvalidNamedCaptureReferenced,
    /// A braced quantifier `{m,n}` with `m > n`.
    NumbersOutOfOrderInQuantifier,
    /// A braced quantifier left unfinished, in Unicode mode.
    IncompleteQuantifier,
    /// An escape the current mode does not recognise.
    InvalidEscape,
    /// A malformed `\u` escape, in Unicode mode.
    InvalidUnicodeEscape,
    /// A malformed or unknown `\p{...}` property expression.
    InvalidPropertyName,
    /// A class range `a-b` whose left code point exceeds its right.
    RangeOutOfOrderInCharacterClass,
    /// A class range with a class escape (`\d`, `\p{..}`) as an endpoint,
    /// in Unicode mode.
    InvalidCharacterClass,
}

impl RegexSyntaxError {
    /// The diagnostic for humans; one fixed line per reason.
    pub fn message(&self) -> (r: String)
        ensures
            r@ == spec_message(*self),
    {
        match self {
            RegexSyntaxError::UnmatchedParen => "Unmatched ')'".to_owned(),
            RegexSyntaxError::BackslashAtEndOfPattern => "\\ at end of pattern".to_owned(),
            RegexSyntaxError::LoneQuantifierBrackets => "Lone quantifier brackets".to_owned(),
            RegexSyntaxError::UnexpectedCharacter(_) => "Unexpected character".to_owned(),
            RegexSyntaxError::NothingToRepeat => "Nothing to repeat".to_owned(),
            RegexSyntaxError::UnterminatedGroup => "Unterminated group".to_owned(),
            RegexSyntaxError::UnterminatedCharacterClass => "Unterminated character class".to_owned(
            ),
            RegexSyntaxError::InvalidGroup => "Invalid group".to_owned(),
            RegexSyntaxError::DuplicateCaptureGroupName => "Duplicate capture group name".to_owned(
            ),
            RegexSyntaxError::InvalidCaptureGroupName => "Invalid capture group name".to_owned(),
            RegexSyntaxError::InvalidNamedReference => "Invalid named reference".to_owned(),
            RegexSyntaxError::InvalidNamedCaptureReferenced =>
                "Invalid named capture referenced".to_owned(),
            RegexSyntaxError::NumbersOutOfOrderInQuantifier =>
                "numbers out of order in {} quantifier".to_owned(),
            RegexSyntaxError::IncompleteQuantifier => "Incomplete quantifier".to_owned(),
            RegexSyntaxError::InvalidEscape => "Invalid escape".to_owned(),
            RegexSyntaxError::InvalidUnicodeEscape => "Invalid unicode escape".to_owned(),
            RegexSyntaxError::InvalidPropertyName => "Invalid property name".to_owned(),
            RegexSyntaxError::RangeOutOfOrderInCharacterClass =>
                "Range out of order in character class".to_owned(),
            RegexSyntaxError::InvalidCharacterClass => "Invalid character class".to_owned(),
        }
    }
}

/// The diagnostic line belonging to each rejection reason.
pub open spec fn spec_message(e: RegexSyntaxError) -> Seq<char> {
    match e {
        RegexSyntaxError::UnmatchedParen => "Unmatched ')'"@,
        RegexSyntaxError::BackslashAtEndOfPattern => "\\ at end of pattern"@,
        RegexSyntaxError::LoneQuantifierBrackets => "Lone quantifier brackets"@,
        RegexSyntaxError::UnexpectedCharacter(_) => "Unexpected character"@,
        RegexSyntaxError::NothingToRepeat => "Nothing to repeat"@,
        RegexSyntaxError::UnterminatedGroup => "Unterminated group"@,
        RegexSyntaxError::UnterminatedCharacterClass => "Unterminated character class"@,
        RegexSyntaxError::InvalidGroup => "Invalid group"@,
        RegexSyntaxError::DuplicateCaptureGroupName => "Duplicate capture group name"@,
        RegexSyntaxError::InvalidCaptureGroupName => "Invalid capture group name"@,
        RegexSyntaxError::InvalidNamedReference => "Invalid named reference"@,
        RegexSyntaxError::InvalidNamedCaptureReferenced => "Invalid named capture referenced"@,
        RegexSyntaxError::NumbersOutOfOrderInQuantifier =>
            "numbers out of order in {} quantifier"@,
        RegexSyntaxError::IncompleteQuantifier => "Incomplete quantifier"@,
        RegexSyntaxError::InvalidEscape => "Invalid escape"@,
        RegexSyntaxError::InvalidUnicodeEscape => "Invalid unicode escape"@,
        RegexSyntaxError::InvalidPropertyName => "Invalid property name"@,
        RegexSyntaxError::RangeOutOfOrderInCharacterClass =>
            "Range out of order in character class"@,
        RegexSyntaxError::InvalidCharacterClass => "Invalid character class"@,
    }
}

/// A rejected flag string: a repeated flag character, or one the target
/// edition does not know.
pub enum FlagError {
    Duplicated(char),
    Invalid(char),
}

/// The grammar parameters of one parse attempt, fixed for its duration.
pub ghost struct Cfg {
    /// UTF-16 code units of the pattern.
    pub units: Seq<u32>,
    /// Exclusive scanning bound, in code units.
    pub end: int,
    /// Target edition.
    pub version: EcmaVersion,
    /// Unicode mode: surrogate pairs combine, and the strict (non-annex-B)
    /// grammar applies.
    pub u: bool,
    /// Named-capture mode: `\k<name>` is a named backreference.
    pub n: bool,
    /// Number of capturing groups found by the pre-scan.
    pub parens: nat,
}

/// The mutable state of one parse attempt.
pub ghost struct PSt {
    /// Cursor, as a code-unit offset.
    pub index: int,
    /// Names declared by `(?<name>` so far, in order of declaration.
    pub names: Seq<Seq<u32>>,
    /// Names referenced by `\k<name>` so far, in order of reference.
    pub refs: Seq<Seq<u32>>,
}

/// Whether two parse states carry the same name bookkeeping: productions
/// below the group level never touch it.
pub open spec fn same_names(a: PSt, b: PSt) -> bool {
    a.names == b.names && a.refs == b.refs
}

/// Code units left to scan: the termination measure of every production.
pub open spec fn rem(cfg: Cfg, st: PSt) -> int {
    if st.index <= cfg.end {
        cfg.end - st.index
    } else {
        0
    }
}

/// The code point `k` positions ahead of the cursor.
pub open spec fn peek(cfg: Cfg, st: PSt, k: nat) -> Option<u32> {
    spec_peek_at(cfg.units, cfg.end, cfg.u, st.index, k)
}

/// The state after advancing past one code point.
pub open spec fn adv(cfg: Cfg, st: PSt) -> PSt {
    PSt { index: spec_advance_index(cfg.units, cfg.end, cfg.u, st.index), ..st }
}

/// Consumes `cp` if it is the next code point.
pub open spec fn eat1(cfg: Cfg, st: PSt, cp: u32) -> Option<PSt> {
    if peek(cfg, st, 0) == Some(cp) {
        Some(adv(cfg, st))
    } else {
        None
    }
}

/// Consumes `c1 c2` if they are the next two code points.
pub open spec fn eat_two(cfg: Cfg, st: PSt, c1: u32, c2: u32) -> Option<PSt> {
    if peek(cfg, st, 0) == Some(c1) && peek(cfg, st, 1) == Some(c2) {
        Some(adv(cfg, adv(cfg, st)))
    } else {
        None
    }
}

/// Consumes `c1 c2 c3` if they are the next three code points.
pub open spec fn eat_three(cfg: Cfg, st: PSt, c1: u32, c2: u32, c3: u32) -> Option<PSt> {
    if peek(cfg, st, 0) == Some(c1) && peek(cfg, st, 1) == Some(c2) && peek(cfg, st, 2) == Some(
        c3,
    ) {
        Some(adv(cfg, adv(cfg, adv(cfg, st))))
    } else {
        None
    }
}

// ---------------------------------------------------------------------------
// Character classifications.
// ---------------------------------------------------------------------------

pub open spec fn spec_is_dec_digit(cp: u32) -> bool {
    0x30 <= cp <= 0x39
}

pub open spec fn spec_dec_digit_val(cp: u32) -> nat {
    (cp - 0x30) as nat
}

pub open spec fn spec_is_hex_digit(cp: u32) -> bool {
    0x30 <= cp <= 0x39 || 0x41 <= cp <= 0x46 || 0x61 <= cp <= 0x66
}

pub open spec fn spec_hex_digit_val(cp: u32) -> nat {
    if 0x30 <= cp <= 0x39 {
        (cp - 0x30) as nat
    } else if 0x41 <= cp <= 0x46 {
        (cp - 0x41 + 10) as nat
    } else {
        (cp - 0x61 + 10) as nat
    }
}

pub open spec fn spec_is_octal_digit(cp: u32) -> bool {
    0x30 <= cp <= 0x37
}

pub open spec fn spec_is_ascii_letter(cp: u32) -> bool {
    0x41 <= cp <= 0x5A || 0x61 <= cp <= 0x7A
}

/// The `SyntaxCharacter` production: `^ $ \ . * + ? ( ) [ ] { } |`.
pub open spec fn spec_is_syntax_character(cp: u32) -> bool {
    cp == '^' as u32 || cp == '$' as u32 || cp == '\\' as u32 || cp == '.' as u32 || cp == '*'
        as u32 || cp == '+' as u32 || cp == '?' as u32 || cp == '(' as u32 || cp == ')' as u32
        || cp == '[' as u32 || cp == ']' as u32 || cp == '{' as u32 || cp == '}' as u32 || cp == '|'
        as u32
}

pub open spec fn spec_is_unicode_property_name_character(cp: u32) -> bool {
    spec_is_ascii_letter(cp) || cp == '_' as u32
}

pub open spec fn spec_is_unicode_property_value_character(cp: u32) -> bool {
    spec_is_unicode_property_name_character(cp) || spec_is_dec_digit(cp)
}

/// Identifier-start classification (ASCII approximation of the Unicode
/// `ID_Start` table; the full table is a static data dependency).
pub open spec fn spec_is_id_start(cp: u32) -> bool {
    spec_is_ascii_letter(cp)
}

/// Identifier-continue classification (ASCII approximation of the Unicode
/// `ID_Continue` table; the full table is a static data dependency).
pub open spec fn spec_is_id_continue(cp: u32) -> bool {
    spec_is_ascii_letter(cp) || spec_is_dec_digit(cp) || cp == '_' as u32
}

/// The `RegExpIdentifierStart` production.
pub open spec fn spec_is_regexp_identifier_start(cp: u32) -> bool {
    spec_is_id_start(cp) || cp == '$' as u32 || cp == '_' as u32
}

/// The `RegExpIdentifierPart` production; `0x200C`/`0x200D` are the
/// zero-width (non-)joiner.
pub open spec fn spec_is_regexp_identifier_part(cp: u32) -> bool {
    spec_is_id_continue(cp) || cp == '$' as u32 || cp == '_' as u32 || cp == 0x200C || cp == 0x200D
}

/// Whether `cp` is a code point at all.
pub open spec fn spec_is_valid_unicode(cp: nat) -> bool {
    cp <= 0x10FFFF
}

/// Which characters an identity escape `\c` may cover, by mode.
pub open spec fn spec_is_valid_identity_escape(cfg: Cfg, cp: u32) -> bool {
    if cfg.u {
        spec_is_syntax_character(cp) || cp == '/' as u32
    } else if cfg.n {
        !(cp == 'c' as u32 || cp == 'k' as u32)
    } else {
        cp != 'c' as u32
    }
}

// ---------------------------------------------------------------------------
// Saturating accumulators for decimal and hexadecimal digit runs.
// ---------------------------------------------------------------------------

/// Folds one decimal digit into a value, freezing once the value reaches
/// 2^60: a pattern long enough to overflow that denotes no meaningful bound
/// or group number anyway, and every comparison made of such a value stays
/// on the same side.
pub open spec fn spec_push_dec(v: nat, d: nat) -> nat {
    if v >= 0x1000000000000000 {
        v
    } else {
        10 * v + d
    }
}

/// Folds one hexadecimal digit into a value, freezing once the value exceeds
/// the code-point space: anything at or above `0x110000` is equally invalid.
pub open spec fn spec_push_hex(v: nat, d: nat) -> nat {
    if v >= 0x110000 {
        v
    } else {
        16 * v + d
    }
}

// ---------------------------------------------------------------------------
// Flag validation.
// ---------------------------------------------------------------------------

/// Whether one flag character is known to the edition: `g`, `i`, `m` always;
/// `u`, `y` from ES2015; `s` from ES2018.
pub open spec fn spec_flag_allowed(c: char, v: EcmaVersion) -> bool {
    c == 'g' || c == 'i' || c == 'm' || ((c == 'u' || c == 'y') && spec_version_ge(
        v,
        EcmaVersion::ES2015,
    )) || (c == 's' && spec_version_ge(v, EcmaVersion::ES2018))
}

/// Scans the flag characters from position `i`: the first repeated character
/// is `Duplicated`, the first unknown one `Invalid`.
pub open spec fn spec_validate_flags_from(flags: Seq<char>, v: EcmaVersion, i: int) -> Result<
    (),
    FlagError,
>
    decreases flags.len() - i,
{
    if i < 0 || i >= flags.len() {
        Ok(())
    } else {
        let c = flags[i];
        if exists|j: int| 0 <= j < i && flags[j] == c {
            Err(FlagError::Duplicated(c))
        } else if spec_flag_allowed(c, v) {
            spec_validate_flags_from(flags, v, i + 1)
        } else {
            Err(FlagError::Invalid(c))
        }
    }
}

/// What flag validation returns on a whole flag string.
pub open spec fn spec_validate_flags(flags: Seq<char>, v: EcmaVersion) -> Result<(), FlagError> {
    spec_validate_flags_from(flags, v, 0)
}

/// What an accepted flag string looks like: every character known to the
/// edition, and none repeated.
pub open spec fn spec_flags_wellformed(flags: Seq<char>, v: EcmaVersion) -> bool {
    (forall|i: int| 0 <= i < flags.len() ==> spec_flag_allowed(#[trigger] flags[i], v))
        && flags.no_duplicates()
}

proof fn lemma_validate_flags_from_ok(flags: Seq<char>, v: EcmaVersion, i: int)
    requires
        0 <= i <= flags.len(),
    ensures
        spec_validate_flags_from(flags, v, i) is Ok <==> ((forall|k: int|
            i <= k < flags.len() ==> spec_flag_allowed(#[trigger] flags[k], v)) && (forall|
            j: int,
            k: int,
        |
            0 <= j < k < flags.len() && i <= k ==> flags[j] != flags[k])),
    decreases flags.len() - i,
{
    if i < flags.len() {
        lemma_validate_flags_from_ok(flags, v, i + 1);
        let c = flags[i];
        if spec_validate_flags_from(flags, v, i) is Ok {
            assert(!(exists|j: int| 0 <= j < i && flags[j] == c));
            assert(forall|j: int| 0 <= j < i ==> flags[j] != flags[i]);
        } else {
            if (forall|k: int|
                i <= k < flags.len() ==> spec_flag_allowed(#[trigger] flags[k], v)) && (forall|
                j: int,
                k: int,
            | 0 <= j < k < flags.len() && i <= k ==> flags[j] != flags[k]) {
                assert(spec_flag_allowed(flags[i], v));
                assert(!(exists|j: int| 0 <= j < i && flags[j] == c)) by {
                    assert(forall|j: int| 0 <= j < i ==> flags[j] != flags[i]);
                }
                assert(spec_validate_flags_from(flags, v, i) == spec_validate_flags_from(
                    flags,
                    v,
                    i + 1,
                ));
                assert(false);
            }
        }
    }
}

/// Flag validation accepts exactly the well-formed flag strings: every
/// character known to the edition, and none repeated.  Rejection therefore
/// always detects a duplicate or an unknown flag.
pub proof fn lemma_validate_flags_ok_characterisation(flags: Seq<char>, v: EcmaVersion)
    ensures
        spec_validate_flags(flags, v) is Ok <==> spec_flags_wellformed(flags, v),
{
    lemma_validate_flags_from_ok(flags, v, 0);
}

/// Flag validation is order-independent: two flag strings with the same
/// characters, however arranged, are accepted or rejected together.
pub proof fn lemma_validate_flags_order_independent(a: Seq<char>, b: Seq<char>, v: EcmaVersion)
    requires
        a.to_multiset() == b.to_multiset(),
    ensures
        spec_validate_flags(a, v) is Ok <==> spec_validate_flags(b, v) is Ok,
{
    lemma_validate_flags_ok_characterisation(a, v);
    lemma_validate_flags_ok_characterisation(b, v);
    if spec_flags_wellformed(a, v) {
        lemma_flags_wellformed_permutation(a, b, v);
    }
    if spec_flags_wellformed(b, v) {
        lemma_flags_wellformed_permutation(b, a, v);
    }
}

proof fn lemma_flags_wellformed_permutation(a: Seq<char>, b: Seq<char>, v: EcmaVersion)
    requires
        a.to_multiset() == b.to_multiset(),
        spec_flags_wellformed(a, v),
    ensures
        spec_flags_wellformed(b, v),
{
    broadcast use vstd::seq_lib::group_to_multiset_ensures;

    assert forall|i: int| 0 <= i < b.len() implies spec_flag_allowed(#[trigger] b[i], v) by {
        assert(b.contains(b[i]));
        assert(b.to_multiset().count(b[i]) > 0);
        assert(a.contains(b[i]));
        let j = choose|j: int| 0 <= j < a.len() && a[j] == b[i];
        assert(spec_flag_allowed(a[j], v));
    }
    a.lemma_multiset_has_no_duplicates();
    b.lemma_multiset_has_no_duplicates_conv();
}

// ---------------------------------------------------------------------------
// The capturing-group pre-scan.
// ---------------------------------------------------------------------------

/// Counts the `(` that open capturing groups, from offset `i` to the end:
/// escaped characters and bracket-class contents are skipped, and `(` counts
/// unless `(?` introduces a non-capturing form — except `(?<` when not
/// followed by `=` or `!`, which is a named capturing group.
pub open spec fn spec_count_parens(
    units: Seq<u32>,
    end: int,
    uni: bool,
    i: int,
    in_class: bool,
    escaped: bool,
) -> nat
    decreases (if i <= end { end - i } else { 0 }),
{
    match crate::reader::spec_decode(units, end, uni, i) {
        None => 0,
        Some(p) => {
            let cp = p.0;
            let next = i + p.1;
            if escaped {
                spec_count_parens(units, end, uni, next, in_class, false)
            } else if cp == '\\' as u32 {
                spec_count_parens(units, end, uni, next, in_class, true)
            } else if cp == '[' as u32 {
                spec_count_parens(units, end, uni, next, true, false)
            } else if cp == ']' as u32 {
                spec_count_parens(units, end, uni, next, false, false)
            } else if cp == '(' as u32 && !in_class && (spec_peek_at(units, end, uni, i, 1)
                != Some('?' as u32) || (spec_peek_at(units, end, uni, i, 2) == Some('<' as u32)
                && spec_peek_at(units, end, uni, i, 3) != Some('=' as u32) && spec_peek_at(
                units,
                end,
                uni,
                i,
                3,
            ) != Some('!' as u32))) {
                spec_count_parens(units, end, uni, next, in_class, false) + 1
            } else {
                spec_count_parens(units, end, uni, next, in_class, false)
            }
        },
    }
}

// ---------------------------------------------------------------------------
// Digit runs and escape-sequence leaves.
// ---------------------------------------------------------------------------

/// Accumulates the maximal run of decimal digits ahead of the cursor.
pub open spec fn spec_digits_tail(cfg: Cfg, st: PSt, acc: nat) -> (nat, PSt)
    decreases rem(cfg, st),
{
    if peek(cfg, st, 0) is Some && spec_is_dec_digit(peek(cfg, st, 0)->Some_0) {
        let st1 = adv(cfg, st);
        if rem(cfg, st1) < rem(cfg, st) {
            spec_digits_tail(cfg, st1, spec_push_dec(acc, spec_dec_digit_val(peek(cfg, st, 0)->Some_0)))
        } else {
            (acc, st)
        }
    } else {
        (acc, st)
    }
}

/// The `DecimalDigits` production: one or more decimal digits, with their
/// (saturating) value.
pub open spec fn spec_dec_digits(cfg: Cfg, st: PSt) -> Option<(nat, PSt)> {
    if peek(cfg, st, 0) is Some && spec_is_dec_digit(peek(cfg, st, 0)->Some_0) {
        Some(spec_digits_tail(cfg, st, 0))
    } else {
        None
    }
}

/// Accumulates the maximal run of hexadecimal digits ahead of the cursor.
pub open spec fn spec_hex_tail(cfg: Cfg, st: PSt, acc: nat) -> (nat, PSt)
    decreases rem(cfg, st),
{
    if peek(cfg, st, 0) is Some && spec_is_hex_digit(peek(cfg, st, 0)->Some_0) {
        let st1 = adv(cfg, st);
        if rem(cfg, st1) < rem(cfg, st) {
            spec_hex_tail(cfg, st1, spec_push_hex(acc, spec_hex_digit_val(peek(cfg, st, 0)->Some_0)))
        } else {
            (acc, st)
        }
    } else {
        (acc, st)
    }
}

/// The `HexDigits` production: one or more hex digits, with their
/// (saturating) value.
pub open spec fn spec_hex_digits(cfg: Cfg, st: PSt) -> Option<(nat, PSt)> {
    if peek(cfg, st, 0) is Some && spec_is_hex_digit(peek(cfg, st, 0)->Some_0) {
        Some(spec_hex_tail(cfg, st, 0))
    } else {
        None
    }
}

/// Exactly `k` hex digits, or nothing.
pub open spec fn spec_fixed_hex(cfg: Cfg, st: PSt, k: nat, acc: nat) -> Option<(nat, PSt)>
    decreases k,
{
    if k == 0 {
        Some((acc, st))
    } else if peek(cfg, st, 0) is Some && spec_is_hex_digit(peek(cfg, st, 0)->Some_0) {
        spec_fixed_hex(
            cfg,
            adv(cfg, st),
            (k - 1) as nat,
            16 * acc + spec_hex_digit_val(peek(cfg, st, 0)->Some_0),
        )
    } else {
        None
    }
}

/// The `DecimalEscape` production: a nonzero digit followed by any digits,
/// with its (saturating) value.
pub open spec fn spec_decimal_escape(cfg: Cfg, st: PSt) -> Option<(nat, PSt)> {
    if peek(cfg, st, 0) is Some && 0x31 <= peek(cfg, st, 0)->Some_0 <= 0x39 {
        Some(spec_digits_tail(cfg, st, 0))
    } else {
        None
    }
}

/// One octal digit, with its value.
pub open spec fn spec_octal_digit(cfg: Cfg, st: PSt) -> Option<(nat, PSt)> {
    if peek(cfg, st, 0) is Some && spec_is_octal_digit(peek(cfg, st, 0)->Some_0) {
        Some(((peek(cfg, st, 0)->Some_0 - 0x30) as nat, adv(cfg, st)))
    } else {
        None
    }
}

/// The `LegacyOctalEscapeSequence` production: up to three octal digits,
/// three only when the first is at most 3.
pub open spec fn spec_legacy_octal(cfg: Cfg, st: PSt) -> Option<(nat, PSt)> {
    match spec_octal_digit(cfg, st) {
        None => None,
        Some((n1, st1)) => match spec_octal_digit(cfg, st1) {
            None => Some((n1, st1)),
            Some((n2, st2)) => {
                if n1 <= 3 {
                    match spec_octal_digit(cfg, st2) {
                        Some((n3, st3)) => Some((n1 * 64 + n2 * 8 + n3, st3)),
                        None => Some((n1 * 8 + n2, st2)),
                    }
                } else {
                    Some((n1 * 8 + n2, st2))
                }
            },
        },
    }
}

/// The `ControlEscape` production: one of `f n r t v`, with its value.
pub open spec fn spec_control_escape(cfg: Cfg, st: PSt) -> Option<(nat, PSt)> {
    match eat1(cfg, st, 'f' as u32) {
        Some(st1) => Some((0xC, st1)),
        None => match eat1(cfg, st, 'n' as u32) {
            Some(st1) => Some((0xA, st1)),
            None => match eat1(cfg, st, 'r' as u32) {
                Some(st1) => Some((0xD, st1)),
                None => match eat1(cfg, st, 't' as u32) {
                    Some(st1) => Some((0x9, st1)),
                    None => match eat1(cfg, st, 'v' as u32) {
                        Some(st1) => Some((0xB, st1)),
                        None => None,
                    },
                },
            },
        },
    }
}

/// The `ControlLetter` production: an ASCII letter, valued modulo 32.
pub open spec fn spec_control_letter(cfg: Cfg, st: PSt) -> Option<(nat, PSt)> {
    if peek(cfg, st, 0) is Some && spec_is_ascii_letter(peek(cfg, st, 0)->Some_0) {
        Some(((peek(cfg, st, 0)->Some_0 % 0x20) as nat, adv(cfg, st)))
    } else {
        None
    }
}

/// `c` followed by a control letter, or nothing (with the cursor restored).
pub open spec fn spec_c_control_letter(cfg: Cfg, st: PSt) -> Option<(nat, PSt)> {
    match eat1(cfg, st, 'c' as u32) {
        Some(st1) => spec_control_letter(cfg, st1),
        None => None,
    }
}

/// `0` not followed by a digit, valued 0.
pub open spec fn spec_zero(cfg: Cfg, st: PSt) -> Option<(nat, PSt)> {
    if peek(cfg, st, 0) == Some('0' as u32) && !(peek(cfg, st, 1) is Some && spec_is_dec_digit(
        peek(cfg, st, 1)->Some_0,
    )) {
        Some((0, adv(cfg, st)))
    } else {
        None
    }
}

/// `LeadSurrogate \u TrailSurrogate` spelled as two four-digit escapes,
/// combined into one code point.
pub open spec fn spec_surrogate_pair_escape(cfg: Cfg, st: PSt) -> Option<(nat, PSt)> {
    match spec_fixed_hex(cfg, st, 4, 0) {
        None => None,
        Some((lead, st1)) => {
            if 0xD800 <= lead <= 0xDBFF {
                match eat1(cfg, st1, '\\' as u32) {
                    None => None,
                    Some(st2) => match eat1(cfg, st2, 'u' as u32) {
                        None => None,
                        Some(st3) => match spec_fixed_hex(cfg, st3, 4, 0) {
                            None => None,
                            Some((trail, st4)) => {
                                if 0xDC00 <= trail <= 0xDFFF {
                                    Some(
                                        (
                                            ((lead - 0xD800) * 0x400 + (trail - 0xDC00)
                                                + 0x10000) as nat,
                                            st4,
                                        ),
                                    )
                                } else {
                                    None
                                }
                            },
                        },
                    },
                }
            } else {
                None
            }
        },
    }
}

/// `{ CodePoint }`: braced hex digits denoting a code point.
pub open spec fn spec_codepoint_escape(cfg: Cfg, st: PSt) -> Option<(nat, PSt)> {
    match eat1(cfg, st, '{' as u32) {
        None => None,
        Some(st1) => match spec_hex_digits(cfg, st1) {
            None => None,
            Some((v, st2)) => match eat1(cfg, st2, '}' as u32) {
                None => None,
                Some(st3) => {
                    if spec_is_valid_unicode(v) {
                        Some((v, st3))
                    } else {
                        None
                    }
                },
            },
        },
    }
}

/// The `RegExpUnicodeEscapeSequence` production.  In Unicode mode (or when
/// `force` re-reads a group name under ES2020 rules) a surrogate pair or a
/// braced code point is accepted, and a malformed escape is a hard error;
/// otherwise only `u Hex4Digits` matches and failure backtracks.
pub open spec fn spec_unicode_escape(cfg: Cfg, st: PSt, force: bool) -> Result<
    Option<(nat, PSt)>,
    RegexSyntaxError,
> {
    let uu = force || cfg.u;
    match eat1(cfg, st, 'u' as u32) {
        None => Ok(None),
        Some(st1) => {
            let pair = if uu {
                spec_surrogate_pair_escape(cfg, st1)
            } else {
                None
            };
            match pair {
                Some(r) => Ok(Some(r)),
                None => match spec_fixed_hex(cfg, st1, 4, 0) {
                    Some(r) => Ok(Some(r)),
                    None => {
                        let braced = if uu {
                            spec_codepoint_escape(cfg, st1)
                        } else {
                            None
                        };
                        match braced {
                            Some(r) => Ok(Some(r)),
                            None => {
                                if uu {
                                    Err(RegexSyntaxError::InvalidUnicodeEscape)
                                } else {
                                    Ok(None)
                                }
                            },
                        }
                    },
                },
            }
        },
    }
}

/// `x HexDigit HexDigit`, a hard error when malformed in Unicode mode.
pub open spec fn spec_hex_escape(cfg: Cfg, st: PSt) -> Result<
    Option<(nat, PSt)>,
    RegexSyntaxError,
> {
    match eat1(cfg, st, 'x' as u32) {
        None => Ok(None),
        Some(st1) => match spec_fixed_hex(cfg, st1, 2, 0) {
            Some(r) => Ok(Some(r)),
            None => {
                if cfg.u {
                    Err(RegexSyntaxError::InvalidEscape)
                } else {
                    Ok(None)
                }
            },
        },
    }
}

/// An `IdentityEscape`: the next character itself, where the mode allows it.
pub open spec fn spec_identity_escape(cfg: Cfg, st: PSt) -> Option<(nat, PSt)> {
    if peek(cfg, st, 0) is Some && spec_is_valid_identity_escape(cfg, peek(cfg, st, 0)->Some_0) {
        Some((peek(cfg, st, 0)->Some_0 as nat, adv(cfg, st)))
    } else {
        None
    }
}

/// The `CharacterEscape` production, with the code point it denotes.
pub open spec fn spec_character_escape(cfg: Cfg, st: PSt) -> Result<
    Option<(nat, PSt)>,
    RegexSyntaxError,
> {
    match spec_control_escape(cfg, st) {
        Some(r) => Ok(Some(r)),
        None => match spec_c_control_letter(cfg, st) {
            Some(r) => Ok(Some(r)),
            None => match spec_zero(cfg, st) {
                Some(r) => Ok(Some(r)),
                None => match spec_hex_escape(cfg, st) {
                    Err(e) => Err(e),
                    Ok(Some(r)) => Ok(Some(r)),
                    Ok(None) => match spec_unicode_escape(cfg, st, false) {
                        Err(e) => Err(e),
                        Ok(Some(r)) => Ok(Some(r)),
                        Ok(None) => {
                            let octal = if !cfg.u {
                                spec_legacy_octal(cfg, st)
                            } else {
                                None
                            };
                            match octal {
                                Some(r) => Ok(Some(r)),
                                None => Ok(spec_identity_escape(cfg, st)),
                            }
                        },
                    },
                },
            },
        },
    }
}

// ---------------------------------------------------------------------------
// Unicode property expressions.
// ---------------------------------------------------------------------------

/// Collects the maximal run of property-name or property-value characters.
pub open spec fn spec_scan_prop(cfg: Cfg, st: PSt, values: bool, acc: Seq<u32>) -> (Seq<u32>, PSt)
    decreases rem(cfg, st),
{
    if peek(cfg, st, 0) is Some && (if values {
        spec_is_unicode_property_value_character(peek(cfg, st, 0)->Some_0)
    } else {
        spec_is_unicode_property_name_character(peek(cfg, st, 0)->Some_0)
    }) {
        let st1 = adv(cfg, st);
        if rem(cfg, st1) < rem(cfg, st) {
            spec_scan_prop(cfg, st1, values, acc.push(peek(cfg, st, 0)->Some_0))
        } else {
            (acc, st)
        }
    } else {
        (acc, st)
    }
}

/// A property scan only ever extends its accumulator; in particular, a scan
/// that came back empty did not move the cursor.
pub proof fn lemma_scan_prop_extends(cfg: Cfg, st: PSt, values: bool, acc: Seq<u32>)
    ensures
        spec_scan_prop(cfg, st, values, acc).0.len() >= acc.len(),
        spec_scan_prop(cfg, st, values, acc).0.len() == acc.len() ==> spec_scan_prop(
            cfg,
            st,
            values,
            acc,
        ) == (acc, st),
    decreases rem(cfg, st),
{
    if peek(cfg, st, 0) is Some && (if values {
        spec_is_unicode_property_value_character(peek(cfg, st, 0)->Some_0)
    } else {
        spec_is_unicode_property_name_character(peek(cfg, st, 0)->Some_0)
    }) {
        let st1 = adv(cfg, st);
        if rem(cfg, st1) < rem(cfg, st) {
            lemma_scan_prop_extends(cfg, st1, values, acc.push(peek(cfg, st, 0)->Some_0));
        }
    }
}

/// The `UnicodePropertyValueExpression` production: `Name=Value` against the
/// property table, or a lone name checked first as a General_Category value
/// and then as a binary property.  `Ok(None)` means nothing matched (empty
/// name); a non-empty but unknown expression is a hard error.
pub open spec fn spec_property_expression(cfg: Cfg, st: PSt) -> Result<
    Option<PSt>,
    RegexSyntaxError,
> {
    let (name, st1) = spec_scan_prop(cfg, st, false, Seq::empty());
    let eq = if name.len() > 0 {
        eat1(cfg, st1, '=' as u32)
    } else {
        None
    };
    match eq {
        Some(st2) => {
            let (value, st3) = spec_scan_prop(cfg, st2, true, Seq::empty());
            if value.len() > 0 {
                if spec_is_valid_unicode_property(cfg.version, name, value) {
                    Ok(Some(st3))
                } else {
                    Err(RegexSyntaxError::InvalidPropertyName)
                }
            } else {
                spec_lone_property(cfg, st)
            }
        },
        None => spec_lone_property(cfg, st),
    }
}

/// A lone property name or value: a General_Category value, or a binary
/// property name.
pub open spec fn spec_lone_property(cfg: Cfg, st: PSt) -> Result<Option<PSt>, RegexSyntaxError> {
    let (name, st1) = spec_scan_prop(cfg, st, true, Seq::empty());
    if name.len() > 0 {
        if spec_is_general_category_value(name) {
            Ok(Some(st1))
        } else if spec_is_valid_lone_unicode_property(cfg.version, name) {
            Ok(Some(st1))
        } else {
            Err(RegexSyntaxError::InvalidPropertyName)
        }
    } else {
        Ok(None)
    }
}

/// The `CharacterClassEscape` production: `d D s S w W`, and from ES2018 in
/// Unicode mode `p{...}` / `P{...}` property escapes.
pub open spec fn spec_character_class_escape(cfg: Cfg, st: PSt) -> Result<
    (bool, PSt),
    RegexSyntaxError,
> {
    let simple = match eat1(cfg, st, 'd' as u32) {
        Some(st1) => Some(st1),
        None => match eat1(cfg, st, 'D' as u32) {
            Some(st1) => Some(st1),
            None => match eat1(cfg, st, 's' as u32) {
                Some(st1) => Some(st1),
                None => match eat1(cfg, st, 'S' as u32) {
                    Some(st1) => Some(st1),
                    None => match eat1(cfg, st, 'w' as u32) {
                        Some(st1) => Some(st1),
                        None => eat1(cfg, st, 'W' as u32),
                    },
                },
            },
        },
    };
    match simple {
        Some(st1) => Ok((true, st1)),
        None => {
            if cfg.u && spec_version_ge(cfg.version, EcmaVersion::ES2018) {
                let p = match eat1(cfg, st, 'p' as u32) {
                    Some(st1) => Some(st1),
                    None => eat1(cfg, st, 'P' as u32),
                };
                match p {
                    None => Ok((false, st)),
                    Some(st1) => match eat1(cfg, st1, '{' as u32) {
                        None => Err(RegexSyntaxError::InvalidPropertyName),
                        Some(st2) => match spec_property_expression(cfg, st2) {
                            Err(e) => Err(e),
                            Ok(None) => Err(RegexSyntaxError::InvalidPropertyName),
                            Ok(Some(st3)) => match eat1(cfg, st3, '}' as u32) {
                                Some(st4) => Ok((true, st4)),
                                None => Err(RegexSyntaxError::InvalidPropertyName),
                            },
                        },
                    },
                }
            } else {
                Ok((false, st))
            }
        },
    }
}

// ---------------------------------------------------------------------------
// Group names and identifiers.
// ---------------------------------------------------------------------------

/// One `RegExpIdentifierStart`: a direct character, a `\u` escape, or (when
/// re-reading names under ES2020 rules without Unicode mode) a raw surrogate
/// pair; `Ok(None)` restores the cursor.
pub open spec fn spec_identifier_start(cfg: Cfg, st: PSt) -> Result<
    Option<(nat, PSt)>,
    RegexSyntaxError,
> {
    let force = !cfg.u && spec_version_ge(cfg.version, EcmaVersion::ES2020);
    match peek(cfg, st, 0) {
        None => Ok(None),
        Some(cp) => {
            let st1 = adv(cfg, st);
            if cp == '\\' as u32 {
                match spec_unicode_escape(cfg, st1, force) {
                    Err(e) => Err(e),
                    Ok(Some((v, st2))) => {
                        if spec_is_regexp_identifier_start(v as u32) {
                            Ok(Some((v, st2)))
                        } else {
                            Ok(None)
                        }
                    },
                    Ok(None) => {
                        if spec_is_regexp_identifier_start(cp) {
                            Ok(Some((cp as nat, st1)))
                        } else {
                            Ok(None)
                        }
                    },
                }
            } else if force && 0xD800 <= cp <= 0xDBFF && peek(cfg, st1, 0) is Some && 0xDC00 <= peek(
                cfg,
                st1,
                0,
            )->Some_0 <= 0xDFFF {
                let t = peek(cfg, st1, 0)->Some_0;
                let comb = ((cp - 0xD800) * 0x400 + (t - 0xDC00) + 0x10000) as nat;
                if spec_is_regexp_identifier_start(comb as u32) {
                    Ok(Some((comb, adv(cfg, st1))))
                } else {
                    Ok(None)
                }
            } else {
                if spec_is_regexp_identifier_start(cp) {
                    Ok(Some((cp as nat, st1)))
                } else {
                    Ok(None)
                }
            }
        },
    }
}

/// One `RegExpIdentifierPart`, in the same three forms.
pub open spec fn spec_identifier_part(cfg: Cfg, st: PSt) -> Result<
    Option<(nat, PSt)>,
    RegexSyntaxError,
> {
    let force = !cfg.u && spec_version_ge(cfg.version, EcmaVersion::ES2020);
    match peek(cfg, st, 0) {
        None => Ok(None),
        Some(cp) => {
            let st1 = adv(cfg, st);
            if cp == '\\' as u32 {
                match spec_unicode_escape(cfg, st1, force) {
                    Err(e) => Err(e),
                    Ok(Some((v, st2))) => {
                        if spec_is_regexp_identifier_part(v as u32) {
                            Ok(Some((v, st2)))
                        } else {
                            Ok(None)
                        }
                    },
                    Ok(None) => {
                        if spec_is_regexp_identifier_part(cp) {
                            Ok(Some((cp as nat, st1)))
                        } else {
                            Ok(None)
                        }
                    },
                }
            } else if force && 0xD800 <= cp <= 0xDBFF && peek(cfg, st1, 0) is Some && 0xDC00 <= peek(
                cfg,
                st1,
                0,
            )->Some_0 <= 0xDFFF {
                let t = peek(cfg, st1, 0)->Some_0;
                let comb = ((cp - 0xD800) * 0x400 + (t - 0xDC00) + 0x10000) as nat;
                if spec_is_regexp_identifier_part(comb as u32) {
                    Ok(Some((comb, adv(cfg, st1))))
                } else {
                    Ok(None)
                }
            } else {
                if spec_is_regexp_identifier_part(cp) {
                    Ok(Some((cp as nat, st1)))
                } else {
                    Ok(None)
                }
            }
        },
    }
}

/// The identifier-part loop behind `RegExpIdentifierName`.
pub open spec fn spec_identifier_parts(cfg: Cfg, st: PSt, acc: Seq<u32>) -> Result<
    (Seq<u32>, PSt),
    RegexSyntaxError,
>
    decreases rem(cfg, st),
{
    match spec_identifier_part(cfg, st) {
        Err(e) => Err(e),
        Ok(None) => Ok((acc, st)),
        Ok(Some((v, st1))) => {
            if rem(cfg, st1) < rem(cfg, st) {
                spec_identifier_parts(cfg, st1, acc.push(v as u32))
            } else {
                Ok((acc, st))
            }
        },
    }
}

/// The `RegExpIdentifierName` production: its code points, collected.
pub open spec fn spec_identifier_name(cfg: Cfg, st: PSt) -> Result<
    Option<(Seq<u32>, PSt)>,
    RegexSyntaxError,
> {
    match spec_identifier_start(cfg, st) {
        Err(e) => Err(e),
        Ok(None) => Ok(None),
        Ok(Some((v, st1))) => match spec_identifier_parts(cfg, st1, seq![v as u32]) {
            Err(e) => Err(e),
            Ok((name, st2)) => Ok(Some((name, st2))),
        },
    }
}

/// The `GroupName` production: `< RegExpIdentifierName >`; a `<` not
/// followed by a well-formed name and `>` is a hard error.
pub open spec fn spec_group_name(cfg: Cfg, st: PSt) -> Result<
    Option<(Seq<u32>, PSt)>,
    RegexSyntaxError,
> {
    match eat1(cfg, st, '<' as u32) {
        None => Ok(None),
        Some(st1) => match spec_identifier_name(cfg, st1) {
            Err(e) => Err(e),
            Ok(None) => Err(RegexSyntaxError::InvalidCaptureGroupName),
            Ok(Some((name, st2))) => match eat1(cfg, st2, '>' as u32) {
                Some(st3) => Ok(Some((name, st3))),
                None => Err(RegexSyntaxError::InvalidCaptureGroupName),
            },
        },
    }
}

/// The `GroupSpecifier` production: `?` plus a group name declares the name;
/// a repeated name is a hard error, as is `?` without a name.
#[verifier::opaque]
pub open spec fn spec_group_specifier(cfg: Cfg, st: PSt) -> Result<(bool, PSt), RegexSyntaxError> {
    match eat1(cfg, st, '?' as u32) {
        None => Ok((false, st)),
        Some(st1) => match spec_group_name(cfg, st1) {
            Err(e) => Err(e),
            Ok(None) => Err(RegexSyntaxError::InvalidGroup),
            Ok(Some((name, st2))) => {
                if !st.names.contains(name) {
                    Ok((true, PSt { names: st2.names.push(name), ..st2 }))
                } else {
                    Err(RegexSyntaxError::DuplicateCaptureGroupName)
                }
            },
        },
    }
}

/// `k GroupName`, recording the referenced name for the end-of-pattern
/// resolution check.
pub open spec fn spec_k_group_name(cfg: Cfg, st: PSt) -> Result<(bool, PSt), RegexSyntaxError> {
    match eat1(cfg, st, 'k' as u32) {
        None => Ok((false, st)),
        Some(st1) => match spec_group_name(cfg, st1) {
            Err(e) => Err(e),
            Ok(None) => Err(RegexSyntaxError::InvalidNamedReference),
            Ok(Some((name, st2))) => Ok((true, PSt { refs: st2.refs.push(name), ..st2 })),
        },
    }
}

// ---------------------------------------------------------------------------
// Backreferences and atom escapes.
// ---------------------------------------------------------------------------

/// The `DecimalEscape` backreference: valid when its number does not exceed
/// the pre-scanned group count; past it, a hard error in Unicode mode and a
/// backtrack (to be re-read as an octal or identity escape) otherwise.
pub open spec fn spec_backreference(cfg: Cfg, st: PSt) -> Result<(bool, PSt), RegexSyntaxError> {
    match spec_decimal_escape(cfg, st) {
        None => Ok((false, st)),
        Some((n, st1)) => {
            if n <= cfg.parens {
                Ok((true, st1))
            } else if cfg.u {
                Err(RegexSyntaxError::InvalidEscape)
            } else {
                Ok((false, st))
            }
        },
    }
}

/// The `AtomEscape` production: backreference, class escape, character
/// escape, or (in named-capture mode) `\k<name>`; in Unicode mode an escape
/// that matches none of these is a hard error.
#[verifier::opaque]
pub open spec fn spec_atom_escape(cfg: Cfg, st: PSt) -> Result<(bool, PSt), RegexSyntaxError> {
    match spec_backreference(cfg, st) {
        Err(e) => Err(e),
        Ok((true, st1)) => Ok((true, st1)),
        Ok((false, _)) => match spec_character_class_escape(cfg, st) {
            Err(e) => Err(e),
            Ok((true, st1)) => Ok((true, st1)),
            Ok((false, _)) => match spec_character_escape(cfg, st) {
                Err(e) => Err(e),
                Ok(Some((_, st1))) => Ok((true, st1)),
                Ok(None) => {
                    let k = if cfg.n {
                        spec_k_group_name(cfg, st)
                    } else {
                        Ok((false, st))
                    };
                    match k {
                        Err(e) => Err(e),
                        Ok((true, st1)) => Ok((true, st1)),
                        Ok((false, _)) => {
                            if cfg.u {
                                Err(RegexSyntaxError::InvalidEscape)
                            } else {
                                Ok((false, st))
                            }
                        },
                    }
                },
            },
        },
    }
}

// ---------------------------------------------------------------------------
// Character classes.
// ---------------------------------------------------------------------------

/// The `ClassEscape` production, with the code point it stands for —
/// `None` when it stands for a whole character set (`\d`, `\p{..}`).
pub open spec fn spec_class_escape(cfg: Cfg, st: PSt) -> Result<
    Option<(Option<nat>, PSt)>,
    RegexSyntaxError,
> {
    match eat1(cfg, st, 'b' as u32) {
        Some(st1) => Ok(Some((Some(0x8 as nat), st1))),
        None => {
            let dash = if cfg.u {
                eat1(cfg, st, '-' as u32)
            } else {
                None
            };
            match dash {
                Some(st1) => Ok(Some((Some('-' as u32 as nat), st1))),
                None => {
                    if !cfg.u && peek(cfg, st, 0) == Some('c' as u32) && peek(cfg, st, 1) is Some
                        && (spec_is_dec_digit(peek(cfg, st, 1)->Some_0) || peek(cfg, st, 1)
                        == Some('_' as u32)) {
                        Ok(
                            Some(
                                (
                                    Some((peek(cfg, st, 1)->Some_0 % 0x20) as nat),
                                    adv(cfg, adv(cfg, st)),
                                ),
                            ),
                        )
                    } else {
                        match spec_character_class_escape(cfg, st) {
                            Err(e) => Err(e),
                            Ok((true, st1)) => Ok(Some((None, st1))),
                            Ok((false, _)) => match spec_character_escape(cfg, st) {
                                Err(e) => Err(e),
                                Ok(Some((v, st1))) => Ok(Some((Some(v), st1))),
                                Ok(None) => Ok(None),
                            },
                        }
                    }
                },
            }
        },
    }
}

/// The `ClassAtom` production, with the code point it stands for (`None`
/// for a character-set escape).  `Ok(None)` means no atom starts here.
pub open spec fn spec_class_atom(cfg: Cfg, st: PSt) -> Result<
    Option<(Option<nat>, PSt)>,
    RegexSyntaxError,
> {
    if peek(cfg, st, 0) is Some && peek(cfg, st, 0) != Some('\\' as u32) && peek(cfg, st, 0)
        != Some(']' as u32) {
        Ok(Some((Some(peek(cfg, st, 0)->Some_0 as nat), adv(cfg, st))))
    } else {
        match eat1(cfg, st, '\\' as u32) {
            None => Ok(None),
            Some(st1) => match spec_class_escape(cfg, st1) {
                Err(e) => Err(e),
                Ok(Some(r)) => Ok(Some(r)),
                Ok(None) => {
                    if !cfg.u && peek(cfg, st1, 0) == Some('c' as u32) {
                        Ok(Some((Some('\\' as u32 as nat), st1)))
                    } else if cfg.u {
                        Err(RegexSyntaxError::InvalidEscape)
                    } else {
                        Ok(None)
                    }
                },
            },
        }
    }
}

/// What a class range with the given endpoint values yields: an out-of-order
/// error when both are concrete and inverted; in Unicode mode also an error
/// when either endpoint is a character-set escape.
pub open spec fn spec_class_range_error(u: bool, lo: Option<nat>, hi: Option<nat>) -> Option<
    RegexSyntaxError,
> {
    if lo is None || hi is None {
        if u {
            Some(RegexSyntaxError::InvalidCharacterClass)
        } else {
            None
        }
    } else if lo->Some_0 > hi->Some_0 {
        Some(RegexSyntaxError::RangeOutOfOrderInCharacterClass)
    } else {
        None
    }
}

/// In Unicode mode the class-range rule rejects everything the legacy rule
/// rejects: on equal endpoint values, Unicode mode is at least as strict.
pub proof fn lemma_class_range_unicode_stricter(lo: Option<nat>, hi: Option<nat>)
    ensures
        spec_class_range_error(false, lo, hi) is Some ==> spec_class_range_error(
            true,
            lo,
            hi,
        ) is Some,
{
}

/// The `ClassRanges` production: class atoms, `-` ranges checked per pair,
/// left to right.
pub open spec fn spec_class_ranges(cfg: Cfg, st: PSt) -> Result<PSt, RegexSyntaxError>
    decreases rem(cfg, st),
{
    match spec_class_atom(cfg, st) {
        Err(e) => Err(e),
        Ok(None) => Ok(st),
        Ok(Some((lo, st1))) => match eat1(cfg, st1, '-' as u32) {
            None => {
                if rem(cfg, st1) < rem(cfg, st) {
                    spec_class_ranges(cfg, st1)
                } else {
                    Ok(st1)
                }
            },
            Some(st2) => match spec_class_atom(cfg, st2) {
                Err(e) => Err(e),
                Ok(None) => Ok(st2),
                Ok(Some((hi, st3))) => match spec_class_range_error(cfg.u, lo, hi) {
                    Some(e) => Err(e),
                    None => {
                        if rem(cfg, st3) < rem(cfg, st) {
                            spec_class_ranges(cfg, st3)
                        } else {
                            Ok(st3)
                        }
                    },
                },
            },
        },
    }
}

/// The `CharacterClass` production: `[ ClassRanges ]`.
#[verifier::opaque]
pub open spec fn spec_character_class(cfg: Cfg, st: PSt) -> Result<(bool, PSt), RegexSyntaxError> {
    match eat1(cfg, st, '[' as u32) {
        None => Ok((false, st)),
        Some(st1) => match spec_class_ranges(cfg, st1) {
            Err(e) => Err(e),
            Ok(st2) => match eat1(cfg, st2, ']' as u32) {
                Some(st3) => Ok((true, st3)),
                None => Err(RegexSyntaxError::UnterminatedCharacterClass),
            },
        },
    }
}

// ---------------------------------------------------------------------------
// Quantifiers.
// ---------------------------------------------------------------------------

/// `{ DecimalDigits }`, `{ DecimalDigits ,}` or `{ DecimalDigits ,
/// DecimalDigits }`.  With `no_error` set (the probe used by the
/// nothing-to-repeat check) malformed or out-of-order forms never raise;
/// otherwise `m > n` is a hard error and an unfinished brace is one in
/// Unicode mode.
pub open spec fn spec_braced_quantifier(cfg: Cfg, st: PSt, no_error: bool) -> Result<
    (bool, PSt),
    RegexSyntaxError,
> {
    match eat1(cfg, st, '{' as u32) {
        None => Ok((false, st)),
        Some(st1) => {
            let incomplete: Result<(bool, PSt), RegexSyntaxError> = if !no_error && cfg.u {
                Err(RegexSyntaxError::IncompleteQuantifier)
            } else {
                Ok((false, st))
            };
            match spec_dec_digits(cfg, st1) {
                None => incomplete,
                Some((min, st2)) => {
                    let bound = match eat1(cfg, st2, ',' as u32) {
                        None => Some((Some(min), st2)),
                        Some(st3) => match spec_dec_digits(cfg, st3) {
                            Some((mx, st4)) => Some((Some(mx), st4)),
                            None => Some((None, st3)),
                        },
                    };
                    match bound {
                        Some((maxv, st5)) => match eat1(cfg, st5, '}' as u32) {
                            Some(st6) => {
                                if !no_error && maxv is Some && maxv->Some_0 < min {
                                    Err(RegexSyntaxError::NumbersOutOfOrderInQuantifier)
                                } else {
                                    Ok((true, st6))
                                }
                            },
                            None => incomplete,
                        },
                        None => incomplete,
                    }
                },
            }
        },
    }
}

/// The `Quantifier` production: `*`, `+`, `?` or a braced form, each with an
/// optional lazy `?`.
#[verifier::opaque]
pub open spec fn spec_quantifier(cfg: Cfg, st: PSt, no_error: bool) -> Result<
    (bool, PSt),
    RegexSyntaxError,
> {
    let prefix = match eat1(cfg, st, '*' as u32) {
        Some(st1) => Some(st1),
        None => match eat1(cfg, st, '+' as u32) {
            Some(st1) => Some(st1),
            None => eat1(cfg, st, '?' as u32),
        },
    };
    match prefix {
        Some(st1) => match eat1(cfg, st1, '?' as u32) {
            Some(st2) => Ok((true, st2)),
            None => Ok((true, st1)),
        },
        None => match spec_braced_quantifier(cfg, st, no_error) {
            Err(e) => Err(e),
            Ok((true, st1)) => match eat1(cfg, st1, '?' as u32) {
                Some(st2) => Ok((true, st2)),
                None => Ok((true, st1)),
            },
            Ok((false, _)) => Ok((false, st)),
        },
    }
}

/// A braced quantifier probed where no atom precedes it: matching one is the
/// "nothing to repeat" error.
pub open spec fn spec_invalid_braced_quantifier(cfg: Cfg, st: PSt) -> Result<
    (bool, PSt),
    RegexSyntaxError,
> {
    match spec_braced_quantifier(cfg, st, true) {
        Err(e) => Err(e),
        Ok((true, _)) => Err(RegexSyntaxError::NothingToRepeat),
        Ok((false, _)) => Ok((false, st)),
    }
}

// ---------------------------------------------------------------------------
// Terms, atoms, groups, disjunctions.
// ---------------------------------------------------------------------------

/// A `PatternCharacter`: any source character that is not a syntax character.
pub open spec fn spec_pattern_character(cfg: Cfg, st: PSt) -> (bool, PSt) {
    if peek(cfg, st, 0) is Some && !spec_is_syntax_character(peek(cfg, st, 0)->Some_0) {
        (true, adv(cfg, st))
    } else {
        (false, st)
    }
}

/// An `ExtendedPatternCharacter`: anything but `^ $ \ . * + ? ( ) [ |`.
pub open spec fn spec_extended_pattern_character(cfg: Cfg, st: PSt) -> (bool, PSt) {
    if peek(cfg, st, 0) is Some && !(peek(cfg, st, 0) == Some('^' as u32) || peek(cfg, st, 0)
        == Some('$' as u32) || peek(cfg, st, 0) == Some('\\' as u32) || peek(cfg, st, 0) == Some(
        '.' as u32,
    ) || peek(cfg, st, 0) == Some('*' as u32) || peek(cfg, st, 0) == Some('+' as u32) || peek(
        cfg,
        st,
        0,
    ) == Some('?' as u32) || peek(cfg, st, 0) == Some('(' as u32) || peek(cfg, st, 0) == Some(
        ')' as u32,
    ) || peek(cfg, st, 0) == Some('[' as u32) || peek(cfg, st, 0) == Some('|' as u32)) {
        (true, adv(cfg, st))
    } else {
        (false, st)
    }
}

/// `\` in front of `c`: annex-B treats the backslash as a literal atom and
/// leaves the `c` to be read as an ordinary character.
pub open spec fn spec_backslash_before_c(cfg: Cfg, st: PSt) -> (bool, PSt) {
    if peek(cfg, st, 0) == Some('\\' as u32) && peek(cfg, st, 1) == Some('c' as u32) {
        (true, adv(cfg, st))
    } else {
        (false, st)
    }
}

/// `\ AtomEscape`, restoring the cursor when no escape form matches (only
/// possible outside Unicode mode).
pub open spec fn spec_backslash_atom_escape(cfg: Cfg, st: PSt) -> Result<
    (bool, PSt),
    RegexSyntaxError,
> {
    match eat1(cfg, st, '\\' as u32) {
        None => Ok((false, st)),
        Some(st1) => match spec_atom_escape(cfg, st1) {
            Err(e) => Err(e),
            Ok((true, st2)) => Ok((true, st2)),
            Ok((false, _)) => Ok((false, st)),
        },
    }
}

/// The mutually recursive block: disjunctions contain alternatives contain
/// terms contain atoms contain groups contain disjunctions.  Lexicographic
/// measure: code units left, then the rank of the production.
///
/// `(?:` Disjunction `)`.
pub open spec fn spec_uncapturing_group(cfg: Cfg, st: PSt) -> Result<(bool, PSt), RegexSyntaxError>
    decreases rem(cfg, st), 3int,
{
    match eat_three(cfg, st, '(' as u32, '?' as u32, ':' as u32) {
        None => Ok((false, st)),
        Some(st1) => {
            if rem(cfg, st1) < rem(cfg, st) {
                match spec_disjunction(cfg, st1) {
                    Err(e) => Err(e),
                    Ok(st2) => match eat1(cfg, st2, ')' as u32) {
                        Some(st3) => Ok((true, st3)),
                        None => Err(RegexSyntaxError::UnterminatedGroup),
                    },
                }
            } else {
                Err(RegexSyntaxError::UnterminatedGroup)
            }
        },
    }
}

/// `(` GroupSpecifier Disjunction `)`; before ES2018 a `(?` that no other
/// alternative claimed is an invalid group.
pub open spec fn spec_capturing_group(cfg: Cfg, st: PSt) -> Result<(bool, PSt), RegexSyntaxError>
    decreases rem(cfg, st), 3int,
{
    match eat1(cfg, st, '(' as u32) {
        None => Ok((false, st)),
        Some(st1) => {
            let spec_res: Result<(bool, PSt), RegexSyntaxError> = if spec_version_ge(
                cfg.version,
                EcmaVersion::ES2018,
            ) {
                spec_group_specifier(cfg, st1)
            } else {
                if peek(cfg, st1, 0) == Some('?' as u32) {
                    Err(RegexSyntaxError::InvalidGroup)
                } else {
                    Ok((false, st1))
                }
            };
            match spec_res {
                Err(e) => Err(e),
                Ok((_, st2)) => {
                    if rem(cfg, st2) < rem(cfg, st) {
                        match spec_disjunction(cfg, st2) {
                            Err(e) => Err(e),
                            Ok(st3) => match eat1(cfg, st3, ')' as u32) {
                                Some(st4) => Ok((true, st4)),
                                None => Err(RegexSyntaxError::UnterminatedGroup),
                            },
                        }
                    } else {
                        Err(RegexSyntaxError::UnterminatedGroup)
                    }
                },
            }
        },
    }
}

/// The `Assertion` production: `^`, `$`, `\b`, `\B`, lookahead groups, and
/// from ES2018 lookbehind groups.  On a match the boolean says whether the
/// assertion is quantifiable (lookaheads outside Unicode mode).
pub open spec fn spec_assertion(cfg: Cfg, st: PSt) -> Result<
    (Option<bool>, PSt),
    RegexSyntaxError,
>
    decreases rem(cfg, st), 5int,
{
    let simple = match eat1(cfg, st, '^' as u32) {
        Some(st1) => Some(st1),
        None => match eat1(cfg, st, '$' as u32) {
            Some(st1) => Some(st1),
            None => match eat_two(cfg, st, '\\' as u32, 'B' as u32) {
                Some(st1) => Some(st1),
                None => eat_two(cfg, st, '\\' as u32, 'b' as u32),
            },
        },
    };
    match simple {
        Some(st1) => Ok((Some(false), st1)),
        None => spec_lookaround_assertion(cfg, st),
    }
}

/// The opening of a group-shaped assertion: `(?=`, `(?!`, and from ES2018
/// `(?<=`, `(?<!`; the boolean says whether it is a lookbehind.
pub open spec fn spec_lookaround_prefix(cfg: Cfg, st: PSt) -> Option<(bool, PSt)> {
    match eat_two(cfg, st, '(' as u32, '?' as u32) {
        None => None,
        Some(st1) => {
            let lookbehind = spec_version_ge(cfg.version, EcmaVersion::ES2018) && eat1(
                cfg,
                st1,
                '<' as u32,
            ) is Some;
            let st2 = if lookbehind {
                eat1(cfg, st1, '<' as u32)->Some_0
            } else {
                st1
            };
            match eat1(cfg, st2, '=' as u32) {
                Some(st3) => Some((lookbehind, st3)),
                None => match eat1(cfg, st2, '!' as u32) {
                    Some(st3) => Some((lookbehind, st3)),
                    None => None,
                },
            }
        },
    }
}

/// The group-shaped assertions: lookaheads `(?=` / `(?!`, and from ES2018
/// lookbehinds `(?<=` / `(?<!`.
pub open spec fn spec_lookaround_assertion(cfg: Cfg, st: PSt) -> Result<
    (Option<bool>, PSt),
    RegexSyntaxError,
>
    decreases rem(cfg, st), 4int,
{
    match spec_lookaround_prefix(cfg, st) {
        None => Ok((None, st)),
        Some((lookbehind, st3)) => {
            if rem(cfg, st3) < rem(cfg, st) {
                match spec_disjunction(cfg, st3) {
                    Err(e) => Err(e),
                    Ok(st4) => match eat1(cfg, st4, ')' as u32) {
                        Some(st5) => Ok((Some(!lookbehind && !cfg.u), st5)),
                        None => Err(RegexSyntaxError::UnterminatedGroup),
                    },
                }
            } else {
                Err(RegexSyntaxError::UnterminatedGroup)
            }
        },
    }
}

/// The `Atom` production of the strict grammar.
pub open spec fn spec_atom(cfg: Cfg, st: PSt) -> Result<(bool, PSt), RegexSyntaxError>
    decreases rem(cfg, st), 5int,
{
    let pc = spec_pattern_character(cfg, st);
    if pc.0 {
        Ok((true, pc.1))
    } else {
        match eat1(cfg, st, '.' as u32) {
            Some(st1) => Ok((true, st1)),
            None => match spec_backslash_atom_escape(cfg, st) {
                Err(e) => Err(e),
                Ok((true, st1)) => Ok((true, st1)),
                Ok((false, _)) => match spec_character_class(cfg, st) {
                    Err(e) => Err(e),
                    Ok((true, st1)) => Ok((true, st1)),
                    Ok((false, _)) => match spec_uncapturing_group(cfg, st) {
                        Err(e) => Err(e),
                        Ok((true, st1)) => Ok((true, st1)),
                        Ok((false, _)) => spec_capturing_group(cfg, st),
                    },
                },
            },
        }
    }
}

/// The `ExtendedAtom` production of the annex-B grammar: `.`, an atom
/// escape, annex-B's literal backslash before `c`, or one of the grouped
/// alternatives.
pub open spec fn spec_extended_atom(cfg: Cfg, st: PSt) -> Result<(bool, PSt), RegexSyntaxError>
    decreases rem(cfg, st), 5int,
{
    match eat1(cfg, st, '.' as u32) {
        Some(st1) => Ok((true, st1)),
        None => match spec_backslash_atom_escape(cfg, st) {
            Err(e) => Err(e),
            Ok((true, st1)) => Ok((true, st1)),
            Ok((false, _)) => {
                let bc = spec_backslash_before_c(cfg, st);
                if bc.0 {
                    Ok((true, bc.1))
                } else {
                    spec_extended_atom_rest(cfg, st)
                }
            },
        },
    }
}

/// The remaining `ExtendedAtom` alternatives: a character class, a group,
/// a braced quantifier with nothing to repeat, or an extended pattern
/// character.
pub open spec fn spec_extended_atom_rest(cfg: Cfg, st: PSt) -> Result<
    (bool, PSt),
    RegexSyntaxError,
>
    decreases rem(cfg, st), 4int,
{
    match spec_character_class(cfg, st) {
        Err(e) => Err(e),
        Ok((true, st1)) => Ok((true, st1)),
        Ok((false, _)) => match spec_uncapturing_group(cfg, st) {
            Err(e) => Err(e),
            Ok((true, st1)) => Ok((true, st1)),
            Ok((false, _)) => match spec_capturing_group(cfg, st) {
                Err(e) => Err(e),
                Ok((true, st1)) => Ok((true, st1)),
                Ok((false, _)) => match spec_invalid_braced_quantifier(cfg, st) {
                    Err(e) => Err(e),
                    Ok((true, st1)) => Ok((true, st1)),
                    Ok((false, _)) => Ok(spec_extended_pattern_character(cfg, st)),
                },
            },
        },
    }
}

/// The `Term` production.  In Unicode mode: assertion, or atom with an
/// optional quantifier.  Otherwise, annex B: a quantifiable assertion may
/// carry a quantifier, and extended atoms replace atoms.
pub open spec fn spec_term(cfg: Cfg, st: PSt) -> Result<(bool, PSt), RegexSyntaxError>
    decreases rem(cfg, st), 6int,
{
    if cfg.u {
        match spec_assertion(cfg, st) {
            Err(e) => Err(e),
            Ok((Some(_), st1)) => Ok((true, st1)),
            Ok((None, _)) => match spec_atom(cfg, st) {
                Err(e) => Err(e),
                Ok((false, _)) => Ok((false, st)),
                Ok((true, st1)) => match spec_quantifier(cfg, st1, false) {
                    Err(e) => Err(e),
                    Ok((_, st2)) => Ok((true, st2)),
                },
            },
        }
    } else {
        match spec_assertion(cfg, st) {
            Err(e) => Err(e),
            Ok((Some(quantifiable), st1)) => {
                if quantifiable {
                    match spec_quantifier(cfg, st1, false) {
                        Err(e) => Err(e),
                        Ok((_, st2)) => Ok((true, st2)),
                    }
                } else {
                    Ok((true, st1))
                }
            },
            Ok((None, _)) => match spec_extended_atom(cfg, st) {
                Err(e) => Err(e),
                Ok((false, _)) => Ok((false, st)),
                Ok((true, st1)) => match spec_quantifier(cfg, st1, false) {
                    Err(e) => Err(e),
                    Ok((_, st2)) => Ok((true, st2)),
                },
            },
        }
    }
}

/// The `Alternative` production: terms until end of input, `|` or `)`.
pub open spec fn spec_alternative(cfg: Cfg, st: PSt) -> Result<PSt, RegexSyntaxError>
    decreases rem(cfg, st), 7int,
{
    if peek(cfg, st, 0) is None {
        Ok(st)
    } else {
        match spec_term(cfg, st) {
            Err(e) => Err(e),
            Ok((false, st1)) => Ok(st1),
            Ok((true, st1)) => {
                if rem(cfg, st1) < rem(cfg, st) {
                    spec_alternative(cfg, st1)
                } else {
                    Ok(st1)
                }
            },
        }
    }
}

/// The `| Alternative` repetitions after the first alternative.
pub open spec fn spec_more_alternatives(cfg: Cfg, st: PSt) -> Result<PSt, RegexSyntaxError>
    decreases rem(cfg, st), 8int,
{
    match eat1(cfg, st, '|' as u32) {
        None => Ok(st),
        Some(st1) => match spec_alternative(cfg, st1) {
            Err(e) => Err(e),
            Ok(st2) => {
                if rem(cfg, st2) < rem(cfg, st) {
                    spec_more_alternatives(cfg, st2)
                } else {
                    Ok(st2)
                }
            },
        },
    }
}

/// The `Disjunction` production: alternatives separated by `|`, and after
/// them the check that no dangling quantifier follows with nothing to
/// repeat.
pub open spec fn spec_disjunction(cfg: Cfg, st: PSt) -> Result<PSt, RegexSyntaxError>
    decreases rem(cfg, st), 9int,
{
    match spec_alternative(cfg, st) {
        Err(e) => Err(e),
        Ok(st1) => {
            let after: Result<PSt, RegexSyntaxError> = if rem(cfg, st1) <= rem(cfg, st) {
                spec_more_alternatives(cfg, st1)
            } else {
                Ok(st1)
            };
            match after {
                Err(e) => Err(e),
                Ok(st2) => match spec_quantifier(cfg, st2, true) {
                    Err(e) => Err(e),
                    Ok((true, _)) => Err(RegexSyntaxError::NothingToRepeat),
                    Ok((false, _)) => {
                        if eat1(cfg, st2, '{' as u32) is Some {
                            Err(RegexSyntaxError::LoneQuantifierBrackets)
                        } else {
                            Ok(st2)
                        }
                    },
                },
            }
        },
    }
}

// ---------------------------------------------------------------------------
// The pattern entry points.
// ---------------------------------------------------------------------------

/// One full parse attempt from `start`: pre-scan the capturing-group count,
/// parse a disjunction, demand that the whole input was consumed, and
/// resolve every referenced group name.  Returns the declared names.
#[verifier::opaque]
pub open spec fn spec_pattern(cfg0: Cfg, start: int) -> Result<Seq<Seq<u32>>, RegexSyntaxError> {
    let cfg = Cfg {
        parens: spec_count_parens(cfg0.units, cfg0.end, cfg0.u, start, false, false),
        ..cfg0
    };
    let st = PSt { index: start, names: Seq::empty(), refs: Seq::empty() };
    match spec_disjunction(cfg, st) {
        Err(e) => Err(e),
        Ok(st1) => match peek(cfg, st1, 0) {
            Some(cp) => {
                if cp == ')' as u32 {
                    Err(RegexSyntaxError::UnmatchedParen)
                } else if cp == '\\' as u32 {
                    Err(RegexSyntaxError::BackslashAtEndOfPattern)
                } else if cp == ']' as u32 || cp == '}' as u32 {
                    Err(RegexSyntaxError::LoneQuantifierBrackets)
                } else {
                    Err(RegexSyntaxError::UnexpectedCharacter(cp))
                }
            },
            None => {
                if exists|i: int|
                    0 <= i < st1.refs.len() && !st1.names.contains(st1.refs[i]) {
                    Err(RegexSyntaxError::InvalidNamedCaptureReferenced)
                } else {
                    Ok(st1.names)
                }
            },
        },
    }
}

/// What pattern validation returns, for a given edition, source text and
/// `u` flag.  Unicode mode needs ES2015; named-capture mode is first derived
/// from the `u` flag (ES2018), and when that leaves it off but the first
/// pass declared a group name, the whole pattern is re-parsed with it on —
/// the grammar parameter depends on what only a full scan can reveal.
pub open spec fn spec_validate_pattern(
    version: EcmaVersion,
    text: Seq<char>,
    u_flag: bool,
) -> Result<(), RegexSyntaxError> {
    let units = spec_utf16(text);
    let u = u_flag && spec_version_ge(version, EcmaVersion::ES2015);
    let n = u_flag && spec_version_ge(version, EcmaVersion::ES2018);
    let cfg = Cfg { units, end: units.len() as int, version, u, n, parens: 0 };
    match spec_pattern(cfg, 0) {
        Err(e) => Err(e),
        Ok(names) => {
            if !n && spec_version_ge(version, EcmaVersion::ES2018) && names.len() > 0 {
                match spec_pattern(Cfg { n: true, ..cfg }, 0) {
                    Err(e) => Err(e),
                    Ok(_) => Ok(()),
                }
            } else {
                Ok(())
            }
        },
    }
}

} // verus!
