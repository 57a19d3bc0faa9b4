//! The grammar-driven validator: one method per grammar production, each
//! proved to return exactly what the corresponding specification recogniser
//! in [`crate::grammar`] says.

use crate::grammar::{
    Cfg, EcmaVersion, FlagError, PSt, RegexSyntaxError, adv, eat1, rem, same_names,
    spec_alternative, spec_assertion, spec_atom, spec_atom_escape, spec_backreference,
    spec_backslash_atom_escape, spec_backslash_before_c, spec_braced_quantifier,
    spec_c_control_letter, spec_capturing_group, spec_character_class,
    spec_character_class_escape, spec_character_escape, spec_class_atom, spec_class_escape,
    spec_class_ranges, spec_codepoint_escape, spec_control_escape, spec_control_letter,
    spec_count_parens, spec_dec_digits, spec_decimal_escape, spec_digits_tail,
    spec_disjunction, spec_extended_atom, spec_extended_atom_rest,
    spec_extended_pattern_character, spec_fixed_hex, spec_group_name, spec_group_specifier,
    spec_hex_digit_val, spec_hex_digits, spec_hex_escape, spec_hex_tail, spec_identifier_name,
    spec_identifier_part, spec_identifier_parts, spec_identifier_start, spec_identity_escape,
    spec_invalid_braced_quantifier, spec_is_hex_digit, spec_is_id_continue, spec_is_id_start,
    spec_is_regexp_identifier_part, spec_is_regexp_identifier_start, spec_is_syntax_character,
    spec_is_unicode_property_name_character, spec_is_unicode_property_value_character,
    spec_is_valid_identity_escape, spec_is_valid_unicode, spec_k_group_name, spec_legacy_octal,
    spec_lookaround_assertion, spec_lookaround_prefix, spec_more_alternatives,
    spec_octal_digit, spec_pattern, spec_pattern_character, spec_property_expression,
    spec_quantifier, spec_scan_prop, spec_surrogate_pair_escape, spec_term,
    spec_uncapturing_group, spec_unicode_escape, spec_validate_flags, spec_validate_flags_from,
    spec_validate_pattern, spec_zero,
};
use crate::reader::{spec_utf16, Reader};
use vstd::prelude::*;

verus! {

/// Whether `cp` is one of the `SyntaxCharacter`s `^ $ \ . * + ? ( ) [ ] { } |`.
pub(crate) fn is_syntax_character(cp: u32) -> (r: bool)
    ensures
        r == spec_is_syntax_character(cp),
{
    cp == '^' as u32 || cp == '$' as u32 || cp == '\\' as u32 || cp == '.' as u32 || cp == '*'
        as u32 || cp == '+' as u32 || cp == '?' as u32 || cp == '(' as u32 || cp == ')' as u32
        || cp == '[' as u32 || cp == ']' as u32 || cp == '{' as u32 || cp == '}' as u32 || cp == '|'
        as u32
}

pub(crate) fn is_unicode_property_name_character(cp: u32) -> (r: bool)
    ensures
        r == spec_is_unicode_property_name_character(cp),
{
    (0x41 <= cp && cp <= 0x5A) || (0x61 <= cp && cp <= 0x7A) || cp == '_' as u32
}

pub(crate) fn is_unicode_property_value_character(cp: u32) -> (r: bool)
    ensures
        r == spec_is_unicode_property_value_character(cp),
{
    is_unicode_property_name_character(cp) || (0x30 <= cp && cp <= 0x39)
}

/// Identifier-start classification (ASCII approximation; the full Unicode
/// table is a static data dependency, not part of the grammar).
pub(crate) fn is_id_start(cp: u32) -> (r: bool)
    ensures
        r == spec_is_id_start(cp),
{
    (0x41 <= cp && cp <= 0x5A) || (0x61 <= cp && cp <= 0x7A)
}

/// Identifier-continue classification (ASCII approximation).
pub(crate) fn is_id_continue(cp: u32) -> (r: bool)
    ensures
        r == spec_is_id_continue(cp),
{
    is_id_start(cp) || (0x30 <= cp && cp <= 0x39) || cp == '_' as u32
}

pub(crate) fn is_regexp_identifier_start(cp: u32) -> (r: bool)
    ensures
        r == spec_is_regexp_identifier_start(cp),
{
    is_id_start(cp) || cp == '$' as u32 || cp == '_' as u32
}

pub(crate) fn is_regexp_identifier_part(cp: u32) -> (r: bool)
    ensures
        r == spec_is_regexp_identifier_part(cp),
{
    is_id_continue(cp) || cp == '$' as u32 || cp == '_' as u32 || cp == 0x200C || cp == 0x200D
}

/// Whether `cp` lies in the code-point space at all.
pub(crate) fn is_valid_unicode(cp: u64) -> (r: bool)
    ensures
        r == spec_is_valid_unicode(cp as nat),
{
    cp <= 0x10FFFF
}

pub(crate) fn is_lead_surrogate(cp: u32) -> (r: bool)
    ensures
        r == crate::reader::spec_is_lead_surrogate(cp),
{
    0xD800 <= cp && cp <= 0xDBFF
}

pub(crate) fn is_trail_surrogate(cp: u32) -> (r: bool)
    ensures
        r == crate::reader::spec_is_trail_surrogate(cp),
{
    0xDC00 <= cp && cp <= 0xDFFF
}

/// The code point denoted by a surrogate pair.
pub(crate) fn combine_surrogate_pair(lead: u32, trail: u32) -> (r: u32)
    requires
        crate::reader::spec_is_lead_surrogate(lead),
        crate::reader::spec_is_trail_surrogate(trail),
    ensures
        r == crate::reader::spec_combine_surrogate_pair(lead, trail),
{
    (lead - 0xD800) * 0x400 + (trail - 0xDC00) + 0x10000
}

/// Validates patterns and flag strings against one target edition.
///
/// One instance may be reused across calls: `validate_pattern` re-derives
/// all per-call state from its arguments, so its outcome never depends on
/// what was validated before.
pub struct EcmaRegexValidator {
    reader: Reader,
    ecma_version: EcmaVersion,
    u_flag: bool,
    n_flag: bool,
    num_capturing_parens: usize,
    group_names: Vec<Vec<u32>>,
    backreference_names: Vec<Vec<u32>>,
}

impl EcmaRegexValidator {
    /// The edition this validator checks against.
    pub closed spec fn spec_version(&self) -> EcmaVersion {
        self.ecma_version
    }

    /// The grammar parameters currently in force.
    pub closed spec fn cfg(&self) -> Cfg {
        Cfg {
            units: self.reader@.units,
            end: self.reader@.end,
            version: self.ecma_version,
            u: self.u_flag,
            n: self.n_flag,
            parens: self.num_capturing_parens as nat,
        }
    }

    /// The current parse state: cursor, declared names, referenced names.
    pub closed spec fn st(&self) -> PSt {
        PSt {
            index: self.reader@.index,
            names: self.group_names.deep_view(),
            refs: self.backreference_names.deep_view(),
        }
    }

    /// The reader decodes under the same mode the grammar parameters name.
    pub closed spec fn wf(&self) -> bool {
        self.reader@.unicode == self.u_flag
    }

    /// A fresh validator for the given edition.
    pub fn new(ecma_version: EcmaVersion) -> (r: Self)
        ensures
            r.spec_version() == ecma_version,
            r.wf(),
    {
        EcmaRegexValidator {
            reader: Reader::new(),
            ecma_version,
            u_flag: false,
            n_flag: false,
            num_capturing_parens: 0,
            group_names: Vec::new(),
            backreference_names: Vec::new(),
        }
    }

    /// Binds the reader to a new source, cursor and mode; grammar modes
    /// follow the reader's decoding mode.
    pub fn reset(&mut self, source: &str, start: usize, end: usize, u_flag: bool)
        requires
            old(self).wf(),
        ensures
            final(self).wf(),
            final(self).spec_version() == old(self).spec_version(),
            final(self).cfg() == (Cfg {
                units: spec_utf16(source@),
                end: end as int,
                version: old(self).spec_version(),
                u: u_flag,
                n: old(self).cfg().n,
                parens: old(self).cfg().parens,
            }),
            final(self).st() == (PSt { index: start as int, ..old(self).st() }),
    {
        self.u_flag = u_flag;
        self.reader.reset(source, start, end, u_flag);
    }

    /// The maximal run of decimal digits ahead of the cursor, with its
    /// saturating value; `None` when no digit is next.
    #[verifier::loop_isolation(false)]
    fn eat_decimal_digits(&mut self) -> (r: Option<u64>)
        requires
            old(self).wf(),
        ensures
            final(self).wf(),
            final(self).cfg() == old(self).cfg(),
            same_names(final(self).st(), old(self).st()),
            ({
                let s = spec_dec_digits(old(self).cfg(), old(self).st());
                match r {
                    None => s is None && final(self).st() == old(self).st(),
                    Some(v) => s == Some((v as nat, final(self).st())),
                }
            }),
            final(self).st().index >= old(self).st().index,
            r is Some ==> rem(old(self).cfg(), final(self).st()) < rem(
                old(self).cfg(),
                old(self).st(),
            ),
    {
        let c0 = self.reader.code_point_with_offset(0);
        let first_ok = match c0 {
            Some(cp) => 0x30 <= cp && cp <= 0x39,
            None => false,
        };
        if !first_ok {
            return None;
        }
        let ghost cfg = self.cfg();
        let ghost st0 = self.st();
        let mut acc: u64 = 0;
        loop
            invariant
                self.wf(),
                self.cfg() == cfg,
                same_names(self.st(), st0),
                spec_digits_tail(cfg, st0, 0) == spec_digits_tail(cfg, self.st(), acc as nat),
                self.st().index >= st0.index,
                rem(cfg, self.st()) <= rem(cfg, st0),
            decreases rem(cfg, self.st()),
        {
            let c = self.reader.code_point_with_offset(0);
            match c {
                Some(cp) => {
                    if 0x30 <= cp && cp <= 0x39 {
                        let ghost pre = self.st();
                        self.reader.advance();
                        proof {
                            assert(self.st() == adv(cfg, pre));
                            assert(rem(cfg, self.st()) < rem(cfg, pre));
                        }
                        let d = (cp - 0x30) as u64;
                        if acc >= 0x1000000000000000 {
                            // saturated: the spec freezes the value here too
                        } else {
                            acc = 10 * acc + d;
                        }
                    } else {
                        proof {
                            assert(spec_digits_tail(cfg, self.st(), acc as nat) == (
                            acc as nat,
                            self.st(),
                            ));
                        }
                        return Some(acc);
                    }
                },
                None => {
                    proof {
                        assert(spec_digits_tail(cfg, self.st(), acc as nat) == (
                        acc as nat,
                        self.st(),
                        ));
                    }
                    return Some(acc);
                },
            }
        }
    }

    /// The maximal run of hexadecimal digits ahead of the cursor, with its
    /// saturating value; `None` when no hex digit is next.
    #[verifier::loop_isolation(false)]
    fn eat_hex_digits(&mut self) -> (r: Option<u64>)
        requires
            old(self).wf(),
        ensures
            final(self).wf(),
            final(self).cfg() == old(self).cfg(),
            same_names(final(self).st(), old(self).st()),
            ({
                let s = spec_hex_digits(old(self).cfg(), old(self).st());
                match r {
                    None => s is None && final(self).st() == old(self).st(),
                    Some(v) => s == Some((v as nat, final(self).st())),
                }
            }),
            final(self).st().index >= old(self).st().index,
    {
        let c0 = self.reader.code_point_with_offset(0);
        let first_ok = match c0 {
            Some(cp) => is_hex_digit_cp(cp),
            None => false,
        };
        if !first_ok {
            return None;
        }
        let ghost cfg = self.cfg();
        let ghost st0 = self.st();
        let mut acc: u64 = 0;
        loop
            invariant
                self.wf(),
                self.cfg() == cfg,
                same_names(self.st(), st0),
                spec_hex_tail(cfg, st0, 0) == spec_hex_tail(cfg, self.st(), acc as nat),
                self.st().index >= st0.index,
            decreases rem(cfg, self.st()),
        {
            let c = self.reader.code_point_with_offset(0);
            match c {
                Some(cp) => {
                    if is_hex_digit_cp(cp) {
                        let ghost pre = self.st();
                        self.reader.advance();
                        proof {
                            assert(self.st() == adv(cfg, pre));
                            assert(rem(cfg, self.st()) < rem(cfg, pre));
                        }
                        let d = hex_digit_value(cp) as u64;
                        if acc >= 0x110000 {
                            // saturated: the spec freezes the value here too
                        } else {
                            acc = 16 * acc + d;
                        }
                    } else {
                        proof {
                            assert(spec_hex_tail(cfg, self.st(), acc as nat) == (
                            acc as nat,
                            self.st(),
                            ));
                        }
                        return Some(acc);
                    }
                },
                None => {
                    proof {
                        assert(spec_hex_tail(cfg, self.st(), acc as nat) == (
                        acc as nat,
                        self.st(),
                        ));
                    }
                    return Some(acc);
                },
            }
        }
    }

    /// Exactly `length` hex digits with their value, or `None` with the
    /// cursor untouched.
    #[verifier::loop_isolation(false)]
    fn eat_fixed_hex_digits(&mut self, length: usize) -> (r: Option<u32>)
        requires
            old(self).wf(),
            length <= 4,
        ensures
            final(self).wf(),
            final(self).cfg() == old(self).cfg(),
            same_names(final(self).st(), old(self).st()),
            ({
                let s = spec_fixed_hex(old(self).cfg(), old(self).st(), length as nat, 0);
                match r {
                    None => s is None && final(self).st() == old(self).st(),
                    Some(v) => s == Some((v as nat, final(self).st())),
                }
            }),
            final(self).st().index >= old(self).st().index,
            (r is Some && length > 0) ==> rem(old(self).cfg(), final(self).st()) < rem(
                old(self).cfg(),
                old(self).st(),
            ),
    {
        let ghost cfg = self.cfg();
        let ghost st0 = self.st();
        let start = self.reader.index();
        let mut acc: u32 = 0;
        let mut k: usize = 0;
        while k < length
            invariant
                self.wf(),
                self.cfg() == cfg,
                k <= length,
                length <= 4,
                (acc as nat) < spec_hex_cap((length - k) as nat),
                spec_fixed_hex(cfg, st0, length as nat, 0) == spec_fixed_hex(
                    cfg,
                    self.st(),
                    (length - k) as nat,
                    acc as nat,
                ),
                self.st().index >= st0.index,
                k > 0 ==> rem(cfg, self.st()) < rem(cfg, st0),
                st0 == (PSt { index: start as int, ..self.st() }),
            decreases length - k,
        {
            let c = self.reader.code_point_with_offset(0);
            let ok = match c {
                Some(cp) => is_hex_digit_cp(cp),
                None => false,
            };
            if !ok {
                self.reader.rewind(start);
                proof {
                    assert(final(self).st() =~= st0);
                }
                return None;
            }
            let cp = match c {
                Some(cp) => cp,
                None => 0,
            };
            let ghost pre = self.st();
            self.reader.advance();
            proof {
                assert(self.st() == adv(cfg, pre));
            }
            acc = 16 * acc + hex_digit_value(cp);
            k = k + 1;
        }
        Some(acc)
    }
    /// One octal digit with its value, or `None`.
    fn eat_octal_digit(&mut self) -> (r: Option<u32>)
        requires
            old(self).wf(),
        ensures
            final(self).wf(),
            final(self).cfg() == old(self).cfg(),
            same_names(final(self).st(), old(self).st()),
            ({
                let s = spec_octal_digit(old(self).cfg(), old(self).st());
                match r {
                    None => s is None && final(self).st() == old(self).st(),
                    Some(v) => s == Some((v as nat, final(self).st())),
                }
            }),
            final(self).st().index >= old(self).st().index,
            r is Some ==> rem(old(self).cfg(), final(self).st()) < rem(
                old(self).cfg(),
                old(self).st(),
            ),
    {
        match self.reader.code_point_with_offset(0) {
            Some(cp) => {
                if 0x30 <= cp && cp <= 0x37 {
                    self.reader.advance();
                    Some(cp - 0x30)
                } else {
                    None
                }
            },
            None => None,
        }
    }

    /// The `LegacyOctalEscapeSequence` production with its value.
    fn eat_legacy_octal_escape_sequence(&mut self) -> (r: Option<u32>)
        requires
            old(self).wf(),
        ensures
            final(self).wf(),
            final(self).cfg() == old(self).cfg(),
            same_names(final(self).st(), old(self).st()),
            ({
                let s = spec_legacy_octal(old(self).cfg(), old(self).st());
                match r {
                    None => s is None && final(self).st() == old(self).st(),
                    Some(v) => s == Some((v as nat, final(self).st())),
                }
            }),
            final(self).st().index >= old(self).st().index,
            r is Some ==> rem(old(self).cfg(), final(self).st()) < rem(
                old(self).cfg(),
                old(self).st(),
            ),
    {
        match self.eat_octal_digit() {
            None => None,
            Some(n1) => match self.eat_octal_digit() {
                None => Some(n1),
                Some(n2) => {
                    if n1 <= 3 {
                        match self.eat_octal_digit() {
                            Some(n3) => Some(n1 * 64 + n2 * 8 + n3),
                            None => Some(n1 * 8 + n2),
                        }
                    } else {
                        Some(n1 * 8 + n2)
                    }
                },
            },
        }
    }

    /// One of the control escapes `f n r t v`, with its code point.
    fn eat_control_escape(&mut self) -> (r: Option<u32>)
        requires
            old(self).wf(),
        ensures
            final(self).wf(),
            final(self).cfg() == old(self).cfg(),
            same_names(final(self).st(), old(self).st()),
            ({
                let s = spec_control_escape(old(self).cfg(), old(self).st());
                match r {
                    None => s is None && final(self).st() == old(self).st(),
                    Some(v) => s == Some((v as nat, final(self).st())),
                }
            }),
            final(self).st().index >= old(self).st().index,
            r is Some ==> rem(old(self).cfg(), final(self).st()) < rem(
                old(self).cfg(),
                old(self).st(),
            ),
    {
        if self.reader.eat('f') {
            Some(0xC)
        } else if self.reader.eat('n') {
            Some(0xA)
        } else if self.reader.eat('r') {
            Some(0xD)
        } else if self.reader.eat('t') {
            Some(0x9)
        } else if self.reader.eat('v') {
            Some(0xB)
        } else {
            None
        }
    }

    /// An ASCII letter as a control letter, valued modulo 32.
    fn eat_control_letter(&mut self) -> (r: Option<u32>)
        requires
            old(self).wf(),
        ensures
            final(self).wf(),
            final(self).cfg() == old(self).cfg(),
            same_names(final(self).st(), old(self).st()),
            ({
                let s = spec_control_letter(old(self).cfg(), old(self).st());
                match r {
                    None => s is None && final(self).st() == old(self).st(),
                    Some(v) => s == Some((v as nat, final(self).st())),
                }
            }),
            final(self).st().index >= old(self).st().index,
            r is Some ==> rem(old(self).cfg(), final(self).st()) < rem(
                old(self).cfg(),
                old(self).st(),
            ),
    {
        match self.reader.code_point_with_offset(0) {
            Some(cp) => {
                if (0x41 <= cp && cp <= 0x5A) || (0x61 <= cp && cp <= 0x7A) {
                    self.reader.advance();
                    Some(cp % 0x20)
                } else {
                    None
                }
            },
            None => None,
        }
    }

    /// `c` followed by a control letter; the cursor is restored when no
    /// letter follows.
    fn eat_c_control_letter(&mut self) -> (r: Option<u32>)
        requires
            old(self).wf(),
        ensures
            final(self).wf(),
            final(self).cfg() == old(self).cfg(),
            same_names(final(self).st(), old(self).st()),
            ({
                let s = spec_c_control_letter(old(self).cfg(), old(self).st());
                match r {
                    None => s is None && final(self).st() == old(self).st(),
                    Some(v) => s == Some((v as nat, final(self).st())),
                }
            }),
            final(self).st().index >= old(self).st().index,
            r is Some ==> rem(old(self).cfg(), final(self).st()) < rem(
                old(self).cfg(),
                old(self).st(),
            ),
    {
        let start = self.reader.index();
        if self.reader.eat('c') {
            match self.eat_control_letter() {
                Some(v) => Some(v),
                None => {
                    self.reader.rewind(start);
                    proof {
                        assert(self.st() =~= old(self).st());
                    }
                    None
                },
            }
        } else {
            None
        }
    }

    /// `0` not followed by a digit, valued 0.
    fn eat_zero(&mut self) -> (r: Option<u32>)
        requires
            old(self).wf(),
        ensures
            final(self).wf(),
            final(self).cfg() == old(self).cfg(),
            same_names(final(self).st(), old(self).st()),
            ({
                let s = spec_zero(old(self).cfg(), old(self).st());
                match r {
                    None => s is None && final(self).st() == old(self).st(),
                    Some(v) => s == Some((v as nat, final(self).st())),
                }
            }),
            final(self).st().index >= old(self).st().index,
            r is Some ==> rem(old(self).cfg(), final(self).st()) < rem(
                old(self).cfg(),
                old(self).st(),
            ),
    {
        if self.reader.code_point_with_offset(0) != Some('0' as u32) {
            return None;
        }
        match self.reader.code_point_with_offset(1) {
            Some(cp) => {
                if 0x30 <= cp && cp <= 0x39 {
                    return None;
                }
            },
            None => {},
        }
        self.reader.advance();
        Some(0)
    }

    /// A surrogate pair spelled as two adjacent four-digit escapes, combined
    /// into one code point; the cursor is restored on failure.
    fn eat_regexp_unicode_surrogate_pair_escape(&mut self) -> (r: Option<u32>)
        requires
            old(self).wf(),
        ensures
            final(self).wf(),
            final(self).cfg() == old(self).cfg(),
            same_names(final(self).st(), old(self).st()),
            ({
                let s = spec_surrogate_pair_escape(old(self).cfg(), old(self).st());
                match r {
                    None => s is None && final(self).st() == old(self).st(),
                    Some(v) => s == Some((v as nat, final(self).st())),
                }
            }),
            final(self).st().index >= old(self).st().index,
            r is Some ==> rem(old(self).cfg(), final(self).st()) < rem(
                old(self).cfg(),
                old(self).st(),
            ),
    {
        let start = self.reader.index();
        match self.eat_fixed_hex_digits(4) {
            None => None,
            Some(lead) => {
                if is_lead_surrogate(lead) && self.reader.eat('\\') && self.reader.eat('u') {
                    match self.eat_fixed_hex_digits(4) {
                        Some(trail) => {
                            if is_trail_surrogate(trail) {
                                return Some(combine_surrogate_pair(lead, trail));
                            }
                        },
                        None => {},
                    }
                }
                self.reader.rewind(start);
                proof {
                    assert(self.st() =~= old(self).st());
                }
                None
            },
        }
    }

    /// `{ CodePoint }`: braced hex digits; the cursor is restored on failure.
    fn eat_regexp_unicode_codepoint_escape(&mut self) -> (r: Option<u32>)
        requires
            old(self).wf(),
        ensures
            final(self).wf(),
            final(self).cfg() == old(self).cfg(),
            same_names(final(self).st(), old(self).st()),
            ({
                let s = spec_codepoint_escape(old(self).cfg(), old(self).st());
                match r {
                    None => s is None && final(self).st() == old(self).st(),
                    Some(v) => s == Some((v as nat, final(self).st())),
                }
            }),
            final(self).st().index >= old(self).st().index,
            r is Some ==> rem(old(self).cfg(), final(self).st()) < rem(
                old(self).cfg(),
                old(self).st(),
            ),
    {
        let start = self.reader.index();
        if self.reader.eat('{') {
            match self.eat_hex_digits() {
                Some(v) => {
                    if self.reader.eat('}') && is_valid_unicode(v) {
                        return Some(v as u32);
                    }
                },
                None => {},
            }
        }
        self.reader.rewind(start);
        proof {
            assert(self.st() =~= old(self).st());
        }
        None
    }

    /// The `RegExpUnicodeEscapeSequence` production, with the code point it
    /// denotes.  `force_u_flag` applies the Unicode-mode forms while group
    /// names are re-read under ES2020 rules.
    fn eat_regexp_unicode_escape_sequence(&mut self, force_u_flag: bool) -> (r: Result<
        Option<u32>,
        RegexSyntaxError,
    >)
        requires
            old(self).wf(),
        ensures
            final(self).wf(),
            final(self).cfg() == old(self).cfg(),
            same_names(final(self).st(), old(self).st()),
            ({
                let s = spec_unicode_escape(old(self).cfg(), old(self).st(), force_u_flag);
                match r {
                    Ok(None) => s == Ok::<Option<(nat, PSt)>, RegexSyntaxError>(None)
                        && final(self).st() == old(self).st(),
                    Ok(Some(v)) => s == Ok::<Option<(nat, PSt)>, RegexSyntaxError>(
                        Some((v as nat, final(self).st())),
                    ),
                    Err(e) => s == Err::<Option<(nat, PSt)>, RegexSyntaxError>(e),
                }
            }),
            r is Ok ==> final(self).st().index >= old(self).st().index,
            (r is Ok && r->Ok_0 is Some) ==> rem(old(self).cfg(), final(self).st()) < rem(
                old(self).cfg(),
                old(self).st(),
            ),
    {
        let start = self.reader.index();
        let uu = force_u_flag || self.u_flag;
        if !self.reader.eat('u') {
            return Ok(None);
        }
        if uu {
            match self.eat_regexp_unicode_surrogate_pair_escape() {
                Some(v) => {
                    return Ok(Some(v));
                },
                None => {},
            }
        }
        match self.eat_fixed_hex_digits(4) {
            Some(v) => {
                return Ok(Some(v));
            },
            None => {},
        }
        if uu {
            match self.eat_regexp_unicode_codepoint_escape() {
                Some(v) => {
                    return Ok(Some(v));
                },
                None => {},
            }
        }
        if uu {
            return Err(RegexSyntaxError::InvalidUnicodeEscape);
        }
        self.reader.rewind(start);
        proof {
            assert(self.st() =~= old(self).st());
        }
        Ok(None)
    }

    /// `x HexDigit HexDigit`, a hard error when malformed in Unicode mode.
    fn eat_hex_escape_sequence(&mut self) -> (r: Result<Option<u32>, RegexSyntaxError>)
        requires
            old(self).wf(),
        ensures
            final(self).wf(),
            final(self).cfg() == old(self).cfg(),
            same_names(final(self).st(), old(self).st()),
            ({
                let s = spec_hex_escape(old(self).cfg(), old(self).st());
                match r {
                    Ok(None) => s == Ok::<Option<(nat, PSt)>, RegexSyntaxError>(None)
                        && final(self).st() == old(self).st(),
                    Ok(Some(v)) => s == Ok::<Option<(nat, PSt)>, RegexSyntaxError>(
                        Some((v as nat, final(self).st())),
                    ),
                    Err(e) => s == Err::<Option<(nat, PSt)>, RegexSyntaxError>(e),
                }
            }),
            r is Ok ==> final(self).st().index >= old(self).st().index,
            (r is Ok && r->Ok_0 is Some) ==> rem(old(self).cfg(), final(self).st()) < rem(
                old(self).cfg(),
                old(self).st(),
            ),
    {
        let start = self.reader.index();
        if !self.reader.eat('x') {
            return Ok(None);
        }
        match self.eat_fixed_hex_digits(2) {
            Some(v) => Ok(Some(v)),
            None => {
                if self.u_flag {
                    Err(RegexSyntaxError::InvalidEscape)
                } else {
                    self.reader.rewind(start);
                    proof {
                        assert(self.st() =~= old(self).st());
                    }
                    Ok(None)
                }
            },
        }
    }

    /// Which characters an identity escape may cover under the current mode.
    fn is_valid_identity_escape(&self, cp: u32) -> (r: bool)
        ensures
            r == spec_is_valid_identity_escape(self.cfg(), cp),
    {
        if self.u_flag {
            is_syntax_character(cp) || cp == '/' as u32
        } else if self.n_flag {
            !(cp == 'c' as u32 || cp == 'k' as u32)
        } else {
            cp != 'c' as u32
        }
    }

    /// An `IdentityEscape`: the next character itself, where the mode
    /// allows it.
    fn eat_identity_escape(&mut self) -> (r: Option<u32>)
        requires
            old(self).wf(),
        ensures
            final(self).wf(),
            final(self).cfg() == old(self).cfg(),
            same_names(final(self).st(), old(self).st()),
            ({
                let s = spec_identity_escape(old(self).cfg(), old(self).st());
                match r {
                    None => s is None && final(self).st() == old(self).st(),
                    Some(v) => s == Some((v as nat, final(self).st())),
                }
            }),
            final(self).st().index >= old(self).st().index,
            r is Some ==> rem(old(self).cfg(), final(self).st()) < rem(
                old(self).cfg(),
                old(self).st(),
            ),
    {
        match self.reader.code_point_with_offset(0) {
            Some(cp) => {
                if self.is_valid_identity_escape(cp) {
                    self.reader.advance();
                    Some(cp)
                } else {
                    None
                }
            },
            None => None,
        }
    }

    /// The `CharacterEscape` production, with the code point it denotes.
    fn consume_character_escape(&mut self) -> (r: Result<Option<u32>, RegexSyntaxError>)
        requires
            old(self).wf(),
        ensures
            final(self).wf(),
            final(self).cfg() == old(self).cfg(),
            same_names(final(self).st(), old(self).st()),
            ({
                let s = spec_character_escape(old(self).cfg(), old(self).st());
                match r {
                    Ok(None) => s == Ok::<Option<(nat, PSt)>, RegexSyntaxError>(None)
                        && final(self).st() == old(self).st(),
                    Ok(Some(v)) => s == Ok::<Option<(nat, PSt)>, RegexSyntaxError>(
                        Some((v as nat, final(self).st())),
                    ),
                    Err(e) => s == Err::<Option<(nat, PSt)>, RegexSyntaxError>(e),
                }
            }),
            r is Ok ==> final(self).st().index >= old(self).st().index,
            (r is Ok && r->Ok_0 is Some) ==> rem(old(self).cfg(), final(self).st()) < rem(
                old(self).cfg(),
                old(self).st(),
            ),
    {
        match self.eat_control_escape() {
            Some(v) => {
                return Ok(Some(v));
            },
            None => {},
        }
        match self.eat_c_control_letter() {
            Some(v) => {
                return Ok(Some(v));
            },
            None => {},
        }
        match self.eat_zero() {
            Some(v) => {
                return Ok(Some(v));
            },
            None => {},
        }
        match self.eat_hex_escape_sequence() {
            Err(e) => {
                return Err(e);
            },
            Ok(Some(v)) => {
                return Ok(Some(v));
            },
            Ok(None) => {},
        }
        match self.eat_regexp_unicode_escape_sequence(false) {
            Err(e) => {
                return Err(e);
            },
            Ok(Some(v)) => {
                return Ok(Some(v));
            },
            Ok(None) => {},
        }
        if !self.u_flag {
            match self.eat_legacy_octal_escape_sequence() {
                Some(v) => {
                    return Ok(Some(v));
                },
                None => {},
            }
        }
        Ok(self.eat_identity_escape())
    }

    /// The `DecimalEscape` production: a nonzero digit and any digits after
    /// it, with its saturating value.
    fn eat_decimal_escape(&mut self) -> (r: Option<u64>)
        requires
            old(self).wf(),
        ensures
            final(self).wf(),
            final(self).cfg() == old(self).cfg(),
            same_names(final(self).st(), old(self).st()),
            ({
                let s = spec_decimal_escape(old(self).cfg(), old(self).st());
                match r {
                    None => s is None && final(self).st() == old(self).st(),
                    Some(v) => s == Some((v as nat, final(self).st())),
                }
            }),
            final(self).st().index >= old(self).st().index,
            r is Some ==> rem(old(self).cfg(), final(self).st()) < rem(
                old(self).cfg(),
                old(self).st(),
            ),
    {
        let first_ok = match self.reader.code_point_with_offset(0) {
            Some(cp) => 0x31 <= cp && cp <= 0x39,
            None => false,
        };
        if !first_ok {
            return None;
        }
        self.eat_decimal_digits()
    }

    /// A decimal backreference, valid when its number does not exceed the
    /// pre-scanned capturing-group count.
    fn consume_backreference(&mut self) -> (r: Result<bool, RegexSyntaxError>)
        requires
            old(self).wf(),
        ensures
            final(self).wf(),
            final(self).cfg() == old(self).cfg(),
            same_names(final(self).st(), old(self).st()),
            ({
                let s = spec_backreference(old(self).cfg(), old(self).st());
                match r {
                    Ok(b) => s == Ok::<(bool, PSt), RegexSyntaxError>((b, final(self).st())),
                    Err(e) => s == Err::<(bool, PSt), RegexSyntaxError>(e),
                }
            }),
            r is Ok ==> final(self).st().index >= old(self).st().index,
            r == Ok::<bool, RegexSyntaxError>(false) ==> final(self).st() == old(self).st(),
    {
        let start = self.reader.index();
        match self.eat_decimal_escape() {
            None => Ok(false),
            Some(n) => {
                if n <= self.num_capturing_parens as u64 {
                    Ok(true)
                } else if self.u_flag {
                    Err(RegexSyntaxError::InvalidEscape)
                } else {
                    self.reader.rewind(start);
                    proof {
                        assert(self.st() =~= old(self).st());
                    }
                    Ok(false)
                }
            },
        }
    }

    /// Collects the maximal run of property characters; `values` admits
    /// digits as well.
    #[verifier::loop_isolation(false)]
    fn scan_property_chars(&mut self, values: bool) -> (r: Vec<u32>)
        requires
            old(self).wf(),
        ensures
            final(self).wf(),
            final(self).cfg() == old(self).cfg(),
            same_names(final(self).st(), old(self).st()),
            ({
                let s = spec_scan_prop(old(self).cfg(), old(self).st(), values, Seq::empty());
                r@ == s.0 && final(self).st() == s.1
            }),
            final(self).st().index >= old(self).st().index,
    {
        let ghost cfg = self.cfg();
        let ghost st0 = self.st();
        let mut acc: Vec<u32> = Vec::new();
        loop
            invariant
                self.wf(),
                self.cfg() == cfg,
                same_names(self.st(), st0),
                spec_scan_prop(cfg, st0, values, Seq::empty()) == spec_scan_prop(
                    cfg,
                    self.st(),
                    values,
                    acc@,
                ),
                self.st().index >= st0.index,
            decreases rem(cfg, self.st()),
        {
            let c = self.reader.code_point_with_offset(0);
            let ok = match c {
                Some(cp) => {
                    if values {
                        is_unicode_property_value_character(cp)
                    } else {
                        is_unicode_property_name_character(cp)
                    }
                },
                None => false,
            };
            match c {
                Some(cp) => {
                    if ok {
                        let ghost pre = self.st();
                        self.reader.advance();
                        proof {
                            assert(self.st() == adv(cfg, pre));
                            assert(rem(cfg, self.st()) < rem(cfg, pre));
                        }
                        acc.push(cp);
                    } else {
                        proof {
                            assert(spec_scan_prop(cfg, self.st(), values, acc@) == (
                            acc@,
                            self.st(),
                            ));
                        }
                        return acc;
                    }
                },
                None => {
                    proof {
                        assert(spec_scan_prop(cfg, self.st(), values, acc@) == (acc@, self.st()));
                    }
                    return acc;
                },
            }
        }
    }

    /// The `UnicodePropertyName` characters ahead of the cursor (possibly
    /// none).
    fn eat_unicode_property_name(&mut self) -> (r: Vec<u32>)
        requires
            old(self).wf(),
        ensures
            final(self).wf(),
            final(self).cfg() == old(self).cfg(),
            same_names(final(self).st(), old(self).st()),
            ({
                let s = spec_scan_prop(old(self).cfg(), old(self).st(), false, Seq::empty());
                r@ == s.0 && final(self).st() == s.1
            }),
            final(self).st().index >= old(self).st().index,
    {
        self.scan_property_chars(false)
    }

    /// The `UnicodePropertyValue` characters ahead of the cursor (possibly
    /// none).
    fn eat_unicode_property_value(&mut self) -> (r: Vec<u32>)
        requires
            old(self).wf(),
        ensures
            final(self).wf(),
            final(self).cfg() == old(self).cfg(),
            same_names(final(self).st(), old(self).st()),
            ({
                let s = spec_scan_prop(old(self).cfg(), old(self).st(), true, Seq::empty());
                r@ == s.0 && final(self).st() == s.1
            }),
            final(self).st().index >= old(self).st().index,
    {
        self.scan_property_chars(true)
    }

    /// A `LoneUnicodePropertyNameOrValue`: scanned like a property value.
    fn eat_lone_unicode_property_name_or_value(&mut self) -> (r: Vec<u32>)
        requires
            old(self).wf(),
        ensures
            final(self).wf(),
            final(self).cfg() == old(self).cfg(),
            same_names(final(self).st(), old(self).st()),
            ({
                let s = spec_scan_prop(old(self).cfg(), old(self).st(), true, Seq::empty());
                r@ == s.0 && final(self).st() == s.1
            }),
            final(self).st().index >= old(self).st().index,
    {
        self.eat_unicode_property_value()
    }

    /// The `UnicodePropertyValueExpression` production, validated against
    /// the property tables.
    fn eat_unicode_property_value_expression(&mut self) -> (r: Result<bool, RegexSyntaxError>)
        requires
            old(self).wf(),
        ensures
            final(self).wf(),
            final(self).cfg() == old(self).cfg(),
            same_names(final(self).st(), old(self).st()),
            ({
                let s = spec_property_expression(old(self).cfg(), old(self).st());
                match r {
                    Ok(false) => s == Ok::<Option<PSt>, RegexSyntaxError>(None)
                        && final(self).st() == old(self).st(),
                    Ok(true) => s == Ok::<Option<PSt>, RegexSyntaxError>(Some(final(self).st())),
                    Err(e) => s == Err::<Option<PSt>, RegexSyntaxError>(e),
                }
            }),
            r is Ok ==> final(self).st().index >= old(self).st().index,
    {
        let start = self.reader.index();
        let name = self.eat_unicode_property_name();
        if name.len() > 0 && self.reader.eat('=') {
            let value = self.eat_unicode_property_value();
            if value.len() > 0 {
                if crate::unicode::is_valid_unicode_property(self.ecma_version, &name, &value) {
                    return Ok(true);
                } else {
                    return Err(RegexSyntaxError::InvalidPropertyName);
                }
            }
        }
        self.reader.rewind(start);
        proof {
            assert(self.st() =~= old(self).st());
        }
        let ghost rewound = self.st();
        let lone = self.eat_lone_unicode_property_name_or_value();
        proof {
            crate::grammar::lemma_scan_prop_extends(self.cfg(), rewound, true, Seq::empty());
        }
        if lone.len() > 0 {
            if crate::unicode::is_general_category_value(&lone) {
                Ok(true)
            } else if crate::unicode::is_valid_lone_unicode_property(self.ecma_version, &lone) {
                Ok(true)
            } else {
                Err(RegexSyntaxError::InvalidPropertyName)
            }
        } else {
            Ok(false)
        }
    }

    /// The `CharacterClassEscape` production: `d D s S w W`, and from
    /// ES2018 in Unicode mode `p{...}` / `P{...}` property escapes.
    fn consume_character_class_escape(&mut self) -> (r: Result<bool, RegexSyntaxError>)
        requires
            old(self).wf(),
        ensures
            final(self).wf(),
            final(self).cfg() == old(self).cfg(),
            same_names(final(self).st(), old(self).st()),
            ({
                let s = spec_character_class_escape(old(self).cfg(), old(self).st());
                match r {
                    Ok(b) => s == Ok::<(bool, PSt), RegexSyntaxError>((b, final(self).st())),
                    Err(e) => s == Err::<(bool, PSt), RegexSyntaxError>(e),
                }
            }),
            r is Ok ==> final(self).st().index >= old(self).st().index,
            r == Ok::<bool, RegexSyntaxError>(false) ==> final(self).st() == old(self).st(),
            r == Ok::<bool, RegexSyntaxError>(true) ==> rem(old(self).cfg(), final(self).st())
                < rem(old(self).cfg(), old(self).st()),
    {
        if self.reader.eat('d') || self.reader.eat('D') || self.reader.eat('s') || self.reader.eat(
            'S',
        ) || self.reader.eat('w') || self.reader.eat('W') {
            return Ok(true);
        }
        if self.u_flag && self.ecma_version.at_least(EcmaVersion::ES2018) {
            if self.reader.eat('p') || self.reader.eat('P') {
                if self.reader.eat('{') {
                    match self.eat_unicode_property_value_expression() {
                        Err(e) => {
                            return Err(e);
                        },
                        Ok(true) => {
                            if self.reader.eat('}') {
                                return Ok(true);
                            } else {
                                return Err(RegexSyntaxError::InvalidPropertyName);
                            }
                        },
                        Ok(false) => {
                            return Err(RegexSyntaxError::InvalidPropertyName);
                        },
                    }
                } else {
                    return Err(RegexSyntaxError::InvalidPropertyName);
                }
            }
        }
        Ok(false)
    }

    /// One `RegExpIdentifierStart`, with the code point it denotes.
    fn eat_regexp_identifier_start(&mut self) -> (r: Result<Option<u32>, RegexSyntaxError>)
        requires
            old(self).wf(),
        ensures
            final(self).wf(),
            final(self).cfg() == old(self).cfg(),
            same_names(final(self).st(), old(self).st()),
            ({
                let s = spec_identifier_start(old(self).cfg(), old(self).st());
                match r {
                    Ok(None) => s == Ok::<Option<(nat, PSt)>, RegexSyntaxError>(None)
                        && final(self).st() == old(self).st(),
                    Ok(Some(v)) => s == Ok::<Option<(nat, PSt)>, RegexSyntaxError>(
                        Some((v as nat, final(self).st())),
                    ),
                    Err(e) => s == Err::<Option<(nat, PSt)>, RegexSyntaxError>(e),
                }
            }),
            r is Ok ==> final(self).st().index >= old(self).st().index,
            (r is Ok && r->Ok_0 is Some) ==> rem(old(self).cfg(), final(self).st()) < rem(
                old(self).cfg(),
                old(self).st(),
            ),
    {
        let start = self.reader.index();
        let force = !self.u_flag && self.ecma_version.at_least(EcmaVersion::ES2020);
        let c0 = self.reader.code_point_with_offset(0);
        match c0 {
            None => Ok(None),
            Some(cp) => {
                self.reader.advance();
                if cp == '\\' as u32 {
                    match self.eat_regexp_unicode_escape_sequence(force) {
                        Err(e) => Err(e),
                        Ok(Some(v)) => {
                            if is_regexp_identifier_start(v) {
                                Ok(Some(v))
                            } else {
                                self.reader.rewind(start);
                                proof {
                                    assert(self.st() =~= old(self).st());
                                }
                                Ok(None)
                            }
                        },
                        Ok(None) => {
                            self.reader.rewind(start);
                            proof {
                                assert(self.st() =~= old(self).st());
                            }
                            Ok(None)
                        },
                    }
                } else {
                    let c1 = self.reader.code_point_with_offset(0);
                    let pair = match c1 {
                        Some(t) => force && is_lead_surrogate(cp) && is_trail_surrogate(t),
                        None => false,
                    };
                    if pair {
                        let t = match c1 {
                            Some(t) => t,
                            None => 0,
                        };
                        let comb = combine_surrogate_pair(cp, t);
                        if is_regexp_identifier_start(comb) {
                            self.reader.advance();
                            Ok(Some(comb))
                        } else {
                            self.reader.rewind(start);
                            proof {
                                assert(self.st() =~= old(self).st());
                            }
                            Ok(None)
                        }
                    } else if is_regexp_identifier_start(cp) {
                        Ok(Some(cp))
                    } else {
                        self.reader.rewind(start);
                        proof {
                            assert(self.st() =~= old(self).st());
                        }
                        Ok(None)
                    }
                }
            },
        }
    }

    /// One `RegExpIdentifierPart`, with the code point it denotes.
    fn eat_regexp_identifier_part(&mut self) -> (r: Result<Option<u32>, RegexSyntaxError>)
        requires
            old(self).wf(),
        ensures
            final(self).wf(),
            final(self).cfg() == old(self).cfg(),
            same_names(final(self).st(), old(self).st()),
            ({
                let s = spec_identifier_part(old(self).cfg(), old(self).st());
                match r {
                    Ok(None) => s == Ok::<Option<(nat, PSt)>, RegexSyntaxError>(None)
                        && final(self).st() == old(self).st(),
                    Ok(Some(v)) => s == Ok::<Option<(nat, PSt)>, RegexSyntaxError>(
                        Some((v as nat, final(self).st())),
                    ),
                    Err(e) => s == Err::<Option<(nat, PSt)>, RegexSyntaxError>(e),
                }
            }),
            r is Ok ==> final(self).st().index >= old(self).st().index,
            (r is Ok && r->Ok_0 is Some) ==> rem(old(self).cfg(), final(self).st()) < rem(
                old(self).cfg(),
                old(self).st(),
            ),
    {
        let start = self.reader.index();
        let force = !self.u_flag && self.ecma_version.at_least(EcmaVersion::ES2020);
        let c0 = self.reader.code_point_with_offset(0);
        match c0 {
            None => Ok(None),
            Some(cp) => {
                self.reader.advance();
                if cp == '\\' as u32 {
                    match self.eat_regexp_unicode_escape_sequence(force) {
                        Err(e) => Err(e),
                        Ok(Some(v)) => {
                            if is_regexp_identifier_part(v) {
                                Ok(Some(v))
                            } else {
                                self.reader.rewind(start);
                                proof {
                                    assert(self.st() =~= old(self).st());
                                }
                                Ok(None)
                            }
                        },
                        Ok(None) => {
                            self.reader.rewind(start);
                            proof {
                                assert(self.st() =~= old(self).st());
                            }
                            Ok(None)
                        },
                    }
                } else {
                    let c1 = self.reader.code_point_with_offset(0);
                    let pair = match c1 {
                        Some(t) => force && is_lead_surrogate(cp) && is_trail_surrogate(t),
                        None => false,
                    };
                    if pair {
                        let t = match c1 {
                            Some(t) => t,
                            None => 0,
                        };
                        let comb = combine_surrogate_pair(cp, t);
                        if is_regexp_identifier_part(comb) {
                            self.reader.advance();
                            Ok(Some(comb))
                        } else {
                            self.reader.rewind(start);
                            proof {
                                assert(self.st() =~= old(self).st());
                            }
                            Ok(None)
                        }
                    } else if is_regexp_identifier_part(cp) {
                        Ok(Some(cp))
                    } else {
                        self.reader.rewind(start);
                        proof {
                            assert(self.st() =~= old(self).st());
                        }
                        Ok(None)
                    }
                }
            },
        }
    }

    /// The `RegExpIdentifierName` production, collecting its code points.
    #[verifier::loop_isolation(false)]
    fn eat_regexp_identifier_name(&mut self) -> (r: Result<Option<Vec<u32>>, RegexSyntaxError>)
        requires
            old(self).wf(),
        ensures
            final(self).wf(),
            final(self).cfg() == old(self).cfg(),
            same_names(final(self).st(), old(self).st()),
            ({
                let s = spec_identifier_name(old(self).cfg(), old(self).st());
                match r {
                    Ok(None) => s == Ok::<Option<(Seq<u32>, PSt)>, RegexSyntaxError>(None)
                        && final(self).st() == old(self).st(),
                    Ok(Some(name)) => s == Ok::<Option<(Seq<u32>, PSt)>, RegexSyntaxError>(
                        Some((name@, final(self).st())),
                    ),
                    Err(e) => s == Err::<Option<(Seq<u32>, PSt)>, RegexSyntaxError>(e),
                }
            }),
            r is Ok ==> final(self).st().index >= old(self).st().index,
    {
        let first = match self.eat_regexp_identifier_start() {
            Err(e) => {
                return Err(e);
            },
            Ok(None) => {
                return Ok(None);
            },
            Ok(Some(v)) => v,
        };
        let ghost cfg = self.cfg();
        let mut name: Vec<u32> = Vec::new();
        name.push(first);
        proof {
            assert(name@ =~= seq![first]);
        }
        loop
            invariant
                self.wf(),
                self.cfg() == cfg,
                same_names(self.st(), old(self).st()),
                self.st().index >= old(self).st().index,
                spec_identifier_name(old(self).cfg(), old(self).st()) == match spec_identifier_parts(
                    cfg,
                    self.st(),
                    name@,
                ) {
                    Err(e) => Err::<Option<(Seq<u32>, PSt)>, RegexSyntaxError>(e),
                    Ok((nm, st2)) => Ok::<Option<(Seq<u32>, PSt)>, RegexSyntaxError>(
                        Some((nm, st2)),
                    ),
                },
            decreases rem(cfg, self.st()),
        {
            match self.eat_regexp_identifier_part() {
                Err(e) => {
                    return Err(e);
                },
                Ok(None) => {
                    return Ok(Some(name));
                },
                Ok(Some(v)) => {
                    name.push(v);
                },
            }
        }
    }

    /// The `GroupSpecifier` production: `?` plus a group name declares the
    /// name; a repeated name is a hard error, as is `?` without a name.
    fn consume_group_specifier(&mut self) -> (r: Result<bool, RegexSyntaxError>)
        requires
            old(self).wf(),
        ensures
            final(self).wf(),
            final(self).cfg() == old(self).cfg(),
            ({
                let s = spec_group_specifier(old(self).cfg(), old(self).st());
                match r {
                    Ok(b) => s == Ok::<(bool, PSt), RegexSyntaxError>((b, final(self).st())),
                    Err(e) => s == Err::<(bool, PSt), RegexSyntaxError>(e),
                }
            }),
            r is Ok ==> final(self).st().index >= old(self).st().index,
            r == Ok::<bool, RegexSyntaxError>(false) ==> final(self).st() == old(self).st(),
    {
        if !self.reader.eat('?') {
            reveal_with_fuel(spec_group_specifier, 1);
            return Ok(false);
        }
        match self.eat_group_name() {
            Err(e) => {
                reveal_with_fuel(spec_group_specifier, 1);
                Err(e)
            },
            Ok(None) => {
                reveal_with_fuel(spec_group_specifier, 1);
                Err(RegexSyntaxError::InvalidGroup)
            },
            Ok(Some(name)) => {
                let fresh = !contains_name(&self.group_names, &name);
                reveal_with_fuel(spec_group_specifier, 1);
                if fresh {
                    push_name(&mut self.group_names, name);
                    proof {
                        reveal_with_fuel(spec_group_specifier, 1);
                    }
                    Ok(true)
                } else {
                    Err(RegexSyntaxError::DuplicateCaptureGroupName)
                }
            },
        }
    }

    /// `k GroupName`, recording the referenced name for the end-of-pattern
    /// resolution check.
    fn consume_k_group_name(&mut self) -> (r: Result<bool, RegexSyntaxError>)
        requires
            old(self).wf(),
        ensures
            final(self).wf(),
            final(self).cfg() == old(self).cfg(),
            ({
                let s = spec_k_group_name(old(self).cfg(), old(self).st());
                match r {
                    Ok(b) => s == Ok::<(bool, PSt), RegexSyntaxError>((b, final(self).st())),
                    Err(e) => s == Err::<(bool, PSt), RegexSyntaxError>(e),
                }
            }),
            r is Ok ==> final(self).st().index >= old(self).st().index,
            r == Ok::<bool, RegexSyntaxError>(false) ==> final(self).st() == old(self).st(),
    {
        if !self.reader.eat('k') {
            return Ok(false);
        }
        match self.eat_group_name() {
            Err(e) => Err(e),
            Ok(None) => Err(RegexSyntaxError::InvalidNamedReference),
            Ok(Some(name)) => {
                push_name(&mut self.backreference_names, name);
                Ok(true)
            },
        }
    }

    /// The `AtomEscape` production: backreference, class escape, character
    /// escape, or (in named-capture mode) `\k<name>`.
    fn consume_atom_escape(&mut self) -> (r: Result<bool, RegexSyntaxError>)
        requires
            old(self).wf(),
        ensures
            final(self).wf(),
            final(self).cfg() == old(self).cfg(),
            ({
                let s = spec_atom_escape(old(self).cfg(), old(self).st());
                match r {
                    Ok(b) => s == Ok::<(bool, PSt), RegexSyntaxError>((b, final(self).st())),
                    Err(e) => s == Err::<(bool, PSt), RegexSyntaxError>(e),
                }
            }),
            r is Ok ==> final(self).st().index >= old(self).st().index,
            r == Ok::<bool, RegexSyntaxError>(false) ==> final(self).st() == old(self).st(),
    {
        match self.consume_backreference() {
            Err(e) => {
                reveal_with_fuel(spec_atom_escape, 1);
                return Err(e);
            },
            Ok(true) => {
                reveal_with_fuel(spec_atom_escape, 1);
                return Ok(true);
            },
            Ok(false) => {},
        }
        match self.consume_character_class_escape() {
            Err(e) => {
                reveal_with_fuel(spec_atom_escape, 1);
                return Err(e);
            },
            Ok(true) => {
                reveal_with_fuel(spec_atom_escape, 1);
                return Ok(true);
            },
            Ok(false) => {},
        }
        match self.consume_character_escape() {
            Err(e) => {
                reveal_with_fuel(spec_atom_escape, 1);
                return Err(e);
            },
            Ok(Some(_)) => {
                reveal_with_fuel(spec_atom_escape, 1);
                return Ok(true);
            },
            Ok(None) => {},
        }
        if self.n_flag {
            match self.consume_k_group_name() {
                Err(e) => {
                    reveal_with_fuel(spec_atom_escape, 1);
                    return Err(e);
                },
                Ok(true) => {
                    reveal_with_fuel(spec_atom_escape, 1);
                    return Ok(true);
                },
                Ok(false) => {},
            }
        }
        reveal_with_fuel(spec_atom_escape, 1);
        if self.u_flag {
            Err(RegexSyntaxError::InvalidEscape)
        } else {
            Ok(false)
        }
    }

    /// The `ClassEscape` production, with the code point it stands for —
    /// `None` when it stands for a whole character set (`\d`, `\p{..}`).
    fn consume_class_escape(&mut self) -> (r: Result<Option<Option<u32>>, RegexSyntaxError>)
        requires
            old(self).wf(),
        ensures
            final(self).wf(),
            final(self).cfg() == old(self).cfg(),
            same_names(final(self).st(), old(self).st()),
            ({
                let s = spec_class_escape(old(self).cfg(), old(self).st());
                match r {
                    Ok(None) => s == Ok::<Option<(Option<nat>, PSt)>, RegexSyntaxError>(None)
                        && final(self).st() == old(self).st(),
                    Ok(Some(None)) => s == Ok::<Option<(Option<nat>, PSt)>, RegexSyntaxError>(
                        Some((None, final(self).st())),
                    ),
                    Ok(Some(Some(v))) => s == Ok::<Option<(Option<nat>, PSt)>, RegexSyntaxError>(
                        Some((Some(v as nat), final(self).st())),
                    ),
                    Err(e) => s == Err::<Option<(Option<nat>, PSt)>, RegexSyntaxError>(e),
                }
            }),
            r is Ok ==> final(self).st().index >= old(self).st().index,
            (r is Ok && r->Ok_0 is Some) ==> rem(old(self).cfg(), final(self).st()) < rem(
                old(self).cfg(),
                old(self).st(),
            ),
    {
        if self.reader.eat('b') {
            return Ok(Some(Some(0x8)));
        }
        if self.u_flag && self.reader.eat('-') {
            return Ok(Some(Some(0x2D)));
        }
        if !self.u_flag && self.reader.code_point_with_offset(0) == Some('c' as u32) {
            match self.reader.code_point_with_offset(1) {
                Some(cp1) => {
                    if (0x30 <= cp1 && cp1 <= 0x39) || cp1 == '_' as u32 {
                        self.reader.advance();
                        self.reader.advance();
                        return Ok(Some(Some(cp1 % 0x20)));
                    }
                },
                None => {},
            }
        }
        match self.consume_character_class_escape() {
            Err(e) => {
                return Err(e);
            },
            Ok(true) => {
                return Ok(Some(None));
            },
            Ok(false) => {},
        }
        match self.consume_character_escape() {
            Err(e) => Err(e),
            Ok(Some(v)) => Ok(Some(Some(v))),
            Ok(None) => Ok(None),
        }
    }

    /// The `ClassAtom` production, with the code point it stands for
    /// (`None` for a character-set escape); `Ok(None)` when no atom starts
    /// here.
    fn consume_class_atom(&mut self) -> (r: Result<Option<Option<u32>>, RegexSyntaxError>)
        requires
            old(self).wf(),
        ensures
            final(self).wf(),
            final(self).cfg() == old(self).cfg(),
            same_names(final(self).st(), old(self).st()),
            ({
                let s = spec_class_atom(old(self).cfg(), old(self).st());
                match r {
                    Ok(None) => s == Ok::<Option<(Option<nat>, PSt)>, RegexSyntaxError>(None)
                        && final(self).st() == old(self).st(),
                    Ok(Some(None)) => s == Ok::<Option<(Option<nat>, PSt)>, RegexSyntaxError>(
                        Some((None, final(self).st())),
                    ),
                    Ok(Some(Some(v))) => s == Ok::<Option<(Option<nat>, PSt)>, RegexSyntaxError>(
                        Some((Some(v as nat), final(self).st())),
                    ),
                    Err(e) => s == Err::<Option<(Option<nat>, PSt)>, RegexSyntaxError>(e),
                }
            }),
            r is Ok ==> final(self).st().index >= old(self).st().index,
            (r is Ok && r->Ok_0 is Some) ==> rem(old(self).cfg(), final(self).st()) < rem(
                old(self).cfg(),
                old(self).st(),
            ),
    {
        let c0 = self.reader.code_point_with_offset(0);
        match c0 {
            Some(cp) => {
                if cp != '\\' as u32 && cp != ']' as u32 {
                    self.reader.advance();
                    return Ok(Some(Some(cp)));
                }
            },
            None => {},
        }
        let start = self.reader.index();
        if !self.reader.eat('\\') {
            return Ok(None);
        }
        match self.consume_class_escape() {
            Err(e) => {
                return Err(e);
            },
            Ok(Some(v)) => {
                return Ok(Some(v));
            },
            Ok(None) => {},
        }
        if !self.u_flag && self.reader.code_point_with_offset(0) == Some('c' as u32) {
            return Ok(Some(Some('\\' as u32)));
        }
        if self.u_flag {
            return Err(RegexSyntaxError::InvalidEscape);
        }
        self.reader.rewind(start);
        proof {
            assert(self.st() =~= old(self).st());
        }
        Ok(None)
    }

    /// The `ClassRanges` production: class atoms, `-` ranges checked per
    /// pair, left to right.
    #[verifier::loop_isolation(false)]
    fn consume_class_ranges(&mut self) -> (r: Result<(), RegexSyntaxError>)
        requires
            old(self).wf(),
        ensures
            final(self).wf(),
            final(self).cfg() == old(self).cfg(),
            same_names(final(self).st(), old(self).st()),
            ({
                let s = spec_class_ranges(old(self).cfg(), old(self).st());
                match r {
                    Ok(()) => s == Ok::<PSt, RegexSyntaxError>(final(self).st()),
                    Err(e) => s == Err::<PSt, RegexSyntaxError>(e),
                }
            }),
            r is Ok ==> final(self).st().index >= old(self).st().index,
    {
        let ghost cfg = self.cfg();
        loop
            invariant
                self.wf(),
                self.cfg() == cfg,
                same_names(self.st(), old(self).st()),
                self.st().index >= old(self).st().index,
                spec_class_ranges(old(self).cfg(), old(self).st()) == spec_class_ranges(
                    cfg,
                    self.st(),
                ),
            decreases rem(cfg, self.st()),
        {
            let ghost iter0 = self.st();
            let lo = match self.consume_class_atom() {
                Err(e) => {
                    return Err(e);
                },
                Ok(None) => {
                    return Ok(());
                },
                Ok(Some(v)) => v,
            };
            if !self.reader.eat('-') {
                proof {
                    assert(spec_class_ranges(cfg, iter0) == spec_class_ranges(cfg, self.st()));
                }
                continue ;
            }
            let hi = match self.consume_class_atom() {
                Err(e) => {
                    return Err(e);
                },
                Ok(None) => {
                    return Ok(());
                },
                Ok(Some(v)) => v,
            };
            let set_endpoint = match (lo, hi) {
                (Some(_), Some(_)) => false,
                _ => true,
            };
            if set_endpoint {
                if self.u_flag {
                    return Err(RegexSyntaxError::InvalidCharacterClass);
                }
            } else {
                let lov = match lo {
                    Some(v) => v,
                    None => 0,
                };
                let hiv = match hi {
                    Some(v) => v,
                    None => 0,
                };
                if lov > hiv {
                    return Err(RegexSyntaxError::RangeOutOfOrderInCharacterClass);
                }
            }
            proof {
                assert(spec_class_ranges(cfg, iter0) == spec_class_ranges(cfg, self.st()));
            }
        }
    }

    /// The `CharacterClass` production: `[ ClassRanges ]`.
    fn consume_character_class(&mut self) -> (r: Result<bool, RegexSyntaxError>)
        requires
            old(self).wf(),
        ensures
            final(self).wf(),
            final(self).cfg() == old(self).cfg(),
            same_names(final(self).st(), old(self).st()),
            ({
                let s = spec_character_class(old(self).cfg(), old(self).st());
                match r {
                    Ok(b) => s == Ok::<(bool, PSt), RegexSyntaxError>((b, final(self).st())),
                    Err(e) => s == Err::<(bool, PSt), RegexSyntaxError>(e),
                }
            }),
            r is Ok ==> final(self).st().index >= old(self).st().index,
            r == Ok::<bool, RegexSyntaxError>(false) ==> final(self).st() == old(self).st(),
            r == Ok::<bool, RegexSyntaxError>(true) ==> rem(old(self).cfg(), final(self).st())
                < rem(old(self).cfg(), old(self).st()),
    {
        if !self.reader.eat('[') {
            reveal_with_fuel(spec_character_class, 1);
            return Ok(false);
        }
        match self.consume_class_ranges() {
            Err(e) => {
                reveal_with_fuel(spec_character_class, 1);
                return Err(e);
            },
            Ok(()) => {},
        }
        let closed = self.reader.eat(']');
        reveal_with_fuel(spec_character_class, 1);
        if closed {
            Ok(true)
        } else {
            Err(RegexSyntaxError::UnterminatedCharacterClass)
        }
    }

    /// `{ DecimalDigits }`, `{ DecimalDigits ,}` or `{ DecimalDigits ,
    /// DecimalDigits }`.  With `no_error` set (the probe used by the
    /// nothing-to-repeat check) malformed or out-of-order forms never raise.
    fn eat_braced_quantifier(&mut self, no_error: bool) -> (r: Result<bool, RegexSyntaxError>)
        requires
            old(self).wf(),
        ensures
            final(self).wf(),
            final(self).cfg() == old(self).cfg(),
            same_names(final(self).st(), old(self).st()),
            ({
                let s = spec_braced_quantifier(old(self).cfg(), old(self).st(), no_error);
                match r {
                    Ok(b) => s == Ok::<(bool, PSt), RegexSyntaxError>((b, final(self).st())),
                    Err(e) => s == Err::<(bool, PSt), RegexSyntaxError>(e),
                }
            }),
            r is Ok ==> final(self).st().index >= old(self).st().index,
            r == Ok::<bool, RegexSyntaxError>(false) ==> final(self).st() == old(self).st(),
            r == Ok::<bool, RegexSyntaxError>(true) ==> rem(old(self).cfg(), final(self).st())
                < rem(old(self).cfg(), old(self).st()),
    {
        let start = self.reader.index();
        if !self.reader.eat('{') {
            return Ok(false);
        }
        match self.eat_decimal_digits() {
            Some(min) => {
                let max_bound: Option<u64>;
                if self.reader.eat(',') {
                    match self.eat_decimal_digits() {
                        Some(mx) => {
                            max_bound = Some(mx);
                        },
                        None => {
                            max_bound = None;
                        },
                    }
                } else {
                    max_bound = Some(min);
                }
                if self.reader.eat('}') {
                    let out_of_order = match max_bound {
                        Some(mx) => mx < min,
                        None => false,
                    };
                    if !no_error && out_of_order {
                        return Err(RegexSyntaxError::NumbersOutOfOrderInQuantifier);
                    }
                    return Ok(true);
                }
            },
            None => {},
        }
        if !no_error && self.u_flag {
            return Err(RegexSyntaxError::IncompleteQuantifier);
        }
        self.reader.rewind(start);
        proof {
            assert(self.st() =~= old(self).st());
        }
        Ok(false)
    }

    /// The `Quantifier` production: `*`, `+`, `?` or a braced form, each
    /// with an optional lazy `?`.
    fn consume_quantifier(&mut self, no_error: bool) -> (r: Result<bool, RegexSyntaxError>)
        requires
            old(self).wf(),
        ensures
            final(self).wf(),
            final(self).cfg() == old(self).cfg(),
            same_names(final(self).st(), old(self).st()),
            ({
                let s = spec_quantifier(old(self).cfg(), old(self).st(), no_error);
                match r {
                    Ok(b) => s == Ok::<(bool, PSt), RegexSyntaxError>((b, final(self).st())),
                    Err(e) => s == Err::<(bool, PSt), RegexSyntaxError>(e),
                }
            }),
            r is Ok ==> final(self).st().index >= old(self).st().index,
            r == Ok::<bool, RegexSyntaxError>(false) ==> final(self).st() == old(self).st(),
            r == Ok::<bool, RegexSyntaxError>(true) ==> rem(old(self).cfg(), final(self).st())
                < rem(old(self).cfg(), old(self).st()),
    {
        if self.reader.eat('*') || self.reader.eat('+') || self.reader.eat('?') {
            let _lazy = self.reader.eat('?');
            reveal_with_fuel(spec_quantifier, 1);
            return Ok(true);
        }
        match self.eat_braced_quantifier(no_error) {
            Err(e) => {
                reveal_with_fuel(spec_quantifier, 1);
                Err(e)
            },
            Ok(true) => {
                let _lazy = self.reader.eat('?');
                reveal_with_fuel(spec_quantifier, 1);
                Ok(true)
            },
            Ok(false) => {
                reveal_with_fuel(spec_quantifier, 1);
                Ok(false)
            },
        }
    }

    /// After an atom: a quantifier may follow; either way the term stands.
    fn consume_optional_quantifier(&mut self) -> (r: Result<bool, RegexSyntaxError>)
        requires
            old(self).wf(),
        ensures
            final(self).wf(),
            final(self).cfg() == old(self).cfg(),
            same_names(final(self).st(), old(self).st()),
            ({
                let s = spec_quantifier(old(self).cfg(), old(self).st(), false);
                match r {
                    Ok(b) => b && s is Ok && s->Ok_0.1 == final(self).st(),
                    Err(e) => s == Err::<(bool, PSt), RegexSyntaxError>(e),
                }
            }),
            r is Ok ==> final(self).st().index >= old(self).st().index,
    {
        match self.consume_quantifier(false) {
            Err(e) => Err(e),
            Ok(_) => Ok(true),
        }
    }

    /// A braced quantifier probed where no atom precedes it: matching one
    /// is the "nothing to repeat" error.
    fn consume_invalid_braced_quantifier(&mut self) -> (r: Result<bool, RegexSyntaxError>)
        requires
            old(self).wf(),
        ensures
            final(self).wf(),
            final(self).cfg() == old(self).cfg(),
            same_names(final(self).st(), old(self).st()),
            ({
                let s = spec_invalid_braced_quantifier(old(self).cfg(), old(self).st());
                match r {
                    Ok(b) => s == Ok::<(bool, PSt), RegexSyntaxError>((b, final(self).st())),
                    Err(e) => s == Err::<(bool, PSt), RegexSyntaxError>(e),
                }
            }),
            r is Ok ==> final(self).st() == old(self).st(),
            r is Ok ==> r == Ok::<bool, RegexSyntaxError>(false),
    {
        match self.eat_braced_quantifier(true) {
            Err(e) => Err(e),
            Ok(true) => Err(RegexSyntaxError::NothingToRepeat),
            Ok(false) => Ok(false),
        }
    }

    /// A `PatternCharacter`: any source character that is not a syntax
    /// character.
    fn consume_pattern_character(&mut self) -> (r: bool)
        requires
            old(self).wf(),
        ensures
            final(self).wf(),
            final(self).cfg() == old(self).cfg(),
            same_names(final(self).st(), old(self).st()),
            ({
                let s = spec_pattern_character(old(self).cfg(), old(self).st());
                r == s.0 && final(self).st() == s.1
            }),
            !r ==> final(self).st() == old(self).st(),
            r ==> rem(old(self).cfg(), final(self).st()) < rem(old(self).cfg(), old(self).st()),
    {
        match self.reader.code_point_with_offset(0) {
            Some(cp) => {
                if !is_syntax_character(cp) {
                    self.reader.advance();
                    true
                } else {
                    false
                }
            },
            None => false,
        }
    }

    /// `.`, the any-character atom.
    fn consume_dot(&mut self) -> (r: bool)
        requires
            old(self).wf(),
        ensures
            final(self).wf(),
            final(self).cfg() == old(self).cfg(),
            same_names(final(self).st(), old(self).st()),
            ({
                let m = eat1(old(self).cfg(), old(self).st(), '.' as u32);
                match m {
                    Some(st1) => r && final(self).st() == st1,
                    None => !r && final(self).st() == old(self).st(),
                }
            }),
            r ==> rem(old(self).cfg(), final(self).st()) < rem(old(self).cfg(), old(self).st()),
    {
        self.reader.eat('.')
    }

    /// An `ExtendedPatternCharacter`: anything but `^ $ \ . * + ? ( ) [ |`.
    fn consume_extended_pattern_character(&mut self) -> (r: bool)
        requires
            old(self).wf(),
        ensures
            final(self).wf(),
            final(self).cfg() == old(self).cfg(),
            same_names(final(self).st(), old(self).st()),
            ({
                let s = spec_extended_pattern_character(old(self).cfg(), old(self).st());
                r == s.0 && final(self).st() == s.1
            }),
            !r ==> final(self).st() == old(self).st(),
            r ==> rem(old(self).cfg(), final(self).st()) < rem(old(self).cfg(), old(self).st()),
    {
        match self.reader.code_point_with_offset(0) {
            Some(cp) => {
                if cp != '^' as u32 && cp != '$' as u32 && cp != '\\' as u32 && cp != '.' as u32
                    && cp != '*' as u32 && cp != '+' as u32 && cp != '?' as u32 && cp != '(' as u32
                    && cp != ')' as u32 && cp != '[' as u32 && cp != '|' as u32 {
                    self.reader.advance();
                    true
                } else {
                    false
                }
            },
            None => false,
        }
    }

    /// `\` in front of `c`: annex-B treats the backslash as a literal atom.
    fn consume_reverse_solidus_followed_by_c(&mut self) -> (r: bool)
        requires
            old(self).wf(),
        ensures
            final(self).wf(),
            final(self).cfg() == old(self).cfg(),
            same_names(final(self).st(), old(self).st()),
            ({
                let s = spec_backslash_before_c(old(self).cfg(), old(self).st());
                r == s.0 && final(self).st() == s.1
            }),
            !r ==> final(self).st() == old(self).st(),
            r ==> rem(old(self).cfg(), final(self).st()) < rem(old(self).cfg(), old(self).st()),
    {
        if self.reader.code_point_with_offset(0) == Some('\\' as u32)
            && self.reader.code_point_with_offset(1) == Some('c' as u32) {
            self.reader.advance();
            true
        } else {
            false
        }
    }

    /// `\ AtomEscape`, restoring the cursor when no escape form matches.
    fn consume_reverse_solidus_atom_escape(&mut self) -> (r: Result<bool, RegexSyntaxError>)
        requires
            old(self).wf(),
        ensures
            final(self).wf(),
            final(self).cfg() == old(self).cfg(),
            ({
                let s = spec_backslash_atom_escape(old(self).cfg(), old(self).st());
                match r {
                    Ok(b) => s == Ok::<(bool, PSt), RegexSyntaxError>((b, final(self).st())),
                    Err(e) => s == Err::<(bool, PSt), RegexSyntaxError>(e),
                }
            }),
            r is Ok ==> final(self).st().index >= old(self).st().index,
            r == Ok::<bool, RegexSyntaxError>(false) ==> final(self).st() == old(self).st(),
            r == Ok::<bool, RegexSyntaxError>(true) ==> rem(old(self).cfg(), final(self).st())
                < rem(old(self).cfg(), old(self).st()),
    {
        let start = self.reader.index();
        if !self.reader.eat('\\') {
            return Ok(false);
        }
        match self.consume_atom_escape() {
            Err(e) => Err(e),
            Ok(true) => Ok(true),
            Ok(false) => {
                self.reader.rewind(start);
                proof {
                    assert(self.st() =~= old(self).st());
                }
                Ok(false)
            },
        }
    }

    /// `(?:` Disjunction `)`.
    #[verifier::rlimit(100)]
    fn consume_uncapturing_group(&mut self) -> (r: Result<bool, RegexSyntaxError>)
        requires
            old(self).wf(),
        ensures
            final(self).wf(),
            final(self).cfg() == old(self).cfg(),
            ({
                let s = spec_uncapturing_group(old(self).cfg(), old(self).st());
                match r {
                    Ok(b) => s == Ok::<(bool, PSt), RegexSyntaxError>((b, final(self).st())),
                    Err(e) => s == Err::<(bool, PSt), RegexSyntaxError>(e),
                }
            }),
            r is Ok ==> final(self).st().index >= old(self).st().index,
            r == Ok::<bool, RegexSyntaxError>(false) ==> final(self).st() == old(self).st(),
            r == Ok::<bool, RegexSyntaxError>(true) ==> rem(old(self).cfg(), final(self).st())
                < rem(old(self).cfg(), old(self).st()),
        decreases rem(self.cfg(), self.st()), 3int,
    {
        if !self.reader.eat3('(', '?', ':') {
            return Ok(false);
        }
        match self.consume_disjunction() {
            Err(e) => {
                return Err(e);
            },
            Ok(()) => {},
        }
        let closed = self.reader.eat(')');
        if closed {
            Ok(true)
        } else {
            Err(RegexSyntaxError::UnterminatedGroup)
        }
    }

    /// `(` GroupSpecifier Disjunction `)`; before ES2018 a `(?` that no
    /// other alternative claimed is an invalid group.
    #[verifier::rlimit(100)]
    fn consume_capturing_group(&mut self) -> (r: Result<bool, RegexSyntaxError>)
        requires
            old(self).wf(),
        ensures
            final(self).wf(),
            final(self).cfg() == old(self).cfg(),
            ({
                let s = spec_capturing_group(old(self).cfg(), old(self).st());
                match r {
                    Ok(b) => s == Ok::<(bool, PSt), RegexSyntaxError>((b, final(self).st())),
                    Err(e) => s == Err::<(bool, PSt), RegexSyntaxError>(e),
                }
            }),
            r is Ok ==> final(self).st().index >= old(self).st().index,
            r == Ok::<bool, RegexSyntaxError>(false) ==> final(self).st() == old(self).st(),
            r == Ok::<bool, RegexSyntaxError>(true) ==> rem(old(self).cfg(), final(self).st())
                < rem(old(self).cfg(), old(self).st()),
        decreases rem(self.cfg(), self.st()), 3int,
    {
        let ghost cfg0 = old(self).cfg();
        let ghost st0 = old(self).st();
        if !self.reader.eat('(') {
            return Ok(false);
        }
        let ghost st1 = self.st();
        proof {
            assert(eat1(cfg0, st0, '(' as u32) == Some(st1));
            assert(st0.index < st1.index <= cfg0.end);
        }
        if self.ecma_version.at_least(EcmaVersion::ES2018) {
            match self.consume_group_specifier() {
                Err(e) => {
                    return Err(e);
                },
                Ok(_) => {},
            }
        } else if self.reader.code_point_with_offset(0) == Some('?' as u32) {
            return Err(RegexSyntaxError::InvalidGroup);
        }
        let ghost st2 = self.st();
        proof {
            assert(st2.index >= st1.index);
            assert(rem(cfg0, st2) < rem(cfg0, st0));
        }
        match self.consume_disjunction() {
            Err(e) => {
                return Err(e);
            },
            Ok(()) => {},
        }
        let closed = self.reader.eat(')');
        if closed {
            Ok(true)
        } else {
            Err(RegexSyntaxError::UnterminatedGroup)
        }
    }

    /// The `Assertion` production: `^`, `$`, `\b`, `\B`, lookaheads, and
    /// from ES2018 lookbehinds.  `Ok(Some(q))` reports a match that is
    /// quantifiable iff `q`.
    #[verifier::rlimit(100)]
    fn consume_assertion(&mut self) -> (r: Result<Option<bool>, RegexSyntaxError>)
        requires
            old(self).wf(),
        ensures
            final(self).wf(),
            final(self).cfg() == old(self).cfg(),
            ({
                let s = spec_assertion(old(self).cfg(), old(self).st());
                match r {
                    Ok(q) => s == Ok::<(Option<bool>, PSt), RegexSyntaxError>(
                        (q, final(self).st()),
                    ),
                    Err(e) => s == Err::<(Option<bool>, PSt), RegexSyntaxError>(e),
                }
            }),
            r is Ok ==> final(self).st().index >= old(self).st().index,
            (r is Ok && r->Ok_0 is None) ==> final(self).st() == old(self).st(),
            (r is Ok && r->Ok_0 is Some) ==> rem(old(self).cfg(), final(self).st()) < rem(
                old(self).cfg(),
                old(self).st(),
            ),
        decreases rem(self.cfg(), self.st()), 5int,
    {
        if self.reader.eat('^') || self.reader.eat('$') || self.reader.eat2('\\', 'B')
            || self.reader.eat2('\\', 'b') {
            return Ok(Some(false));
        }
        let r = self.consume_lookaround_assertion();
        r
    }

    /// The opening of a group-shaped assertion: `(?=`, `(?!`, and from
    /// ES2018 `(?<=`, `(?<!`; `Some` carries whether it is a lookbehind.
    fn consume_lookaround_prefix(&mut self) -> (r: Option<bool>)
        requires
            old(self).wf(),
        ensures
            final(self).wf(),
            final(self).cfg() == old(self).cfg(),
            same_names(final(self).st(), old(self).st()),
            ({
                let s = spec_lookaround_prefix(old(self).cfg(), old(self).st());
                match r {
                    None => s is None && final(self).st() == old(self).st(),
                    Some(lb) => s == Some((lb, final(self).st())),
                }
            }),
            r is Some ==> rem(old(self).cfg(), final(self).st()) < rem(
                old(self).cfg(),
                old(self).st(),
            ),
    {
        let ghost cfg = old(self).cfg();
        let ghost st0 = old(self).st();
        let start = self.reader.index();
        if !self.reader.eat2('(', '?') {
            return None;
        }
        let ghost st1 = self.st();
        let lookbehind = self.ecma_version.at_least(EcmaVersion::ES2018) && self.reader.eat('<');
        let ghost st2 = self.st();
        proof {
            if lookbehind {
                assert(eat1(cfg, st1, '<' as u32) == Some(st2));
            } else {
                assert(st2 == st1);
            }
        }
        if self.reader.eat('=') || self.reader.eat('!') {
            return Some(lookbehind);
        }
        self.reader.rewind(start);
        proof {
            assert(self.st() =~= old(self).st());
        }
        None
    }

    /// The group-shaped assertions: lookaheads `(?=` / `(?!`, and from
    /// ES2018 lookbehinds `(?<=` / `(?<!`.
    fn consume_lookaround_assertion(&mut self) -> (r: Result<Option<bool>, RegexSyntaxError>)
        requires
            old(self).wf(),
        ensures
            final(self).wf(),
            final(self).cfg() == old(self).cfg(),
            ({
                let s = spec_lookaround_assertion(old(self).cfg(), old(self).st());
                match r {
                    Ok(q) => s == Ok::<(Option<bool>, PSt), RegexSyntaxError>(
                        (q, final(self).st()),
                    ),
                    Err(e) => s == Err::<(Option<bool>, PSt), RegexSyntaxError>(e),
                }
            }),
            r is Ok ==> final(self).st().index >= old(self).st().index,
            (r is Ok && r->Ok_0 is None) ==> final(self).st() == old(self).st(),
            (r is Ok && r->Ok_0 is Some) ==> rem(old(self).cfg(), final(self).st()) < rem(
                old(self).cfg(),
                old(self).st(),
            ),
        decreases rem(self.cfg(), self.st()), 4int,
    {
        let lookbehind = match self.consume_lookaround_prefix() {
            None => {
                return Ok(None);
            },
            Some(lb) => lb,
        };
        match self.consume_disjunction() {
            Err(e) => {
                return Err(e);
            },
            Ok(()) => {},
        }
        let closed = self.reader.eat(')');
        if closed {
            Ok(Some(!lookbehind && !self.u_flag))
        } else {
            Err(RegexSyntaxError::UnterminatedGroup)
        }
    }

    /// The `Atom` production of the strict grammar.
    #[verifier::rlimit(100)]
    fn consume_atom(&mut self) -> (r: Result<bool, RegexSyntaxError>)
        requires
            old(self).wf(),
        ensures
            final(self).wf(),
            final(self).cfg() == old(self).cfg(),
            ({
                let s = spec_atom(old(self).cfg(), old(self).st());
                match r {
                    Ok(b) => s == Ok::<(bool, PSt), RegexSyntaxError>((b, final(self).st())),
                    Err(e) => s == Err::<(bool, PSt), RegexSyntaxError>(e),
                }
            }),
            r is Ok ==> final(self).st().index >= old(self).st().index,
            r == Ok::<bool, RegexSyntaxError>(false) ==> final(self).st() == old(self).st(),
            r == Ok::<bool, RegexSyntaxError>(true) ==> rem(old(self).cfg(), final(self).st())
                < rem(old(self).cfg(), old(self).st()),
        decreases rem(self.cfg(), self.st()), 4int,
    {
        if self.consume_pattern_character() {
            return Ok(true);
        }
        if self.consume_dot() {
            return Ok(true);
        }
        match self.consume_reverse_solidus_atom_escape() {
            Err(e) => {
                return Err(e);
            },
            Ok(true) => {
                return Ok(true);
            },
            Ok(false) => {},
        }
        match self.consume_character_class() {
            Err(e) => {
                return Err(e);
            },
            Ok(true) => {
                return Ok(true);
            },
            Ok(false) => {},
        }
        match self.consume_uncapturing_group() {
            Err(e) => {
                return Err(e);
            },
            Ok(true) => {
                return Ok(true);
            },
            Ok(false) => {},
        }
        let r = self.consume_capturing_group();
        r
    }

    /// The `ExtendedAtom` production of the annex-B grammar: `.`, an atom
    /// escape, annex-B's literal backslash before `c`, or one of the
    /// grouped alternatives.
    fn consume_extended_atom(&mut self) -> (r: Result<bool, RegexSyntaxError>)
        requires
            old(self).wf(),
        ensures
            final(self).wf(),
            final(self).cfg() == old(self).cfg(),
            ({
                let s = spec_extended_atom(old(self).cfg(), old(self).st());
                match r {
                    Ok(b) => s == Ok::<(bool, PSt), RegexSyntaxError>((b, final(self).st())),
                    Err(e) => s == Err::<(bool, PSt), RegexSyntaxError>(e),
                }
            }),
            r is Ok ==> final(self).st().index >= old(self).st().index,
            r == Ok::<bool, RegexSyntaxError>(false) ==> final(self).st() == old(self).st(),
            r == Ok::<bool, RegexSyntaxError>(true) ==> rem(old(self).cfg(), final(self).st())
                < rem(old(self).cfg(), old(self).st()),
        decreases rem(self.cfg(), self.st()), 5int,
    {
        if self.reader.eat('.') {
            return Ok(true);
        }
        match self.consume_reverse_solidus_atom_escape() {
            Err(e) => {
                return Err(e);
            },
            Ok(true) => {
                return Ok(true);
            },
            Ok(false) => {},
        }
        if self.consume_reverse_solidus_followed_by_c() {
            return Ok(true);
        }
        let r = self.consume_extended_atom_rest();
        r
    }

    /// The remaining `ExtendedAtom` alternatives: a character class, a
    /// group, a braced quantifier with nothing to repeat, or an extended
    /// pattern character.
    fn consume_extended_atom_rest(&mut self) -> (r: Result<bool, RegexSyntaxError>)
        requires
            old(self).wf(),
        ensures
            final(self).wf(),
            final(self).cfg() == old(self).cfg(),
            ({
                let s = spec_extended_atom_rest(old(self).cfg(), old(self).st());
                match r {
                    Ok(b) => s == Ok::<(bool, PSt), RegexSyntaxError>((b, final(self).st())),
                    Err(e) => s == Err::<(bool, PSt), RegexSyntaxError>(e),
                }
            }),
            r is Ok ==> final(self).st().index >= old(self).st().index,
            r == Ok::<bool, RegexSyntaxError>(false) ==> final(self).st() == old(self).st(),
            r == Ok::<bool, RegexSyntaxError>(true) ==> rem(old(self).cfg(), final(self).st())
                < rem(old(self).cfg(), old(self).st()),
        decreases rem(self.cfg(), self.st()), 4int,
    {
        match self.consume_character_class() {
            Err(e) => {
                return Err(e);
            },
            Ok(true) => {
                return Ok(true);
            },
            Ok(false) => {},
        }
        match self.consume_uncapturing_group() {
            Err(e) => {
                return Err(e);
            },
            Ok(true) => {
                return Ok(true);
            },
            Ok(false) => {},
        }
        match self.consume_capturing_group() {
            Err(e) => {
                return Err(e);
            },
            Ok(true) => {
                return Ok(true);
            },
            Ok(false) => {},
        }
        match self.consume_invalid_braced_quantifier() {
            Err(e) => {
                return Err(e);
            },
            Ok(_) => {},
        }
        if self.consume_extended_pattern_character() {
            Ok(true)
        } else {
            Ok(false)
        }
    }

    /// The `Term` production.  In Unicode mode: assertion, or atom with an
    /// optional quantifier.  Otherwise, annex B: a quantifiable assertion
    /// may carry a quantifier, and extended atoms replace atoms.
    #[verifier::rlimit(100)]
    fn consume_term(&mut self) -> (r: Result<bool, RegexSyntaxError>)
        requires
            old(self).wf(),
        ensures
            final(self).wf(),
            final(self).cfg() == old(self).cfg(),
            ({
                let s = spec_term(old(self).cfg(), old(self).st());
                match r {
                    Ok(b) => s == Ok::<(bool, PSt), RegexSyntaxError>((b, final(self).st())),
                    Err(e) => s == Err::<(bool, PSt), RegexSyntaxError>(e),
                }
            }),
            r is Ok ==> final(self).st().index >= old(self).st().index,
            r == Ok::<bool, RegexSyntaxError>(false) ==> final(self).st() == old(self).st(),
            r == Ok::<bool, RegexSyntaxError>(true) ==> rem(old(self).cfg(), final(self).st())
                < rem(old(self).cfg(), old(self).st()),
        decreases rem(self.cfg(), self.st()), 6int,
    {
        if self.u_flag {
            match self.consume_assertion() {
                Err(e) => {
                    return Err(e);
                },
                Ok(Some(_)) => {
                    return Ok(true);
                },
                Ok(None) => {},
            }
            match self.consume_atom() {
                Err(e) => {
                    Err(e)
                },
                Ok(false) => {
                    Ok(false)
                },
                Ok(true) => {
                    let q = self.consume_optional_quantifier();
                    match q {
                        Err(e) => Err(e),
                        Ok(_) => Ok(true),
                    }
                },
            }
        } else {
            match self.consume_assertion() {
                Err(e) => {
                    return Err(e);
                },
                Ok(Some(quantifiable)) => {
                    if quantifiable {
                        let q = self.consume_optional_quantifier();
                        return match q {
                            Err(e) => Err(e),
                            Ok(_) => Ok(true),
                        };
                    }
                    return Ok(true);
                },
                Ok(None) => {},
            }
            match self.consume_extended_atom() {
                Err(e) => {
                    Err(e)
                },
                Ok(false) => {
                    Ok(false)
                },
                Ok(true) => {
                    let q = self.consume_optional_quantifier();
                    match q {
                        Err(e) => Err(e),
                        Ok(_) => Ok(true),
                    }
                },
            }
        }
    }

    /// The `Alternative` production: terms until end of input, `|` or `)`.
    #[verifier::loop_isolation(false)]
    #[verifier::rlimit(100)]
    fn consume_alternative(&mut self) -> (r: Result<(), RegexSyntaxError>)
        requires
            old(self).wf(),
        ensures
            final(self).wf(),
            final(self).cfg() == old(self).cfg(),
            ({
                let s = spec_alternative(old(self).cfg(), old(self).st());
                match r {
                    Ok(()) => s == Ok::<PSt, RegexSyntaxError>(final(self).st()),
                    Err(e) => s == Err::<PSt, RegexSyntaxError>(e),
                }
            }),
            r is Ok ==> final(self).st().index >= old(self).st().index,
        decreases rem(self.cfg(), self.st()), 7int,
    {
        let ghost cfg = self.cfg();
        loop
            invariant
                self.wf(),
                self.cfg() == cfg,
                self.st().index >= old(self).st().index,
                spec_alternative(old(self).cfg(), old(self).st()) == spec_alternative(
                    cfg,
                    self.st(),
                ),
            decreases rem(cfg, self.st()),
        {
            let ghost iter0 = self.st();
            if self.reader.code_point_with_offset(0).is_none() {
                proof {
                    assert(spec_alternative(cfg, iter0) == Ok::<PSt, RegexSyntaxError>(iter0));
                }
                return Ok(());
            }
            match self.consume_term() {
                Err(e) => {
                    proof {
                        assert(spec_alternative(cfg, iter0) == Err::<PSt, RegexSyntaxError>(e));
                    }
                    return Err(e);
                },
                Ok(false) => {
                    proof {
                        assert(spec_alternative(cfg, iter0) == Ok::<PSt, RegexSyntaxError>(
                            self.st(),
                        ));
                    }
                    return Ok(());
                },
                Ok(true) => {
                    proof {
                        assert(spec_alternative(cfg, iter0) == spec_alternative(cfg, self.st()));
                    }
                },
            }
        }
    }

    /// The `Disjunction` production: alternatives separated by `|`, then the
    /// check that no dangling quantifier follows with nothing to repeat.
    #[verifier::rlimit(100)]
    #[verifier::spinoff_prover]
    #[verifier::loop_isolation(false)]
    fn consume_disjunction(&mut self) -> (r: Result<(), RegexSyntaxError>)
        requires
            old(self).wf(),
        ensures
            final(self).wf(),
            final(self).cfg() == old(self).cfg(),
            ({
                let s = spec_disjunction(old(self).cfg(), old(self).st());
                match r {
                    Ok(()) => s == Ok::<PSt, RegexSyntaxError>(final(self).st()),
                    Err(e) => s == Err::<PSt, RegexSyntaxError>(e),
                }
            }),
            r is Ok ==> final(self).st().index >= old(self).st().index,
        decreases rem(self.cfg(), self.st()), 9int,
    {
        let ghost cfg = self.cfg();
        let ghost entry = self.st();
        match self.consume_alternative() {
            Err(e) => {
                proof {
                    assert(spec_disjunction(cfg, entry) == Err::<PSt, RegexSyntaxError>(e));
                }
                return Err(e);
            },
            Ok(()) => {},
        }
        let ghost first = self.st();
        loop
            invariant
                self.wf(),
                self.cfg() == cfg,
                entry == old(self).st(),
                self.st().index >= first.index,
                first.index >= entry.index,
                spec_alternative(cfg, entry) == Ok::<PSt, RegexSyntaxError>(first),
                spec_more_alternatives(cfg, first) == spec_more_alternatives(cfg, self.st()),
            decreases rem(cfg, self.st()),
        {
            let ghost iter0 = self.st();
            if !self.reader.eat('|') {
                proof {
                    assert(spec_more_alternatives(cfg, iter0) == Ok::<PSt, RegexSyntaxError>(
                        iter0,
                    ));
                }
                // After the alternatives: a quantifier (or a bare brace)
                // with nothing before it to repeat.
                match self.consume_quantifier(true) {
                    Err(e) => {
                        proof {
                            assert(spec_disjunction(cfg, entry) == Err::<PSt, RegexSyntaxError>(
                                e,
                            ));
                        }
                        return Err(e);
                    },
                    Ok(true) => {
                        proof {
                            assert(spec_disjunction(cfg, entry) == Err::<PSt, RegexSyntaxError>(
                                RegexSyntaxError::NothingToRepeat,
                            ));
                        }
                        return Err(RegexSyntaxError::NothingToRepeat);
                    },
                    Ok(false) => {},
                }
                let brace = self.reader.eat('{');
                proof {
                    if brace {
                        assert(spec_disjunction(cfg, entry) == Err::<PSt, RegexSyntaxError>(
                            RegexSyntaxError::LoneQuantifierBrackets,
                        ));
                    } else {
                        assert(spec_disjunction(cfg, entry) == Ok::<PSt, RegexSyntaxError>(
                            iter0,
                        ));
                    }
                }
                if brace {
                    return Err(RegexSyntaxError::LoneQuantifierBrackets);
                }
                return Ok(());
            }
            match self.consume_alternative() {
                Err(e) => {
                    proof {
                        assert(spec_more_alternatives(cfg, iter0) == Err::<PSt, RegexSyntaxError>(
                            e,
                        ));
                        assert(spec_disjunction(cfg, entry) == Err::<PSt, RegexSyntaxError>(e));
                    }
                    return Err(e);
                },
                Ok(()) => {
                    proof {
                        assert(spec_more_alternatives(cfg, iter0) == spec_more_alternatives(
                            cfg,
                            self.st(),
                        ));
                    }
                },
            }
        }
    }

    /// Counts the capturing `(` from the cursor to the end, skipping escaped
    /// characters and bracket-class contents, then restores the cursor.
    #[verifier::loop_isolation(false)]
    pub fn count_capturing_parens(&mut self) -> (r: usize)
        requires
            old(self).wf(),
        ensures
            final(self).wf(),
            final(self).cfg() == old(self).cfg(),
            final(self).st() == old(self).st(),
            r as nat == spec_count_parens(
                old(self).cfg().units,
                old(self).cfg().end,
                old(self).cfg().u,
                old(self).st().index,
                false,
                false,
            ),
    {
        let ghost cfg = self.cfg();
        let ghost st0 = self.st();
        let start = self.reader.index();
        let mut in_class = false;
        let mut escaped = false;
        let mut count: usize = 0;
        loop
            invariant
                self.wf(),
                self.cfg() == cfg,
                same_names(self.st(), st0),
                st0.index == start as int,
                count as int <= self.st().index - st0.index,
                count as nat + spec_count_parens(
                    cfg.units,
                    cfg.end,
                    cfg.u,
                    self.st().index,
                    in_class,
                    escaped,
                ) == spec_count_parens(cfg.units, cfg.end, cfg.u, st0.index, false, false),
            decreases rem(cfg, self.st()),
        {
            let c0 = self.reader.code_point_with_offset(0);
            let cp = match c0 {
                None => {
                    self.reader.rewind(start);
                    proof {
                        assert(self.st() =~= st0);
                    }
                    return count;
                },
                Some(cp) => cp,
            };
            let ghost pre = self.st();
            let ghost pre_in_class = in_class;
            let ghost pre_escaped = escaped;
            let mut inc = false;
            if escaped {
                escaped = false;
            } else if cp == '\\' as u32 {
                escaped = true;
            } else if cp == '[' as u32 {
                in_class = true;
            } else if cp == ']' as u32 {
                in_class = false;
            } else if cp == '(' as u32 && !in_class {
                let c1 = self.reader.code_point_with_offset(1);
                let c2 = self.reader.code_point_with_offset(2);
                let c3 = self.reader.code_point_with_offset(3);
                if c1 != Some('?' as u32) || (c2 == Some('<' as u32) && c3 != Some('=' as u32)
                    && c3 != Some('!' as u32)) {
                    inc = true;
                }
            }
            self.reader.advance();
            proof {
                assert(spec_count_parens(
                    cfg.units,
                    cfg.end,
                    cfg.u,
                    pre.index,
                    pre_in_class,
                    pre_escaped,
                ) == (if inc {
                    1nat
                } else {
                    0nat
                }) + spec_count_parens(
                    cfg.units,
                    cfg.end,
                    cfg.u,
                    self.st().index,
                    in_class,
                    escaped,
                ));
                assert(self.st().index > pre.index);
            }
            if inc {
                let bound = self.reader.index();
                proof {
                    assert(count < bound);
                }
                count = count + 1;
            }
        }
    }

    /// One full parse attempt from the cursor: pre-scan the capturing-group
    /// count, parse a disjunction, demand that the whole input was consumed,
    /// and resolve every referenced group name.
    #[verifier::rlimit(100)]
    #[verifier::loop_isolation(false)]
    fn consume_pattern(&mut self) -> (r: Result<(), RegexSyntaxError>)
        requires
            old(self).wf(),
        ensures
            final(self).wf(),
            final(self).cfg() == (Cfg { parens: final(self).cfg().parens, ..old(self).cfg() }),
            ({
                let s = spec_pattern(old(self).cfg(), old(self).st().index);
                match r {
                    Ok(()) => s == Ok::<Seq<Seq<u32>>, RegexSyntaxError>(final(self).st().names),
                    Err(e) => s == Err::<Seq<Seq<u32>>, RegexSyntaxError>(e),
                }
            }),
    {
        let ghost cfg0 = self.cfg();
        let ghost idx0 = self.st().index;
        let count = self.count_capturing_parens();
        self.num_capturing_parens = count;
        self.group_names = Vec::new();
        self.backreference_names = Vec::new();
        let ghost cfg = self.cfg();
        proof {
            assert(cfg == (Cfg {
                parens: spec_count_parens(cfg0.units, cfg0.end, cfg0.u, idx0, false, false),
                ..cfg0
            }));
            assert(self.group_names.deep_view() =~= Seq::<Seq<u32>>::empty());
            assert(self.backreference_names.deep_view() =~= Seq::<Seq<u32>>::empty());
            assert(self.st() == (PSt { index: idx0, names: Seq::empty(), refs: Seq::empty() }));
        }
        match self.consume_disjunction() {
            Err(e) => {
                reveal_with_fuel(spec_pattern, 1);
                return Err(e);
            },
            Ok(()) => {},
        }
        match self.reader.code_point_with_offset(0) {
            Some(cp) => {
                reveal_with_fuel(spec_pattern, 1);
                if cp == ')' as u32 {
                    return Err(RegexSyntaxError::UnmatchedParen);
                } else if cp == '\\' as u32 {
                    return Err(RegexSyntaxError::BackslashAtEndOfPattern);
                } else if cp == ']' as u32 || cp == '}' as u32 {
                    return Err(RegexSyntaxError::LoneQuantifierBrackets);
                } else {
                    return Err(RegexSyntaxError::UnexpectedCharacter(cp));
                }
            },
            None => {},
        }
        let ghost names = self.st().names;
        let ghost refs = self.st().refs;
        let mut i: usize = 0;
        while i < self.backreference_names.len()
            invariant
                i <= self.backreference_names.len(),
                refs.len() == self.backreference_names.len() as int,
                forall|j: int| 0 <= j < i ==> names.contains(refs[j]),
            decreases self.backreference_names.len() - i,
        {
            let present = contains_name(&self.group_names, &self.backreference_names[i]);
            proof {
                assert(refs[i as int] =~= self.backreference_names@[i as int]@);
            }
            if !present {
                reveal_with_fuel(spec_pattern, 1);
                return Err(RegexSyntaxError::InvalidNamedCaptureReferenced);
            }
            i = i + 1;
        }
        reveal_with_fuel(spec_pattern, 1);
        Ok(())
    }

    /// Validates the pattern of a regular expression for the target edition:
    /// the result is a function of the edition, the source text and the `u`
    /// flag alone, so repeated calls on one validator agree.
    ///
    /// Unicode mode needs ES2015.  Named-capture mode is first derived from
    /// the `u` flag (ES2018); when that leaves it off but the first pass
    /// declared a group name, the pattern is re-parsed with it on — the
    /// grammar parameter depends on what only a full scan reveals.
    #[verifier::rlimit(100)]
    pub fn validate_pattern(&mut self, source: &str, u_flag: bool) -> (r: Result<
        (),
        RegexSyntaxError,
    >)
        requires
            old(self).wf(),
        ensures
            final(self).wf(),
            final(self).spec_version() == old(self).spec_version(),
            r == spec_validate_pattern(old(self).spec_version(), source@, u_flag),
    {
        let u = u_flag && self.ecma_version.at_least(EcmaVersion::ES2015);
        let n = u_flag && self.ecma_version.at_least(EcmaVersion::ES2018);
        let units = crate::reader::utf16_units(source);
        let len = units.len();
        self.n_flag = n;
        self.reset(source, 0, len, u);
        self.num_capturing_parens = 0;
        match self.consume_pattern() {
            Err(e) => {
                return Err(e);
            },
            Ok(()) => {},
        }
        let more_names = self.group_names.len() > 0;
        proof {
            assert(self.group_names.deep_view().len() == self.group_names@.len());
        }
        if !n && self.ecma_version.at_least(EcmaVersion::ES2018) && more_names {
            self.n_flag = true;
            self.reader.rewind(0);
            self.num_capturing_parens = 0;
            match self.consume_pattern() {
                Err(e) => Err(e),
                Ok(()) => Ok(()),
            }
        } else {
            Ok(())
        }
    }

    /// Validates the flags of a regular expression: `g`, `i`, `m` always;
    /// `u`, `y` from ES2015; `s` from ES2018.  The first repeated flag is
    /// "Duplicated", the first unknown one "Invalid", each named in the
    /// message.
    #[verifier::loop_isolation(false)]
    pub fn validate_flags(&self, flags: &str) -> (r: Result<(), String>)
        ensures
            ({
                let s = spec_validate_flags(flags@, self.spec_version());
                match s {
                    Ok(()) => r is Ok,
                    Err(FlagError::Duplicated(c)) => r is Err && r->Err_0@ == "Duplicated flag "@.push(
                        c,
                    ),
                    Err(FlagError::Invalid(c)) => r is Err && r->Err_0@ == "Invalid flag "@.push(
                        c,
                    ),
                }
            }),
    {
        let n = flags.unicode_len();
        let mut seen: Vec<char> = Vec::new();
        let mut i: usize = 0;
        while i < n
            invariant
                i <= n,
                n == flags@.len(),
                seen@ == flags@.take(i as int),
                spec_validate_flags(flags@, self.spec_version()) == spec_validate_flags_from(
                    flags@,
                    self.spec_version(),
                    i as int,
                ),
            decreases n - i,
        {
            let c = flags.get_char(i);
            let duplicated = contains_char(&seen, c);
            proof {
                if duplicated {
                    let j = choose|j: int| 0 <= j < seen@.len() && seen@[j] == c;
                    assert(flags@[j] == c);
                } else {
                    assert forall|j: int| 0 <= j < i implies flags@[j] != c by {
                        assert(seen@[j] == flags@.take(i as int)[j]);
                    }
                }
            }
            if duplicated {
                let mut m = "Duplicated flag ".to_owned();
                push_char(&mut m, c);
                return Err(m);
            }
            seen.push(c);
            proof {
                assert(seen@ =~= flags@.take(i + 1 as int));
            }
            let allowed = c == 'g' || c == 'i' || c == 'm' || ((c == 'u' || c == 'y')
                && self.ecma_version.at_least(EcmaVersion::ES2015)) || (c == 's'
                && self.ecma_version.at_least(EcmaVersion::ES2018));
            if !allowed {
                let mut m = "Invalid flag ".to_owned();
                push_char(&mut m, c);
                return Err(m);
            }
            i = i + 1;
        }
        Ok(())
    }

    /// The `GroupName` production: `< RegExpIdentifierName >`.
    fn eat_group_name(&mut self) -> (r: Result<Option<Vec<u32>>, RegexSyntaxError>)
        requires
            old(self).wf(),
        ensures
            final(self).wf(),
            final(self).cfg() == old(self).cfg(),
            same_names(final(self).st(), old(self).st()),
            ({
                let s = spec_group_name(old(self).cfg(), old(self).st());
                match r {
                    Ok(None) => s == Ok::<Option<(Seq<u32>, PSt)>, RegexSyntaxError>(None)
                        && final(self).st() == old(self).st(),
                    Ok(Some(name)) => s == Ok::<Option<(Seq<u32>, PSt)>, RegexSyntaxError>(
                        Some((name@, final(self).st())),
                    ),
                    Err(e) => s == Err::<Option<(Seq<u32>, PSt)>, RegexSyntaxError>(e),
                }
            }),
            r is Ok ==> final(self).st().index >= old(self).st().index,
    {
        if !self.reader.eat('<') {
            return Ok(None);
        }
        match self.eat_regexp_identifier_name() {
            Err(e) => Err(e),
            Ok(None) => Err(RegexSyntaxError::InvalidCaptureGroupName),
            Ok(Some(name)) => {
                if self.reader.eat('>') {
                    Ok(Some(name))
                } else {
                    Err(RegexSyntaxError::InvalidCaptureGroupName)
                }
            },
        }
    }
}

/// What an accumulator can have reached with `j` hex digits still to read,
/// so that the next fold step cannot overflow.
pub open spec fn spec_hex_cap(j: nat) -> nat {
    if j >= 4 {
        1
    } else if j == 3 {
        0x10
    } else if j == 2 {
        0x100
    } else if j == 1 {
        0x1000
    } else {
        0x10000
    }
}

/// Appends a name to a bookkeeping list; the list's mathematical view
/// grows by exactly that name.
fn push_name(list: &mut Vec<Vec<u32>>, name: Vec<u32>)
    ensures
        final(list).deep_view() == old(list).deep_view().push(name@),
{
    let ghost dv0 = list.deep_view();
    let ghost nv = name@;
    proof {
        assert(name.deep_view() =~= nv);
    }
    list.push(name);
    proof {
        assert forall|i: int| 0 <= i < list.deep_view().len() implies list.deep_view()[i]
            == dv0.push(nv)[i] by {
            if i < dv0.len() {
                assert(list@[i] == old(list)@[i]);
            } else {
                assert(list@[i].deep_view() =~= nv);
            }
        }
        assert(list.deep_view() =~= dv0.push(nv));
    }
}

/// Appends one character to a message.  Relies on std's `String::push`:
/// the string grows by exactly that character.
#[verifier::external_body]
fn push_char(s: &mut String, c: char)
    ensures
        final(s)@ == old(s)@.push(c),
{
    s.push(c);
}

/// Whether `c` is among the flag characters seen so far.
fn contains_char(seen: &Vec<char>, c: char) -> (r: bool)
    ensures
        r == seen@.contains(c),
{
    let mut i: usize = 0;
    while i < seen.len()
        invariant
            i <= seen.len(),
            forall|j: int| 0 <= j < i ==> seen@[j] != c,
        decreases seen.len() - i,
    {
        if seen[i] == c {
            return true;
        }
        i = i + 1;
    }
    false
}

/// Whether two collected names spell the same code points.
fn names_equal(a: &Vec<u32>, b: &Vec<u32>) -> (r: bool)
    ensures
        r == (a@ == b@),
{
    if a.len() != b.len() {
        return false;
    }
    let mut i: usize = 0;
    while i < a.len()
        invariant
            i <= a.len(),
            a@.len() == b@.len(),
            forall|j: int| 0 <= j < i ==> a@[j] == b@[j],
        decreases a.len() - i,
    {
        if a[i] != b[i] {
            return false;
        }
        i = i + 1;
    }
    proof {
        assert(a@ =~= b@);
    }
    true
}

/// Whether `name` was already declared.
fn contains_name(names: &Vec<Vec<u32>>, name: &Vec<u32>) -> (r: bool)
    ensures
        r == names.deep_view().contains(name@),
{
    let mut i: usize = 0;
    while i < names.len()
        invariant
            i <= names.len(),
            forall|j: int| 0 <= j < i ==> names.deep_view()[j] != name@,
        decreases names.len() - i,
    {
        let eq = names_equal(&names[i], name);
        proof {
            assert(names.deep_view()[i as int] =~= names@[i as int]@);
        }
        if eq {
            return true;
        }
        i = i + 1;
    }
    proof {
        assert(forall|j: int|
            0 <= j < names.deep_view().len() ==> names.deep_view()[j] != name@);
    }
    false
}

fn is_hex_digit_cp(cp: u32) -> (r: bool)
    ensures
        r == spec_is_hex_digit(cp),
{
    (0x30 <= cp && cp <= 0x39) || (0x41 <= cp && cp <= 0x46) || (0x61 <= cp && cp <= 0x66)
}

fn hex_digit_value(cp: u32) -> (r: u32)
    requires
        spec_is_hex_digit(cp),
    ensures
        r as nat == spec_hex_digit_val(cp),
        r < 16,
{
    if 0x30 <= cp && cp <= 0x39 {
        cp - 0x30
    } else if 0x41 <= cp && cp <= 0x46 {
        cp - 0x41 + 10
    } else {
        cp - 0x61 + 10
    }
}

} // verus!
