//! The default-value normalizer: maps raw catalog default text, engine
//! "extra" flag text and nullability to one canonical default descriptor,
//! plus an optional on-update expression.
//!
//! Evaluation order is load-bearing (first match wins): a current-timestamp
//! default, a generated/computed expression, a literal default, the
//! auto-increment marker, and only then the explicit-NULL fallback for
//! nullable columns.

use vstd::prelude::*;

use crate::store::{ColumnDefault, ColumnMetadata, ColumnV, DefaultV};
use crate::text::{
    all_digits, contains_seq, contains_seq_ic, contains_str, contains_str_ignore_case,
    digit_run_end, digit_run_end_exec, eq_ic, is_digit, lemma_digit_run_end,
    lemma_digit_run_end_all, match_at, match_at_exec, match_at_ic, match_at_ic_exec, replace_seq,
    replace_str, str_eq_ignore_case,
};

verus! {

/// The prefix of a fractional-second current-timestamp expression.
pub open spec fn ctp() -> Seq<char> {
    "CURRENT_TIMESTAMP("@
}

/// A complete fractional-second current-timestamp occurrence
/// `CURRENT_TIMESTAMP(<digits>)` starts at position `i` of `s`.
pub open spec fn ct_match_at(s: Seq<char>, i: int) -> bool {
    let e = digit_run_end(s, i + ctp().len());
    &&& match_at(s, ctp(), i)
    &&& e > i + ctp().len()
    &&& e < s.len()
    &&& s[e] == ')'
}

/// The first position at or after `i` where a complete fractional-second
/// current-timestamp occurrence starts, or -1 if there is none.
pub open spec fn find_ct_from(s: Seq<char>, i: int) -> int
    decreases s.len() - i,
    when 0 <= i <= s.len()
{
    if i >= s.len() {
        -1
    } else if ct_match_at(s, i) {
        i
    } else {
        find_ct_from(s, i + 1)
    }
}

/// The characterization of [`find_ct_from`]: it yields the least match
/// position at or after `i`, or -1 when no position matches.
pub proof fn lemma_find_ct_from(s: Seq<char>, i: int)
    requires
        0 <= i <= s.len(),
    ensures
        find_ct_from(s, i) == -1 || i <= find_ct_from(s, i) < s.len(),
        find_ct_from(s, i) == -1 ==> forall|j: int| i <= j < s.len() ==> !ct_match_at(s, j),
        find_ct_from(s, i) >= 0 ==> ct_match_at(s, find_ct_from(s, i)) && forall|j: int|
            i <= j < find_ct_from(s, i) ==> !ct_match_at(s, j),
    decreases s.len() - i,
{
    if i < s.len() && !ct_match_at(s, i) {
        lemma_find_ct_from(s, i + 1);
    }
}

/// The digits of the first complete `CURRENT_TIMESTAMP(<digits>)`
/// occurrence in `s`, if any.
pub open spec fn ct_digits(s: Seq<char>) -> Option<Seq<char>> {
    let f = find_ct_from(s, 0);
    if f >= 0 {
        Some(s.subrange(f + ctp().len(), digit_run_end(s, f + ctp().len())))
    } else {
        None
    }
}

/// Extract the fractional-second precision digits from the first complete
/// `CURRENT_TIMESTAMP(<digits>)` occurrence in `extra`, if any.
pub fn extract_digits_from_current_timestamp(extra: &str) -> (r: Option<&str>)
    ensures
        r is Some <==> ct_digits(extra@) is Some,
        r matches Some(d) ==> Some(d@) == ct_digits(extra@),
{
    let len = extra.unicode_len();
    let pl = "CURRENT_TIMESTAMP(".unicode_len();
    let mut i: usize = 0;
    while i < len
        invariant
            len == extra@.len(),
            pl == ctp().len(),
            i <= len,
            forall|j: int| 0 <= j < i ==> !ct_match_at(extra@, j),
        decreases len - i,
    {
        if match_at_exec(extra, "CURRENT_TIMESTAMP(", i) {
            let start = i + pl;
            let e = digit_run_end_exec(extra, start);
            proof {
                lemma_digit_run_end(extra@, start as int);
            }
            if e > start && e < len {
                let c = extra.get_char(e);
                if c == ')' {
                    proof {
                        assert(ct_match_at(extra@, i as int));
                        lemma_find_ct_from(extra@, 0);
                        let f = find_ct_from(extra@, 0);
                        if f == -1 {
                            assert(!ct_match_at(extra@, i as int));
                        } else if 0 <= f < i as int {
                            assert(!ct_match_at(extra@, f));
                        } else if f > i as int {
                            assert(!ct_match_at(extra@, i as int));
                        }
                        assert(f == i as int);
                    }
                    return Some(extra.substring_char(start, e));
                }
            }
            proof {
                assert(!ct_match_at(extra@, i as int));
            }
        }
        i += 1;
    }
    proof {
        lemma_find_ct_from(extra@, 0);
    }
    None
}

/// The on-update expression recorded for a column whose extra flags carry an
/// on-update current-timestamp clause: the first fractional-second precision
/// found in the flags, or the bare expression when none is given.
pub open spec fn on_update_expr(extra: Seq<char>) -> Seq<char> {
    match ct_digits(extra) {
        Some(d) => ctp() + d + seq![')'],
        None => "CURRENT_TIMESTAMP"@,
    }
}

/// The on-update current-timestamp expression carried by the extra flags,
/// with its optional fractional-second precision.
pub fn parse_current_timestamp_on_update(extra: &str) -> (r: Option<String>)
    ensures
        r matches Some(e) && e@ == on_update_expr(extra@),
{
    if let Some(digits) = extract_digits_from_current_timestamp(extra) {
        let mut m = String::from_str("CURRENT_TIMESTAMP(");
        m.append(digits);
        m.append(")");
        proof {
            reveal_strlit(")");
            assert(m@ =~= on_update_expr(extra@));
        }
        Some(m)
    } else {
        Some(String::from_str("CURRENT_TIMESTAMP"))
    }
}

/// The default text is a current-timestamp expression, under ASCII case
/// folding: the bare word, or the fractional-second form
/// `CURRENT_TIMESTAMP(<digits>)`.
pub open spec fn is_ct_like(s: Seq<char>) -> bool {
    ||| eq_ic(s, "CURRENT_TIMESTAMP"@)
    ||| {
        &&& s.len() > ctp().len() + 1
        &&& match_at_ic(s, ctp(), 0)
        &&& all_digits(s.subrange(ctp().len() as int, s.len() - 1))
        &&& s[s.len() - 1] == ')'
    }
}

/// Is the default text a current-timestamp expression?
pub fn is_current_timestamp_like(default_str: &str) -> (r: bool)
    ensures
        r == is_ct_like(default_str@),
{
    if str_eq_ignore_case(default_str, "CURRENT_TIMESTAMP") {
        return true;
    }
    let len = default_str.unicode_len();
    let pl = "CURRENT_TIMESTAMP(".unicode_len();
    if len <= pl || len - pl < 2 {
        return false;
    }
    if !match_at_ic_exec(default_str, "CURRENT_TIMESTAMP(", 0) {
        return false;
    }
    let e = digit_run_end_exec(default_str, pl);
    proof {
        lemma_digit_run_end(default_str@, pl as int);
    }
    let r = e == len - 1 && default_str.get_char(len - 1) == ')';
    proof {
        let ghost s = default_str@;
        let ghost d = s.subrange(ctp().len() as int, s.len() - 1);
        assert(!is_digit(')'));
        if r {
            assert forall|j: int| 0 <= j < d.len() implies is_digit(#[trigger] d[j]) by {
                assert(d[j] == s[ctp().len() + j]);
            }
            assert(all_digits(d));
        } else {
            if s[s.len() - 1] == ')' && all_digits(d) {
                assert forall|j: int|
                    ctp().len() <= j < s.len() - 1 implies is_digit(#[trigger] s[j]) by {
                    assert(is_digit(d[j - ctp().len()]));
                }
                lemma_digit_run_end_all(s, ctp().len() as int, s.len() - 1);
                assert(false);
            }
        }
    }
    r
}

/// The unescaping applied to generated-column default text: `\'` becomes
/// `'`, then `\\` becomes `\`.
pub open spec fn unescape_spec(s: Seq<char>) -> Seq<char> {
    replace_seq(replace_seq(s, seq!['\\', '\''], seq!['\'']), seq!['\\', '\\'], seq!['\\'])
}

/// Unescape single quotes and backslashes in generated-column default text.
pub fn unescape_expression_default(s: &str) -> (r: String)
    ensures
        r@ == unescape_spec(s@),
{
    proof {
        reveal_strlit("\\'");
        reveal_strlit("'");
        reveal_strlit("\\\\");
        reveal_strlit("\\");
        assert("\\'"@ =~= seq!['\\', '\'']);
        assert("'"@ =~= seq!['\'']);
        assert("\\\\"@ =~= seq!['\\', '\\']);
        assert("\\"@ =~= seq!['\\']);
    }
    let pass1 = replace_str(s, "\\'", "'");
    replace_str(pass1.as_str(), "\\\\", "\\")
}

/// The canonical descriptor of a present default text: a current-timestamp
/// expression is kept verbatim; a generated/computed default is unescaped
/// and wrapped in parentheses; anything else is a literal default.
pub open spec fn default_value_spec(d: Seq<char>, extra: Seq<char>) -> DefaultV {
    if is_ct_like(d) {
        DefaultV::Expression(d)
    } else if contains_seq(extra, "DEFAULT_GENERATED"@) {
        DefaultV::Expression(seq!['('] + unescape_spec(d) + seq![')'])
    } else {
        DefaultV::Literal(d)
    }
}

/// Normalize a present raw default text into its canonical descriptor.
pub fn parse_default_value(default_str: &str, extra: &str) -> (r: Option<ColumnDefault>)
    ensures
        r matches Some(d) && d@ == default_value_spec(default_str@, extra@),
{
    if is_current_timestamp_like(default_str) {
        Some(ColumnDefault::Expression(String::from_str(default_str)))
    } else if contains_str(extra, "DEFAULT_GENERATED") {
        let unescaped = unescape_expression_default(default_str);
        let mut m = String::from_str("(");
        m.append(unescaped.as_str());
        m.append(")");
        proof {
            reveal_strlit("(");
            reveal_strlit(")");
            assert(m@ =~= seq!['('] + unescape_spec(default_str@) + seq![')']);
        }
        Some(ColumnDefault::Expression(m))
    } else {
        Some(ColumnDefault::Literal(String::from_str(default_str)))
    }
}

/// The canonical default descriptor of a column, by the first matching rule:
/// a present default text is normalized; otherwise auto-increment flags give
/// the fixed marker; otherwise a nullable column gets the explicit NULL
/// default; otherwise there is no default.
pub open spec fn normalized_default(
    d: Option<Seq<char>>,
    nullable: bool,
    extra: Seq<char>,
) -> Option<DefaultV> {
    match d {
        Some(ds) => Some(default_value_spec(ds, extra)),
        None => if contains_seq_ic(extra, "AUTO_INCREMENT"@) {
            Some(DefaultV::AutoIncrement)
        } else if nullable {
            Some(DefaultV::Null)
        } else {
            None
        },
    }
}

/// Whether the extra flags carry an on-update current-timestamp clause.
pub open spec fn has_on_update(extra: Seq<char>) -> bool {
    contains_seq(extra, "on update CURRENT_TIMESTAMP"@)
}

/// Set the canonical default and the on-update expression of a column from
/// its raw catalog fields; every other field is left unchanged.
pub fn set_column_metadata_default(
    column: &mut ColumnMetadata,
    default_str: Option<String>,
    nullable_bool: bool,
    extra: &str,
)
    ensures
        final(column)@ == (ColumnV {
            default: match normalized_default(default_str.deep_view(), nullable_bool, extra@) {
                Some(d) => Some(d),
                None => old(column)@.default,
            },
            on_update: if has_on_update(extra@) {
                Some(on_update_expr(extra@))
            } else {
                old(column)@.on_update
            },
            ..old(column)@
        }),
{
    if let Some(ds) = default_str {
        if let Some(d) = parse_default_value(ds.as_str(), extra) {
            column.default = Some(d);
        }
    } else if contains_str_ignore_case(extra, "AUTO_INCREMENT") {
        column.default = Some(ColumnDefault::AutoIncrement);
    } else if nullable_bool {
        column.default = Some(ColumnDefault::Null);
    }
    if contains_str(extra, "on update CURRENT_TIMESTAMP") {
        if let Some(on_update) = parse_current_timestamp_on_update(extra) {
            column.on_update = Some(on_update);
        }
    }
}

} // verus!
