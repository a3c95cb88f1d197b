//! The version detector: parses a raw server version string into a leading
//! numeric triplet plus a trailing vendor descriptor, and derives from both
//! which index-metadata catalog dialect a server speaks.

use vstd::prelude::*;

use crate::error::{DBError, ErrorV};
use crate::text::{
    contains_seq, contains_str, digit_run_end, digit_run_end_exec, is_digit, lemma_digit_run_end,
    seq_num,
};

verus! {

/// The raw version string starts with a numeric triplet
/// `<digits>.<digits>.<digits>`, each digit run maximal.
pub open spec fn has_version_prefix(s: Seq<char>) -> bool {
    let e1 = digit_run_end(s, 0);
    e1 > 0 && e1 < s.len() && s[e1] == '.' && {
        let e2 = digit_run_end(s, e1 + 1);
        e2 > e1 + 1 && e2 < s.len() && s[e2] == '.' && {
            let e3 = digit_run_end(s, e2 + 1);
            e3 > e2 + 1
        }
    }
}

/// The position just after the numeric triplet at the head of `s`.
/// Meaningful only when [`has_version_prefix`] holds.
pub open spec fn version_end(s: Seq<char>) -> int {
    digit_run_end(s, digit_run_end(s, digit_run_end(s, 0) + 1) + 1)
}

/// The whole of `s` is one numeric triplet.
pub open spec fn is_pure_triple(s: Seq<char>) -> bool {
    has_version_prefix(s) && version_end(s) == s.len()
}

/// The major component value of a triplet-prefixed string.
pub open spec fn triple_major(s: Seq<char>) -> nat {
    seq_num(s.subrange(0, digit_run_end(s, 0)))
}

/// The minor component value of a triplet-prefixed string.
pub open spec fn triple_minor(s: Seq<char>) -> nat {
    let e1 = digit_run_end(s, 0);
    seq_num(s.subrange(e1 + 1, digit_run_end(s, e1 + 1)))
}

/// The patch component value of a triplet-prefixed string.
pub open spec fn triple_patch(s: Seq<char>) -> nat {
    let e2 = digit_run_end(s, digit_run_end(s, 0) + 1);
    seq_num(s.subrange(e2 + 1, digit_run_end(s, e2 + 1)))
}

/// Split a raw server version string into its leading numeric triplet and
/// the trailing descriptor (a vendor suffix such as a flavor tag).
///
/// Fails with a parse error naming the unparsable string when no triplet
/// leads the input.
pub fn parse_version(version: &str) -> (r: Result<(String, String), DBError>)
    ensures
        r is Ok <==> has_version_prefix(version@),
        r matches Ok(p) ==> p.0@ == version@.subrange(0, version_end(version@)) && p.1@
            == version@.subrange(version_end(version@), version@.len() as int),
        r matches Err(e) ==> e@ == ErrorV::Unknow("failed to parse version "@ + version@),
{
    let len = version.unicode_len();
    let e1 = digit_run_end_exec(version, 0);
    proof {
        lemma_digit_run_end(version@, 0);
    }
    if e1 == 0 || e1 >= len || version.get_char(e1) != '.' {
        let mut m = String::from_str("failed to parse version ");
        m.append(version);
        return Err(DBError::Unknow(m));
    }
    let e2 = digit_run_end_exec(version, e1 + 1);
    proof {
        lemma_digit_run_end(version@, e1 + 1);
    }
    if e2 == e1 + 1 || e2 >= len || version.get_char(e2) != '.' {
        let mut m = String::from_str("failed to parse version ");
        m.append(version);
        return Err(DBError::Unknow(m));
    }
    let e3 = digit_run_end_exec(version, e2 + 1);
    proof {
        lemma_digit_run_end(version@, e2 + 1);
    }
    if e3 == e2 + 1 {
        let mut m = String::from_str("failed to parse version ");
        m.append(version);
        return Err(DBError::Unknow(m));
    }
    let head = String::from_str(version.substring_char(0, e3));
    let tail = String::from_str(version.substring_char(e3, len));
    Ok((head, tail))
}

/// Parse the three components of a pure numeric triplet into machine
/// integers. `None` when the string is not one triplet or a component
/// exceeds the machine range.
pub fn parse_triple(s: &str) -> (r: Option<(u64, u64, u64)>)
    ensures
        r is Some <==> is_pure_triple(s@) && triple_major(s@) <= u64::MAX && triple_minor(s@)
            <= u64::MAX && triple_patch(s@) <= u64::MAX,
        r matches Some(t) ==> t.0 == triple_major(s@) && t.1 == triple_minor(s@) && t.2
            == triple_patch(s@),
{
    let len = s.unicode_len();
    let e1 = digit_run_end_exec(s, 0);
    proof {
        lemma_digit_run_end(s@, 0);
    }
    if e1 == 0 || e1 >= len || s.get_char(e1) != '.' {
        return None;
    }
    let e2 = digit_run_end_exec(s, e1 + 1);
    proof {
        lemma_digit_run_end(s@, e1 + 1);
    }
    if e2 == e1 + 1 || e2 >= len || s.get_char(e2) != '.' {
        return None;
    }
    let e3 = digit_run_end_exec(s, e2 + 1);
    proof {
        lemma_digit_run_end(s@, e2 + 1);
    }
    if e3 == e2 + 1 || e3 != len {
        return None;
    }
    let major = match parse_u64_digits(s, 0, e1) {
        Some(v) => v,
        None => {
            return None;
        },
    };
    let minor = match parse_u64_digits(s, e1 + 1, e2) {
        Some(v) => v,
        None => {
            return None;
        },
    };
    let patch = match parse_u64_digits(s, e2 + 1, e3) {
        Some(v) => v,
        None => {
            return None;
        },
    };
    Some((major, minor, patch))
}

/// The value of the digit run `s[from..to]`, or `None` when it exceeds the
/// machine range.
pub fn parse_u64_digits(s: &str, from: usize, to: usize) -> (r: Option<u64>)
    requires
        from <= to <= s@.len(),
        forall|j: int| from <= j < to ==> is_digit(#[trigger] s@[j]),
    ensures
        r is Some <==> seq_num(s@.subrange(from as int, to as int)) <= u64::MAX,
        r matches Some(v) ==> v == seq_num(s@.subrange(from as int, to as int)),
{
    let ghost whole = s@.subrange(from as int, to as int);
    let mut acc: u64 = 0;
    let mut i = from;
    while i < to
        invariant
            from <= i <= to <= s@.len(),
            forall|j: int| from <= j < to ==> is_digit(#[trigger] s@[j]),
            whole == s@.subrange(from as int, to as int),
            acc == seq_num(s@.subrange(from as int, i as int)),
        decreases to - i,
    {
        let c = s.get_char(i);
        let d = (c as u32 - 48) as u64;
        proof {
            assert(is_digit(s@[i as int]));
            assert(s@.subrange(from as int, i + 1).drop_last() =~= s@.subrange(
                from as int,
                i as int,
            ));
            assert(s@.subrange(from as int, i + 1).last() == s@[i as int]);
        }
        if acc > (u64::MAX - d) / 10 {
            proof {
                assert(seq_num(s@.subrange(from as int, i + 1)) > u64::MAX) by (nonlinear_arith)
                    requires
                        acc > (u64::MAX - d) / 10,
                        d <= 9,
                        seq_num(s@.subrange(from as int, i + 1)) == acc * 10 + d,
                ;
                lemma_seq_num_extend(s@, from as int, i + 1, to as int);
            }
            return None;
        }
        acc = acc * 10 + d;
        i += 1;
    }
    proof {
        assert(s@.subrange(from as int, to as int) =~= whole);
    }
    Some(acc)
}

/// Extending a digit run on the right never decreases its value.
proof fn lemma_seq_num_extend(s: Seq<char>, from: int, mid: int, to: int)
    requires
        0 <= from <= mid <= to <= s.len(),
        forall|j: int| from <= j < to ==> is_digit(#[trigger] s[j]),
    ensures
        seq_num(s.subrange(from, to)) >= seq_num(s.subrange(from, mid)),
    decreases to - mid,
{
    if mid < to {
        lemma_seq_num_extend(s, from, mid + 1, to);
        assert(s.subrange(from, mid + 1).drop_last() =~= s.subrange(from, mid));
        assert(seq_num(s.subrange(from, mid + 1)) == seq_num(s.subrange(from, mid)) * 10
            + crate::text::digit_val(s.subrange(from, mid + 1).last()));
        assert(seq_num(s.subrange(from, mid)) * 10 >= seq_num(s.subrange(from, mid)))
            by (nonlinear_arith);
    }
}

/// The numeric triplet `(a0, a1, a2)` is at or below `(b0, b1, b2)` in
/// component-wise lexicographic order.
pub open spec fn triple_le(a0: nat, a1: nat, a2: nat, b0: nat, b1: nat, b2: nat) -> bool {
    a0 < b0 || (a0 == b0 && (a1 < b1 || (a1 == b1 && a2 <= b2)))
}

/// The index-metadata catalog dialect a server speaks: the legacy shape
/// lacks the expression and visibility columns for functional or invisible
/// indexes; the modern shape has both.
#[derive(Clone, Copy, PartialEq, Eq, Structural, Debug)]
pub enum IndexDialect {
    Legacy,
    Modern,
}

/// The boundary release: servers at or below this triplet, and every
/// alternate-vendor flavor, speak the legacy index-metadata dialect.
pub const INDEX_DIALECT_BOUNDARY_MAJOR: u64 = 8;

/// The minor component of the index-dialect boundary release.
pub const INDEX_DIALECT_BOUNDARY_MINOR: u64 = 0;

/// The patch component of the index-dialect boundary release.
pub const INDEX_DIALECT_BOUNDARY_PATCH: u64 = 13;

/// A server speaks the legacy index-metadata dialect when its version
/// triplet is at or below the boundary release, or when the trailing
/// descriptor names the alternate vendor flavor.
pub open spec fn legacy_index_dialect(version: Seq<char>, rest: Seq<char>) -> bool {
    triple_le(
        triple_major(version),
        triple_minor(version),
        triple_patch(version),
        INDEX_DIALECT_BOUNDARY_MAJOR as nat,
        INDEX_DIALECT_BOUNDARY_MINOR as nat,
        INDEX_DIALECT_BOUNDARY_PATCH as nat,
    ) || contains_seq(rest, "MariaDB"@)
}

/// Select the index-metadata dialect from a parsed version triplet string
/// and the trailing descriptor. Fails when the triplet cannot be read back
/// as machine numbers.
pub fn mysql_index_dialect(version: &str, rest: &str) -> (r: Result<IndexDialect, DBError>)
    ensures
        r is Ok <==> is_pure_triple(version@) && triple_major(version@) <= u64::MAX && triple_minor(
            version@,
        ) <= u64::MAX && triple_patch(version@) <= u64::MAX,
        r matches Ok(d) ==> (d == IndexDialect::Legacy <==> legacy_index_dialect(
            version@,
            rest@,
        )),
        r matches Err(e) ==> e@ == ErrorV::Unknow(
            "db version "@ + version@ + " cannot be parsed"@,
        ),
{
    match parse_triple(version) {
        Some((major, minor, patch)) => {
            let below = major < INDEX_DIALECT_BOUNDARY_MAJOR || (major
                == INDEX_DIALECT_BOUNDARY_MAJOR && (minor < INDEX_DIALECT_BOUNDARY_MINOR || (minor
                == INDEX_DIALECT_BOUNDARY_MINOR && patch <= INDEX_DIALECT_BOUNDARY_PATCH)));
            if below || contains_str(rest, "MariaDB") {
                Ok(IndexDialect::Legacy)
            } else {
                Ok(IndexDialect::Modern)
            }
        },
        None => {
            let mut m = String::from_str("db version ");
            m.append(version);
            m.append(" cannot be parsed");
            Err(DBError::Unknow(m))
        },
    }
}

} // verus!
