//! Parsing of the numeric sequence fields of a submission: separator-
//! delimited signed decimal integers. A malformed field is a validation
//! failure, rejected before anything is persisted.

use vstd::prelude::*;

verus! {

/// ASCII decimal digit.
pub open spec fn is_digit(c: u8) -> bool {
    48 <= c <= 57
}

/// Every byte is a decimal digit.
pub open spec fn all_digits(s: Seq<u8>) -> bool {
    forall|i: int| 0 <= i < s.len() ==> is_digit(#[trigger] s[i])
}

/// The value of a digit string, most significant first.
pub open spec fn digits_val(s: Seq<u8>) -> int
    decreases s.len(),
{
    if s.len() == 0 {
        0
    } else {
        digits_val(s.drop_last()) * 10 + (s.last() - 48)
    }
}

/// A digit string's value is never negative.
pub proof fn lemma_digits_val_nonneg(s: Seq<u8>)
    requires
        all_digits(s),
    ensures
        digits_val(s) >= 0,
    decreases s.len(),
{
    if s.len() > 0 {
        assert(all_digits(s.drop_last()));
        lemma_digits_val_nonneg(s.drop_last());
    }
}

/// Extending a digit string never shrinks its value.
pub proof fn lemma_digits_val_prefix(s: Seq<u8>, i: int)
    requires
        all_digits(s),
        0 <= i <= s.len(),
    ensures
        digits_val(s.take(i)) <= digits_val(s),
    decreases s.len() - i,
{
    if i < s.len() {
        lemma_digits_val_prefix(s, i + 1);
        assert(s.take(i + 1).drop_last() =~= s.take(i));
        assert(s.take(i + 1).last() == s[i]);
        assert(all_digits(s.take(i)));
        lemma_digits_val_nonneg(s.take(i));
    } else {
        assert(s.take(i) =~= s);
    }
}

/// What a (possibly signed) decimal field means: one plus or minus sign
/// may lead, at least one digit must follow, every remaining byte must
/// be a digit, and the value must fit the stored 32-bit range.
pub open spec fn spec_parse_i32(s: Seq<u8>) -> Option<i32> {
    let ds = if s.len() > 0 && (s[0] == 45 || s[0] == 43) {
        s.drop_first()
    } else {
        s
    };
    let neg = s.len() > 0 && s[0] == 45;
    if ds.len() == 0 || !all_digits(ds) {
        Option::None
    } else {
        let v = if neg {
            -digits_val(ds)
        } else {
            digits_val(ds)
        };
        if i32::MIN <= v <= i32::MAX {
            Option::Some(v as i32)
        } else {
            Option::None
        }
    }
}

/// Parse one signed decimal field.
pub fn parse_i32(s: &[u8]) -> (r: Option<i32>)
    ensures
        r == spec_parse_i32(s@),
{
    let n = s.len();
    let neg = n > 0 && s[0] == 45;
    let signed = n > 0 && (s[0] == 45 || s[0] == 43);
    let start: usize = if signed {
        1
    } else {
        0
    };
    let ghost ds = if signed {
        s@.drop_first()
    } else {
        s@
    };
    proof {
        assert(ds =~= s@.subrange(start as int, n as int));
    }
    if start == n {
        return None;
    }
    let mut mag: u64 = 0;
    let mut i: usize = start;
    while i < n
        invariant
            start <= i <= n,
            n == s@.len(),
            start <= 1,
            start < n,
            neg == (n > 0 && s@[0] == 45),
            signed == (n > 0 && (s@[0] == 45 || s@[0] == 43)),
            signed ==> start == 1,
            !signed ==> start == 0,
            ds == if signed {
                s@.drop_first()
            } else {
                s@
            },
            ds =~= s@.subrange(start as int, n as int),
            all_digits(ds.take(i - start)),
            mag == digits_val(ds.take(i - start)),
            mag <= 2147483648,
        decreases n - i,
    {
        let c = s[i];
        if c < 48 || c > 57 {
            proof {
                assert(ds[i - start] == s@[i as int]);
                assert(!all_digits(ds));
            }
            return None;
        }
        let next: u64 = mag * 10 + ((c - 48) as u64);
        proof {
            assert(ds.take(i + 1 - start).drop_last() =~= ds.take(i - start));
            assert(ds.take(i + 1 - start).last() == ds[i - start]);
            assert(ds[i - start] == s@[i as int]);
        }
        if next > 2147483648 {
            proof {
                if all_digits(ds) {
                    lemma_digits_val_prefix(ds, i + 1 - start);
                }
            }
            return None;
        }
        mag = next;
        i += 1;
    }
    proof {
        assert(ds.take(n - start) =~= ds);
    }
    if neg {
        let v: i64 = -(mag as i64);
        proof {
            assert(i32::MIN <= v <= i32::MAX);
        }
        Some(v as i32)
    } else {
        if mag > 2147483647 {
            return None;
        }
        Some(mag as i32)
    }
}

/// The split-and-parse fold over a prefix of the field: the values of
/// the finished pieces (or nothing, once a piece failed) and the bytes
/// of the still unfinished piece.
pub open spec fn split_state(s: Seq<u8>, sep: u8) -> (Option<Seq<i32>>, Seq<u8>)
    decreases s.len(),
{
    if s.len() == 0 {
        (Option::Some(Seq::empty()), Seq::empty())
    } else {
        let st = split_state(s.drop_last(), sep);
        let c = s.last();
        if c == sep {
            (
                match st.0 {
                    Option::None => Option::None,
                    Option::Some(ps) => match spec_parse_i32(st.1) {
                        Option::None => Option::None,
                        Option::Some(v) => Option::Some(ps.push(v)),
                    },
                },
                Seq::empty(),
            )
        } else {
            (st.0, st.1.push(c))
        }
    }
}

/// What a whole separator-delimited field means: every piece (the last
/// one included) must parse, else the field is rejected.
pub open spec fn spec_split_parse(s: Seq<u8>, sep: u8) -> Option<Seq<i32>> {
    let st = split_state(s, sep);
    match st.0 {
        Option::None => Option::None,
        Option::Some(ps) => match spec_parse_i32(st.1) {
            Option::None => Option::None,
            Option::Some(v) => Option::Some(ps.push(v)),
        },
    }
}

/// Split a field on the separator and parse every piece.
pub fn split_parse(s: &[u8], sep: u8) -> (r: Option<Vec<i32>>)
    ensures
        r is Some <==> spec_split_parse(s@, sep) is Some,
        r is Some ==> r->0@ == spec_split_parse(s@, sep)->0,
{
    let n = s.len();
    let mut out: Vec<i32> = Vec::new();
    let mut cur: Vec<u8> = Vec::new();
    let mut failed = false;
    let mut i: usize = 0;
    while i < n
        invariant
            0 <= i <= n,
            n == s@.len(),
            !failed ==> split_state(s@.take(i as int), sep).0 == Option::Some(out@),
            !failed ==> split_state(s@.take(i as int), sep).1 == cur@,
            failed ==> split_state(s@.take(i as int), sep).0 is None,
        decreases n - i,
    {
        proof {
            assert(s@.take(i + 1).drop_last() =~= s@.take(i as int));
            assert(s@.take(i + 1).last() == s@[i as int]);
        }
        let c = s[i];
        if c == sep {
            if !failed {
                match parse_i32(cur.as_slice()) {
                    Some(v) => {
                        out.push(v);
                    },
                    None => {
                        failed = true;
                    },
                }
            }
            cur = Vec::new();
        } else {
            cur.push(c);
        }
        i += 1;
    }
    proof {
        assert(s@.take(n as int) =~= s@);
    }
    if failed {
        return None;
    }
    match parse_i32(cur.as_slice()) {
        Some(v) => {
            out.push(v);
            Some(out)
        },
        None => None,
    }
}

/// The x-separated track-shape field of a submission.
pub fn split_x_separated(s: &[u8]) -> (r: Option<Vec<i32>>)
    ensures
        r is Some <==> spec_split_parse(s@, 120) is Some,
        r is Some ==> r->0@ == spec_split_parse(s@, 120)->0,
{
    split_parse(s, 120)
}

/// The comma-separated auxiliary stat field of a submission.
pub fn split_comma_separated(s: &[u8]) -> (r: Option<Vec<i32>>)
    ensures
        r is Some <==> spec_split_parse(s@, 44) is Some,
        r is Some ==> r->0@ == spec_split_parse(s@, 44)->0,
{
    split_parse(s, 44)
}

} // verus!
