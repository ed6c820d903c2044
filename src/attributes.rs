use vstd::prelude::*;

use crate::text::{chars_of, decimal, push_decimal, string_of};

verus! {

/// A version `(major, minor, patch)`, ordered field by field.
#[derive(PartialEq, Eq, Structural, PartialOrd, Ord, Clone, Copy, Debug)]
pub struct VersionTuple(pub usize, pub usize, pub usize);

/// A character that version text keeps: an ASCII digit, `.` or `,`.
pub open spec fn is_digit(c: char) -> bool {
    '0' <= c && c <= '9'
}

/// The value of an ASCII digit.
pub open spec fn digit_value(c: char) -> nat {
    ((c as u32) - ('0' as u32)) as nat
}

/// The value of a run of decimal digits (0 for none).
pub open spec fn digits_value(d: Seq<char>) -> nat
    decreases d.len(),
{
    if d.len() == 0 {
        0
    } else {
        digits_value(d.drop_last()) * 10 + digit_value(d.last())
    }
}

/// The digit runs of version text: the text keeps only ASCII digits, `.` and
/// `,`, and is split at each `.` and `,`.
pub open spec fn version_fields(s: Seq<char>) -> Seq<Seq<char>>
    decreases s.len(),
{
    if s.len() == 0 {
        seq![seq![]]
    } else {
        let f = version_fields(s.drop_last());
        let c = s.last();
        if c == '.' || c == ',' {
            f.push(seq![])
        } else if is_digit(c) && f.len() > 0 {
            f.update(f.len() - 1, f.last().push(c))
        } else {
            f
        }
    }
}

/// The numbers of the fields that parse as a `usize`: non-empty, and no
/// larger than `usize::MAX`.
pub open spec fn field_numbers(fs: Seq<Seq<char>>) -> Seq<nat>
    decreases fs.len(),
{
    if fs.len() == 0 {
        seq![]
    } else {
        let r = field_numbers(fs.drop_last());
        let f = fs.last();
        if f.len() > 0 && digits_value(f) <= usize::MAX {
            r.push(digits_value(f))
        } else {
            r
        }
    }
}

/// The version that text names: its first three numbers, or `(0, 0, 0)`
/// where it holds fewer than three.
pub open spec fn parsed_version(s: Seq<char>) -> (nat, nat, nat) {
    let n = field_numbers(version_fields(s));
    if n.len() >= 3 {
        (n[0], n[1], n[2])
    } else {
        (0, 0, 0)
    }
}

/// The version as text: `(<major>, <minor>, <patch>)`.
pub open spec fn version_text(v: VersionTuple) -> Seq<char> {
    seq!['('] + decimal(v.0 as nat) + seq![',', ' '] + decimal(v.1 as nat) + seq![',', ' '] + decimal(
        v.2 as nat,
    ) + seq![')']
}

proof fn lemma_version_fields_nonempty(s: Seq<char>)
    ensures
        version_fields(s).len() > 0,
    decreases s.len(),
{
    if s.len() > 0 {
        lemma_version_fields_nonempty(s.drop_last());
    }
}

/// The version of mdbook that this preprocessor is built against.
pub fn dependent_version() -> (r: VersionTuple)
    ensures
        r == VersionTuple(0, 4, 52),
{
    VersionTuple(0, 4, 52)
}

impl VersionTuple {
    /// The version `(0, 0, 0)`.
    pub fn empty() -> (r: Self)
        ensures
            r == VersionTuple(0, 0, 0),
    {
        VersionTuple(0, 0, 0)
    }

    /// Parses version text such as `0.0.1` or `0,0,1`: characters other than
    /// ASCII digits, `.` and `,` are dropped, the rest is split at `.` and `,`,
    /// and the first three fields that parse as numbers make the version.
    /// Text with fewer than three such fields gives `(0, 0, 0)`.
    pub fn parse_version(version: &str) -> (r: Self)
        ensures
            (r.0 as nat, r.1 as nat, r.2 as nat) == parsed_version(version@),
    {
        let cs = chars_of(version);
        let mut nums: Vec<usize> = Vec::new();
        let mut cur_nonempty = false;
        let mut cur_over = false;
        let mut cur_val: usize = 0;
        let mut i: usize = 0;
        while i < cs.len()
            invariant
                i <= cs@.len(),
                version_fields(cs@.subrange(0, i as int)).len() > 0,
                ({
                    let fs = version_fields(cs@.subrange(0, i as int));
                    &&& field_numbers(fs.drop_last()) == nums@.map_values(|x: usize| x as nat)
                    &&& cur_nonempty == (fs.last().len() > 0)
                    &&& cur_over == (digits_value(fs.last()) > usize::MAX)
                    &&& !cur_over ==> cur_val == digits_value(fs.last())
                }),
            decreases cs@.len() - i,
        {
            let c = cs[i];
            let ghost fs = version_fields(cs@.subrange(0, i as int));
            assert(cs@.subrange(0, i + 1).drop_last() =~= cs@.subrange(0, i as int));
            if c == '.' || c == ',' {
                if cur_nonempty && !cur_over {
                    nums.push(cur_val);
                }
                cur_nonempty = false;
                cur_over = false;
                cur_val = 0;
                proof {
                    let fs2 = fs.push(seq![]);
                    assert(fs2.drop_last() =~= fs);
                    assert(nums@.map_values(|x: usize| x as nat) =~= field_numbers(fs));
                }
            } else if '0' <= c && c <= '9' {
                let d = (c as u32 - '0' as u32) as usize;
                let ghost last = fs.last();
                proof {
                    let fs2 = fs.update(fs.len() - 1, last.push(c));
                    assert(fs2.drop_last() =~= fs.drop_last());
                    assert(fs2.last() == last.push(c));
                    assert(last.push(c).drop_last() =~= last);
                    assert(digit_value(c) == d);
                }
                if cur_over {
                    assert(digits_value(last) * 10 + d > usize::MAX) by (nonlinear_arith)
                        requires
                            digits_value(last) > usize::MAX,
                    ;
                } else if cur_val <= (usize::MAX - d) / 10 {
                    assert(cur_val * 10 + d <= usize::MAX) by (nonlinear_arith)
                        requires
                            cur_val <= (usize::MAX - d) / 10,
                            d <= 9,
                    ;
                    cur_val = cur_val * 10 + d;
                } else {
                    assert(cur_val * 10 + d > usize::MAX) by (nonlinear_arith)
                        requires
                            cur_val > (usize::MAX - d) / 10,
                            d <= 9,
                    ;
                    cur_over = true;
                }
                cur_nonempty = true;
            }
            i = i + 1;
        }
        assert(cs@.subrange(0, cs@.len() as int) =~= cs@);
        if cur_nonempty && !cur_over {
            nums.push(cur_val);
        }
        assert(nums@.map_values(|x: usize| x as nat) =~= field_numbers(version_fields(version@)));
        if nums.len() >= 3 {
            VersionTuple(nums[0], nums[1], nums[2])
        } else {
            VersionTuple(0, 0, 0)
        }
    }

    /// The version as text: `(<major>, <minor>, <patch>)`.
    pub fn display(&self) -> (r: String)
        ensures
            r@ == version_text(*self),
    {
        let mut out: Vec<char> = vec!['('];
        push_decimal(&mut out, self.0);
        out.push(',');
        out.push(' ');
        push_decimal(&mut out, self.1);
        out.push(',');
        out.push(' ');
        push_decimal(&mut out, self.2);
        out.push(')');
        assert(out@ =~= version_text(*self));
        string_of(&out)
    }
}

impl From<[usize; 3]> for VersionTuple {
    fn from(v: [usize; 3]) -> (r: Self) {
        VersionTuple(v[0], v[1], v[2])
    }
}

impl vstd::std_specs::convert::FromSpecImpl<[usize; 3]> for VersionTuple {
    open spec fn obeys_from_spec() -> bool {
        true
    }

    open spec fn from_spec(v: [usize; 3]) -> VersionTuple {
        VersionTuple(v@[0], v@[1], v@[2])
    }
}

impl From<VersionTuple> for (usize, usize, usize) {
    fn from(v: VersionTuple) -> (r: Self) {
        (v.0, v.1, v.2)
    }
}

impl vstd::std_specs::convert::FromSpecImpl<VersionTuple> for (usize, usize, usize) {
    open spec fn obeys_from_spec() -> bool {
        true
    }

    open spec fn from_spec(v: VersionTuple) -> (usize, usize, usize) {
        (v.0, v.1, v.2)
    }
}

impl<'a> From<&'a str> for VersionTuple {
    fn from(v: &'a str) -> (r: Self) {
        VersionTuple::parse_version(v)
    }
}

impl<'a> vstd::std_specs::convert::FromSpecImpl<&'a str> for VersionTuple {
    open spec fn obeys_from_spec() -> bool {
        true
    }

    open spec fn from_spec(v: &'a str) -> VersionTuple {
        let p = parsed_version(v@);
        VersionTuple(p.0 as usize, p.1 as usize, p.2 as usize)
    }
}

} // verus!
