//! Structured-field serialization of decisions and tag lists into the
//! header values announced to the proxy: a decision becomes a three-member
//! dictionary with six fractional digits per mass, a tag list becomes a
//! comma-separated list of tokens.

use vstd::prelude::*;
use crate::decision::{Decision, MASS_SCALE};

verus! {

/// The decimal digit character for a value between 0 and 9.
pub open spec fn spec_digit(v: int) -> char {
    if v == 0 {
        '0'
    } else if v == 1 {
        '1'
    } else if v == 2 {
        '2'
    } else if v == 3 {
        '3'
    } else if v == 4 {
        '4'
    } else if v == 5 {
        '5'
    } else if v == 6 {
        '6'
    } else if v == 7 {
        '7'
    } else if v == 8 {
        '8'
    } else {
        '9'
    }
}

/// A mass in millionths rendered as a decimal between 0.000000 and
/// 1.000000, always with one integer digit and six fractional digits.
pub open spec fn spec_mass_decimal(v: int) -> Seq<char> {
    seq![
        spec_digit(v / 1000000),
        '.',
        spec_digit(v / 100000 % 10),
        spec_digit(v / 10000 % 10),
        spec_digit(v / 1000 % 10),
        spec_digit(v / 100 % 10),
        spec_digit(v / 10 % 10),
        spec_digit(v % 10),
    ]
}

/// The serialized form of a decision:
/// `accept=<mass>, restrict=<mass>, unknown=<mass>`.
pub open spec fn spec_decision_sfv(d: Decision) -> Seq<char> {
    "accept="@ + spec_mass_decimal(d.accept as int) + ", restrict="@
        + spec_mass_decimal(d.restrict as int) + ", unknown="@
        + spec_mass_decimal(d.unknown as int)
}

/// The serialized form of a tag list: the tags joined by `, `.
pub open spec fn spec_tags_sfv(ts: Seq<String>) -> Seq<char>
    decreases ts.len(),
{
    if ts.len() == 0 {
        Seq::empty()
    } else if ts.len() == 1 {
        ts[0]@
    } else {
        spec_tags_sfv(ts.drop_last()) + ", "@ + ts.last()@
    }
}

/// Appends the decimal digit character for a value between 0 and 9.
fn push_digit(out: &mut String, v: u64)
    requires
        v <= 9,
    ensures
        final(out)@ == old(out)@ + seq![spec_digit(v as int)],
{
    if v == 0 {
        out.append("0");
        proof {
            reveal_strlit("0");
            assert("0"@ =~= seq![spec_digit(0)]);
        }
    } else if v == 1 {
        out.append("1");
        proof {
            reveal_strlit("1");
            assert("1"@ =~= seq![spec_digit(1)]);
        }
    } else if v == 2 {
        out.append("2");
        proof {
            reveal_strlit("2");
            assert("2"@ =~= seq![spec_digit(2)]);
        }
    } else if v == 3 {
        out.append("3");
        proof {
            reveal_strlit("3");
            assert("3"@ =~= seq![spec_digit(3)]);
        }
    } else if v == 4 {
        out.append("4");
        proof {
            reveal_strlit("4");
            assert("4"@ =~= seq![spec_digit(4)]);
        }
    } else if v == 5 {
        out.append("5");
        proof {
            reveal_strlit("5");
            assert("5"@ =~= seq![spec_digit(5)]);
        }
    } else if v == 6 {
        out.append("6");
        proof {
            reveal_strlit("6");
            assert("6"@ =~= seq![spec_digit(6)]);
        }
    } else if v == 7 {
        out.append("7");
        proof {
            reveal_strlit("7");
            assert("7"@ =~= seq![spec_digit(7)]);
        }
    } else if v == 8 {
        out.append("8");
        proof {
            reveal_strlit("8");
            assert("8"@ =~= seq![spec_digit(8)]);
        }
    } else {
        out.append("9");
        proof {
            reveal_strlit("9");
            assert("9"@ =~= seq![spec_digit(9)]);
        }
    }
}

/// Appends a mass in millionths in its decimal rendering.
fn push_mass_decimal(out: &mut String, v: u64)
    requires
        v <= MASS_SCALE,
    ensures
        final(out)@ == old(out)@ + spec_mass_decimal(v as int),
{
    let ghost start = out@;
    push_digit(out, v / 1000000);
    out.append(".");
    proof {
        reveal_strlit(".");
    }
    push_digit(out, v / 100000 % 10);
    push_digit(out, v / 10000 % 10);
    push_digit(out, v / 1000 % 10);
    push_digit(out, v / 100 % 10);
    push_digit(out, v / 10 % 10);
    push_digit(out, v % 10);
    proof {
        assert(".".view() =~= seq!['.']);
        assert(out@ =~= start + spec_mass_decimal(v as int));
    }
}

/// Serializes a decision into its structured-field dictionary form, with
/// six fractional digits for each mass.
pub fn serialize_decision_sfv(d: &Decision) -> (r: String)
    requires
        d.valid(),
    ensures
        r@ == spec_decision_sfv(*d),
{
    let mut out = String::new();
    out.append("accept=");
    push_mass_decimal(&mut out, d.accept);
    out.append(", restrict=");
    push_mass_decimal(&mut out, d.restrict);
    out.append(", unknown=");
    push_mass_decimal(&mut out, d.unknown);
    proof {
        assert(out@ =~= spec_decision_sfv(*d));
    }
    out
}

/// Serializes a tag list into its structured-field list form: the tags
/// joined by `, `.
pub fn serialize_tags_sfv(tags: &Vec<String>) -> (r: String)
    ensures
        r@ == spec_tags_sfv(tags@),
{
    let mut out = String::new();
    let mut i: usize = 0;
    while i < tags.len()
        invariant
            0 <= i <= tags@.len(),
            out@ == spec_tags_sfv(tags@.take(i as int)),
        decreases tags@.len() - i,
    {
        if i > 0 {
            out.append(", ");
            proof {
                reveal_strlit(", ");
            }
        }
        out.append(tags[i].as_str());
        proof {
            let t = tags@.take(i + 1);
            assert(t.drop_last() =~= tags@.take(i as int));
            assert(t.last() == tags@[i as int]);
            if i == 0 {
                assert(t[0] == tags@[0]);
                assert(out@ =~= spec_tags_sfv(t));
            } else {
                assert(out@ =~= spec_tags_sfv(t));
            }
        }
        i += 1;
    }
    proof {
        assert(tags@.take(tags@.len() as int) =~= tags@);
    }
    out
}

}
