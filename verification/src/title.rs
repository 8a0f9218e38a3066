//! The titles under which a package and the lists about it are shown.

use vstd::prelude::*;
use vstd::string::StringExecFns;
use crate::purl::{PackageUrl, PackageUrlView};

verus! {

/// The character of a decimal digit.
pub open spec fn digit(d: nat) -> char {
    if d == 0 {
        '0'
    } else if d == 1 {
        '1'
    } else if d == 2 {
        '2'
    } else if d == 3 {
        '3'
    } else if d == 4 {
        '4'
    } else if d == 5 {
        '5'
    } else if d == 6 {
        '6'
    } else if d == 7 {
        '7'
    } else if d == 8 {
        '8'
    } else {
        '9'
    }
}

/// A number written in decimal digits, without leading zeros.
pub open spec fn decimal(n: nat) -> Seq<char>
    decreases n,
{
    if n < 10 {
        seq![digit(n)]
    } else {
        decimal(n / 10).push(digit(n % 10))
    }
}

/// A decimal digit as a text.
fn digit_str(d: usize) -> (r: &'static str)
    requires
        d < 10,
    ensures
        r@ == seq![digit(d as nat)],
{
    proof {
        reveal_strlit("0");
        reveal_strlit("1");
        reveal_strlit("2");
        reveal_strlit("3");
        reveal_strlit("4");
        reveal_strlit("5");
        reveal_strlit("6");
        reveal_strlit("7");
        reveal_strlit("8");
        reveal_strlit("9");
    }
    let r = if d == 0 {
        "0"
    } else if d == 1 {
        "1"
    } else if d == 2 {
        "2"
    } else if d == 3 {
        "3"
    } else if d == 4 {
        "4"
    } else if d == 5 {
        "5"
    } else if d == 6 {
        "6"
    } else if d == 7 {
        "7"
    } else if d == 8 {
        "8"
    } else {
        "9"
    };
    assert(r@ =~= seq![digit(d as nat)]);
    r
}

/// Writes a number in decimal digits.
pub fn decimal_string(n: usize) -> (r: String)
    ensures
        r@ == decimal(n as nat),
{
    let mut r = digit_str(n % 10).to_owned();
    let mut m: usize = n / 10;
    while m > 0
        invariant
            m > 0 ==> decimal(n as nat) == decimal(m as nat) + r@,
            m == 0 ==> decimal(n as nat) == r@,
        decreases m,
    {
        let ghost tail = r@;
        r = digit_str(m % 10).to_owned().concat(r.as_str());
        proof {
            if m >= 10 {
                assert(decimal(m as nat) + tail =~= decimal((m / 10) as nat) + r@);
            }
        }
        m = m / 10;
    }
    r
}

/// The title of a list of a kind of things: the number of things and the
/// name of the kind, in the singular for one thing and in the plural
/// else; the plural alone while the number is not known.
pub open spec fn count_title(count: Option<nat>, singular: Seq<char>, plural: Seq<char>) -> Seq<
    char,
> {
    match count {
        Some(n) => if n == 1 {
            "1 "@ + singular
        } else {
            decimal(n) + " "@ + plural
        },
        None => plural,
    }
}

/// The number as a natural number, where there is one.
pub open spec fn opt_nat(count: Option<usize>) -> Option<nat> {
    match count {
        Some(n) => Some(n as nat),
        None => None,
    }
}

/// The title of a list, given how many entries it has, where that is
/// known.
pub fn remote_refs_count_title(count: Option<usize>, singular: &str, plural: &str) -> (r: String)
    ensures
        r@ == count_title(opt_nat(count), singular@, plural@),
{
    match count {
        Some(1) => "1 ".to_owned().concat(singular),
        Some(len) => decimal_string(len).concat(" ").concat(plural),
        None => plural.to_owned(),
    }
}

/// The title of a package: namespace, name and version, those of them
/// that it has, with ` : ` between them.
pub open spec fn title_of(p: PackageUrlView) -> Seq<char> {
    let head = match p.namespace {
        Some(namespace) => namespace + " : "@ + p.name,
        None => p.name,
    };
    match p.version {
        Some(version) => head + " : "@ + version,
        None => head,
    }
}

/// The title of a package.
pub fn package_title(purl: &PackageUrl) -> (r: String)
    ensures
        r@ == title_of(purl@),
{
    let head = crate::refs::package_label(purl);
    match purl.version() {
        Some(version) => head.concat(" : ").concat(version),
        None => head,
    }
}

} // verus!
