use vstd::prelude::*;
use vstd::string::*;
use crate::record::StorageKey;

verus! {

/// The character of a decimal digit.
pub open spec fn digit_char(d: nat) -> char {
    if d == 0 {
        '0'
    } else if d == 1 {
        '1'
    } else if d == 2 {
        '2'
    } else if d == 3 {
        '3'
    } else if d == 4 {
        '4'
    } else if d == 5 {
        '5'
    } else if d == 6 {
        '6'
    } else if d == 7 {
        '7'
    } else if d == 8 {
        '8'
    } else {
        '9'
    }
}

/// The decimal writing of `n`, without leading zeros.
pub open spec fn decimal_text(n: nat) -> Seq<char>
    decreases n,
{
    if n < 10 {
        seq![digit_char(n)]
    } else {
        decimal_text(n / 10).push(digit_char(n % 10))
    }
}

/// The decimal writing of `n`, with a leading zero below 10.
pub open spec fn two_digit_text(n: nat) -> Seq<char> {
    if n < 10 {
        seq!['0'] + decimal_text(n)
    } else {
        decimal_text(n)
    }
}

/// The relative location of a stored artifact:
/// `{region}/{district, two digits at least}/{year}/{document_id}.pdf`.
pub open spec fn storage_path_spec(region: Seq<char>, district: nat, year: nat, id: nat) -> Seq<
    char,
> {
    region + seq!['/'] + two_digit_text(district) + seq!['/'] + decimal_text(year) + seq!['/']
        + decimal_text(id) + seq!['.', 'p', 'd', 'f']
}

/// The address of a document under an archive base:
/// `{base}/{year}/{document_id}.pdf`.
pub open spec fn document_url_spec(base: Seq<char>, year: nat, id: nat) -> Seq<char> {
    base + seq!['/'] + decimal_text(year) + seq!['/'] + decimal_text(id) + seq!['.', 'p', 'd', 'f']
}

fn push_digit(s: &mut String, d: u64)
    requires
        d < 10,
    ensures
        final(s)@ == old(s)@.push(digit_char(d as nat)),
{
    let digits = "0123456789";
    proof {
        reveal_strlit("0123456789");
    }
    let t = digits.substring_char(d as usize, (d + 1) as usize);
    assert(t@ =~= seq![digit_char(d as nat)]);
    s.append(t);
}

/// Appends the decimal writing of `n`.
fn push_decimal(s: &mut String, n: u64)
    ensures
        final(s)@ == old(s)@ + decimal_text(n as nat),
    decreases n,
{
    if n >= 10 {
        push_decimal(s, n / 10);
    }
    push_digit(s, n % 10);
    if n >= 10 {
        assert(decimal_text(n as nat) == decimal_text((n / 10) as nat).push(digit_char((n % 10) as nat)));
    }
}

/// Where the artifact of a storage key lives, relative to the artifact root.
pub fn storage_path(k: &StorageKey) -> (r: String)
    ensures
        r@ == storage_path_spec(k.region@, k.district as nat, k.year as nat, k.document_id as nat),
{
    let mut s = String::new();
    s.append(k.region.as_str());
    s.append("/");
    if k.district < 10 {
        s.append("0");
    }
    push_decimal(&mut s, k.district);
    s.append("/");
    push_decimal(&mut s, k.year as u64);
    s.append("/");
    push_decimal(&mut s, k.document_id);
    s.append(".pdf");
    proof {
        reveal_strlit("/");
        reveal_strlit("0");
        reveal_strlit(".pdf");
    }
    assert(s@ =~= storage_path_spec(k.region@, k.district as nat, k.year as nat, k.document_id as nat));
    s
}

/// The address of a document under the archive base `base`.
pub fn document_url(base: &str, year: u16, document_id: u64) -> (r: String)
    ensures
        r@ == document_url_spec(base@, year as nat, document_id as nat),
{
    let mut s = String::new();
    s.append(base);
    s.append("/");
    push_decimal(&mut s, year as u64);
    s.append("/");
    push_decimal(&mut s, document_id);
    s.append(".pdf");
    proof {
        reveal_strlit("/");
        reveal_strlit(".pdf");
    }
    assert(s@ =~= document_url_spec(base@, year as nat, document_id as nat));
    s
}

} // verus!
