use vstd::prelude::*;
use vstd::string::*;

verus! {

/// One entry of the disclosure index: who filed, what kind of filing, where,
/// when, and the archive's identifier for the document.
pub struct Member {
    pub prefix: Option<String>,
    pub last: String,
    pub first: String,
    pub suffix: Option<String>,
    pub filing_type: String,
    pub state_dst: String,
    pub year: u16,
    pub filing_date: String,
    pub document_id: u64,
}

/// Where a record's artifact lives locally: region, district, year and
/// document identifier. The document identifier alone is not unique.
pub struct StorageKey {
    pub region: String,
    pub district: u64,
    pub year: u16,
    pub document_id: u64,
}

pub open spec fn is_digit(c: char) -> bool {
    '0' <= c && c <= '9'
}

pub open spec fn digit_value(c: char) -> nat {
    (c as u32 - '0' as u32) as nat
}

/// The decimal number written by a sequence of digits.
pub open spec fn decimal_value(s: Seq<char>) -> nat
    decreases s.len(),
{
    if s.len() == 0 {
        0
    } else {
        decimal_value(s.drop_last()) * 10 + digit_value(s.last())
    }
}

pub open spec fn all_digits(s: Seq<char>) -> bool {
    forall|i: int| 0 <= i < s.len() ==> is_digit(#[trigger] s[i])
}

/// The district suffix of a jurisdiction code: everything after the two
/// region characters.
pub open spec fn district_text(code: Seq<char>) -> Seq<char> {
    code.subrange(2, code.len() as int)
}

/// A jurisdiction code is well formed when it has a two-character region,
/// followed by a non-empty decimal district number that fits in a `u64`.
pub open spec fn well_formed_code(code: Seq<char>) -> bool {
    &&& code.len() >= 3
    &&& all_digits(district_text(code))
    &&& decimal_value(district_text(code)) <= u64::MAX
}

pub open spec fn region_of(code: Seq<char>) -> Seq<char> {
    code.subrange(0, 2)
}

pub open spec fn district_of(code: Seq<char>) -> nat {
    decimal_value(district_text(code))
}

impl Member {
    /// A record takes part in a run only when its jurisdiction code decomposes.
    pub open spec fn valid(&self) -> bool {
        well_formed_code(self.state_dst@)
    }

    /// The storage key of a valid record.
    pub open spec fn key_spec(&self) -> (Seq<char>, nat, u16, u64) {
        (region_of(self.state_dst@), district_of(self.state_dst@), self.year, self.document_id)
    }

    /// A field-by-field copy of the record.
    pub fn duplicate(&self) -> (r: Member)
        ensures
            r == *self,
    {
        Member {
            prefix: copy_text(&self.prefix),
            last: self.last.clone(),
            first: self.first.clone(),
            suffix: copy_text(&self.suffix),
            filing_type: self.filing_type.clone(),
            state_dst: self.state_dst.clone(),
            year: self.year,
            filing_date: self.filing_date.clone(),
            document_id: self.document_id,
        }
    }

    /// The record's storage key, or `None` when its jurisdiction code does
    /// not decompose into a region and a district number.
    pub fn storage_key(&self) -> (r: Option<StorageKey>)
        ensures
            r.is_some() == self.valid(),
            r matches Some(k) ==> (k.region@, k.district as nat, k.year, k.document_id)
                == self.key_spec(),
    {
        match parse_jurisdiction(self.state_dst.as_str()) {
            Some((region, district)) => Some(
                StorageKey { region, district, year: self.year, document_id: self.document_id },
            ),
            None => None,
        }
    }
}

/// The largest value that can take one more decimal digit below `u64::MAX`
/// (when that digit is at most 5).
const LAST_TENFOLD: u64 = 1844674407370955161;

fn copy_text(t: &Option<String>) -> (r: Option<String>)
    ensures
        r == *t,
{
    match t {
        Some(s) => Some(s.clone()),
        None => None,
    }
}

/// Splits a jurisdiction code such as `CA12` into its region (`CA`) and its
/// district number (12). Codes shorter than three characters, with a
/// non-numeric suffix, or with a district too large for a `u64` are refused.
pub fn parse_jurisdiction(code: &str) -> (r: Option<(String, u64)>)
    ensures
        r.is_some() == well_formed_code(code@),
        r matches Some((region, district)) ==> region@ == region_of(code@) && district as nat
            == district_of(code@),
{
    let len = code.unicode_len();
    if len < 3 {
        return None;
    }
    let ghost suffix = district_text(code@);
    let mut value: u64 = 0;
    let mut i: usize = 2;
    while i < len
        invariant
            len == code@.len(),
            suffix == district_text(code@),
            2 <= i <= len,
            all_digits(suffix.subrange(0, i - 2)),
            value as nat == decimal_value(suffix.subrange(0, i - 2)),
        decreases len - i,
    {
        let c = code.get_char(i);
        assert(suffix.subrange(0, i - 1).drop_last() == suffix.subrange(0, i - 2));
        if c < '0' || c > '9' {
            assert(suffix[i - 2] == c);
            return None;
        }
        let d = ((c as u32) - ('0' as u32)) as u64;
        assert(suffix.subrange(0, i - 1).last() == c);
        if value > LAST_TENFOLD || (value == LAST_TENFOLD && d > 5) {
            proof { lemma_prefix_bound(suffix, (i - 1) as int); }
            return None;
        }
        value = value * 10 + d;
        i = i + 1;
    }
    assert(suffix.subrange(0, len - 2) == suffix);
    let region = code.substring_char(0, 2).to_owned();
    Some((region, value))
}

/// A string whose prefix already reads more than `u64::MAX` reads more than
/// `u64::MAX`.
proof fn lemma_prefix_bound(s: Seq<char>, n: int)
    requires
        0 <= n <= s.len(),
        decimal_value(s.subrange(0, n)) > u64::MAX,
    ensures
        decimal_value(s) > u64::MAX,
    decreases s.len() - n,
{
    if n < s.len() {
        assert(s.subrange(0, n + 1).drop_last() == s.subrange(0, n));
        lemma_prefix_bound(s, n + 1);
    } else {
        assert(s.subrange(0, n) == s);
    }
}

} // verus!
