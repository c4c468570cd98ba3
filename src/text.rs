use vstd::prelude::*;
use vstd::string::*;

verus! {

/// The digits that hexadecimal and decimal text is written with.
pub const DIGITS: &'static str = "0123456789abcdef";

pub open spec fn digit_char(d: int) -> char {
    seq!['0', '1', '2', '3', '4', '5', '6', '7', '8', '9', 'a', 'b', 'c', 'd', 'e', 'f'][d]
}

/// The one-character string for digit `d`.
pub fn digit(d: u8) -> (r: &'static str)
    requires
        d < 16,
    ensures
        r@ == seq![digit_char(d as int)],
{
    proof {
        reveal_strlit("0123456789abcdef");
    }
    let r = DIGITS.substring_char(d as usize, d as usize + 1);
    assert(r@ =~= seq![digit_char(d as int)]);
    r
}


/// The decimal text of `v`, without leading zeros.
pub open spec fn decimal_text(v: nat) -> Seq<char>
    decreases v,
{
    if v < 10 {
        seq![digit_char(v as int)]
    } else {
        decimal_text(v / 10) + seq![digit_char((v % 10) as int)]
    }
}

/// The decimal text of `v`, padded with zeros on the left to at least four digits.
pub open spec fn padded4_text(v: nat) -> Seq<char> {
    if v < 10 {
        seq!['0', '0', '0'] + decimal_text(v)
    } else if v < 100 {
        seq!['0', '0'] + decimal_text(v)
    } else if v < 1000 {
        seq!['0'] + decimal_text(v)
    } else {
        decimal_text(v)
    }
}

/// Two lower-case hexadecimal digits for each byte, most significant first.
pub open spec fn hex_text(b: Seq<u8>) -> Seq<char>
    decreases b.len(),
{
    if b.len() == 0 {
        seq![]
    } else {
        hex_text(b.drop_last()) + seq![
            digit_char((b.last() / 16) as int),
            digit_char((b.last() % 16) as int),
        ]
    }
}

pub fn decimal(v: u64) -> (r: String)
    ensures
        r@ == decimal_text(v as nat),
    decreases v,
{
    if v < 10 {
        String::from_str(digit(v as u8))
    } else {
        let mut r = decimal(v / 10);
        r.append(digit((v % 10) as u8));
        r
    }
}

pub fn padded4(v: u16) -> (r: String)
    ensures
        r@ == padded4_text(v as nat),
{
    let d = decimal(v as u64);
    let mut r = if v < 10 {
        String::from_str("000")
    } else if v < 100 {
        String::from_str("00")
    } else if v < 1000 {
        String::from_str("0")
    } else {
        String::new()
    };
    proof {
        reveal_strlit("000");
        reveal_strlit("00");
        reveal_strlit("0");
    }
    r.append(d.as_str());
    proof {
        if v < 10 {
            assert(r@ =~= seq!['0', '0', '0'] + decimal_text(v as nat));
        } else if v < 100 {
            assert(r@ =~= seq!['0', '0'] + decimal_text(v as nat));
        } else if v < 1000 {
            assert(r@ =~= seq!['0'] + decimal_text(v as nat));
        } else {
            assert(r@ =~= decimal_text(v as nat));
        }
    }
    r
}

pub fn hex16(b: &[u8; 16]) -> (r: String)
    ensures
        r@ == hex_text(b@),
{
    let mut r = String::new();
    let mut i: usize = 0;
    while i < 16
        invariant
            i <= 16,
            b@.len() == 16,
            r@ == hex_text(b@.subrange(0, i as int)),
        decreases 16 - i,
    {
        let x: u8 = b[i];
        r.append(digit(x / 16));
        r.append(digit(x % 16));
        proof {
            let p = b@.subrange(0, i + 1);
            assert(p.drop_last() =~= b@.subrange(0, i as int));
            assert(p.last() == x);
        }
        i = i + 1;
    }
    assert(b@.subrange(0, 16) =~= b@);
    r
}

/// How JSON writes `c` inside a string: quote, backslash and control characters escaped,
/// everything else as it is.
pub open spec fn escaped_char(c: char) -> Seq<char> {
    if c == '"' {
        seq!['\\', '"']
    } else if c == '\\' {
        seq!['\\', '\\']
    } else if c == '\n' {
        seq!['\\', 'n']
    } else if c == '\r' {
        seq!['\\', 'r']
    } else if c == '\t' {
        seq!['\\', 't']
    } else if c == '\x08' {
        seq!['\\', 'b']
    } else if c == '\x0c' {
        seq!['\\', 'f']
    } else if (c as u32) < 0x20 {
        seq!['\\', 'u', '0', '0', digit_char((c as u32 / 16) as int), digit_char((c as u32 % 16) as int)]
    } else {
        seq![c]
    }
}

/// The text of `s` as it stands between the quotes of a JSON string.
pub open spec fn json_escaped(s: Seq<char>) -> Seq<char>
    decreases s.len(),
{
    if s.len() == 0 {
        seq![]
    } else {
        json_escaped(s.drop_last()) + escaped_char(s.last())
    }
}

pub fn json_escape(s: &str) -> (r: String)
    ensures
        r@ == json_escaped(s@),
{
    let n = s.unicode_len();
    let mut r = String::new();
    let mut i: usize = 0;
    while i < n
        invariant
            i <= n,
            n == s@.len(),
            r@ == json_escaped(s@.subrange(0, i as int)),
        decreases n - i,
    {
        let c = s.get_char(i);
        let code = c as u32;
        proof {
            reveal_strlit("\\\"");
            reveal_strlit("\\\\");
            reveal_strlit("\\n");
            reveal_strlit("\\r");
            reveal_strlit("\\t");
            reveal_strlit("\\b");
            reveal_strlit("\\f");
            reveal_strlit("\\u00");
        }
        let ghost before = r@;
        if c == '"' {
            r.append("\\\"");
        } else if c == '\\' {
            r.append("\\\\");
        } else if c == '\n' {
            r.append("\\n");
        } else if c == '\r' {
            r.append("\\r");
        } else if c == '\t' {
            r.append("\\t");
        } else if c == '\x08' {
            r.append("\\b");
        } else if c == '\x0c' {
            r.append("\\f");
        } else if code < 0x20 {
            r.append("\\u00");
            r.append(digit((code / 16) as u8));
            r.append(digit((code % 16) as u8));
        } else {
            r.append(s.substring_char(i, i + 1));
        }
        proof {
            let p = s@.subrange(0, i + 1);
            assert(p.drop_last() =~= s@.subrange(0, i as int));
            assert(p.last() == c);
            assert(r@ =~= before + escaped_char(c));
        }
        i = i + 1;
    }
    assert(s@.subrange(0, n as int) =~= s@);
    r
}

/// What chrono writes for an instant given in nanoseconds since the Unix epoch, as RFC 3339
/// with nine fractional digits and a `Z` suffix.
pub uninterp spec fn rfc3339_text(nanos: int) -> Seq<char>;

/// What chrono's `Display` writes for an instant given in nanoseconds since the Unix epoch, in
/// UTC: date, time, fractional digits as needed, and ` UTC`.
pub uninterp spec fn utc_display_text(nanos: int) -> Seq<char>;

/// Relies on chrono's `DateTime::<Utc>::from_timestamp_nanos`, which accepts every `i64`, and on
/// `to_rfc3339_opts(SecondsFormat::Nanos, true)`, whose text depends on the instant alone.
#[verifier::external_body]
pub(crate) fn rfc3339_nanos(nanos: i64) -> (r: String)
    ensures
        r@ == rfc3339_text(nanos as int),
{
    chrono::DateTime::<chrono::Utc>::from_timestamp_nanos(nanos).to_rfc3339_opts(
        chrono::SecondsFormat::Nanos,
        true,
    )
}

/// Relies on chrono's `Display` for `DateTime<Utc>` (built by `from_timestamp_nanos`), whose
/// text depends on the instant alone.
#[verifier::external_body]
pub(crate) fn utc_display(nanos: i64) -> (r: String)
    ensures
        r@ == utc_display_text(nanos as int),
{
    chrono::DateTime::<chrono::Utc>::from_timestamp_nanos(nanos).to_string()
}

} // verus!
