use vstd::prelude::*;

verus! {

/// The lowercase hexadecimal MD5 digest of the UTF-8 bytes of a text.
pub uninterp spec fn md5_hex(data: Seq<char>) -> Seq<char>;

/// Whether `c` is one of `0`-`9` or `a`-`f`.
pub open spec fn is_lower_hex_digit(c: char) -> bool {
    ('0' <= c && c <= '9') || ('a' <= c && c <= 'f')
}

/// Whether `s` is 32 lowercase hexadecimal digits.
pub open spec fn is_hex_digest(s: Seq<char>) -> bool {
    s.len() == 32 && forall|i: int| 0 <= i < s.len() ==> is_lower_hex_digit(#[trigger] s[i])
}

/// Relies on `md5::compute` and the digest's `LowerHex` rendering, which writes
/// each of the 16 digest bytes as two lowercase hexadecimal digits.
#[verifier::external_body]
fn md5_lower_hex(data: &str) -> (r: String)
    ensures
        r@ == md5_hex(data@),
        is_hex_digest(r@),
{
    format!("{:x}", md5::compute(data))
}

/// The character of a decimal digit.
pub open spec fn digit_char(d: nat) -> char {
    if d == 0 { '0' }
    else if d == 1 { '1' }
    else if d == 2 { '2' }
    else if d == 3 { '3' }
    else if d == 4 { '4' }
    else if d == 5 { '5' }
    else if d == 6 { '6' }
    else if d == 7 { '7' }
    else if d == 8 { '8' }
    else { '9' }
}

/// The decimal rendering of a natural number, without leading zeros.
pub open spec fn decimal(n: nat) -> Seq<char>
    decreases n,
{
    if n < 10 {
        seq![digit_char(n)]
    } else {
        decimal(n / 10).push(digit_char(n % 10))
    }
}

/// The text of a single decimal digit.
fn digit_text(d: u64) -> (r: &'static str)
    requires
        d < 10,
    ensures
        r@ == seq![digit_char(d as nat)],
{
    proof {
        reveal_strlit("0");
        reveal_strlit("1");
        reveal_strlit("2");
        reveal_strlit("3");
        reveal_strlit("4");
        reveal_strlit("5");
        reveal_strlit("6");
        reveal_strlit("7");
        reveal_strlit("8");
        reveal_strlit("9");
    }
    if d == 0 { "0" }
    else if d == 1 { "1" }
    else if d == 2 { "2" }
    else if d == 3 { "3" }
    else if d == 4 { "4" }
    else if d == 5 { "5" }
    else if d == 6 { "6" }
    else if d == 7 { "7" }
    else if d == 8 { "8" }
    else { "9" }
}

/// The decimal text of `n`.
pub fn decimal_text(n: u64) -> (r: String)
    ensures
        r@ == decimal(n as nat),
    decreases n,
{
    if n < 10 {
        digit_text(n).to_owned()
    } else {
        let mut text = decimal_text(n / 10);
        text.append(digit_text(n % 10));
        assert(text@ =~= decimal((n / 10) as nat).push(digit_char((n % 10) as nat)));
        text
    }
}

/// The digest of a secret under a pepper and a salt: the hash of the three texts
/// joined in that order.
pub open spec fn digest_of(pepper: Seq<char>, secret: Seq<char>, salt: Seq<char>) -> Seq<char> {
    md5_hex(pepper + secret + salt)
}

/// The credential hasher, configured once with its pepper and salt.
pub struct Hasher {
    pub pepper: String,
    pub salt: String,
}

impl Hasher {
    pub fn new(pepper: String, salt: String) -> (r: Hasher)
        ensures
            r.pepper@ == pepper@,
            r.salt@ == salt@,
    {
        Hasher { pepper, salt }
    }

    /// The hasher used when no pepper and no salt are configured.
    pub fn with_defaults() -> (r: Hasher)
        ensures
            r.pepper@ == "pepper"@,
            r.salt@ == "salt"@,
    {
        Hasher { pepper: "pepper".to_owned(), salt: "salt".to_owned() }
    }

    /// Deterministic one-way digest of `secret`, as 32 lowercase hex digits.
    pub fn digest(&self, secret: &str) -> (r: String)
        ensures
            r@ == digest_of(self.pepper@, secret@, self.salt@),
            is_hex_digest(r@),
    {
        let mut composition = self.pepper.clone();
        composition.append(secret);
        composition.append(self.salt.as_str());
        md5_lower_hex(composition.as_str())
    }
}

} // verus!
