use vstd::prelude::*;
use vstd::utf8::encode_utf8;

verus! {

/// The ASCII decimal digits of `n`, most significant first, without leading zeros.
pub open spec fn decimal_digits(n: nat) -> Seq<u8>
    decreases n,
{
    if n < 10 {
        seq![(48 + n) as u8]
    } else {
        decimal_digits(n / 10).push((48 + n % 10) as u8)
    }
}

pub open spec fn is_digit(b: u8) -> bool {
    48 <= b <= 57
}

/// The number that a string of ASCII digits spells in base ten.
pub open spec fn digits_value(s: Seq<u8>) -> nat
    decreases s.len(),
{
    if s.len() == 0 {
        0
    } else {
        digits_value(s.drop_last()) * 10 + (s.last() - 48) as nat
    }
}

/// The digits of a decimal text: one optional leading `+` is dropped.
pub open spec fn unsigned_part(s: Seq<u8>) -> Seq<u8> {
    if s.len() > 0 && s[0] == 43 {
        s.drop_first()
    } else {
        s
    }
}

/// Whether `s` is an unsigned decimal numeral: an optional `+`, then one or more digits.
pub open spec fn is_numeral(s: Seq<u8>) -> bool {
    let d = unsigned_part(s);
    d.len() > 0 && forall|i: int| 0 <= i < d.len() ==> is_digit(#[trigger] d[i])
}

/// The value of an unsigned decimal numeral.
pub open spec fn numeral_value(s: Seq<u8>) -> nat {
    digits_value(unsigned_part(s))
}

/// The key from which a transaction id is derived: the decimal time followed by
/// the UTF-8 bytes of the message.
pub open spec fn tx_key_of(now: nat, message: Seq<char>) -> Seq<u8> {
    decimal_digits(now) + encode_utf8(message)
}

/// A lowercase hexadecimal digit.
pub open spec fn is_lower_hex(c: char) -> bool {
    ('0' <= c && c <= '9') || ('a' <= c && c <= 'f')
}

pub open spec fn all_lower_hex(s: Seq<char>) -> bool {
    forall|i: int| 0 <= i < s.len() ==> is_lower_hex(#[trigger] s[i])
}

/// The lowercase hex SHA-1 digest of `data`, as sha1_smol computes it.
pub uninterp spec fn sha1_hex_of(data: Seq<u8>) -> Seq<char>;

proof fn lemma_digits_value_grows(s: Seq<u8>, i: int, j: int)
    requires
        0 <= i <= j <= s.len(),
        forall|k: int| 0 <= k < s.len() ==> is_digit(#[trigger] s[k]),
    ensures
        digits_value(s.take(i)) <= digits_value(s.take(j)),
    decreases j - i,
{
    if i < j {
        lemma_digits_value_grows(s, i, j - 1);
        assert(s.take(j).drop_last() =~= s.take(j - 1));
    }
}

proof fn lemma_decimal_digits_are_digits(n: nat)
    ensures
        decimal_digits(n).len() > 0,
        forall|k: int| 0 <= k < decimal_digits(n).len() ==> is_digit(#[trigger] decimal_digits(n)[k]),
    decreases n,
{
    if n >= 10 {
        lemma_decimal_digits_are_digits(n / 10);
    }
}

/// Appends the decimal digits of `n` to `out`.
fn push_decimal(out: &mut Vec<u8>, n: u64)
    ensures
        final(out)@ == old(out)@ + decimal_digits(n as nat),
    decreases n,
{
    if n >= 10 {
        push_decimal(out, n / 10);
    }
    let d: u64 = n % 10;
    out.push((48 + d) as u8);
    proof {
        if n >= 10 {
            assert(old(out)@ + decimal_digits(n as nat) =~= old(out)@ + decimal_digits((n / 10) as nat) + seq![(48 + n % 10) as u8]);
        }
    }
}

/// Reads an unsigned decimal numeral (an optional `+`, then digits) as a `u64`,
/// as `u64`'s `FromStr` does: `None` when the text is no numeral or the value
/// does not fit.
pub fn parse_u64(s: &[u8]) -> (r: Option<u64>)
    ensures
        r is Some <==> is_numeral(s@) && numeral_value(s@) <= u64::MAX,
        r is Some ==> r->Some_0 as nat == numeral_value(s@),
{
    let start: usize = if s.len() > 0 && s[0] == 43u8 { 1 } else { 0 };
    let ghost d = unsigned_part(s@);
    assert(d =~= s@.subrange(start as int, s@.len() as int));
    if start >= s.len() {
        return None;
    }
    let mut acc: u64 = 0;
    let mut i: usize = start;
    while i < s.len()
        invariant
            start <= i <= s.len(),
            d == unsigned_part(s@),
            d =~= s@.subrange(start as int, s@.len() as int),
            forall|k: int| 0 <= k < i - start ==> is_digit(#[trigger] d[k]),
            acc as nat == digits_value(d.take(i - start)),
        decreases s.len() - i,
    {
        let b = s[i];
        if b < 48u8 || b > 57u8 {
            assert(d[i - start] == b);
            return None;
        }
        let digit: u64 = (b - 48u8) as u64;
        assert(d.take(i - start + 1).drop_last() =~= d.take(i - start));
        if acc > (u64::MAX - digit) / 10 {
            proof {
                assert(acc * 10 + digit > u64::MAX) by (nonlinear_arith)
                    requires
                        acc > (u64::MAX - digit) / 10,
                        digit <= 9,
                ;
                if is_numeral(s@) {
                    lemma_digits_value_grows(d, i - start + 1, d.len() as int);
                    assert(d.take(d.len() as int) =~= d);
                }
            }
            return None;
        }
        proof {
            assert(acc * 10 + digit <= u64::MAX) by (nonlinear_arith)
                requires
                    acc <= (u64::MAX - digit) / 10,
                    digit <= 9,
            ;
        }
        acc = acc * 10 + digit;
        i = i + 1;
    }
    assert(d.take(d.len() as int) =~= d);
    Some(acc)
}

/// The key that a transaction id is derived from: the decimal time, then the message.
pub fn tx_key(now: u64, message: &str) -> (r: Vec<u8>)
    ensures
        r@ == tx_key_of(now as nat, message@),
{
    let mut out: Vec<u8> = Vec::new();
    push_decimal(&mut out, now);
    let bytes = message.as_bytes();
    let mut i: usize = 0;
    while i < bytes.len()
        invariant
            0 <= i <= bytes@.len(),
            bytes@ == encode_utf8(message@),
            out@ == decimal_digits(now as nat) + bytes@.take(i as int),
        decreases bytes.len() - i,
    {
        out.push(bytes[i]);
        assert(bytes@.take(i + 1) =~= bytes@.take(i as int).push(bytes[i as int]));
        i = i + 1;
    }
    assert(bytes@.take(bytes@.len() as int) =~= bytes@);
    out
}

/// Relies on sha1_smol: `Sha1::from(data).digest()` hashes `data`, and the
/// digest's `Display` writes its five state words as 40 lowercase hex digits.
#[verifier::external_body]
fn sha1_hex(data: &[u8]) -> (r: String)
    ensures
        r@ == sha1_hex_of(data@),
        r@.len() == 40,
        all_lower_hex(r@),
{
    sha1_smol::Sha1::from(data).digest().to_string()
}

/// The transaction id of `message` sent at time `now` (seconds since the Unix
/// epoch): the SHA-1 digest of the decimal time followed by the message.
pub fn tx_id_at(now: u64, message: &str) -> (r: String)
    ensures
        r@ == sha1_hex_of(tx_key_of(now as nat, message@)),
        r@.len() == 40,
        all_lower_hex(r@),
{
    let key = tx_key(now, message);
    sha1_hex(key.as_slice())
}

/// A fresh transaction id for `message`, keyed by the current time.
pub fn generate_tx_id(message: &str) -> (r: String)
    ensures
        exists|now: u64| r@ == sha1_hex_of(tx_key_of(now as nat, message@)),
        r@.len() == 40,
        all_lower_hex(r@),
{
    let now = current_time();
    tx_id_at(now, message)
}

#[verifier::external_type_specification]
#[verifier::external_body]
pub struct ExSystemTime(std::time::SystemTime);

#[verifier::external_type_specification]
#[verifier::external_body]
pub struct ExSystemTimeError(std::time::SystemTimeError);

/// Relies on `SystemTime::now`: the current wall-clock time.
pub assume_specification[ std::time::SystemTime::now ]() -> std::time::SystemTime;

/// Relies on `Duration::as_secs`: the whole seconds of a duration.
pub assume_specification[ core::time::Duration::as_secs ](d: &core::time::Duration) -> u64;

/// Relies on `SystemTime::duration_since` with `UNIX_EPOCH`: the time elapsed
/// since the epoch, or an error for a clock set before it.
#[verifier::external_body]
fn since_epoch(t: &std::time::SystemTime) -> (r: Result<core::time::Duration, std::time::SystemTimeError>) {
    t.duration_since(std::time::UNIX_EPOCH)
}

/// Seconds since the Unix epoch by the system clock; 0 for a clock set before
/// the epoch.
pub fn current_time() -> u64 {
    let now = std::time::SystemTime::now();
    match since_epoch(&now) {
        Ok(d) => d.as_secs(),
        Err(_) => 0,
    }
}

pub open spec fn is_success(status: u16) -> bool {
    200 <= status <= 299
}

/// The HTTP status a provider throttles with.
pub const TOO_MANY_REQUESTS: u16 = 429;

/// `now + delay`, held at `u64::MAX` where it would overflow.
pub open spec fn deadline(now: nat, delay: nat) -> nat {
    if now + delay > u64::MAX {
        u64::MAX as nat
    } else {
        now + delay
    }
}

pub fn deadline_after(now: u64, delay: u128) -> (r: u64)
    ensures
        r as nat == deadline(now as nat, delay as nat),
{
    if delay > (u64::MAX - now) as u128 {
        u64::MAX
    } else {
        (now as u128 + delay) as u64
    }
}

} // verus!
