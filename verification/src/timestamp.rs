//! UTC instants, as seconds and nanoseconds since the Unix epoch, with the
//! text forms the pipeline writes.
use vstd::prelude::*;

verus! {

/// Whether chrono represents the instant `secs` seconds and `nanos`
/// nanoseconds after the epoch (`DateTime::<Utc>::from_timestamp` gives
/// `Some`).
pub uninterp spec fn chrono_accepts(secs: i64, nanos: u32) -> bool;

/// The RFC 3339 text of an instant (`DateTime::<Utc>::to_rfc3339`).
pub uninterp spec fn rfc3339_of(secs: i64, nanos: u32) -> Seq<char>;

/// The date of an instant as `YYYY/MM/DD` (`format("%Y/%m/%d")`).
pub uninterp spec fn date_path_of(secs: i64, nanos: u32) -> Seq<char>;

/// The text serde gives for an instant (`DateTime<Utc>`'s `Serialize`:
/// `to_rfc3339_opts(SecondsFormat::AutoSi, true)`).
pub uninterp spec fn serde_timestamp_of(secs: i64, nanos: u32) -> Seq<char>;

/// The instant that `DateTime::parse_from_rfc3339` reads from `text`, taken
/// in UTC, as seconds and nanoseconds; `None` where it refuses the text.
pub uninterp spec fn rfc3339_parse_of(text: Seq<char>) -> Option<(i64, u32)>;

/// `to_rfc3339_opts(SecondsFormat::AutoSi, true)` of the instant.
#[verifier::external_body]
fn serde_timestamp_exec(secs: i64, nanos: u32) -> (r: String)
    requires
        chrono_accepts(secs, nanos),
    ensures
        r@ == serde_timestamp_of(secs, nanos),
{
    chrono::DateTime::<chrono::Utc>::from_timestamp(secs, nanos).unwrap().to_rfc3339_opts(chrono::SecondsFormat::AutoSi, true)
}

/// Whether an instant falls in the years 0 to 9999, which RFC 3339 writes
/// with four digits.
pub open spec fn four_digit_year(secs: i64) -> bool {
    -62167219200 <= secs <= 253402300799
}

/// Whether `r` is what reading `text` gives, where `text` is the serde text
/// of an instant of a four-digit year that is not a leap second: that
/// instant.
pub open spec fn instant_read_back(text: Seq<char>, r: Option<(i64, u32)>) -> bool {
    forall|s: i64, n: u32|
        chrono_accepts(s, n) && four_digit_year(s) && n < 1_000_000_000 && #[trigger] serde_timestamp_of(s, n)
            == text ==> r == Some((s, n))
}

/// `DateTime::parse_from_rfc3339(text)` in UTC, as seconds and nanoseconds.
/// What it reads is an instant chrono represents; it reads back the text that
/// `to_rfc3339_opts(AutoSi, true)` writes for an instant of a four-digit year
/// (other years are written with a sign and five digits, which it refuses)
/// that is not a leap second.
#[verifier::external_body]
fn parse_rfc3339_exec(text: &str) -> (r: Option<(i64, u32)>)
    ensures
        r == rfc3339_parse_of(text@),
        r matches Some((s, n)) ==> chrono_accepts(s, n),
        instant_read_back(text@, r),
{
    chrono::DateTime::parse_from_rfc3339(text).ok().map(|d| {
        let u = d.with_timezone(&chrono::Utc);
        (u.timestamp(), u.timestamp_subsec_nanos())
    })
}

/// `DateTime::<Utc>::from_timestamp(secs, nanos).is_some()`.
#[verifier::external_body]
fn chrono_accepts_exec(secs: i64, nanos: u32) -> (r: bool)
    ensures
        r == chrono_accepts(secs, nanos),
{
    chrono::DateTime::<chrono::Utc>::from_timestamp(secs, nanos).is_some()
}

/// `Utc::now()`, as seconds and nanoseconds. chrono gives back an instant it
/// represents; when it is read depends on the clock.
#[verifier::external_body]
fn utc_now_parts() -> (r: (i64, u32))
    ensures
        chrono_accepts(r.0, r.1),
{
    let now = chrono::Utc::now();
    (now.timestamp(), now.timestamp_subsec_nanos())
}

/// `to_rfc3339` of the instant.
#[verifier::external_body]
fn rfc3339_exec(secs: i64, nanos: u32) -> (r: String)
    requires
        chrono_accepts(secs, nanos),
    ensures
        r@ == rfc3339_of(secs, nanos),
{
    chrono::DateTime::<chrono::Utc>::from_timestamp(secs, nanos).unwrap().to_rfc3339()
}

/// `format("%Y/%m/%d")` of the instant.
#[verifier::external_body]
fn date_path_exec(secs: i64, nanos: u32) -> (r: String)
    requires
        chrono_accepts(secs, nanos),
    ensures
        r@ == date_path_of(secs, nanos),
{
    chrono::DateTime::<chrono::Utc>::from_timestamp(secs, nanos).unwrap().format("%Y/%m/%d").to_string()
}

/// Whether chrono represents the instant `ms` milliseconds after the epoch
/// (`DateTime::<Utc>::from_timestamp_millis` gives `Some`): that function
/// splits `ms` into whole seconds and the rest by Euclidean division.
pub open spec fn millis_accepted(ms: i64) -> bool {
    chrono_accepts((ms / 1000) as i64, ((ms % 1000) * 1_000_000) as u32)
}

/// See `millis_accepted`.
pub fn millis_representable(ms: i64) -> (r: bool)
    ensures
        r == millis_accepted(ms),
{
    let secs: i64;
    let rest: u32;
    if ms >= 0 {
        secs = ms / 1000;
        rest = (ms % 1000) as u32;
        proof {
            vstd::arithmetic::div_mod::lemma_fundamental_div_mod_converse(
                ms as int,
                1000,
                secs as int,
                rest as int,
            );
        }
    } else {
        let a: i64 = -(ms + 1);
        let q: i64 = a / 1000;
        let r: i64 = a % 1000;
        secs = -q - 1;
        rest = (999 - r) as u32;
        proof {
            assert(a == q * 1000 + r) by (nonlinear_arith)
                requires
                    a >= 0,
                    q == a / 1000,
                    r == a % 1000,
            ;
            vstd::arithmetic::div_mod::lemma_fundamental_div_mod_converse(
                ms as int,
                1000,
                secs as int,
                rest as int,
            );
        }
    }
    chrono_accepts_exec(secs, rest * 1_000_000)
}

/// An instant that chrono represents.
#[derive(Debug, Clone, Copy)]
pub struct UtcTimestamp {
    secs: i64,
    nanos: u32,
}

impl UtcTimestamp {
    #[verifier::type_invariant]
    spec fn inv(&self) -> bool {
        chrono_accepts(self.secs, self.nanos)
    }

    pub closed spec fn seconds(&self) -> i64 {
        self.secs
    }

    pub closed spec fn subsec_nanos(&self) -> u32 {
        self.nanos
    }

    /// The current instant, as chrono reads the clock: an instant that
    /// chrono represents (which one depends on the clock).
    pub fn now() -> (r: UtcTimestamp)
        ensures
            chrono_accepts(r.seconds(), r.subsec_nanos()),
    {
        let (secs, nanos) = utc_now_parts();
        UtcTimestamp { secs, nanos }
    }

    /// The instant `secs` seconds and `nanos` nanoseconds after the epoch,
    /// where chrono represents it.
    pub fn from_parts(secs: i64, nanos: u32) -> (r: Option<UtcTimestamp>)
        ensures
            chrono_accepts(secs, nanos) ==> (r matches Some(t) && t.seconds() == secs
                && t.subsec_nanos() == nanos),
            !chrono_accepts(secs, nanos) ==> r is None,
    {
        if chrono_accepts_exec(secs, nanos) {
            Some(UtcTimestamp { secs, nanos })
        } else {
            None
        }
    }

    /// Seconds since the epoch.
    pub fn secs(&self) -> (r: i64)
        ensures
            r == self.seconds(),
    {
        self.secs
    }

    /// Nanoseconds within the second.
    pub fn nanos(&self) -> (r: u32)
        ensures
            r == self.subsec_nanos(),
    {
        self.nanos
    }

    /// The RFC 3339 text of this instant.
    pub fn to_rfc3339(&self) -> (r: String)
        ensures
            r@ == rfc3339_of(self.seconds(), self.subsec_nanos()),
    {
        proof {
            use_type_invariant(self);
        }
        rfc3339_exec(self.secs, self.nanos)
    }

    /// The text serde gives for this instant (RFC 3339, `Z` for UTC).
    pub fn to_serde_text(&self) -> (r: String)
        ensures
            r@ == serde_timestamp_of(self.seconds(), self.subsec_nanos()),
    {
        proof {
            use_type_invariant(self);
        }
        serde_timestamp_exec(self.secs, self.nanos)
    }

    /// The instant that the RFC 3339 `text` names, in UTC, where chrono reads
    /// one (see `rfc3339_parse_of`).
    pub fn parse_rfc3339(text: &str) -> (r: Option<UtcTimestamp>)
        ensures
            match rfc3339_parse_of(text@) {
                Some((s, n)) => r matches Some(t) && t.seconds() == s && t.subsec_nanos() == n,
                None => r is None,
            },
            instant_read_back(text@, rfc3339_parse_of(text@)),
    {
        match parse_rfc3339_exec(text) {
            Some((secs, nanos)) => Some(UtcTimestamp { secs, nanos }),
            None => None,
        }
    }

    /// The date of this instant as `YYYY/MM/DD`.
    pub fn date_path(&self) -> (r: String)
        ensures
            r@ == date_path_of(self.seconds(), self.subsec_nanos()),
    {
        proof {
            use_type_invariant(self);
        }
        date_path_exec(self.secs, self.nanos)
    }
}

} // verus!
