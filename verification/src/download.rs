//! Where a registry publishes the listing of a given day.
//!
//! Every registry publishes one listing per day, under an address that holds
//! the day's date. AFRINIC, APNIC and ARIN publish the listing of the current
//! day; LACNIC and RIPE publish up to the day before. Days are days of UTC.
//! The addresses are those of the extended listings, which carry opaque ids.

use vstd::prelude::*;

verus! {

/// A Regional Internet Registry.
#[derive(Debug, Clone, Copy, PartialEq, Eq, Structural)]
pub enum Registry {
    /// The registry for Africa.
    AFRINIC,
    /// The registry for Asia and the Pacific.
    APNIC,
    /// The registry for North America.
    ARIN,
    /// The registry for Latin America and the Caribbean.
    LACNIC,
    /// The registry for Europe, the Middle East and Central Asia.
    RIPE,
}

/// Which of a registry's listings is asked for.
#[derive(Debug, Clone, Copy, PartialEq, Eq, Structural)]
pub enum Edition {
    /// The listing of the current day.
    Today,
    /// The listing of an earlier day.
    Earlier,
}

/// How the bytes of a listing are packed where it is published.
#[derive(Debug, Clone, Copy, PartialEq, Eq, Structural)]
pub enum Compression {
    /// The listing is published as plain text.
    Plain,
    /// The listing is published as a gzip stream.
    Gzip,
    /// The listing is published as a bzip2 stream.
    Bzip2,
}

/// Why there is no listing to fetch.
#[derive(Debug, Clone, Copy, PartialEq, Eq, Structural)]
pub enum FetchError {
    /// The day asked for lies after the current day.
    FutureDate,
    /// The registry does not publish a listing for the current day.
    UnavailableListing(Registry),
    /// The date asked for cannot be written into an address.
    DateOutOfRange,
}

/// Where a listing is published and how to unpack it.
#[derive(Debug, Clone, PartialEq, Eq)]
pub struct Source {
    /// The address of the listing.
    pub url: String,
    /// How the bytes behind the address are packed.
    pub compression: Compression,
}

/// What a [`Source`] is in contracts.
pub struct SourceView {
    pub url: Seq<char>,
    pub compression: Compression,
}

impl View for Source {
    type V = SourceView;

    open spec fn view(&self) -> SourceView {
        SourceView { url: self.url@, compression: self.compression }
    }
}

/// The number of seconds in a day.
pub const SECONDS_PER_DAY: i64 = 86_400;

/// The day that a UNIX timestamp falls on, counted from 1 January 1970.
pub open spec fn day_of(timestamp_seconds: int) -> int {
    timestamp_seconds / (SECONDS_PER_DAY as int)
}

/// What the `strftime`-style formatting of `chrono` makes of the UTC date and
/// time of a UNIX timestamp under a template; `None` where the timestamp lies
/// outside the dates that `chrono` computes or the template is malformed.
pub uninterp spec fn utc_formatted(timestamp_seconds: i64, template: Seq<char>) -> Option<
    Seq<char>,
>;

/// Formats the UTC date and time of a UNIX timestamp: the moment is made by
/// `chrono::DateTime::from_timestamp`, the template is read by
/// `chrono::DateTime::format`, and the text is written by
/// `chrono::format::DelayedFormat::write_to`.
///
/// Nothing is proved of this function. Its contract only gives the result a
/// name, which claims that the text depends on the timestamp and the
/// template alone.
#[verifier::external_body]
fn format_utc(timestamp_seconds: i64, template: &str) -> (text: Option<String>)
    ensures
        text.deep_view() == utc_formatted(timestamp_seconds, template@),
{
    let moment = chrono::DateTime::from_timestamp(timestamp_seconds, 0)?;
    let mut text = String::new();
    match moment.format(template).write_to(&mut text) {
        Ok(()) => Some(text),
        Err(_) => None,
    }
}

/// The day that a UNIX timestamp falls on, counted from 1 January 1970.
pub fn day_number(timestamp_seconds: i64) -> (day: i64)
    ensures
        day == day_of(timestamp_seconds as int),
{
    if timestamp_seconds >= 0 {
        timestamp_seconds / SECONDS_PER_DAY
    } else {
        -((-(timestamp_seconds + 1)) / SECONDS_PER_DAY) - 1
    }
}

impl Registry {
    /// Whether the registry publishes the listing of the current day.
    pub open spec fn has_today(self) -> bool {
        self != Registry::LACNIC && self != Registry::RIPE
    }

    /// Which listing a request is for, or why there is none: the time asked
    /// for must not fall on a later day than the current time, nor on the
    /// same day where the registry does not publish that day's listing.
    pub open spec fn edition_of(self, timestamp_seconds: int, now_seconds: int) -> Result<
        Edition,
        FetchError,
    > {
        if day_of(now_seconds) < day_of(timestamp_seconds) {
            Err(FetchError::FutureDate)
        } else if day_of(now_seconds) > day_of(timestamp_seconds) {
            Ok(Edition::Earlier)
        } else if self.has_today() {
            Ok(Edition::Today)
        } else {
            Err(FetchError::UnavailableListing(self))
        }
    }

    /// The template of the address under which the registry publishes an
    /// edition: `%Y`, `%m` and `%d` stand for the year, month and day.
    pub open spec fn template_of(self, edition: Edition) -> Seq<char> {
        match (self, edition) {
            (Registry::AFRINIC, Edition::Today) => {
                "https://ftp.afrinic.net/pub/stats/afrinic/delegated-afrinic-extended-%Y%m%d"@
            },
            (Registry::AFRINIC, Edition::Earlier) => {
                "https://ftp.afrinic.net/pub/stats/afrinic/%Y/delegated-afrinic-extended-%Y%m%d"@
            },
            (Registry::APNIC, Edition::Today) => {
                "https://ftp.apnic.net/stats/apnic/delegated-apnic-extended-%Y%m%d"@
            },
            (Registry::APNIC, Edition::Earlier) => {
                "https://ftp.apnic.net/stats/apnic/%Y/delegated-apnic-extended-%Y%m%d.gz"@
            },
            (Registry::ARIN, _) => {
                "https://ftp.arin.net/pub/stats/arin/delegated-arin-extended-%Y%m%d"@
            },
            (Registry::LACNIC, _) => {
                "https://ftp.lacnic.net/pub/stats/lacnic/delegated-lacnic-extended-%Y%m%d"@
            },
            (Registry::RIPE, _) => {
                "https://ftp.ripe.net/pub/stats/ripencc/%Y/delegated-ripencc-extended-%Y%m%d.bz2"@
            },
        }
    }

    /// How the registry packs an edition.
    pub open spec fn compression_of(self, edition: Edition) -> Compression {
        match (self, edition) {
            (Registry::APNIC, Edition::Earlier) => Compression::Gzip,
            (Registry::RIPE, _) => Compression::Bzip2,
            _ => Compression::Plain,
        }
    }

    /// The source of an edition, given the address that formatting its
    /// template gave.
    pub open spec fn source_of(self, edition: Edition, address: Option<Seq<char>>) -> Result<
        SourceView,
        FetchError,
    > {
        match address {
            Some(url) => Ok(SourceView { url, compression: self.compression_of(edition) }),
            None => Err(FetchError::DateOutOfRange),
        }
    }

    /// Where the listing of the day of `timestamp_seconds` is published, as
    /// seen at the time `now_seconds`.
    pub open spec fn resolved(self, timestamp_seconds: i64, now_seconds: i64) -> Result<
        SourceView,
        FetchError,
    > {
        match self.edition_of(timestamp_seconds as int, now_seconds as int) {
            Ok(edition) => self.source_of(
                edition,
                utc_formatted(timestamp_seconds, self.template_of(edition)),
            ),
            Err(e) => Err(e),
        }
    }

    /// Tells whether the registry publishes the listing of the current day.
    pub fn publishes_today(self) -> (r: bool)
        ensures
            r == self.has_today(),
    {
        match self {
            Registry::LACNIC | Registry::RIPE => false,
            _ => true,
        }
    }

    /// Decides which listing a request is for, or why there is none.
    pub fn edition(self, timestamp_seconds: i64, now_seconds: i64) -> (r: Result<
        Edition,
        FetchError,
    >)
        ensures
            r == self.edition_of(timestamp_seconds as int, now_seconds as int),
    {
        let asked = day_number(timestamp_seconds);
        let today = day_number(now_seconds);
        if today < asked {
            Err(FetchError::FutureDate)
        } else if today > asked {
            Ok(Edition::Earlier)
        } else if self.publishes_today() {
            Ok(Edition::Today)
        } else {
            Err(FetchError::UnavailableListing(self))
        }
    }

    /// The template of the address of an edition.
    pub fn template(self, edition: Edition) -> (t: &'static str)
        ensures
            t@ == self.template_of(edition),
    {
        match (self, edition) {
            (Registry::AFRINIC, Edition::Today) => {
                "https://ftp.afrinic.net/pub/stats/afrinic/delegated-afrinic-extended-%Y%m%d"
            },
            (Registry::AFRINIC, Edition::Earlier) => {
                "https://ftp.afrinic.net/pub/stats/afrinic/%Y/delegated-afrinic-extended-%Y%m%d"
            },
            (Registry::APNIC, Edition::Today) => {
                "https://ftp.apnic.net/stats/apnic/delegated-apnic-extended-%Y%m%d"
            },
            (Registry::APNIC, Edition::Earlier) => {
                "https://ftp.apnic.net/stats/apnic/%Y/delegated-apnic-extended-%Y%m%d.gz"
            },
            (Registry::ARIN, _) => {
                "https://ftp.arin.net/pub/stats/arin/delegated-arin-extended-%Y%m%d"
            },
            (Registry::LACNIC, _) => {
                "https://ftp.lacnic.net/pub/stats/lacnic/delegated-lacnic-extended-%Y%m%d"
            },
            (Registry::RIPE, _) => {
                "https://ftp.ripe.net/pub/stats/ripencc/%Y/delegated-ripencc-extended-%Y%m%d.bz2"
            },
        }
    }

    /// How the registry packs an edition.
    pub fn compression(self, edition: Edition) -> (c: Compression)
        ensures
            c == self.compression_of(edition),
    {
        match (self, edition) {
            (Registry::APNIC, Edition::Earlier) => Compression::Gzip,
            (Registry::RIPE, _) => Compression::Bzip2,
            _ => Compression::Plain,
        }
    }

    /// Makes the source of an edition from the address that formatting its
    /// template gave, or reports that there was none.
    pub fn source(self, edition: Edition, address: Option<String>) -> (r: Result<
        Source,
        FetchError,
    >)
        ensures
            match r {
                Ok(source) => self.source_of(edition, address.deep_view()) matches Ok(s) && s
                    == source@,
                Err(error) => self.source_of(edition, address.deep_view()) matches Err(e) && e
                    == error,
            },
    {
        match address {
            Some(url) => Ok(Source { url, compression: self.compression(edition) }),
            None => Err(FetchError::DateOutOfRange),
        }
    }

    /// Finds where `registry` publishes the listing of the day on which the
    /// UNIX timestamp `timestamp_seconds` falls, as seen at the time
    /// `now_seconds`. Only the days of the two timestamps matter.
    pub fn resolve(registry: Registry, timestamp_seconds: i64, now_seconds: i64) -> (r: Result<
        Source,
        FetchError,
    >)
        ensures
            match r {
                Ok(source) => registry.resolved(timestamp_seconds, now_seconds) matches Ok(s) && s
                    == source@,
                Err(error) => registry.resolved(timestamp_seconds, now_seconds) matches Err(e)
                    && e == error,
            },
    {
        match registry.edition(timestamp_seconds, now_seconds) {
            Ok(edition) => {
                let address = format_utc(timestamp_seconds, registry.template(edition));
                registry.source(edition, address)
            },
            Err(e) => Err(e),
        }
    }
}

} // verus!
