//! The typed entries of a listing, and what each of them is in contracts.

use crate::number::Decimal;
use crate::text::{equals_ignoring_case, same_ignoring_case};
use vstd::prelude::*;
use vstd::std_specs::convert::FromSpecImpl;

verus! {

/// The kind of Internet number resource that an entry speaks of.
#[derive(Debug, Clone, Copy, PartialEq, Eq, Structural)]
pub enum Type {
    /// Autonomous System Number
    ASN,
    /// Internet Protocol version 4
    IPv4,
    /// Internet Protocol version 6
    IPv6,
    /// Any other resource
    Unknown,
}

impl Type {
    /// The resource type that a token names. The case of letters is ignored,
    /// and a token that names none of the three known types is `Unknown`.
    pub open spec fn of(token: Seq<char>) -> Type {
        if same_ignoring_case(token, "asn"@) {
            Type::ASN
        } else if same_ignoring_case(token, "ipv4"@) {
            Type::IPv4
        } else if same_ignoring_case(token, "ipv6"@) {
            Type::IPv6
        } else {
            Type::Unknown
        }
    }
}

impl From<&str> for Type {
    /// Decodes a resource type. Every token decodes to some type.
    fn from(value: &str) -> (t: Type) {
        proof {
            reveal_strlit("asn");
            reveal_strlit("ipv4");
            reveal_strlit("ipv6");
        }
        if equals_ignoring_case(value, "asn") {
            Type::ASN
        } else if equals_ignoring_case(value, "ipv4") {
            Type::IPv4
        } else if equals_ignoring_case(value, "ipv6") {
            Type::IPv6
        } else {
            Type::Unknown
        }
    }
}

impl FromSpecImpl<&str> for Type {
    open spec fn obeys_from_spec() -> bool {
        true
    }

    open spec fn from_spec(value: &str) -> Type {
        Type::of(value@)
    }
}

/// The line that describes the listing itself.
#[derive(Debug, Clone, PartialEq, Eq)]
pub struct Version {
    /// The version of the exchange format.
    pub version: Decimal,
    /// The registry that published the listing.
    pub registry: String,
    /// Serial number of the listing within the registry's series.
    pub serial: String,
    /// Number of records that the listing declares.
    pub records: u32,
    /// Start of the period covered, as `yyyymmdd`.
    pub start_date: String,
    /// End of the period covered, as `yyyymmdd`.
    pub end_date: String,
    /// Offset from UTC of the registry's local time.
    pub utc_offset: String,
}

/// A line that counts the records of one resource type.
#[derive(Debug, Clone, PartialEq, Eq)]
pub struct Summary {
    /// The registry that the count belongs to.
    pub registry: String,
    /// The resource type that was counted.
    pub res_type: Type,
    /// Number of records of this type in the listing.
    pub count: u32,
}

/// A line that describes one allocation or assignment.
#[derive(Debug, Clone, PartialEq, Eq)]
pub struct Record {
    /// The registry that the record belongs to.
    pub registry: String,
    /// Two-letter code of the organization's country.
    pub organization: String,
    /// The resource type of the record.
    pub res_type: Type,
    /// The first number of an ASN range, or the base of an IP prefix.
    pub start: String,
    /// Hosts of an IPv4 prefix, length of an IPv6 prefix, or count of ASNs.
    pub value: u32,
    /// Date of the allocation, as `yyyymmdd`.
    pub date: String,
    /// Status of the allocation.
    pub status: String,
    /// Opaque handle of the holder; empty where the line has none.
    pub id: String,
}

/// One decoded line of a listing.
#[derive(Debug, Clone, PartialEq, Eq)]
pub enum Line {
    /// The version line.
    Version(Version),
    /// A summary line.
    Summary(Summary),
    /// A record line.
    Record(Record),
}

/// What a [`Version`] is in contracts.
pub struct VersionView {
    pub version: Decimal,
    pub registry: Seq<char>,
    pub serial: Seq<char>,
    pub records: u32,
    pub start_date: Seq<char>,
    pub end_date: Seq<char>,
    pub utc_offset: Seq<char>,
}

/// What a [`Summary`] is in contracts.
pub struct SummaryView {
    pub registry: Seq<char>,
    pub res_type: Type,
    pub count: u32,
}

/// What a [`Record`] is in contracts.
pub struct RecordView {
    pub registry: Seq<char>,
    pub organization: Seq<char>,
    pub res_type: Type,
    pub start: Seq<char>,
    pub value: u32,
    pub date: Seq<char>,
    pub status: Seq<char>,
    pub id: Seq<char>,
}

/// What a [`Line`] is in contracts.
pub enum LineView {
    Version(VersionView),
    Summary(SummaryView),
    Record(RecordView),
}

impl View for Version {
    type V = VersionView;

    open spec fn view(&self) -> VersionView {
        VersionView {
            version: self.version,
            registry: self.registry@,
            serial: self.serial@,
            records: self.records,
            start_date: self.start_date@,
            end_date: self.end_date@,
            utc_offset: self.utc_offset@,
        }
    }
}

impl View for Summary {
    type V = SummaryView;

    open spec fn view(&self) -> SummaryView {
        SummaryView { registry: self.registry@, res_type: self.res_type, count: self.count }
    }
}

impl View for Record {
    type V = RecordView;

    open spec fn view(&self) -> RecordView {
        RecordView {
            registry: self.registry@,
            organization: self.organization@,
            res_type: self.res_type,
            start: self.start@,
            value: self.value,
            date: self.date@,
            status: self.status@,
            id: self.id@,
        }
    }
}

impl View for Line {
    type V = LineView;

    open spec fn view(&self) -> LineView {
        match self {
            Line::Version(version) => LineView::Version(version@),
            Line::Summary(summary) => LineView::Summary(summary@),
            Line::Record(record) => LineView::Record(record@),
        }
    }
}

} // verus!
