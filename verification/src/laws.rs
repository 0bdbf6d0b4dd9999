//! What holds of every listing and of every token.

use crate::entry::{LineView, RecordView, SummaryView, Type, VersionView};
use crate::listing::{
    entries, fields, is_comment, is_summary, is_version_token, line_entry, lines, parsed,
    shape_of, Shape,
};
use crate::number::{decimal, is_digit, unsigned};
use crate::text::{first_at, lemma_first_at, lemma_first_at_is, lower, same_ignoring_case};
use vstd::prelude::*;

verus! {

/// A text that holds no line feed.
pub open spec fn one_line(line: Seq<char>) -> bool {
    forall|i: int| 0 <= i < line.len() ==> line[i] != '\n'
}

/// The text that holds the given lines, each followed by a line feed.
pub open spec fn joined(all: Seq<Seq<char>>) -> Seq<char>
    decreases all.len(),
{
    if all.len() == 0 {
        Seq::<char>::empty()
    } else {
        all[0] + seq!['\n'] + joined(all.drop_first())
    }
}

/// The entry that a line gives, if it gives one.
pub open spec fn entry_of(line: Seq<char>) -> Option<LineView> {
    match line_entry(line, 0) {
        Ok(Some(entry)) => Some(entry),
        _ => None,
    }
}

/// The version entry that a version line decodes to: each field of the entry
/// is the field of the line at its place, the version and the number of
/// records as numbers.
pub open spec fn version_of(line: Seq<char>) -> LineView {
    let f = fields(line);
    LineView::Version(
        VersionView {
            version: decimal(f[0])->0,
            registry: f[1],
            serial: f[2],
            records: unsigned(f[3])->0,
            start_date: f[4],
            end_date: f[5],
            utc_offset: f[6],
        },
    )
}

/// The summary entry that a summary line decodes to: the registry is the
/// first field, the resource type is named by the third, the count is the
/// fifth.
pub open spec fn summary_of(line: Seq<char>) -> LineView {
    let f = fields(line);
    LineView::Summary(
        SummaryView { registry: f[0], res_type: Type::of(f[2]), count: unsigned(f[4])->0 },
    )
}

/// A line that decodes to a record.
pub open spec fn is_record_line(line: Seq<char>) -> bool {
    &&& !is_comment(line)
    &&& shape_of(line) == Shape::Record
    &&& fields(line).len() >= 7
    &&& unsigned(fields(line)[4]) is Some
}

/// The record that a record line decodes to: each field of the record is
/// the field of the line at its place, the value as a number.
pub open spec fn record_of(line: Seq<char>) -> LineView {
    let f = fields(line);
    LineView::Record(
        RecordView {
            registry: f[0],
            organization: f[1],
            res_type: Type::of(f[2]),
            start: f[3],
            value: unsigned(f[4])->0,
            date: f[5],
            status: f[6],
            id: if f.len() > 7 {
                f[7]
            } else {
                Seq::<char>::empty()
            },
        },
    )
}

/// Text that is written as lines is read as those lines.
pub proof fn lines_of_joined(all: Seq<Seq<char>>)
    requires
        forall|i: int| 0 <= i < all.len() ==> one_line(#[trigger] all[i]),
    ensures
        lines(joined(all)) == all,
    decreases all.len(),
{
    if all.len() > 0 {
        let text = joined(all);
        let head = all[0];
        let tail = joined(all.drop_first());
        assert(one_line(head));
        assert forall|j: int| 0 <= j < head.len() implies text[j] != '\n' by {
            assert(text[j] == head[j]);
        }
        lemma_first_at_is(text, '\n', head.len() as int);
        assert(text.subrange(0, head.len() as int) =~= head);
        assert(text.subrange(head.len() as int + 1, text.len() as int) =~= tail);
        assert forall|i: int| 0 <= i < all.drop_first().len() implies one_line(
            #[trigger] all.drop_first()[i],
        ) by {
            assert(all.drop_first()[i] == all[i + 1]);
        }
        lines_of_joined(all.drop_first());
        assert(seq![head] + all.drop_first() =~= all);
    }
}

/// A text without a line feed that is not empty is a single line.
pub proof fn lines_of_one_line(line: Seq<char>)
    requires
        one_line(line),
        line.len() > 0,
    ensures
        lines(line) == seq![line],
{
    lemma_first_at_is(line, '\n', line.len() as int);
}

/// Whether a line gives an entry, and which, does not depend on where the
/// line stands: only an error holds the line's number.
pub proof fn entry_ignores_number(line: Seq<char>, a: nat, b: nat)
    ensures
        line_entry(line, a) is Ok <==> line_entry(line, b) is Ok,
        line_entry(line, a) is Ok ==> line_entry(line, a) == line_entry(line, b),
{
}

/// A line of seven fields or more, the first of them a decimal number made
/// of digits and `.`, the fourth an unsigned integer, decodes to a version
/// entry that holds the fields at their places; alone in a listing it gives
/// exactly that entry.
pub proof fn version_line_decodes(line: Seq<char>, number: nat)
    requires
        fields(line).len() >= 7,
        fields(line)[0].len() > 0,
        is_version_token(fields(line)[0]),
        decimal(fields(line)[0]) is Some,
        unsigned(fields(line)[3]) is Some,
    ensures
        line_entry(line, number) matches Ok(Some(entry)) && entry == version_of(line),
        entries(seq![line]) matches Ok(found) && found == seq![version_of(line)],
        one_line(line) ==> parsed(line) == entries(seq![line]),
{
    let f = fields(line);
    lemma_first_at(line, '|');
    assert(f[0] =~= line.subrange(0, first_at(line, '|')));
    assert(f[0][0] == line[0]);
    assert(is_digit(f[0][0]) || f[0][0] == '.');
    assert(!is_comment(line));
    assert(shape_of(line) == Shape::Version);
    assert(seq![line].drop_last() =~= Seq::<Seq<char>>::empty());
    assert(entries(seq![line].drop_last()) matches Ok(none) && none == Seq::<LineView>::empty());
    assert(seq![line].last() == line);
    entry_ignores_number(line, number, 1);
    assert(Seq::<LineView>::empty().push(line_entry(line, number)->Ok_0->0) =~= seq![
        line_entry(line, number)->Ok_0->0,
    ]);
    if one_line(line) {
        lines_of_one_line(line);
    }
}

/// A line that is no comment and no version line, and whose sixth field is
/// the word `summary`, decodes to a summary entry where its fifth field is an
/// unsigned integer: the registry is the first field, the resource type is
/// named by the third, the count is the fifth.
pub proof fn summary_line_decodes(line: Seq<char>, number: nat)
    requires
        !is_comment(line),
        !is_version_token(fields(line)[0]),
        fields(line).len() > 5,
        fields(line)[5] == "summary"@,
        unsigned(fields(line)[4]) is Some,
    ensures
        line_entry(line, number) matches Ok(Some(entry)) && entry == summary_of(line),
{
}

/// A line of seven fields or more that is no comment, no version line and
/// no summary line decodes to a record entry where its fifth field is an
/// unsigned integer. With exactly seven fields the record's id is empty.
pub proof fn record_line_decodes(line: Seq<char>, number: nat)
    requires
        !is_comment(line),
        !is_version_token(fields(line)[0]),
        !is_summary(fields(line)),
        fields(line).len() >= 7,
        unsigned(fields(line)[4]) is Some,
    ensures
        is_record_line(line),
        line_entry(line, number) matches Ok(Some(entry)) && entry == record_of(line),
        record_of(line) matches LineView::Record(r) && r.id == (if fields(line).len() == 7 {
            Seq::<char>::empty()
        } else {
            fields(line)[7]
        }),
{
}

/// Two tokens that differ only in the case of their letters name the same
/// resource type.
pub proof fn type_ignores_case(a: Seq<char>, b: Seq<char>)
    requires
        same_ignoring_case(a, b),
    ensures
        Type::of(a) == Type::of(b),
{
    assert forall|t: Seq<char>| same_ignoring_case(a, t) == same_ignoring_case(b, t) by {
        if same_ignoring_case(a, t) {
            assert forall|i: int| 0 <= i < b.len() implies lower(#[trigger] b[i])
                == lower(t[i]) by {
                assert(lower(a[i]) == lower(b[i]));
            }
        }
        if same_ignoring_case(b, t) {
            assert forall|i: int| 0 <= i < a.len() implies lower(#[trigger] a[i])
                == lower(t[i]) by {
                assert(lower(a[i]) == lower(b[i]));
            }
        }
    }
}

/// Every token names a resource type, and a token names `Unknown` exactly
/// where it is none of `asn`, `ipv4` and `ipv6` in any case of letters.
pub proof fn type_is_total(token: Seq<char>)
    ensures
        same_ignoring_case(token, "asn"@) ==> Type::of(token) == Type::ASN,
        same_ignoring_case(token, "ipv4"@) ==> Type::of(token) == Type::IPv4,
        same_ignoring_case(token, "ipv6"@) ==> Type::of(token) == Type::IPv6,
        Type::of(token) == Type::Unknown <==> !(same_ignoring_case(token, "asn"@)
            || same_ignoring_case(token, "ipv4"@) || same_ignoring_case(token, "ipv6"@)),
{
    reveal_strlit("asn");
    reveal_strlit("ipv4");
    reveal_strlit("ipv6");
    if same_ignoring_case(token, "ipv4"@) {
        assert("ipv4"@[3] == '4');
        assert(lower(token[3]) == '4');
    }
    if same_ignoring_case(token, "ipv6"@) {
        assert("ipv6"@[3] == '6');
        assert(lower(token[3]) == '6');
    }
}

/// A comment gives no entry, wherever it stands: a listing decodes to the
/// same with and without a comment at its end.
pub proof fn comment_gives_nothing(before: Seq<Seq<char>>, line: Seq<char>, number: nat)
    requires
        is_comment(line),
    ensures
        line_entry(line, number) matches Ok(None),
        entry_of(line) is None,
        entries(before.push(line)) == entries(before),
{
    assert(before.push(line).drop_last() =~= before);
}

/// A comment changes nothing wherever it stands in a listing: with it and
/// without it the listing decodes or fails alike, and decodes to the same
/// entries.
pub proof fn comment_changes_no_entries(
    first: Seq<Seq<char>>,
    comment: Seq<char>,
    rest: Seq<Seq<char>>,
)
    requires
        is_comment(comment),
    ensures
        entries(first + seq![comment] + rest) is Ok <==> entries(first + rest) is Ok,
        entries(first + rest) is Ok ==> entries(first + seq![comment] + rest) == entries(
            first + rest,
        ),
    decreases rest.len(),
{
    let with = first + seq![comment] + rest;
    let without = first + rest;
    if rest.len() == 0 {
        assert(with =~= first.push(comment));
        assert(without =~= first);
        comment_gives_nothing(first, comment, 0);
    } else {
        comment_changes_no_entries(first, comment, rest.drop_last());
        assert(with.drop_last() =~= first + seq![comment] + rest.drop_last());
        assert(without.drop_last() =~= first + rest.drop_last());
        entry_ignores_number(rest.last(), with.len(), without.len());
    }
}

/// The entries of a listing are the entries of its lines, in the order of
/// the lines, comments left out.
pub proof fn order_is_kept(all: Seq<Seq<char>>)
    requires
        entries(all) is Ok,
    ensures
        entries(all)->Ok_0 == all.filter_map(|line: Seq<char>| entry_of(line)),
    decreases all.len(),
{
    let pick = |line: Seq<char>| entry_of(line);
    if all.len() > 0 {
        order_is_kept(all.drop_last());
        entry_ignores_number(all.last(), all.len(), 0);
        match entry_of(all.last()) {
            Some(entry) => {
                assert(all.drop_last().filter_map(pick).push(entry) =~= all.drop_last().filter_map(
                    pick,
                ) + seq![entry]);
            },
            None => {},
        }
    }
}

/// Listings that decode one after the other decode as one listing, to the
/// entries of the first followed by the entries of the second.
pub proof fn entries_of_concat(first: Seq<Seq<char>>, second: Seq<Seq<char>>)
    requires
        entries(first) is Ok,
        entries(second) is Ok,
    ensures
        entries(first + second) matches Ok(found) && found == entries(first)->Ok_0 + entries(
            second,
        )->Ok_0,
    decreases second.len(),
{
    if second.len() == 0 {
        assert(first + second =~= first);
        assert(entries(first)->Ok_0 + entries(second)->Ok_0 =~= entries(first)->Ok_0);
    } else {
        let init = second.drop_last();
        entries_of_concat(first, init);
        assert((first + second).drop_last() =~= first + init);
        entry_ignores_number(second.last(), second.len(), (first + second).len());
        match line_entry(second.last(), second.len()) {
            Ok(Some(entry)) => {
                assert((entries(first)->Ok_0 + entries(init)->Ok_0).push(entry) =~= entries(
                    first,
                )->Ok_0 + entries(init)->Ok_0.push(entry));
            },
            _ => {},
        }
    }
}

/// A listing of record lines decodes to as many records as it has lines,
/// and the record at each place holds the fields of the line at that place.
pub proof fn records_round_trip(all: Seq<Seq<char>>)
    requires
        forall|i: int| 0 <= i < all.len() ==> is_record_line(#[trigger] all[i]),
    ensures
        entries(all) matches Ok(found) && found.len() == all.len() && forall|i: int|
            0 <= i < all.len() ==> #[trigger] found[i] == record_of(all[i]),
        (forall|i: int| 0 <= i < all.len() ==> one_line(#[trigger] all[i])) ==> parsed(joined(all))
            == entries(all),
    decreases all.len(),
{
    if all.len() > 0 {
        let init = all.drop_last();
        assert forall|i: int| 0 <= i < init.len() implies is_record_line(#[trigger] init[i]) by {
            assert(init[i] == all[i]);
        }
        records_round_trip(init);
        assert(is_record_line(all.last()));
        assert forall|i: int| 0 <= i < all.len() implies #[trigger] entries(all)->Ok_0[i]
            == record_of(all[i]) by {
            if i < init.len() {
                assert(entries(init)->Ok_0[i] == record_of(init[i]));
                assert(init[i] == all[i]);
            }
        }
    }
    if forall|i: int| 0 <= i < all.len() ==> one_line(#[trigger] all[i]) {
        lines_of_joined(all);
    }
}

/// A line in error fails the listing, whatever stands before and behind it:
/// the listing decodes to an error and to no entries. The error is that of
/// the line where no line before it is in error.
pub proof fn bad_line_fails(all: Seq<Seq<char>>, i: int)
    requires
        0 <= i < all.len(),
        line_entry(all[i], (i + 1) as nat) is Err,
    ensures
        entries(all) is Err,
        entries(all)->Err_0.line_number <= i + 1,
        (forall|j: int| 0 <= j < i ==> line_entry(#[trigger] all[j], (j + 1) as nat) is Ok)
            ==> entries(all)->Err_0 == line_entry(all[i], (i + 1) as nat)->Err_0,
    decreases all.len(),
{
    let init = all.drop_last();
    if i < all.len() - 1 {
        assert(init[i] == all[i]);
        bad_line_fails(init, i);
        assert forall|j: int| 0 <= j < i implies init[j] == all[j] by {}
    } else {
        if entries(init) is Err {
            first_error_is_early(init);
        } else if forall|j: int| 0 <= j < i ==> line_entry(#[trigger] all[j], (j + 1) as nat) is Ok {
        }
    }
}

/// An error reports the number of a line of the listing, and that line is
/// the first in error.
pub proof fn first_error_is_early(all: Seq<Seq<char>>)
    requires
        entries(all) is Err,
    ensures
        1 <= entries(all)->Err_0.line_number <= all.len(),
        entries(all)->Err_0.line == all[entries(all)->Err_0.line_number - 1],
        line_entry(all[entries(all)->Err_0.line_number - 1], entries(all)->Err_0.line_number)
            matches Err(e) && e == entries(all)->Err_0,
        forall|j: int|
            0 <= j < entries(all)->Err_0.line_number - 1 ==> line_entry(
                #[trigger] all[j],
                (j + 1) as nat,
            ) is Ok,
    decreases all.len(),
{
    let init = all.drop_last();
    if entries(init) is Err {
        first_error_is_early(init);
        let n = entries(init)->Err_0.line_number;
        assert(init[n - 1] == all[n - 1]);
        assert forall|j: int| 0 <= j < n - 1 implies line_entry(
            #[trigger] all[j],
            (j + 1) as nat,
        ) is Ok by {
            assert(init[j] == all[j]);
        }
    } else {
        all_lines_decode(init);
        assert forall|j: int| 0 <= j < all.len() - 1 implies line_entry(
            #[trigger] all[j],
            (j + 1) as nat,
        ) is Ok by {
            assert(init[j] == all[j]);
        }
    }
}

/// Where a listing decodes, each of its lines does.
pub proof fn all_lines_decode(all: Seq<Seq<char>>)
    requires
        entries(all) is Ok,
    ensures
        forall|j: int| 0 <= j < all.len() ==> line_entry(#[trigger] all[j], (j + 1) as nat) is Ok,
    decreases all.len(),
{
    if all.len() > 0 {
        let init = all.drop_last();
        all_lines_decode(init);
        assert forall|j: int| 0 <= j < all.len() implies line_entry(
            #[trigger] all[j],
            (j + 1) as nat,
        ) is Ok by {
            if j < init.len() {
                assert(init[j] == all[j]);
            }
        }
    }
}

} // verus!
