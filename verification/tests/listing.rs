use rsef_rs::{
    parse_line, read_all, Decimal, Line, ParseErrorKind, Record, Shape, Summary, Type,
};

fn as_f64(d: Decimal) -> f64 {
    d.digits as f64 / 10f64.powi(d.scale as i32)
}

#[test]
fn version_line_gives_one_version_entry() {
    let found = read_all("2.3|RIPE|20190101|5|20030101|20190101|+0200").unwrap();
    assert_eq!(found.len(), 1);
    match &found[0] {
        Line::Version(v) => {
            assert_eq!(v.version, Decimal { digits: 23, scale: 1 });
            assert_eq!(as_f64(v.version), 2.3);
            assert_eq!(v.registry, "RIPE");
            assert_eq!(v.serial, "20190101");
            assert_eq!(v.records, 5);
            assert_eq!(v.start_date, "20030101");
            assert_eq!(v.end_date, "20190101");
            assert_eq!(v.utc_offset, "+0200");
        }
        other => panic!("not a version entry: {:?}", other),
    }
}

#[test]
fn summary_line_gives_one_summary_entry() {
    let found = read_all("ripencc|*|ipv4|*|350|summary").unwrap();
    assert_eq!(found.len(), 1);
    match &found[0] {
        Line::Summary(s) => {
            assert_eq!(s.registry, "ripencc");
            assert_eq!(s.res_type, Type::IPv4);
            assert_eq!(s.count, 350);
        }
        other => panic!("not a summary entry: {:?}", other),
    }
}

#[test]
fn record_line_with_id() {
    let found = read_all("ripencc|NL|ipv4|192.0.2.0|256|20190101|allocated|A12345").unwrap();
    assert_eq!(found.len(), 1);
    match &found[0] {
        Line::Record(r) => {
            assert_eq!(r.registry, "ripencc");
            assert_eq!(r.organization, "NL");
            assert_eq!(r.res_type, Type::IPv4);
            assert_eq!(r.start, "192.0.2.0");
            assert_eq!(r.value, 256);
            assert_eq!(r.date, "20190101");
            assert_eq!(r.status, "allocated");
            assert_eq!(r.id, "A12345");
        }
        other => panic!("not a record entry: {:?}", other),
    }
}

#[test]
fn record_line_without_id() {
    let found = read_all("ripencc|NL|ipv4|192.0.2.0|256|20190101|allocated").unwrap();
    assert_eq!(found.len(), 1);
    match &found[0] {
        Line::Record(r) => {
            assert_eq!(r.value, 256);
            assert_eq!(r.status, "allocated");
            assert_eq!(r.id, "");
        }
        other => panic!("not a record entry: {:?}", other),
    }
}

#[test]
fn short_line_fails_the_listing() {
    let text = "ripencc|NL|ipv4|192.0.2.0|256|20190101|allocated\nripencc|NL|ipv4\n";
    let error = read_all(text).unwrap_err();
    assert_eq!(error.kind, ParseErrorKind::FieldCount);
    assert_eq!(error.expected, Shape::Record);
    assert_eq!(error.line_number, 2);
    assert_eq!(error.line, "ripencc|NL|ipv4");
}

#[test]
fn record_shaped_line_of_four_fields_fails() {
    let error = read_all("ripencc|NL|ipv4|192.0.2.0\n").unwrap_err();
    assert_eq!(error.kind, ParseErrorKind::FieldCount);
    assert_eq!(error.expected, Shape::Record);
    assert_eq!(error.line_number, 1);
}

#[test]
fn a_whole_listing_in_order() {
    let text = "2|apnic|20190201|3|19830613|20190131|+1000\n\
                # a comment\n\
                apnic|*|asn|*|1|summary\n\
                apnic|*|ipv4|*|1|summary\n\
                apnic|*|ipv6|*|1|summary\n\
                apnic|JP|asn|173|1|20020801|allocated|A91A7381\n\
                apnic|AU|ipv4|1.0.0.0|256|20110811|assigned|A91872ED\n\
                apnic|JP|ipv6|2001:200::|35|19990813|allocated|A9149F3E\n";
    let found = read_all(text).unwrap();
    assert_eq!(found.len(), 7);
    assert!(matches!(&found[0], Line::Version(v) if v.version == Decimal { digits: 2, scale: 0 }
        && v.records == 3 && v.utc_offset == "+1000"));
    assert!(matches!(&found[1], Line::Summary(s) if s.res_type == Type::ASN && s.count == 1));
    assert!(matches!(&found[2], Line::Summary(s) if s.res_type == Type::IPv4));
    assert!(matches!(&found[3], Line::Summary(s) if s.res_type == Type::IPv6));
    assert!(matches!(&found[4], Line::Record(r) if r.start == "173" && r.value == 1));
    assert!(matches!(&found[5], Line::Record(r) if r.start == "1.0.0.0" && r.value == 256));
    assert!(matches!(&found[6], Line::Record(r) if r.start == "2001:200::" && r.value == 35
        && r.id == "A9149F3E"));
}

#[test]
fn comments_give_no_entry() {
    assert!(read_all("# only a comment").unwrap().is_empty());
    assert!(read_all("#\n#|1|2|3|4|5|6\n#2.3|RIPE|20190101|5|20030101|20190101|+0200\n")
        .unwrap()
        .is_empty());
    assert!(matches!(parse_line("#ripencc|NL|ipv4", 7), Ok(None)));
    let with = read_all("# head\nripencc|*|asn|*|7|summary\n# tail\n").unwrap();
    let without = read_all("ripencc|*|asn|*|7|summary\n").unwrap();
    assert_eq!(with.len(), 1);
    assert_eq!(format!("{:?}", with), format!("{:?}", without));
}

#[test]
fn a_hash_inside_a_line_is_no_comment() {
    let found = read_all("ripencc|NL|ipv4|#|256|20190101|allocated").unwrap();
    assert!(matches!(&found[0], Line::Record(r) if r.start == "#"));
}

#[test]
fn empty_text_has_no_lines() {
    assert!(read_all("").unwrap().is_empty());
}

#[test]
fn last_line_needs_no_line_feed() {
    let with = read_all("ripencc|NL|asn|7|1|20190101|allocated\n").unwrap();
    let without = read_all("ripencc|NL|asn|7|1|20190101|allocated").unwrap();
    assert_eq!(with.len(), 1);
    assert_eq!(format!("{:?}", with), format!("{:?}", without));
    assert!(matches!(&without[0], Line::Record(r) if r.status == "allocated"));
}

#[test]
fn an_empty_line_fails_the_listing() {
    let error = read_all("ripencc|*|asn|*|7|summary\n\nripencc|*|asn|*|7|summary\n").unwrap_err();
    assert_eq!(error.kind, ParseErrorKind::FieldCount);
    assert_eq!(error.expected, Shape::Version);
    assert_eq!(error.line_number, 2);
    assert_eq!(error.line, "");
    let error = read_all("\n").unwrap_err();
    assert_eq!(error.line_number, 1);
}

#[test]
fn a_carriage_return_stays_in_the_line() {
    let found = read_all("ripencc|NL|asn|7|1|20190101|allocated\r\n").unwrap();
    assert!(matches!(&found[0], Line::Record(r) if r.status == "allocated\r"));
}

#[test]
fn records_keep_their_fields_and_their_order() {
    let lines = [
        "arin|US|asn|1|1|20010920|assigned|a",
        "arin|US|ipv4|3.0.0.0|16777216|19880223|assigned|b",
        "lacnic|BR|ipv6|2001:1280::|32|20071219|allocated",
        "afrinic|ZA|ASN|1228|+3|19910301|allocated|F36B9F4B|extra|fields",
        "ripencc||ipv4|2.0.0.0|1048576|20100712|available|",
    ];
    let text = lines.join("\n");
    let found = read_all(&text).unwrap();
    assert_eq!(found.len(), lines.len());
    for (line, entry) in lines.iter().zip(found.iter()) {
        let fields: Vec<&str> = line.split('|').collect();
        match entry {
            Line::Record(r) => {
                assert_eq!(r.registry, fields[0]);
                assert_eq!(r.organization, fields[1]);
                assert_eq!(r.res_type, Type::from(fields[2]));
                assert_eq!(r.start, fields[3]);
                assert_eq!(r.value, fields[4].parse::<u32>().unwrap());
                assert_eq!(r.date, fields[5]);
                assert_eq!(r.status, fields[6]);
                assert_eq!(r.id, if fields.len() > 7 { fields[7] } else { "" });
            }
            other => panic!("not a record entry: {:?}", other),
        }
    }
}

#[test]
fn the_first_error_is_reported() {
    let text = "ripencc|*|asn|*|7|summary\n\
                ripencc|NL|asn|7|one|20190101|allocated\n\
                ripencc|NL\n";
    let error = read_all(text).unwrap_err();
    assert_eq!(error.kind, ParseErrorKind::NumericDecode);
    assert_eq!(error.expected, Shape::Record);
    assert_eq!(error.line_number, 2);
    assert_eq!(error.line, "ripencc|NL|asn|7|one|20190101|allocated");
}

#[test]
fn comments_count_as_lines_in_an_error() {
    let error = read_all("# one\n# two\nripencc|NL\n").unwrap_err();
    assert_eq!(error.line_number, 3);
    assert_eq!(error.line, "ripencc|NL");
}

#[test]
fn version_line_errors() {
    let error = read_all("2.3|RIPE|20190101|5|20030101|20190101").unwrap_err();
    assert_eq!((error.kind, error.expected), (ParseErrorKind::FieldCount, Shape::Version));
    let error = read_all("2.3.1|RIPE|20190101|5|20030101|20190101|+0200").unwrap_err();
    assert_eq!((error.kind, error.expected), (ParseErrorKind::NumericDecode, Shape::Version));
    let error = read_all(".|RIPE|20190101|5|20030101|20190101|+0200").unwrap_err();
    assert_eq!((error.kind, error.expected), (ParseErrorKind::NumericDecode, Shape::Version));
    let error = read_all("2.3|RIPE|20190101|five|20030101|20190101|+0200").unwrap_err();
    assert_eq!((error.kind, error.expected), (ParseErrorKind::NumericDecode, Shape::Version));
    let error = read_all("|RIPE|20190101|5|20030101|20190101|+0200").unwrap_err();
    assert_eq!((error.kind, error.expected), (ParseErrorKind::NumericDecode, Shape::Version));
}

#[test]
fn a_numeric_first_field_makes_a_version_line() {
    let error = read_all("1|*|ipv4|*|350|summary").unwrap_err();
    assert_eq!((error.kind, error.expected), (ParseErrorKind::FieldCount, Shape::Version));
    let found = read_all("2|x|y|4294967295|a|summary|c|more").unwrap();
    assert!(matches!(&found[0], Line::Version(v) if v.records == 4294967295 && v.end_date == "summary"));
}

#[test]
fn summary_line_errors_and_shapes() {
    let error = read_all("ripencc|*|ipv4|*|many|summary").unwrap_err();
    assert_eq!((error.kind, error.expected), (ParseErrorKind::NumericDecode, Shape::Summary));
    let error = read_all("ripencc|*|ipv4|*|4294967296|summary").unwrap_err();
    assert_eq!((error.kind, error.expected), (ParseErrorKind::NumericDecode, Shape::Summary));
    let found = read_all("ripencc|*|IPv6|*|0|summary|and|more|fields").unwrap();
    assert!(matches!(&found[0], Line::Summary(s) if s.res_type == Type::IPv6 && s.count == 0));
    let error = read_all("ripencc|*|ipv4|*|350|Summary").unwrap_err();
    assert_eq!((error.kind, error.expected), (ParseErrorKind::FieldCount, Shape::Record));
    let found = read_all("ripencc|NL|other|x|350|summary ").unwrap_err();
    assert_eq!((found.kind, found.expected), (ParseErrorKind::FieldCount, Shape::Record));
}

#[test]
fn record_line_errors() {
    let error = read_all("ripencc|NL|ipv4|192.0.2.0|256|20190101").unwrap_err();
    assert_eq!((error.kind, error.expected), (ParseErrorKind::FieldCount, Shape::Record));
    let error = read_all("ripencc|NL|ipv4|192.0.2.0|-1|20190101|allocated").unwrap_err();
    assert_eq!((error.kind, error.expected), (ParseErrorKind::NumericDecode, Shape::Record));
    let error = read_all("ripencc|NL|ipv4|192.0.2.0||20190101|allocated").unwrap_err();
    assert_eq!((error.kind, error.expected), (ParseErrorKind::NumericDecode, Shape::Record));
}

#[test]
fn unknown_resource_types_are_kept() {
    let found = read_all("ripencc|NL|ipv9|x|1|20190101|allocated\nripencc|*|dns|*|2|summary\n").unwrap();
    assert!(matches!(&found[0], Line::Record(r) if r.res_type == Type::Unknown));
    assert!(matches!(&found[1], Line::Summary(s) if s.res_type == Type::Unknown));
}

#[test]
fn text_beyond_ascii_is_kept() {
    let found = read_all("ripencc|NL|ipv4|192.0.2.0|256|20190101|zugewiesen für|é|x\n# ü|\nañb|ç|asn|1|2|3|4").unwrap();
    assert_eq!(found.len(), 2);
    assert!(matches!(&found[0], Line::Record(r) if r.status == "zugewiesen für" && r.id == "é"));
    assert!(matches!(&found[1], Line::Record(r) if r.registry == "añb" && r.organization == "ç"));
    let error = read_all("ripencc|NL|ipv4|192.0.2.0|٣|20190101|allocated").unwrap_err();
    assert_eq!(error.kind, ParseErrorKind::NumericDecode);
    assert_eq!(error.line, "ripencc|NL|ipv4|192.0.2.0|٣|20190101|allocated");
}

#[test]
fn parse_line_reports_the_number_it_was_given() {
    let error = parse_line("ripencc|NL|ipv4", 42).unwrap_err();
    assert_eq!(error.line_number, 42);
    assert_eq!(error.line, "ripencc|NL|ipv4");
    assert!(matches!(parse_line("ripencc|*|asn|*|7|summary", 1), Ok(Some(Line::Summary(s))) if s.count == 7));
}

#[test]
fn entries_compare_by_their_fields() {
    let found = read_all("ripencc|*|asn|*|7|summary\nripencc|NL|asn|7|1|20190101|allocated\n").unwrap();
    assert_eq!(
        found,
        vec![
            Line::Summary(Summary { registry: "ripencc".to_string(), res_type: Type::ASN, count: 7 }),
            Line::Record(Record {
                registry: "ripencc".to_string(),
                organization: "NL".to_string(),
                res_type: Type::ASN,
                start: "7".to_string(),
                value: 1,
                date: "20190101".to_string(),
                status: "allocated".to_string(),
                id: String::new(),
            }),
        ]
    );
}

#[test]
fn listings_decode_one_after_the_other() {
    let first = "2.3|ripencc|1|2|19700101|20190101|+0100\n# comment\nripencc|*|asn|*|1|summary\n";
    let second = "ripencc|NL|asn|7|1|20190101|allocated\nripencc|NL|asn|8|1|20190102|allocated|x";
    let mut expected = read_all(first).unwrap();
    expected.extend(read_all(second).unwrap());
    assert_eq!(read_all(&format!("{}{}", first, second)).unwrap(), expected);
}

#[test]
fn a_line_decodes_alike_wherever_it_stands() {
    let lines = [
        "2.3|ripencc|1|2|19700101|20190101|+0100",
        "# comment",
        "ripencc|*|ipv6|*|1|summary",
        "ripencc|NL|ipv6|2001:db8::|32|20190101|allocated|x",
    ];
    let mut expected = Vec::new();
    for (at, line) in lines.iter().enumerate() {
        expected.extend(parse_line(line, at + 1).unwrap());
    }
    assert_eq!(read_all(&lines.join("\n")).unwrap(), expected);
    assert_eq!(read_all(&format!("{}\n", lines.join("\n"))).unwrap(), expected);
}

#[test]
fn a_long_listing() {
    let mut text = String::from("2|arin|20190201|60000|19830705|20190201|-0500\n");
    for i in 0..60000u32 {
        text.push_str(&format!("arin|US|ipv4|10.{}.{}.0|256|20190201|assigned|id{}\n", i / 256, i % 256, i));
    }
    let found = read_all(&text).unwrap();
    assert_eq!(found.len(), 60001);
    assert!(matches!(&found[60000], Line::Record(r) if r.start == "10.234.95.0" && r.id == "id59999"));
    text.push_str("arin|US|ipv4\n");
    let error = read_all(&text).unwrap_err();
    assert_eq!(error.line_number, 60002);
}
