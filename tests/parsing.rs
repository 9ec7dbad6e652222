use chrono::{TimeZone, Utc};
use horizons_ephemeris::diagnostic::{diagnostics, Diagnostic};
use horizons_ephemeris::document::{parse, Expected, GrammarSyntaxError, SyntaxErrorKind};
use horizons_ephemeris::elements::{parse_orbital_element_records, EphemerisOrbitalElementsParser};
use horizons_ephemeris::error::EphemerisError;
use horizons_ephemeris::number::{parse_decimal, Decimal};
use horizons_ephemeris::timestamp::{find_line_date, parse_line_time, Timestamp};
use horizons_ephemeris::vectors::{parse_vector_records, EphemerisVectorParser, Vector3};
use horizons_ephemeris::{EphemerisOrbitalElementsItem, EphemerisVectorItem};

const VECTOR_DATA: &str = "\
*******************************************************************************
Ephemeris / API_USER Sat Aug 13 19:55:56 2022 Pasadena, USA      / Horizons
*******************************************************************************
            JDTDB,            Calendar Date (TDB),                    X,                     Y,                     Z,
*******************************************************************************
$$SOE
2459805.372175926 = A.D. 2022-Aug-13 19:55:56.0000 TDB 
 X = 1.870010427985840E+02 Y = 2.484687803242536E+03 Z =-5.861602653492581E+03
 VX=-3.362664133558439E-01 VY= 1.344100266143978E-02 VZ=-5.030275220358716E-03
 LT= 2.132755846478044E-02 RG= 6.393951186017468E+03 RR= 9.345027013802536E-03
2459805.413842593 = A.D. 2022-Aug-13 20:55:56.0000 TDB 
 X =-1.042434410364151E+03 Y = 2.402366519718006E+03 Z =-5.775734598232402E+03
 VX=-3.463014123412871E-01 VY=-3.630117617117946E-02 VZ= 5.207123171180023E-02
 LT= 2.132901823745431E-02 RG= 6.394388827364181E+03 RR= 1.126497853726150E-02
2459805.455509259 = A.D. 2022-Aug-13 21:55:56.0000 TDB 
 X =-2.226731520542839E+03 Y = 2.144271530712354E+03 Z =-5.426432216328115E+03
 VX=-3.059133516520913E-01 VY=-1.049728914261741E-01 VZ= 1.408637128730138E-01
 LT= 2.133099121532197E-02 RG= 6.394980335917643E+03 RR= 1.317310241390532E-02
2459805.497175926 = A.D. 2022-Aug-13 22:55:56.0000 TDB 
 X =-3.224307613291812E+03 Y = 1.673601736204217E+03 Z =-4.816521318724321E+03
 VX=-2.465107232918362E-01 VY=-1.523091271520197E-01 VZ= 1.963231520971302E-01
 LT= 2.133297183211893E-02 RG= 6.395574103571262E+03 RR= 1.429134511031210E-02
$$EOE
*******************************************************************************
";

const ELEMENTS_DATA: &str = "\
*******************************************************************************
Ephemeris / API_USER Sun Jun 19 18:00:00 2022 Pasadena, USA      / Horizons
*******************************************************************************
$$SOE
2459750.250000000 = A.D. 2022-Jun-19 18:00:00.0000 TDB 
 EC= 1.711794334680415E-02 QR= 1.469885520304013E+08 IN= 3.134746902320420E-03
 OM= 1.633896137466430E+02 W = 3.006492364709574E+02 Tp=  2459584.392523936927
 N = 1.141316101270797E-05 MA= 1.635515780663357E+02 TA= 1.640958153023696E+02
 A = 1.495485150384278E+08 AD= 1.521084780464543E+08 PR= 3.154253230977451E+07
2459750.375000000 = A.D. 2022-Jun-19 21:00:00.0000 TDB 
 EC= 1.711792816398745E-02 QR= 1.469885618012937E+08 IN= 3.134736718826514E-03
 OM= 1.633893961022314E+02 W = 3.006494906512637E+02 Tp=  2459584.393171537854
 N = 1.141316097817120E-05 MA= 1.636743018226311E+02 TA= 1.642084319517431E+02
 A = 1.495485153400441E+08 AD= 1.521084688787945E+08 PR= 3.154253240522466E+07
2459750.500000000 = A.D. 2022-Jun-20 00:00:00.0000 TDB 
 EC= 1.711791297803341E-02 QR= 1.469885715752315E+08 IN= 3.134726536135722E-03
 OM= 1.633891784338616E+02 W = 3.006497448643123E+02 Tp=  2459584.393819129314
 N = 1.141316094363431E-05 MA= 1.637970255716514E+02 TA= 1.643210485954237E+02
 A = 1.495485156416683E+08 AD= 1.521084597081051E+08 PR= 3.154253250067489E+07
2459750.625000000 = A.D. 2022-Jun-20 03:00:00.0000 TDB 
 EC= 1.711789778994314E-02 QR= 1.469885813522162E+08 IN= 3.134716354228315E-03
 OM= 1.633889607415223E+02 W = 3.006499991101527E+02 Tp=  2459584.394466711404
 N = 1.141316090909729E-05 MA= 1.639197493134012E+02 TA= 1.644336652334116E+02
 A = 1.495485159432976E+08 AD= 1.521084505343790E+08 PR= 3.154253259612524E+07
$$EOE
*******************************************************************************
";

fn lines_of(text: &str) -> Vec<String> {
    text.lines().map(|l| l.to_owned()).collect()
}

fn chars(s: &str) -> Vec<char> {
    s.chars().collect()
}

fn as_f32(d: Decimal) -> f32 {
    let sign = if d.negative { "-" } else { "" };
    format!("{}{}E{}", sign, d.mantissa, d.exponent).parse::<f32>().unwrap()
}

fn dec(negative: bool, mantissa: u128, exponent: i32) -> Decimal {
    Decimal { negative, mantissa, exponent }
}

fn utc(y: i32, mo: u32, d: u32, h: u32, mi: u32, s: u32) -> Timestamp {
    let t = Utc.with_ymd_and_hms(y, mo, d, h, mi, s).unwrap();
    Timestamp { seconds: t.timestamp(), nanos: 0 }
}

fn first_elements() -> EphemerisOrbitalElementsItem {
    EphemerisOrbitalElementsItem {
        time: utc(2022, 6, 19, 18, 0, 0),
        eccentricity: dec(false, 1711794334680415, -17),
        periapsis_distance: dec(false, 1469885520304013, -7),
        inclination: dec(false, 3134746902320420, -18),
        longitude_of_ascending_node: dec(false, 1633896137466430, -13),
        argument_of_perifocus: dec(false, 3006492364709574, -13),
        time_of_periapsis: dec(false, 2459584392523936927, -12),
        mean_motion: dec(false, 1141316101270797, -20),
        mean_anomaly: dec(false, 1635515780663357, -13),
        true_anomaly: dec(false, 1640958153023696, -13),
        semi_major_axis: dec(false, 1495485150384278, -7),
        apoapsis_distance: dec(false, 1521084780464543, -7),
        sidereal_orbit_period: dec(false, 3154253230977451, -8),
    }
}

fn collect_vectors(lines: Vec<String>) -> Vec<EphemerisVectorItem> {
    let mut parser = EphemerisVectorParser::parse(lines);
    let mut out = Vec::new();
    while let Some(item) = parser.next() {
        out.push(item.unwrap());
    }
    out
}

fn collect_elements(lines: Vec<String>) -> Vec<EphemerisOrbitalElementsItem> {
    let mut parser = EphemerisOrbitalElementsParser::parse(lines);
    let mut out = Vec::new();
    while let Some(item) = parser.next() {
        out.push(item.unwrap());
    }
    out
}

#[test]
fn test_parsing_ephemeris_vector() {
    let ephem: Vec<_> = collect_vectors(lines_of(VECTOR_DATA));
    assert_eq!(4, ephem.len());
    assert_eq!(
        EphemerisVectorItem {
            time: utc(2022, 8, 13, 19, 55, 56),
            position: Vector3 {
                x: dec(false, 1870010427985840, -13),
                y: dec(false, 2484687803242536, -12),
                z: dec(true, 5861602653492581, -12),
            },
            velocity: Vector3 {
                x: dec(true, 3362664133558439, -16),
                y: dec(false, 1344100266143978, -17),
                z: dec(true, 5030275220358716, -18),
            },
        },
        ephem[0]
    );
    assert_eq!(as_f32(ephem[0].position.x), 1.870010427985840E+02);
    assert_eq!(as_f32(ephem[0].position.y), 2.484687803242536E+03);
    assert_eq!(as_f32(ephem[0].position.z), -5.861602653492581E+03);
    assert_eq!(as_f32(ephem[0].velocity.x), -3.362664133558439E-01);
    assert_eq!(as_f32(ephem[0].velocity.y), 1.344100266143978E-02);
    assert_eq!(as_f32(ephem[0].velocity.z), -5.030275220358716E-03);
}

#[test]
fn test_parsing_ephemeris_orbital_elements() {
    let ephem: Vec<_> = collect_elements(lines_of(ELEMENTS_DATA));
    assert_eq!(4, ephem.len());
    assert_eq!(first_elements(), ephem[0]);
    assert_eq!(as_f32(ephem[0].eccentricity), 1.711794334680415E-02);
    assert_eq!(as_f32(ephem[0].time_of_periapsis), 2459584.392523936927);
    assert_eq!(as_f32(ephem[0].sidereal_orbit_period), 3.154253230977451E+07);
}

#[test]
fn test_parsing_date_time() {
    let lines: [&str; 4] = [
        "2459750.250000000 = A.D. 2022-Jun-19 18:00:00.0000 TDB ",
        "2459750.375000000 = A.D. 2022-Jun-19 21:00:00.0000 TDB ",
        "2459805.372175926 = A.D. 2022-Aug-13 20:55:56.0000 TDB ",
        "2459805.455509259 = A.D. 2022-Aug-13 22:55:56.0000 TDB ",
    ];
    let expected: [Timestamp; 4] = [
        utc(2022, 6, 19, 18, 0, 0),
        utc(2022, 6, 19, 21, 0, 0),
        utc(2022, 8, 13, 20, 55, 56),
        utc(2022, 8, 13, 22, 55, 56),
    ];
    for (i, line) in lines.into_iter().enumerate() {
        let time = parse_line_time(&chars(line));
        assert_eq!(time, Some(expected[i]));
    }
}

#[test]
fn test_parsing_chumsky() {
    let data = "2459750.250000000 = A.D. 2022-Jun-19 18:00:00.0000 TDB 
 EC= 1.711794334680415E-02 QR= 1.469885520304013E+08 IN= 3.134746902320420E-03
 OM= 1.633896137466430E+02 W = 3.006492364709574E+02 Tp=  2459584.392523936927
 N = 1.141316101270797E-05 MA= 1.635515780663357E+02 TA= 1.640958153023696E+02
 A = 1.495485150384278E+08 AD= 1.521084780464543E+08 PR= 3.154253230977451E+07";
    let res = EphemerisOrbitalElementsItem::parser(data).unwrap();
    assert_eq!(res, first_elements());
}

#[test]
fn test_parsing_chumsky_full() {
    let res = parse(ELEMENTS_DATA).unwrap();
    assert_eq!(res.len(), 4);
    assert_eq!(res[0], first_elements());
}

#[test]
fn vector_fixture_times_are_in_order() {
    let ephem = parse_vector_records(&lines_of(VECTOR_DATA)).unwrap();
    for pair in ephem.windows(2) {
        assert!(pair[0].time.seconds < pair[1].time.seconds);
    }
    assert_eq!(ephem[3].time, utc(2022, 8, 13, 22, 55, 56));
}

#[test]
fn parsing_twice_gives_the_same_records() {
    let lines = lines_of(VECTOR_DATA);
    assert_eq!(parse_vector_records(&lines), parse_vector_records(&lines));
    let lines = lines_of(ELEMENTS_DATA);
    assert_eq!(parse_orbital_element_records(&lines), parse_orbital_element_records(&lines));
    assert_eq!(parse(ELEMENTS_DATA), parse(ELEMENTS_DATA));
}

#[test]
fn empty_body_yields_no_records() {
    let lines = lines_of("header\n$$SOE\n$$EOE\ntrailer");
    assert_eq!(parse_vector_records(&lines), Ok(vec![]));
    assert_eq!(parse_orbital_element_records(&lines), Ok(vec![]));
    assert_eq!(parse("header\n$$SOE\n$$EOE\n"), Ok(vec![]));
}

#[test]
fn mismatched_label_is_refused() {
    let text = "$$SOE
2459805.372175926 = A.D. 2022-Aug-13 19:55:56.0000 TDB 
 Y = 1.870010427985840E+02 X = 2.484687803242536E+03 Z =-5.861602653492581E+03
$$EOE";
    assert_eq!(
        parse_vector_records(&lines_of(text)),
        Err(EphemerisError::UnexpectedLabel {
            expected: " X =".to_owned(),
            line: " Y = 1.870010427985840E+02 X = 2.484687803242536E+03 Z =-5.861602653492581E+03"
                .to_owned(),
        })
    );
}

#[test]
fn second_label_out_of_place_is_refused() {
    let text = "$$SOE
2459750.250000000 = A.D. 2022-Jun-19 18:00:00.0000 TDB 
 EC= 1.711794334680415E-02 IN= 1.469885520304013E+08 QR= 3.134746902320420E-03
$$EOE";
    match parse_orbital_element_records(&lines_of(text)) {
        Err(EphemerisError::UnexpectedLabel { expected, .. }) => assert_eq!(expected, " QR="),
        other => panic!("unexpected result {:?}", other),
    }
}

#[test]
fn bad_number_is_reported() {
    let text = "$$SOE
2459805.372175926 = A.D. 2022-Aug-13 19:55:56.0000 TDB 
 X = 1.87001042798584xE+02 Y = 2.484687803242536E+03 Z =-5.861602653492581E+03
$$EOE";
    assert_eq!(
        parse_vector_records(&lines_of(text)),
        Err(EphemerisError::NumericParseError {
            field: " X =".to_owned(),
            text: "1.87001042798584xE+02".to_owned(),
        })
    );
}

#[test]
fn bad_date_is_reported() {
    let text = "$$SOE\n2459805.372175926 = A.D. 2022-Foo-13 19:55:56.0000 TDB \n$$EOE";
    assert_eq!(
        parse_vector_records(&lines_of(text)),
        Err(EphemerisError::DateParseError {
            text: "2459805.372175926 = A.D. 2022-Foo-13 19:55:56.0000 TDB ".to_owned(),
        })
    );
    assert_eq!(parse_line_time(&chars("no date here")), None);
    assert_eq!(parse_line_time(&chars("1 = B.C. 2022-Aug-13 19:55:56.0000 TDB")), None);
}

#[test]
fn truncated_input_is_reported() {
    let lines: Vec<String> = lines_of(VECTOR_DATA).into_iter().take(12).collect();
    assert_eq!(parse_vector_records(&lines), Err(EphemerisError::TruncatedInput));
    assert_eq!(parse_vector_records(&lines_of("no markers at all")), Err(EphemerisError::TruncatedInput));
    let lines: Vec<String> = lines_of(ELEMENTS_DATA).into_iter().take(8).collect();
    assert_eq!(parse_orbital_element_records(&lines), Err(EphemerisError::TruncatedInput));
}

#[test]
fn vector_parser_hands_out_records_one_by_one() {
    let mut parser = EphemerisVectorParser::parse(lines_of(VECTOR_DATA));
    let all = parse_vector_records(&lines_of(VECTOR_DATA)).unwrap();
    for expected in all.iter() {
        assert_eq!(parser.next(), Some(Ok(*expected)));
    }
    assert_eq!(parser.next(), None);
    assert_eq!(parser.next(), None);
}

#[test]
fn elements_parser_stops_at_first_error() {
    let mut lines = lines_of(ELEMENTS_DATA);
    lines[11] = " OM= 1.633893961022314E+02 W = 3.006494906512637E+02 TP=  2459584.393171537854".to_owned();
    let mut parser = EphemerisOrbitalElementsParser::parse(lines);
    assert_eq!(parser.next(), Some(Ok(first_elements())));
    match parser.next() {
        Some(Err(EphemerisError::UnexpectedLabel { expected, .. })) => assert_eq!(expected, " Tp="),
        other => panic!("unexpected result {:?}", other),
    }
    assert_eq!(parser.next(), None);
}

#[test]
fn document_reader_keeps_fractional_seconds() {
    let text = ELEMENTS_DATA.replace("18:00:00.0000 TDB", "18:00:00.2500 TDB");
    let res = parse(&text).unwrap();
    let whole = utc(2022, 6, 19, 18, 0, 0);
    assert_eq!(res[0].time, Timestamp { seconds: whole.seconds, nanos: 250_000_000 });
    let lines = parse_orbital_element_records(&lines_of(&text)).unwrap();
    assert_eq!(lines[0].time, whole);
}

#[test]
fn malformed_document_reports_offset() {
    let text = ELEMENTS_DATA.replace(" QR= 1.469885520304013E+08", " QX= 1.469885520304013E+08");
    let bad = text.find(" QX=").unwrap() + 2;
    let errors = parse(&text).unwrap_err();
    assert_eq!(errors.len(), 1);
    assert_eq!(
        errors[0],
        GrammarSyntaxError {
            offset: bad,
            found: Some('X'),
            expected: Some(Expected::Char('R')),
            kind: SyntaxErrorKind::Unexpected,
        }
    );
    let errors = parse("no markers").unwrap_err();
    assert_eq!(errors[0].offset, 10);
    assert_eq!(errors[0].expected, Some(Expected::Char('$')));
    let errors = parse("$$SOE\nx = A.D.").unwrap_err();
    assert_eq!(errors[0].offset, 6);
    assert_eq!(errors[0].expected, Some(Expected::NumberOrEndMarker));
    assert_eq!(errors[0].found, Some('x'));
    assert_eq!(parse("no markers").unwrap_err()[0].found, None);
    let cut = &ELEMENTS_DATA[..ELEMENTS_DATA.find("$$EOE").unwrap()];
    let errors = parse(cut).unwrap_err();
    assert!(errors[0].offset <= cut.chars().count());
    let errors = parse(&ELEMENTS_DATA.replace("2022-Jun-19 18:00", "2022-Jux-19 18:00")).unwrap_err();
    assert_eq!(errors[0].kind, SyntaxErrorKind::InvalidDate);
    let errors = parse(&ELEMENTS_DATA.replace("IN= 3.1347469", "IN= 3..1347469")).unwrap_err();
    assert_eq!(errors[0].kind, SyntaxErrorKind::InvalidNumber);
}

#[test]
fn decimals_are_read_exactly() {
    let read = |s: &str| {
        let c = chars(s);
        parse_decimal(&c, 0, c.len())
    };
    assert_eq!(read("1.711794334680415E-02"), Some(dec(false, 1711794334680415, -17)));
    assert_eq!(read("-42"), Some(dec(true, 42, 0)));
    assert_eq!(read("+.5E+3"), Some(dec(false, 5, 2)));
    assert_eq!(read("7."), Some(dec(false, 7, 0)));
    assert_eq!(read("0.000"), Some(dec(false, 0, -3)));
    assert_eq!(read(""), None);
    assert_eq!(read("."), None);
    assert_eq!(read("-"), None);
    assert_eq!(read("1E"), None);
    assert_eq!(read("1E+"), None);
    assert_eq!(read("1e5"), None);
    assert_eq!(read("1.2.3"), None);
    assert_eq!(read(" 1"), None);
    assert_eq!(read("340282366920938463463374607431768211455"), Some(dec(false, u128::MAX, 0)));
    assert_eq!(
        read("340282366920938463463374607431768211456"),
        Some(dec(false, 34028236692093846346337460743176821145, 1))
    );
    assert_eq!(
        read("-3402823669209384634633746074317682114569.99E-3"),
        Some(dec(true, 34028236692093846346337460743176821145, -1))
    );
    assert_eq!(read("1E2147483647"), Some(dec(false, 1, 2147483647)));
    assert_eq!(read("1E2147483648"), Some(dec(false, 1, 2147483647)));
    assert_eq!(read("1E9999999999"), Some(dec(false, 1, 2147483647)));
    assert_eq!(read("-2.5E-99999999999999999999999999999"), Some(dec(true, 25, -2147483648)));
    assert_eq!(read("1E+99999999999999999999999999999999999999999"), Some(dec(false, 1, 2147483647)));
    assert_eq!(read("1.5E-2147483647"), Some(dec(false, 15, -2147483648)));
}

#[test]
fn date_text_is_located_in_the_line() {
    let line = chars("2459805.372175926 = A.D. 2022-Aug-13 19:55:56.0000 TDB ");
    let (from, to) = find_line_date(&line).unwrap();
    let text: String = line[from..to].iter().collect();
    assert_eq!(text, "2022-Aug-13 19:55:56");
    let short = chars("x =  A.D. 2022-Aug-13 ");
    let (from, to) = find_line_date(&short).unwrap();
    let text: String = short[from..to].iter().collect();
    assert_eq!(text, "2022-Aug-13");
    assert_eq!(find_line_date(&chars("x = B.C. 2022")), None);
    assert_eq!(find_line_date(&chars("no separator")), None);
}

#[test]
fn document_header_may_hold_dollar_signs() {
    let text = format!("Cost: $5, ref $$SO\n{}", ELEMENTS_DATA);
    let res = parse(&text).unwrap();
    assert_eq!(res.len(), 4);
    assert_eq!(parse("$$$SOE\n$$EOE"), Ok(vec![]));
    assert_eq!(parse("$$SOE\n$$EOE"), Ok(vec![]));
    assert_eq!(parse("$$SOE\n$$EOE trailing $$SOE text"), Ok(vec![]));
}

#[test]
fn document_reports_every_bad_record() {
    let text = ELEMENTS_DATA
        .replace("EC= 1.711794334680415E-02", "EC= abc")
        .replace("MA= 1.637970255716514E+02", "MX= 1.637970255716514E+02");
    let first = text.find("EC= abc").unwrap() + 4;
    let second = text.find("MX=").unwrap() + 1;
    let errors = parse(&text).unwrap_err();
    assert_eq!(errors.len(), 2);
    assert_eq!(errors[0].offset, first);
    assert_eq!(errors[0].kind, SyntaxErrorKind::InvalidNumber);
    assert_eq!(errors[0].expected, Some(Expected::Number));
    assert_eq!(errors[1].offset, second);
    assert_eq!(errors[1].found, Some('X'));
    assert_eq!(errors[1].expected, Some(Expected::Char('A')));
}

#[test]
fn document_without_end_marker_reports_the_end() {
    let cut = &ELEMENTS_DATA[..ELEMENTS_DATA.find("$$EOE").unwrap()];
    let errors = parse(cut).unwrap_err();
    assert_eq!(errors.len(), 1);
    assert_eq!(errors[0].offset, cut.chars().count());
    assert_eq!(errors[0].found, None);
    assert_eq!(errors[0].expected, Some(Expected::NumberOrEndMarker));
}

#[test]
fn batch_and_one_by_one_readers_agree() {
    assert_eq!(collect_vectors(lines_of(VECTOR_DATA)), parse_vector_records(&lines_of(VECTOR_DATA)).unwrap());
    assert_eq!(
        collect_elements(lines_of(ELEMENTS_DATA)),
        parse_orbital_element_records(&lines_of(ELEMENTS_DATA)).unwrap()
    );
}

#[test]
fn fields_padded_with_unicode_spaces_are_read() {
    let text = ELEMENTS_DATA.replace("EC= 1.711794334680415E-02", "EC=\u{A0}1.711794334680415E-02");
    let ephem = parse_orbital_element_records(&lines_of(&text)).unwrap();
    assert_eq!(ephem[0].eccentricity, dec(false, 1711794334680415, -17));
}

fn diag(offset: usize, message: &str, label: Option<&str>, note: Option<&str>) -> Diagnostic {
    Diagnostic {
        offset,
        message: message.to_owned(),
        label: label.map(|s| s.to_owned()),
        note: note.map(|s| s.to_owned()),
    }
}

#[test]
fn syntax_errors_become_diagnostics() {
    let errors = vec![
        GrammarSyntaxError { offset: 3, found: Some('X'), expected: Some(Expected::Char('R')), kind: SyntaxErrorKind::Unexpected },
        GrammarSyntaxError { offset: 9, found: None, expected: Some(Expected::NumberOrEndMarker), kind: SyntaxErrorKind::Unexpected },
        GrammarSyntaxError { offset: 4, found: Some('a'), expected: Some(Expected::Number), kind: SyntaxErrorKind::InvalidNumber },
        GrammarSyntaxError { offset: 5, found: Some('2'), expected: Some(Expected::Date), kind: SyntaxErrorKind::InvalidDate },
        GrammarSyntaxError { offset: 6, found: Some(' '), expected: Some(Expected::NumberOrEndMarker), kind: SyntaxErrorKind::Unexpected },
        GrammarSyntaxError { offset: 7, found: Some('x'), expected: None, kind: SyntaxErrorKind::Unexpected },
    ];
    assert_eq!(
        diagnostics(&errors),
        vec![
            diag(3, "Unexpected token", Some("Unexpected token X"), Some("Expected 'R'")),
            diag(9, "Unexpected end of file", None, None),
            diag(4, "Invalid number", Some("Invalid number"), None),
            diag(5, "Invalid date", Some("Invalid date"), None),
            diag(6, "Unexpected token", Some("Unexpected token  "), Some("Expected a record or $$EOE")),
            diag(7, "Unexpected token", Some("Unexpected token x"), None),
        ]
    );
    assert!(diagnostics(&vec![]).is_empty());
}
