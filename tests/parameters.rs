use horizons_ephemeris::command::{
    is_valid_email_address, Command, CommandTypeError, EmailAddressType, MajorBodyCommand,
};
use horizons_ephemeris::parameters::{
    push_decimal, push_signed, Center, Quantities, Quantity, QueryFormat, RefPlane, StepSize,
};

fn pairs(v: &[(&str, &str)]) -> Vec<(String, String)> {
    v.iter().map(|(k, x)| ((*k).to_owned(), (*x).to_owned())).collect()
}

#[test]
fn query_format_parameters() {
    assert_eq!(QueryFormat::Text.get_parameters(), pairs(&[("format", "text")]));
    assert_eq!(QueryFormat::default().get_parameters(), pairs(&[("format", "json")]));
}

#[test]
fn center_parameters() {
    assert_eq!(Center::Geocentric(Some(399)).get_parameters(), pairs(&[("CENTER", "500@399")]));
    assert_eq!(Center::Geocentric(Some(-7)).get_parameters(), pairs(&[("CENTER", "500@-7")]));
    assert_eq!(Center::default().get_parameters(), pairs(&[("CENTER", "500")]));
}

#[test]
fn ref_plane_parameters() {
    assert_eq!(RefPlane::BodyEquator.get_parameters(), pairs(&[("REF_PLANE", "BODY EQUATOR")]));
    assert_eq!(RefPlane::default().get_parameters(), pairs(&[("REF_PLANE", "ECLIPTIC")]));
}

#[test]
fn step_size_parameters() {
    assert_eq!(StepSize::Days(1).get_parameters(), pairs(&[("STEP_SIZE", "1 d")]));
    assert_eq!(StepSize::Months(12).get_parameters(), pairs(&[("STEP_SIZE", "12 mo")]));
    assert_eq!(StepSize::Unitless(4294967295).get_parameters(), pairs(&[("STEP_SIZE", "4294967295")]));
    assert_eq!(StepSize::default().get_parameters(), pairs(&[("STEP_SIZE", "60 m")]));
}

#[test]
fn quantities_parameters() {
    let q = Quantities(vec![
        Quantity::Select(1),
        Quantity::Select(9),
        Quantity::Select(20),
        Quantity::Select(23),
        Quantity::Select(24),
        Quantity::Select(29),
    ]);
    assert_eq!(q.get_parameters(), pairs(&[("QUANTITIES", "1,9,20,23,24,29")]));
    let q = Quantities(vec![Quantity::Macro('A'), Quantity::Select(0)]);
    assert_eq!(q.get_parameters(), pairs(&[("QUANTITIES", "A,0")]));
    assert!(Quantities(vec![]).get_parameters().is_empty());
}

#[test]
fn decimal_notation() {
    let mut out = vec!['x'];
    push_decimal(0, &mut out);
    push_decimal(18446744073709551615, &mut out);
    push_signed(-9223372036854775807, &mut out);
    let s: String = out.into_iter().collect();
    assert_eq!(s, "x018446744073709551615-9223372036854775807");
}

#[test]
fn command_parameters() {
    assert_eq!(Command::Id(499).get_parameters(), pairs(&[("COMMAND", "499")]));
    assert_eq!(Command::MajorBody.get_parameters(), pairs(&[("COMMAND", "MB")]));
    assert_eq!(Command::Name("Ceres".to_owned()).get_parameters(), pairs(&[("COMMAND", "Ceres")]));
    assert_eq!(MajorBodyCommand {}.get_parameters(), pairs(&[("COMMAND", "MB")]));
    assert_eq!(CommandTypeError.message(), "Incompatible command type");
}

#[test]
fn email_addresses() {
    assert!(is_valid_email_address("someone@mail.example.org"));
    assert!(!is_valid_email_address("someone@example.org"));
    assert!(!is_valid_email_address("someone.example.org"));
    assert!(!is_valid_email_address("a@b@mail.example.org"));
    let e = EmailAddressType::new("someone@mail.example.org".to_owned());
    assert_eq!(e.address(), &Some("someone@mail.example.org".to_owned()));
    assert_eq!(e.get_parameters(), pairs(&[("EMAIL_ADDR", "someone@mail.example.org")]));
    let none = EmailAddressType::default();
    assert_eq!(none.address(), &None);
    assert!(none.get_parameters().is_empty());
}
