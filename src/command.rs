//! Commands of a request: what is asked of the service, and who is told.

use vstd::prelude::*;
use crate::elements::EphemerisOrbitalElementsItem;
use crate::parameters::{decimal_text, pairs_view, push_decimal};
use crate::text::{chars_of, string_of};
use crate::vectors::EphemerisVectorItem;

verus! {

/// Number of times `c` occurs in `s`.
pub open spec fn count_char(s: Seq<char>, c: char) -> nat
    decreases s.len(),
{
    if s.len() == 0 {
        0
    } else {
        count_char(s.drop_last(), c) + if s.last() == c {
            1nat
        } else {
            0nat
        }
    }
}

/// The text after the last `@` of `s` (all of `s` where it has none).
pub open spec fn after_last_at(s: Seq<char>) -> Seq<char>
    decreases s.len(),
{
    if s.len() == 0 {
        s
    } else if s.last() == '@' {
        Seq::empty()
    } else {
        after_last_at(s.drop_last()).push(s.last())
    }
}

/// An e-mail address as the service takes it: exactly one `@`, and at least
/// two dots after it.
pub open spec fn is_valid_email(s: Seq<char>) -> bool {
    count_char(s, '@') == 1 && count_char(after_last_at(s), '.') >= 2
}

/// Whether `s` is an e-mail address that `EmailAddressType::new` takes.
pub fn is_valid_email_address(s: &str) -> (r: bool)
    ensures
        r == is_valid_email(s@),
{
    let t = chars_of(s);
    let mut ats: usize = 0;
    let mut dots: usize = 0;
    let mut i: usize = 0;
    while i < t.len()
        invariant
            i <= t@.len(),
            t@ == s@,
            ats == count_char(t@.subrange(0, i as int), '@'),
            dots == count_char(after_last_at(t@.subrange(0, i as int)), '.'),
            ats <= i,
            dots <= i,
        decreases t@.len() - i,
    {
        let ghost prev = t@.subrange(0, i as int);
        assert(t@.subrange(0, i + 1).drop_last() =~= prev);
        if t[i] == '@' {
            ats = ats + 1;
            dots = 0;
        } else {
            assert(count_char(after_last_at(prev).push(t@[i as int]), '.') == count_char(
                after_last_at(prev),
                '.',
            ) + if t@[i as int] == '.' {
                1nat
            } else {
                0nat
            }) by {
                assert(after_last_at(prev).push(t@[i as int]).drop_last() =~= after_last_at(prev));
            }
            if t[i] == '.' {
                dots = dots + 1;
            }
        }
        i = i + 1;
    }
    assert(t@.subrange(0, t@.len() as int) =~= t@);
    ats == 1 && dots >= 2
}

/// The e-mail address that the service may send notices to.
#[derive(Clone, Debug)]
pub struct EmailAddressType(Option<String>);

impl Default for EmailAddressType {
    /// No address.
    fn default() -> (r: Self)
        ensures
            r@ is None,
    {
        EmailAddressType(None)
    }
}

impl View for EmailAddressType {
    type V = Option<Seq<char>>;

    closed spec fn view(&self) -> Option<Seq<char>> {
        match &self.0 {
            Some(s) => Some(s@),
            None => None,
        }
    }
}

impl EmailAddressType {
    /// An address; it must hold exactly one `@` and at least two dots after it.
    pub fn new(email_addr: String) -> (r: Self)
        requires
            is_valid_email(email_addr@),
        ensures
            r@ == Some(email_addr@),
    {
        EmailAddressType(Some(email_addr))
    }

    pub fn address(&self) -> (r: &Option<String>)
        ensures
            match r {
                Some(s) => self@ == Some(s@),
                None => self@ is None,
            },
    {
        &self.0
    }

    /// `EMAIL_ADDR=<address>`, or nothing where no address is set.
    pub fn get_parameters(&self) -> (r: Vec<(String, String)>)
        ensures
            match self@ {
                Some(a) => pairs_view(r@) == seq![("EMAIL_ADDR"@, a)],
                None => r@.len() == 0,
            },
    {
        match &self.0 {
            Some(email) => {
                let r = vec![("EMAIL_ADDR".to_owned(), email.clone())];
                assert(pairs_view(r@) =~= seq![("EMAIL_ADDR"@, email@)]);
                r
            },
            None => Vec::new(),
        }
    }
}

/// The body that a request is about.
#[derive(Clone, Debug)]
pub enum Command {
    /// The list of major bodies.
    MajorBody,
    /// A body by its numeric id.
    Id(u32),
    /// A body by name or designation.
    Name(String),
}

impl Command {
    pub open spec fn value_text(&self) -> Seq<char> {
        match self {
            Command::MajorBody => "MB"@,
            Command::Id(id) => decimal_text(*id as nat),
            Command::Name(name) => name@,
        }
    }

    /// `COMMAND=MB`, `COMMAND=<id>` or `COMMAND=<name>`.
    pub fn get_parameters(&self) -> (r: Vec<(String, String)>)
        ensures
            pairs_view(r@) == seq![("COMMAND"@, self.value_text())],
    {
        let value = match self {
            Command::MajorBody => "MB".to_owned(),
            Command::Id(id) => {
                let mut digits: Vec<char> = Vec::new();
                push_decimal(*id as u64, &mut digits);
                assert(Seq::<char>::empty() + decimal_text(*id as nat) =~= decimal_text(
                    *id as nat,
                ));
                string_of(digits.as_slice())
            },
            Command::Name(name) => name.clone(),
        };
        let r = vec![("COMMAND".to_owned(), value)];
        assert(pairs_view(r@) =~= seq![("COMMAND"@, self.value_text())]);
        r
    }
}

/// A command type that a builder cannot make.
#[derive(Clone, Copy, Debug, PartialEq, Eq, Structural)]
pub struct CommandTypeError;

impl CommandTypeError {
    pub fn message(&self) -> (r: String)
        ensures
            r@ == "Incompatible command type"@,
    {
        "Incompatible command type".to_owned()
    }
}

/// The request for the list of major bodies.
#[derive(Clone, Copy, Debug)]
pub struct MajorBodyCommand {}

impl MajorBodyCommand {
    /// `COMMAND=MB`.
    pub fn get_parameters(&self) -> (r: Vec<(String, String)>)
        ensures
            pairs_view(r@) == seq![("COMMAND"@, "MB"@)],
    {
        let r = vec![("COMMAND".to_owned(), "MB".to_owned())];
        assert(pairs_view(r@) =~= seq![("COMMAND"@, "MB"@)]);
        r
    }
}

/// The records that a request's response was read into.
#[derive(Clone, Debug)]
pub enum ParseResultType {
    Vector(Vec<EphemerisVectorItem>),
    Elements(Vec<EphemerisOrbitalElementsItem>),
}

} // verus!
