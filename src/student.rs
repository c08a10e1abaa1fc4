use vstd::prelude::*;

use crate::date::{current_date, Date};
use crate::format::{
    is_blank, is_blank_text, is_email, is_international_prefix, is_phone_number,
    is_subscriber_number, is_valid_email, is_valid_phone_number,
};

verus! {

/// A student record submitted for creation, not yet stored.
#[derive(Clone, Debug)]
pub struct CreateStudent {
    pub name: String,
    pub surname: String,
    pub phonenumber: String,
    pub birthday: Date,
    pub email: String,
}

/// One rule of the record that a candidate breaks.
#[derive(Clone, Copy, Debug, PartialEq, Eq, Structural)]
pub enum Violation {
    EmptyName,
    EmptySurname,
    EmptyPhoneNumber,
    InvalidPhoneNumber,
    EmptyEmail,
    InvalidEmail,
    BirthdayInFuture,
}

impl Violation {
    pub open spec fn spec_message(self) -> Seq<char> {
        match self {
            Violation::EmptyName => "Name cannot be empty."@,
            Violation::EmptySurname => "Surname cannot be empty."@,
            Violation::EmptyPhoneNumber => "Phone number cannot be empty."@,
            Violation::InvalidPhoneNumber => "Invalid phone number format."@,
            Violation::EmptyEmail => "Email cannot be empty."@,
            Violation::InvalidEmail => "Invalid email format."@,
            Violation::BirthdayInFuture => "Birthday cannot be in the future."@,
        }
    }

    /// The text shown to whoever submitted the record.
    pub fn message(&self) -> (r: String)
        ensures
            r@ == self.spec_message(),
    {
        match self {
            Violation::EmptyName => String::from_str("Name cannot be empty."),
            Violation::EmptySurname => String::from_str("Surname cannot be empty."),
            Violation::EmptyPhoneNumber => String::from_str("Phone number cannot be empty."),
            Violation::InvalidPhoneNumber => String::from_str("Invalid phone number format."),
            Violation::EmptyEmail => String::from_str("Email cannot be empty."),
            Violation::InvalidEmail => String::from_str("Invalid email format."),
            Violation::BirthdayInFuture => String::from_str("Birthday cannot be in the future."),
        }
    }
}

pub open spec fn name_violations(name: Seq<char>) -> Seq<Violation> {
    if is_blank(name) {
        seq![Violation::EmptyName]
    } else {
        seq![]
    }
}

pub open spec fn surname_violations(surname: Seq<char>) -> Seq<Violation> {
    if is_blank(surname) {
        seq![Violation::EmptySurname]
    } else {
        seq![]
    }
}

/// Emptiness is reported before, and instead of, the format.
pub open spec fn phone_violations(phone: Seq<char>) -> Seq<Violation> {
    if phone.len() == 0 {
        seq![Violation::EmptyPhoneNumber]
    } else if !is_phone_number(phone) {
        seq![Violation::InvalidPhoneNumber]
    } else {
        seq![]
    }
}

/// Emptiness is reported before, and instead of, the format.
pub open spec fn email_violations(email: Seq<char>) -> Seq<Violation> {
    if email.len() == 0 {
        seq![Violation::EmptyEmail]
    } else if !is_email(email) {
        seq![Violation::InvalidEmail]
    } else {
        seq![]
    }
}

/// A birthday may be today or earlier.
pub open spec fn birthday_violations(birthday: Date, today: Date) -> Seq<Violation> {
    if birthday.spec_is_after(today) {
        seq![Violation::BirthdayInFuture]
    } else {
        seq![]
    }
}

/// Every rule that `rec` breaks on the day `today`, field by field: name, surname,
/// phone number, email, birthday.
pub open spec fn violations_of(rec: CreateStudent, today: Date) -> Seq<Violation> {
    name_violations(rec.name@) + surname_violations(rec.surname@) + phone_violations(
        rec.phonenumber@,
    ) + email_violations(rec.email@) + birthday_violations(rec.birthday, today)
}

pub open spec fn messages_of(rec: CreateStudent, today: Date) -> Seq<Seq<char>> {
    violations_of(rec, today).map_values(|v: Violation| v.spec_message())
}

/// What validating `rec` on the day `today` gives: `Ok` when no rule is broken, else
/// the messages of the broken rules.
pub open spec fn expected_outcome(rec: CreateStudent, today: Date) -> Result<(), Seq<Seq<char>>> {
    if violations_of(rec, today).len() == 0 {
        Ok(())
    } else {
        Err(messages_of(rec, today))
    }
}

pub open spec fn outcome_view(r: Result<(), Vec<String>>) -> Result<(), Seq<Seq<char>>> {
    match r {
        Ok(()) => Ok(()),
        Err(v) => Err(v@.map_values(|s: String| s@)),
    }
}

impl CreateStudent {
    /// Every rule that the record breaks on the day `today`, in field order.
    pub fn violations_on(&self, today: &Date) -> (r: Vec<Violation>)
        ensures
            r@ == violations_of(*self, *today),
    {
        let mut r: Vec<Violation> = Vec::new();
        if is_blank_text(self.name.as_str()) {
            r.push(Violation::EmptyName);
        }
        assert(r@ =~= name_violations(self.name@));
        if is_blank_text(self.surname.as_str()) {
            r.push(Violation::EmptySurname);
        }
        assert(r@ =~= name_violations(self.name@) + surname_violations(self.surname@));
        let phone = self.phonenumber.as_str();
        if phone.unicode_len() == 0 {
            r.push(Violation::EmptyPhoneNumber);
        } else if !is_valid_phone_number(phone) {
            r.push(Violation::InvalidPhoneNumber);
        }
        assert(r@ =~= name_violations(self.name@) + surname_violations(self.surname@)
            + phone_violations(self.phonenumber@));
        let email = self.email.as_str();
        if email.unicode_len() == 0 {
            r.push(Violation::EmptyEmail);
        } else if !is_valid_email(email) {
            r.push(Violation::InvalidEmail);
        }
        assert(r@ =~= name_violations(self.name@) + surname_violations(self.surname@)
            + phone_violations(self.phonenumber@) + email_violations(self.email@));
        if self.birthday.is_after(today) {
            r.push(Violation::BirthdayInFuture);
        }
        assert(r@ =~= violations_of(*self, *today));
        r
    }

    /// Checks every rule on the day `today`: `Ok` when none is broken, else the
    /// messages of all broken rules, in field order.
    pub fn validate_on(&self, today: &Date) -> (r: Result<(), Vec<String>>)
        ensures
            outcome_view(r) == expected_outcome(*self, *today),
    {
        let found = self.violations_on(today);
        if found.len() == 0 {
            return Ok(());
        }
        let mut messages: Vec<String> = Vec::new();
        let mut i: usize = 0;
        while i < found.len()
            invariant
                i <= found@.len(),
                found@ == violations_of(*self, *today),
                messages@.len() == i,
                forall|j: int| 0 <= j < i ==> (#[trigger] messages@[j])@ == found@[j].spec_message(),
            decreases found@.len() - i,
        {
            let m = found[i].message();
            messages.push(m);
            i += 1;
        }
        assert(messages@.map_values(|s: String| s@) =~= messages_of(*self, *today));
        Err(messages)
    }

    /// Checks every rule against today's date.
    pub fn validate(&self) -> (r: Result<(), Vec<String>>)
        ensures
            exists|today: Date| today.is_calendar_date() && outcome_view(r) == expected_outcome(*self, today),
    {
        let today = current_date();
        self.validate_on(&today)
    }
}

/// A record whose name and surname are not blank, whose phone number and email have the
/// accepted shapes, and whose birthday is not after `today`, breaks no rule: it validates
/// to `Ok`.
pub proof fn lemma_valid_record_accepted(rec: CreateStudent, today: Date)
    requires
        !is_blank(rec.name@),
        !is_blank(rec.surname@),
        is_phone_number(rec.phonenumber@),
        is_email(rec.email@),
        !rec.birthday.spec_is_after(today),
    ensures
        violations_of(rec, today) == Seq::<Violation>::empty(),
        expected_outcome(rec, today) == Ok::<(), Seq<Seq<char>>>(()),
{
    let p = rec.phonenumber@;
    if p.len() == 0 {
        let k = choose|k: int|
            0 <= k <= p.len() && is_international_prefix(#[trigger] p.subrange(0, k))
                && is_subscriber_number(p.subrange(k, p.len() as int));
        assert(p.subrange(k, p.len() as int).len() >= 9);
    }
    assert(violations_of(rec, today) =~= Seq::<Violation>::empty());
}

/// An empty field is always reported: an empty (or blank) name or surname, and an empty
/// phone number or email, each give their own message.
pub proof fn lemma_empty_fields_reported(rec: CreateStudent, today: Date)
    ensures
        is_blank(rec.name@) ==> violations_of(rec, today).contains(Violation::EmptyName),
        is_blank(rec.surname@) ==> violations_of(rec, today).contains(Violation::EmptySurname),
        rec.phonenumber@.len() == 0 ==> violations_of(rec, today).contains(
            Violation::EmptyPhoneNumber,
        ),
        rec.email@.len() == 0 ==> violations_of(rec, today).contains(Violation::EmptyEmail),
        is_blank(rec.name@) ==> messages_of(rec, today).contains("Name cannot be empty."@),
        is_blank(rec.surname@) ==> messages_of(rec, today).contains("Surname cannot be empty."@),
        rec.phonenumber@.len() == 0 ==> messages_of(rec, today).contains(
            "Phone number cannot be empty."@,
        ),
        rec.email@.len() == 0 ==> messages_of(rec, today).contains("Email cannot be empty."@),
{
    let v = violations_of(rec, today);
    let n = name_violations(rec.name@);
    let sn = surname_violations(rec.surname@);
    let ph = phone_violations(rec.phonenumber@);
    if is_blank(rec.name@) {
        assert(v[0] == Violation::EmptyName);
        assert(messages_of(rec, today)[0] == Violation::EmptyName.spec_message());
    }
    if is_blank(rec.surname@) {
        assert(v[n.len() as int] == Violation::EmptySurname);
        assert(messages_of(rec, today)[n.len() as int] == Violation::EmptySurname.spec_message());
    }
    if rec.phonenumber@.len() == 0 {
        assert(v[(n.len() + sn.len()) as int] == Violation::EmptyPhoneNumber);
        assert(messages_of(rec, today)[(n.len() + sn.len()) as int]
            == Violation::EmptyPhoneNumber.spec_message());
    }
    if rec.email@.len() == 0 {
        assert(v[(n.len() + sn.len() + ph.len()) as int] == Violation::EmptyEmail);
        assert(messages_of(rec, today)[(n.len() + sn.len() + ph.len()) as int]
            == Violation::EmptyEmail.spec_message());
    }
}

/// Validation keeps going after a broken rule: a blank name and a malformed email are
/// both reported by one call.
pub proof fn lemma_violations_aggregate(rec: CreateStudent, today: Date)
    requires
        is_blank(rec.name@),
        rec.email@.len() > 0,
        !is_email(rec.email@),
    ensures
        violations_of(rec, today).contains(Violation::EmptyName),
        violations_of(rec, today).contains(Violation::InvalidEmail),
        messages_of(rec, today).contains(Violation::EmptyName.spec_message()),
        messages_of(rec, today).contains(Violation::InvalidEmail.spec_message()),
{
    let v = violations_of(rec, today);
    let sn = surname_violations(rec.surname@);
    let ph = phone_violations(rec.phonenumber@);
    let i = (1 + sn.len() + ph.len()) as int;
    assert(v[0] == Violation::EmptyName);
    assert(v[i] == Violation::InvalidEmail);
    assert(messages_of(rec, today)[0] == Violation::EmptyName.spec_message());
    assert(messages_of(rec, today)[i] == Violation::InvalidEmail.spec_message());
}

/// No rule is reported twice in one validation.
pub proof fn lemma_each_rule_reported_once(rec: CreateStudent, today: Date)
    ensures
        violations_of(rec, today).no_duplicates(),
{
    let v = violations_of(rec, today);
    assert forall|i: int, j: int| 0 <= i < v.len() && 0 <= j < v.len() && i != j implies v[i]
        != v[j] by {
        let n = name_violations(rec.name@);
        let sn = surname_violations(rec.surname@);
        let ph = phone_violations(rec.phonenumber@);
        let em = email_violations(rec.email@);
        let b = birthday_violations(rec.birthday, today);
        assert(v =~= n + sn + ph + em + b);
    }
}

/// Validating the same record twice on the same day gives the same outcome.
pub proof fn lemma_validation_repeatable(
    rec: CreateStudent,
    today: Date,
    first: Result<(), Vec<String>>,
    second: Result<(), Vec<String>>,
)
    requires
        outcome_view(first) == expected_outcome(rec, today),
        outcome_view(second) == expected_outcome(rec, today),
    ensures
        outcome_view(first) == outcome_view(second),
        first is Ok <==> second is Ok,
{
}

} // verus!
