use vstd::prelude::*;

verus! {

/// Plural rule strings in UTS 35 syntax, one for each of five plural forms;
/// "other" applies where none of them matches.
#[derive(Debug)]
pub struct PluralRuleStringsV1 {
    pub zero: Option<String>,
    pub one: Option<String>,
    pub two: Option<String>,
    pub few: Option<String>,
    pub many: Option<String>,
}

/// A copy of an optional string.
pub fn clone_opt(s: &Option<String>) -> (r: Option<String>)
    ensures
        r == *s,
{
    match s {
        Some(v) => Some(v.clone()),
        None => None,
    }
}

/// Do two optional strings hold the same characters?
pub fn opt_str_eq(a: &Option<String>, b: &Option<String>) -> (r: bool)
    ensures
        r == opt_view_eq(*a, *b),
{
    match (a, b) {
        (Some(x), Some(y)) => *x == *y,
        (None, None) => true,
        _ => false,
    }
}

pub open spec fn opt_view_eq(a: Option<String>, b: Option<String>) -> bool {
    match (a, b) {
        (Some(x), Some(y)) => x@ == y@,
        (None, None) => true,
        _ => false,
    }
}

impl PartialEq for PluralRuleStringsV1 {
    fn eq(&self, other: &PluralRuleStringsV1) -> (r: bool) {
        opt_str_eq(&self.zero, &other.zero) && opt_str_eq(&self.one, &other.one) && opt_str_eq(
            &self.two,
            &other.two,
        ) && opt_str_eq(&self.few, &other.few) && opt_str_eq(&self.many, &other.many)
    }
}

impl vstd::std_specs::cmp::PartialEqSpecImpl for PluralRuleStringsV1 {
    open spec fn obeys_eq_spec() -> bool {
        true
    }

    open spec fn eq_spec(&self, other: &PluralRuleStringsV1) -> bool {
        opt_view_eq(self.zero, other.zero) && opt_view_eq(self.one, other.one) && opt_view_eq(
            self.two,
            other.two,
        ) && opt_view_eq(self.few, other.few) && opt_view_eq(self.many, other.many)
    }
}

impl PluralRuleStringsV1 {
    /// Rules with no string for any form: everything is "other".
    pub fn empty() -> (r: PluralRuleStringsV1)
        ensures
            r.zero is None && r.one is None && r.two is None && r.few is None && r.many is None,
    {
        PluralRuleStringsV1 { zero: None, one: None, two: None, few: None, many: None }
    }
}

/// "Hello World" in some language.
#[derive(Debug)]
pub struct HelloWorldV1 {
    pub message: String,
}

impl PartialEq for HelloWorldV1 {
    fn eq(&self, other: &HelloWorldV1) -> (r: bool) {
        self.message == other.message
    }
}

impl vstd::std_specs::cmp::PartialEqSpecImpl for HelloWorldV1 {
    open spec fn obeys_eq_spec() -> bool {
        true
    }

    open spec fn eq_spec(&self, other: &HelloWorldV1) -> bool {
        self.message@ == other.message@
    }
}

impl HelloWorldV1 {
    /// The message of the undetermined locale.
    pub fn und_message() -> (r: HelloWorldV1)
        ensures
            r.message@ == "(und) Hello World"@,
    {
        HelloWorldV1 { message: String::from_str("(und) Hello World") }
    }
}

/// The four date format patterns of the Gregorian calendar.
#[derive(Debug)]
pub struct DateFormatsV1 {
    pub full: String,
    pub long: String,
    pub medium: String,
    pub short: String,
}

impl PartialEq for DateFormatsV1 {
    fn eq(&self, other: &DateFormatsV1) -> (r: bool) {
        self.full == other.full && self.long == other.long && self.medium == other.medium
            && self.short == other.short
    }
}

impl vstd::std_specs::cmp::PartialEqSpecImpl for DateFormatsV1 {
    open spec fn obeys_eq_spec() -> bool {
        true
    }

    open spec fn eq_spec(&self, other: &DateFormatsV1) -> bool {
        self.full@ == other.full@ && self.long@ == other.long@ && self.medium@ == other.medium@
            && self.short@ == other.short@
    }
}

} // verus!
