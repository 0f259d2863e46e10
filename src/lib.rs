use vstd::prelude::*;

verus! {

/// A rule that a candidate password can break.
#[derive(Debug, Clone, Copy, PartialEq, Eq, Structural)]
pub enum PasswordValidationErrors {
    TooShort,
    TooLong,
    MissingDigit,
    MissingUppercase,
}

/// A password that passed every rule; it holds the candidate unchanged.
#[derive(Debug, PartialEq)]
pub struct Password(pub String);

/// Entry point of validation.
#[derive(Debug)]
pub struct PasswordValidator;

/// Whether `c` has the Unicode Uppercase property.
pub uninterp spec fn is_uppercase_char(c: char) -> bool;

/// A decimal digit, as `char::is_digit(10)` accepts it.
pub open spec fn is_decimal_digit(c: char) -> bool {
    '0' <= c && c <= '9'
}

pub open spec fn has_digit(s: Seq<char>) -> bool {
    exists|i: int| 0 <= i < s.len() && is_decimal_digit(#[trigger] s[i])
}

pub open spec fn has_uppercase(s: Seq<char>) -> bool {
    exists|i: int| 0 <= i < s.len() && is_uppercase_char(#[trigger] s[i])
}

/// `seq![k]` when `fires`, else the empty sequence.
pub open spec fn report(fires: bool, k: PasswordValidationErrors) -> Seq<PasswordValidationErrors> {
    if fires {
        seq![k]
    } else {
        Seq::empty()
    }
}

/// The violations of a candidate with `len` characters, given whether it holds
/// a digit and an uppercase letter, in rule order.
pub open spec fn rule_violations(len: nat, digit: bool, upper: bool) -> Seq<PasswordValidationErrors> {
    report(len <= 5, PasswordValidationErrors::TooShort)
        + report(len >= 15, PasswordValidationErrors::TooLong)
        + report(!digit, PasswordValidationErrors::MissingDigit)
        + report(!upper, PasswordValidationErrors::MissingUppercase)
}

/// Every rule that the candidate `s` breaks, in rule order.
pub open spec fn violations(s: Seq<char>) -> Seq<PasswordValidationErrors> {
    rule_violations(s.len(), has_digit(s), has_uppercase(s))
}

/// The position of a rule in the fixed rule order.
pub open spec fn rule_rank(k: PasswordValidationErrors) -> int {
    match k {
        PasswordValidationErrors::TooShort => 0,
        PasswordValidationErrors::TooLong => 1,
        PasswordValidationErrors::MissingDigit => 2,
        PasswordValidationErrors::MissingUppercase => 3,
    }
}

/// A candidate of 6 to 14 characters that holds a decimal digit and an
/// uppercase letter breaks no rule, so it is accepted.
pub proof fn lemma_well_formed_accepted(s: Seq<char>)
    requires
        6 <= s.len() <= 14,
        has_digit(s),
        has_uppercase(s),
    ensures
        violations(s).len() == 0,
{
    assert(violations(s) =~= Seq::empty());
}

/// A candidate of at most 5 characters is reported as too short.
pub proof fn lemma_short_reported(s: Seq<char>)
    requires
        s.len() <= 5,
    ensures
        violations(s).contains(PasswordValidationErrors::TooShort),
{
    assert(violations(s)[0] == PasswordValidationErrors::TooShort);
}

/// A candidate of at least 15 characters is reported as too long.
pub proof fn lemma_long_reported(s: Seq<char>)
    requires
        s.len() >= 15,
    ensures
        violations(s).contains(PasswordValidationErrors::TooLong),
{
    assert(violations(s)[0] == PasswordValidationErrors::TooLong);
}

/// A candidate without a decimal digit is reported as missing one.
pub proof fn lemma_missing_digit_reported(s: Seq<char>)
    requires
        !has_digit(s),
    ensures
        violations(s).contains(PasswordValidationErrors::MissingDigit),
{
    let v = violations(s);
    let pre = report(s.len() <= 5, PasswordValidationErrors::TooShort)
        + report(s.len() >= 15, PasswordValidationErrors::TooLong);
    assert(v[pre.len() as int] == PasswordValidationErrors::MissingDigit);
}

/// A candidate without an uppercase letter is reported as missing one.
pub proof fn lemma_missing_uppercase_reported(s: Seq<char>)
    requires
        !has_uppercase(s),
    ensures
        violations(s).contains(PasswordValidationErrors::MissingUppercase),
{
    let v = violations(s);
    assert(v[v.len() - 1] == PasswordValidationErrors::MissingUppercase);
}

/// Violations come in the fixed rule order, whatever the candidate holds:
/// of two reported rules, the one declared first is reported first.
pub proof fn lemma_rule_order(s: Seq<char>, i: int, j: int)
    requires
        0 <= i < j < violations(s).len(),
    ensures
        rule_rank(violations(s)[i]) < rule_rank(violations(s)[j]),
{
}

/// Relies on char::is_uppercase: whether `c` has the Uppercase property, which
/// depends on `c` alone.
#[verifier::external_body]
fn char_is_uppercase(c: char) -> (r: bool)
    ensures
        r == is_uppercase_char(c),
{
    c.is_uppercase()
}

fn push_if(v: &mut Vec<PasswordValidationErrors>, fires: bool, k: PasswordValidationErrors)
    ensures
        final(v)@ == old(v)@ + report(fires, k),
{
    if fires {
        v.push(k);
    } else {
        assert(old(v)@ + report(fires, k) =~= old(v)@);
    }
}

/// The violations of a candidate of `char_count` characters that holds a
/// decimal digit when `digit` and an uppercase letter when `upper`.
pub fn violations_for(char_count: usize, digit: bool, upper: bool) -> (r: Vec<PasswordValidationErrors>)
    ensures
        r@ == rule_violations(char_count as nat, digit, upper),
{
    let mut v: Vec<PasswordValidationErrors> = Vec::new();
    push_if(&mut v, char_count <= 5, PasswordValidationErrors::TooShort);
    push_if(&mut v, char_count >= 15, PasswordValidationErrors::TooLong);
    push_if(&mut v, !digit, PasswordValidationErrors::MissingDigit);
    push_if(&mut v, !upper, PasswordValidationErrors::MissingUppercase);
    assert(v@ =~= rule_violations(char_count as nat, digit, upper));
    v
}

impl PasswordValidator {
    /// Checks `value` against every rule. It is accepted, unchanged, when it
    /// breaks none; otherwise all the broken rules come back in rule order.
    pub fn new(value: &str) -> (r: Result<Password, Vec<PasswordValidationErrors>>)
        ensures
            match r {
                Ok(p) => violations(value@).len() == 0 && p.0@ == value@,
                Err(v) => violations(value@).len() > 0 && v@ == violations(value@),
            },
    {
        let n = value.unicode_len();
        let mut digit = false;
        let mut upper = false;
        let mut i: usize = 0;
        while i < n
            invariant
                n == value@.len(),
                i <= n,
                digit == (exists|j: int| 0 <= j < i && is_decimal_digit(#[trigger] value@[j])),
                upper == (exists|j: int| 0 <= j < i && is_uppercase_char(#[trigger] value@[j])),
            decreases n - i,
        {
            let c = value.get_char(i);
            if '0' <= c && c <= '9' {
                digit = true;
            }
            if char_is_uppercase(c) {
                upper = true;
            }
            i = i + 1;
        }
        let found = violations_for(n, digit, upper);
        if found.len() == 0 {
            Ok(Password(value.to_owned()))
        } else {
            Err(found)
        }
    }
}

} // verus!
