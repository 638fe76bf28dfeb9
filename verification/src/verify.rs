//! The verification command: a required password argument compared
//! case-insensitively against a fixed secret; the verified role is granted
//! on a match.

use vstd::prelude::*;
use crate::interaction::{CommandError, CommandOption, OptionValue};
use crate::text::{lower_of, lowercase, str_eq};

verus! {

/// The role granted to a member who verifies.
pub const VERIFIED_ROLE_ID: u64 = 961567436606419024;

/// Whether a verify invocation's options are well-formed: exactly one
/// option, named `password`, carrying a string.
pub open spec fn spec_password_options_ok(options: Seq<CommandOption>) -> bool {
    &&& options.len() == 1
    &&& options[0].name@ == "password"@
    &&& options[0].value is StrVal
}

/// Checks the password of a verify invocation. On a well-formed option
/// list the result says whether the lowercase image of the given password
/// is the secret; anything else is a command failure.
pub fn check_password(options: &Vec<CommandOption>) -> (r: Result<bool, CommandError>)
    ensures
        match r {
            Ok(correct) => spec_password_options_ok(options@) && (options@[0].value matches
                OptionValue::StrVal(s) && correct == (lower_of(s@) == "kartoffelsalat"@)),
            Err(e) => e == CommandError::WrongOptionType && !spec_password_options_ok(options@),
        },
{
    if options.len() != 1 {
        return Err(CommandError::WrongOptionType);
    }
    let option = &options[0];
    if !str_eq(option.name.as_str(), "password") {
        return Err(CommandError::WrongOptionType);
    }
    match &option.value {
        OptionValue::StrVal(s) => {
            let lowered = lowercase(s.as_str());
            Ok(str_eq(lowered.as_str(), "kartoffelsalat"))
        },
        _ => Err(CommandError::WrongOptionType),
    }
}

} // verus!
