use vstd::prelude::*;

verus! {

/// Why a request to the command center was refused.
#[derive(Debug)]
pub enum CenterError {
    /// A command's name is empty after trimming.
    NameRequired,
    /// A command's executable is empty after trimming.
    ExecutableRequired,
    /// A username is empty after trimming.
    UsernameRequired,
    /// A password is empty after trimming.
    PasswordRequired,
    /// No command has the given id.
    CommandNotFound,
    /// Arguments were given for a command that does not take them at
    /// execution time; it holds the command's name.
    ArgumentsNotAllowed { command: String },
    /// The username is unknown or the password does not match: the two are
    /// never told apart.
    InvalidCredentials,
    /// The password could not be hashed.
    HashFailure,
}

impl CenterError {
    /// The category of the refusal.
    pub open spec fn is_validation(&self) -> bool {
        self is NameRequired || self is ExecutableRequired || self is UsernameRequired
            || self is PasswordRequired
    }

    /// The message for the operator.
    pub open spec fn text(&self) -> Seq<char> {
        match self {
            CenterError::NameRequired => "Command name is required"@,
            CenterError::ExecutableRequired => "Executable path is required"@,
            CenterError::UsernameRequired => "Username is required"@,
            CenterError::PasswordRequired => "Password is required"@,
            CenterError::CommandNotFound => "Command not found"@,
            CenterError::ArgumentsNotAllowed { command } => "Command '"@ + command@
                + "' does not allow runtime parameters"@,
            CenterError::InvalidCredentials => "Invalid username or password"@,
            CenterError::HashFailure => "Hash failure"@,
        }
    }

    /// A message for the operator.
    pub fn message(&self) -> (r: String)
        ensures
            r@ == self.text(),
    {
        match self {
            CenterError::NameRequired => String::from_str("Command name is required"),
            CenterError::ExecutableRequired => String::from_str("Executable path is required"),
            CenterError::UsernameRequired => String::from_str("Username is required"),
            CenterError::PasswordRequired => String::from_str("Password is required"),
            CenterError::CommandNotFound => String::from_str("Command not found"),
            CenterError::ArgumentsNotAllowed { command } => {
                let mut m = String::from_str("Command '");
                m.append(command.as_str());
                m.append("' does not allow runtime parameters");
                m
            },
            CenterError::InvalidCredentials => String::from_str("Invalid username or password"),
            CenterError::HashFailure => String::from_str("Hash failure"),
        }
    }
}

} // verus!
