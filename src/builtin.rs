//! The fixed registry of commands that the interpreter carries out itself.
use vstd::prelude::*;

use crate::text::same_text;

verus! {

/// The five builtin commands.
#[derive(Clone, Copy, Debug, PartialEq, Eq, Structural)]
pub enum Builtin {
    Echo,
    Type,
    Exit,
    Cd,
    Pwd,
}

/// The builtin whose name is exactly `name`, if any (case-sensitive).
pub open spec fn builtin_named(name: Seq<char>) -> Option<Builtin> {
    if name == "echo"@ {
        Some(Builtin::Echo)
    } else if name == "type"@ {
        Some(Builtin::Type)
    } else if name == "exit"@ {
        Some(Builtin::Exit)
    } else if name == "cd"@ {
        Some(Builtin::Cd)
    } else if name == "pwd"@ {
        Some(Builtin::Pwd)
    } else {
        None
    }
}

impl Builtin {
    /// The name under which the builtin is looked up.
    pub open spec fn spec_name(self) -> Seq<char> {
        match self {
            Builtin::Echo => "echo"@,
            Builtin::Type => "type"@,
            Builtin::Exit => "exit"@,
            Builtin::Cd => "cd"@,
            Builtin::Pwd => "pwd"@,
        }
    }

    /// The name under which the builtin is looked up.
    pub fn name(&self) -> (r: &'static str)
        ensures
            r@ == self.spec_name(),
    {
        match self {
            Builtin::Echo => "echo",
            Builtin::Type => "type",
            Builtin::Exit => "exit",
            Builtin::Cd => "cd",
            Builtin::Pwd => "pwd",
        }
    }

    /// The category that `type` reports; the same for every builtin.
    pub fn category(&self) -> (r: &'static str)
        ensures
            r@ == "builtin"@,
    {
        "builtin"
    }

    /// Looks `name` up in the registry: exact, case-sensitive match.
    pub fn from_name(name: &str) -> (r: Option<Builtin>)
        ensures
            r == builtin_named(name@),
    {
        if same_text(name, "echo") {
            Some(Builtin::Echo)
        } else if same_text(name, "type") {
            Some(Builtin::Type)
        } else if same_text(name, "exit") {
            Some(Builtin::Exit)
        } else if same_text(name, "cd") {
            Some(Builtin::Cd)
        } else if same_text(name, "pwd") {
            Some(Builtin::Pwd)
        } else {
            None
        }
    }
}

/// Looking up a builtin's own name finds that builtin.
pub proof fn lemma_registry_finds_each_builtin(b: Builtin)
    ensures
        builtin_named(b.spec_name()) == Some(b),
{
    reveal_strlit("echo");
    reveal_strlit("type");
    reveal_strlit("exit");
    reveal_strlit("cd");
    reveal_strlit("pwd");
    match b {
        Builtin::Echo => {},
        Builtin::Type => {
            assert("type"@[0] != "echo"@[0]);
        },
        Builtin::Exit => {
            assert("exit"@[1] != "echo"@[1]);
            assert("exit"@[0] != "type"@[0]);
        },
        Builtin::Cd => {
            assert("cd"@.len() != "echo"@.len());
            assert("cd"@.len() != "type"@.len());
            assert("cd"@.len() != "exit"@.len());
        },
        Builtin::Pwd => {
            assert("pwd"@.len() != "echo"@.len());
            assert("pwd"@.len() != "type"@.len());
            assert("pwd"@.len() != "exit"@.len());
            assert("pwd"@.len() != "cd"@.len());
        },
    }
}

} // verus!
