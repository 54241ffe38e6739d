//! The closed set of POP3 verbs, plus the pseudo-commands used for the
//! greeting banner and for SASL continuation lines.

use std::collections::HashMap;

use vstd::prelude::*;

verus! {

/// A POP3 command verb.  `Greet` stands for the unsolicited server banner
/// (no request line is sent for it), and `Base64` stands for a client
/// continuation line inside a SASL exchange, carrying the already encoded
/// reply text.
#[derive(Debug, Clone)]
pub enum Command {
    Noop,
    Uidl,
    Top,
    Dele,
    Rset,
    Retr,
    List,
    Stat,
    Apop,
    Auth,
    User,
    Pass,
    Quit,
    Capa,
    Greet,
    Base64(String),
}

impl Command {
    /// The sequence of characters this command sends on the wire, without
    /// arguments or line terminator.  `Greet` sends nothing; a `Base64`
    /// continuation sends its payload text verbatim.
    pub open spec fn spec_name(&self) -> Seq<char> {
        match *self {
            Command::Noop => "NOOP"@,
            Command::Uidl => "UIDL"@,
            Command::Top => "TOP"@,
            Command::Dele => "DELE"@,
            Command::Rset => "RSET"@,
            Command::Retr => "RETR"@,
            Command::List => "LIST"@,
            Command::Stat => "STAT"@,
            Command::Apop => "APOP"@,
            Command::Auth => "AUTH"@,
            Command::User => "USER"@,
            Command::Pass => "PASS"@,
            Command::Quit => "QUIT"@,
            Command::Capa => "CAPA"@,
            Command::Greet => Seq::empty(),
            Command::Base64(payload) => payload@,
        }
    }

    /// The table of wire verbs, keyed by their lower-case names, for
    /// callers that read commands back from text.
    pub fn definitions() -> HashMap<String, Command> {
        let mut map: HashMap<String, Command> = HashMap::new();
        map.insert(String::from_str("noop"), Command::Noop);
        map.insert(String::from_str("uidl"), Command::Uidl);
        map.insert(String::from_str("top"), Command::Top);
        map.insert(String::from_str("dele"), Command::Dele);
        map.insert(String::from_str("rset"), Command::Rset);
        map.insert(String::from_str("retr"), Command::Retr);
        map.insert(String::from_str("list"), Command::List);
        map.insert(String::from_str("stat"), Command::Stat);
        map.insert(String::from_str("apop"), Command::Apop);
        map.insert(String::from_str("auth"), Command::Auth);
        map.insert(String::from_str("user"), Command::User);
        map.insert(String::from_str("quit"), Command::Quit);
        map.insert(String::from_str("capa"), Command::Capa);
        map.insert(String::from_str("pass"), Command::Pass);
        map
    }

    /// An exact copy of this command.
    pub fn clone_verbatim(&self) -> (r: Command)
        ensures
            r == *self,
    {
        match self {
            Command::Noop => Command::Noop,
            Command::Uidl => Command::Uidl,
            Command::Top => Command::Top,
            Command::Dele => Command::Dele,
            Command::Rset => Command::Rset,
            Command::Retr => Command::Retr,
            Command::List => Command::List,
            Command::Stat => Command::Stat,
            Command::Apop => Command::Apop,
            Command::Auth => Command::Auth,
            Command::User => Command::User,
            Command::Pass => Command::Pass,
            Command::Quit => Command::Quit,
            Command::Capa => Command::Capa,
            Command::Greet => Command::Greet,
            Command::Base64(payload) => Command::Base64(payload.clone()),
        }
    }

    /// The uppercase wire name of the verb.
    pub fn name(&self) -> (r: String)
        ensures
            r@ == self.spec_name(),
    {
        match self {
            Command::Noop => String::from_str("NOOP"),
            Command::Uidl => String::from_str("UIDL"),
            Command::Top => String::from_str("TOP"),
            Command::Dele => String::from_str("DELE"),
            Command::Rset => String::from_str("RSET"),
            Command::Retr => String::from_str("RETR"),
            Command::List => String::from_str("LIST"),
            Command::Stat => String::from_str("STAT"),
            Command::Apop => String::from_str("APOP"),
            Command::Auth => String::from_str("AUTH"),
            Command::User => String::from_str("USER"),
            Command::Pass => String::from_str("PASS"),
            Command::Quit => String::from_str("QUIT"),
            Command::Capa => String::from_str("CAPA"),
            Command::Greet => String::new(),
            Command::Base64(payload) => payload.clone(),
        }
    }
}

} // verus!
