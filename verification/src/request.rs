//! A request line: a command and its textual arguments, serialized as
//! `COMMAND SP ARG1 SP ARG2 ... CRLF`.

use vstd::prelude::*;

use crate::command::Command;

verus! {

/// The decimal digit characters of `n`, most significant first.
pub open spec fn spec_udigits(n: nat) -> Seq<char>
    decreases n,
{
    if n < 10 {
        seq![spec_digit_char(n as int)]
    } else {
        spec_udigits(n / 10).push(spec_digit_char((n % 10) as int))
    }
}

pub open spec fn spec_digit_char(d: int) -> char {
    if d == 0 {
        '0'
    } else if d == 1 {
        '1'
    } else if d == 2 {
        '2'
    } else if d == 3 {
        '3'
    } else if d == 4 {
        '4'
    } else if d == 5 {
        '5'
    } else if d == 6 {
        '6'
    } else if d == 7 {
        '7'
    } else if d == 8 {
        '8'
    } else {
        '9'
    }
}

fn digit_str(d: usize) -> (r: &'static str)
    requires
        d < 10,
    ensures
        r@ == seq![spec_digit_char(d as int)],
{
    proof {
        reveal_strlit("0");
        reveal_strlit("1");
        reveal_strlit("2");
        reveal_strlit("3");
        reveal_strlit("4");
        reveal_strlit("5");
        reveal_strlit("6");
        reveal_strlit("7");
        reveal_strlit("8");
        reveal_strlit("9");
    }
    let r = match d {
        0 => "0",
        1 => "1",
        2 => "2",
        3 => "3",
        4 => "4",
        5 => "5",
        6 => "6",
        7 => "7",
        8 => "8",
        _ => "9",
    };
    proof {
        assert(r@ =~= seq![spec_digit_char(d as int)]);
    }
    r
}

/// Formats a message number for the wire.
pub fn usize_to_string(n: usize) -> (r: String)
    ensures
        r@ == spec_udigits(n as nat),
    decreases n,
{
    if n < 10 {
        String::from_str(digit_str(n))
    } else {
        let mut s = usize_to_string(n / 10);
        s.append(digit_str(n % 10));
        proof {
            assert(s@ =~= spec_udigits((n / 10) as nat).push(
                spec_digit_char((n % 10) as int),
            ));
        }
        s
    }
}

/// The serialization of an argument list: one space before each argument.
pub open spec fn spec_args_serial(args: Seq<Seq<char>>) -> Seq<char>
    decreases args.len(),
{
    if args.len() == 0 {
        Seq::empty()
    } else {
        spec_args_serial(args.drop_last()) + seq![' '] + args.last()
    }
}

/// The mathematical content of a `Request`.
#[verifier::ext_equal]
pub struct RequestModel {
    pub command: Command,
    pub args: Seq<Seq<char>>,
}

/// The serialized request line, without its CRLF.
pub open spec fn spec_serial(m: RequestModel) -> Seq<char> {
    m.command.spec_name() + spec_args_serial(m.args)
}

/// A command plus an ordered list of textual arguments.
#[derive(Debug)]
pub struct Request {
    command: Command,
    args: Vec<String>,
}

impl View for Request {
    type V = RequestModel;

    closed spec fn view(&self) -> RequestModel {
        RequestModel { command: self.command, args: self.args.deep_view() }
    }
}

impl Request {
    pub fn new(command: Command, args: Vec<String>) -> (r: Request)
        ensures
            r@.command == command,
            r@.args == args.deep_view(),
    {
        Request { command, args }
    }

    pub fn add_arg(&mut self, arg: String)
        ensures
            final (self)@.command == old(self)@.command,
            final (self)@.args == old(self)@.args.push(arg@),
    {
        let ghost args_old = self.args.deep_view();
        self.args.push(arg);
        proof {
            assert(self.args.deep_view() =~= args_old.push(self.args@.last()@));
        }
    }

    pub fn command(&self) -> (r: &Command)
        ensures
            *r == self@.command,
    {
        &self.command
    }

    /// The wire text of this request, without the line terminator.
    pub fn serialize(&self) -> (r: String)
        ensures
            r@ == spec_serial(self@),
    {
        let mut s = self.command.name();
        let mut i: usize = 0;
        proof {
            assert(self@.args.take(0) =~= Seq::<Seq<char>>::empty());
            assert(s@ =~= self@.command.spec_name() + spec_args_serial(self@.args.take(0)));
            reveal_strlit(" ");
        }
        while i < self.args.len()
            invariant
                0 <= i <= self.args@.len(),
                self@.args.len() == self.args@.len(),
                s@ == self@.command.spec_name() + spec_args_serial(self@.args.take(i as int)),
            decreases self.args@.len() - i,
        {
            s.append(" ");
            let arg: &String = &self.args[i];
            s.append(arg.as_str());
            proof {
                reveal_strlit(" ");
                assert(" "@ =~= seq![' ']);
                let t = self@.args.take(i as int + 1);
                assert(t.drop_last() =~= self@.args.take(i as int));
                assert(t.last() == self@.args[i as int]);
                assert(s@ =~= self@.command.spec_name() + spec_args_serial(t));
            }
            i = i + 1;
        }
        proof {
            assert(self@.args.take(i as int) =~= self@.args);
        }
        s
    }
}

} // verus!
