use vstd::prelude::*;

use crate::features::strs;
use vstd::string::StringExecFns;

verus! {

/// The decimal digit character for a value below ten.
pub open spec fn dec_digit(d: int) -> char {
    if d == 0 {
        '0'
    } else if d == 1 {
        '1'
    } else if d == 2 {
        '2'
    } else if d == 3 {
        '3'
    } else if d == 4 {
        '4'
    } else if d == 5 {
        '5'
    } else if d == 6 {
        '6'
    } else if d == 7 {
        '7'
    } else if d == 8 {
        '8'
    } else {
        '9'
    }
}

/// The decimal rendering of a non-negative number, most significant digit
/// first.
pub open spec fn dec_str(n: int) -> Seq<char>
    decreases n,
{
    if n < 10 {
        seq![dec_digit(n)]
    } else {
        dec_str(n / 10).push(dec_digit(n % 10))
    }
}

/// Append one decimal digit to a string.
fn push_digit(s: &mut String, d: usize)
    requires
        d < 10,
    ensures
        final(s)@ == old(s)@.push(dec_digit(d as int)),
{
    proof {
        reveal_strlit("0");
        reveal_strlit("1");
        reveal_strlit("2");
        reveal_strlit("3");
        reveal_strlit("4");
        reveal_strlit("5");
        reveal_strlit("6");
        reveal_strlit("7");
        reveal_strlit("8");
        reveal_strlit("9");
    }
    match d {
        0 => s.append("0"),
        1 => s.append("1"),
        2 => s.append("2"),
        3 => s.append("3"),
        4 => s.append("4"),
        5 => s.append("5"),
        6 => s.append("6"),
        7 => s.append("7"),
        8 => s.append("8"),
        _ => s.append("9"),
    }
    proof {
        assert(s@ =~= old(s)@.push(dec_digit(d as int)));
    }
}

/// Append the decimal rendering of `n`.
pub fn push_decimal(s: &mut String, n: usize)
    ensures
        final(s)@ == old(s)@ + dec_str(n as int),
    decreases n,
{
    if n >= 10 {
        push_decimal(s, n / 10);
    }
    push_digit(s, n % 10);
    proof {
        assert(s@ =~= old(s)@ + dec_str(n as int));
    }
}

/// The feature names joined with commas, as one command-line argument.
pub open spec fn join_comma(fs: Seq<Seq<char>>) -> Seq<char>
    decreases fs.len(),
{
    if fs.len() == 0 {
        Seq::empty()
    } else if fs.len() == 1 {
        fs[0]
    } else {
        join_comma(fs.drop_last()) + seq![','] + fs.last()
    }
}

/// Join feature names into the single comma-separated argument handed to the
/// build tool.
pub fn join_features(features: &Vec<String>) -> (r: String)
    ensures
        r@ == join_comma(strs(features@)),
{
    let mut r = String::new();
    let mut i: usize = 0;
    while i < features.len()
        invariant
            i <= features@.len(),
            r@ == join_comma(strs(features@).take(i as int)),
        decreases features@.len() - i,
    {
        if i > 0 {
            r.append(",");
            proof {
                reveal_strlit(",");
            }
        }
        r.append(features[i].as_str());
        proof {
            let all = strs(features@);
            assert(all.take(i + 1).drop_last() =~= all.take(i as int));
            assert(all.take(i + 1).last() == all[i as int]);
            assert(r@ =~= join_comma(all.take(i + 1)));
        }
        i += 1;
    }
    proof {
        assert(strs(features@).take(features@.len() as int) == strs(features@));
    }
    r
}

/// One invocation of the external build tool: the program and its arguments,
/// in order.
pub struct CommandLine {
    pub program: String,
    pub args: Vec<String>,
}

/// The rendering of the argument list: one space before each argument.
pub open spec fn args_render(args: Seq<Seq<char>>) -> Seq<char>
    decreases args.len(),
{
    if args.len() == 0 {
        Seq::empty()
    } else {
        args_render(args.drop_last()) + seq![' '] + args.last()
    }
}

/// The rendering of a whole command line, backquoted as shown to the user.
pub open spec fn render_spec(c: CommandLine) -> Seq<char> {
    seq!['`'] + c.program@ + args_render(strs(c.args@)) + seq!['`']
}

/// Copy a list of argument strings.
pub fn clone_strings(v: &Vec<String>) -> (r: Vec<String>)
    ensures
        r@ == v@,
{
    let mut r: Vec<String> = Vec::new();
    let mut i: usize = 0;
    while i < v.len()
        invariant
            i <= v@.len(),
            r@ == v@.take(i as int),
        decreases v@.len() - i,
    {
        r.push(v[i].clone());
        proof {
            assert(r@ =~= v@.take(i + 1));
        }
        i += 1;
    }
    proof {
        assert(v@.take(v@.len() as int) == v@);
    }
    r
}

impl CommandLine {
    /// A command line with no arguments yet.
    pub fn new(program: String) -> (r: CommandLine)
        ensures
            r.program == program,
            r.args@ == Seq::<String>::empty(),
    {
        CommandLine { program, args: Vec::new() }
    }

    /// Append one argument.
    pub fn arg(&mut self, s: &str)
        ensures
            final(self).program == old(self).program,
            final(self).args@.len() == old(self).args@.len() + 1,
            strs(final(self).args@) == strs(old(self).args@).push(s@),
    {
        self.args.push(String::from_str(s));
        proof {
            assert(strs(self.args@) =~= strs(old(self).args@).push(s@));
        }
    }

    /// Append one argument given as an owned string.
    pub fn arg_string(&mut self, s: String)
        ensures
            final(self).program == old(self).program,
            final(self).args@ == old(self).args@.push(s),
            strs(final(self).args@) == strs(old(self).args@).push(s@),
    {
        let ghost v = s@;
        self.args.push(s);
        proof {
            assert(strs(self.args@) =~= strs(old(self).args@).push(v));
        }
    }

    /// An exact copy of the command line.
    pub fn duplicate(&self) -> (r: CommandLine)
        ensures
            r.program@ == self.program@,
            r.args@ == self.args@,
    {
        CommandLine { program: self.program.clone(), args: clone_strings(&self.args) }
    }

    /// The command line as shown to the user, backquoted.
    pub fn render(&self) -> (r: String)
        ensures
            r@ == render_spec(*self),
    {
        proof {
            reveal_strlit("`");
            reveal_strlit(" ");
        }
        let mut r = String::new();
        r.append("`");
        r.append(self.program.as_str());
        proof {
            assert(r@ =~= seq!['`'] + self.program@ + args_render(
                strs(self.args@).take(0),
            ));
        }
        let mut i: usize = 0;
        while i < self.args.len()
            invariant
                i <= self.args@.len(),
                r@ == seq!['`'] + self.program@ + args_render(strs(self.args@).take(i as int)),
            decreases self.args@.len() - i,
        {
            let ghost rpre = r@;
            r.append(" ");
            r.append(self.args[i].as_str());
            proof {
                reveal_strlit(" ");
                let all = strs(self.args@);
                assert(all.take(i + 1).drop_last() =~= all.take(i as int));
                assert(all.take(i + 1).last() == all[i as int]);
                assert(r@ == rpre + " "@ + self.args@[i as int]@);
                assert(args_render(all.take(i + 1)) == args_render(all.take(i as int)) + seq![' ']
                    + all[i as int]);
                assert(r@ =~= seq!['`'] + self.program@ + args_render(all.take(i + 1)));
            }
            i += 1;
        }
        r.append("`");
        proof {
            assert(strs(self.args@).take(self.args@.len() as int) == strs(self.args@));
            assert(r@ =~= render_spec(*self));
        }
        r
    }
}

} // verus!
