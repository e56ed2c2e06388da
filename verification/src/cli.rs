use vstd::prelude::*;

use crate::context::Context;
use crate::context::string_is;
use crate::error::Error;
use crate::features::strs;
use vstd::string::StrSliceExecFns;
use vstd::string::StringExecFns;

verus! {

/// The user's coloring choice for terminal output.
#[derive(Clone, Copy, Debug, PartialEq, Eq, Structural)]
pub enum Coloring {
    Auto,
    Always,
    Never,
}

/// The flag value that names a coloring choice.
pub open spec fn coloring_name(c: Coloring) -> Seq<char> {
    match c {
        Coloring::Auto => "auto"@,
        Coloring::Always => "always"@,
        Coloring::Never => "never"@,
    }
}

impl Coloring {
    /// The flag value for this choice, as passed on to the build tool.
    pub fn as_str(self) -> (r: &'static str)
        ensures
            r@ == coloring_name(self),
    {
        match self {
            Coloring::Auto => "auto",
            Coloring::Always => "always",
            Coloring::Never => "never",
        }
    }

    /// Parse a coloring choice; anything but the three known values is a
    /// configuration error.
    pub fn from_name(name: &String) -> (r: Result<Coloring, Error>)
        ensures
            name@ == "auto"@ ==> r == Result::<Coloring, Error>::Ok(Coloring::Auto),
            name@ == "always"@ ==> r == Result::<Coloring, Error>::Ok(Coloring::Always),
            name@ == "never"@ ==> r == Result::<Coloring, Error>::Ok(Coloring::Never),
            name@ != "auto"@ && name@ != "always"@ && name@ != "never"@ ==> (r matches Err(e)
                && e matches Error::Config { message } && message@
                == "must be auto, always, or never, but found `"@ + name@ + "`"@),
    {
        broadcast use vstd::string::group_string_axioms;

        proof {
            reveal_strlit("auto");
            reveal_strlit("always");
            reveal_strlit("never");
            assert("auto"@.len() == 4);
            assert("always"@.len() == 6);
            assert("never"@.len() == 5);
        }
        if string_is(name, "auto") {
            Ok(Coloring::Auto)
        } else if string_is(name, "always") {
            Ok(Coloring::Always)
        } else if string_is(name, "never") {
            Ok(Coloring::Never)
        } else {
            let mut message = String::from_str("must be auto, always, or never, but found `");
            message.append(name.as_str());
            message.append("`");
            proof {
                assert(message@ =~= "must be auto, always, or never, but found `"@ + name@
                    + "`"@);
            }
            Err(Error::Config { message })
        }
    }
}

/// The view of an optional borrowed subcommand name.
pub open spec fn opt_name(s: Option<&String>) -> Option<Seq<char>> {
    match s {
        Option::Some(n) => Option::Some(n@),
        Option::None => Option::None,
    }
}

/// The `cargo hack <subcommand>` part of a usage line.
pub open spec fn usage_head(sub: Option<Seq<char>>) -> Seq<char> {
    match sub {
        Option::Some(s) => "cargo hack "@ + s,
        Option::None => "cargo hack"@,
    }
}

/// The message reported when a flag that needs a value was given none.
pub open spec fn req_arg_message(arg: Seq<char>, sub: Option<Seq<char>>) -> Seq<char> {
    "The argument '"@ + arg + "' requires a value but none was supplied\n\nUSAGE:\n    "@
        + usage_head(sub) + " "@ + arg + "\n\nFor more information try --help\n"@
}

/// The message reported when a flag that may appear once was repeated.
pub open spec fn multi_arg_message(arg: Seq<char>, sub: Option<Seq<char>>) -> Seq<char> {
    "The argument '"@ + arg
        + "' was provided more than once, but cannot be used multiple times\n\nUSAGE:\n    "@
        + usage_head(sub) + " "@ + arg + "\n\nFor more information try --help\n"@
}

/// Append `cargo hack`, with the subcommand when one is known.
fn push_usage_head(s: &mut String, subcommand: Option<&String>)
    ensures
        final(s)@ == old(s)@ + usage_head(opt_name(subcommand)),
{
    match subcommand {
        Option::Some(sub) => {
            s.append("cargo hack ");
            s.append(sub.as_str());
            proof {
                assert(s@ =~= old(s)@ + usage_head(opt_name(subcommand)));
            }
        },
        Option::None => {
            s.append("cargo hack");
        },
    }
}

/// The error for a flag that needs a value but was given none.
pub fn req_arg(arg: &str, subcommand: Option<&String>) -> (r: Error)
    ensures
        r matches Error::Config { message } && message@ == req_arg_message(
            arg@,
            opt_name(subcommand),
        ),
{
    let mut message = String::from_str("The argument '");
    message.append(arg);
    message.append("' requires a value but none was supplied\n\nUSAGE:\n    ");
    push_usage_head(&mut message, subcommand);
    message.append(" ");
    message.append(arg);
    message.append("\n\nFor more information try --help\n");
    proof {
        assert(message@ =~= req_arg_message(arg@, opt_name(subcommand)));
    }
    Error::Config { message }
}

/// The error for a flag that may appear once but was repeated.
pub fn multi_arg(arg: &str, subcommand: Option<&String>) -> (r: Error)
    ensures
        r matches Error::Config { message } && message@ == multi_arg_message(
            arg@,
            opt_name(subcommand),
        ),
{
    let mut message = String::from_str("The argument '");
    message.append(arg);
    message.append("' was provided more than once, but cannot be used multiple times\n\nUSAGE:\n    ");
    push_usage_head(&mut message, subcommand);
    message.append(" ");
    message.append(arg);
    message.append("\n\nFor more information try --help\n");
    proof {
        assert(message@ =~= multi_arg_message(arg@, opt_name(subcommand)));
    }
    Error::Config { message }
}


/// Is this a target-selection flag? Such a flag makes the build include
/// examples, tests or benches, which need dev-dependencies.
pub open spec fn is_target_flag(a: Seq<char>) -> bool {
    a == "--example"@ || a == "--examples"@ || a == "--test"@ || a == "--tests"@ || a
        == "--bench"@ || a == "--benches"@ || a == "--all-targets"@ || "--example="@.is_prefix_of(
        a,
    ) || "--test="@.is_prefix_of(a) || "--bench="@.is_prefix_of(a)
}

/// The first target-selection flag among the shared arguments, scanning from
/// position `i`.
pub open spec fn first_target_flag(args: Seq<Seq<char>>, i: int) -> Option<Seq<char>>
    decreases args.len() - i,
{
    if i < 0 || i >= args.len() {
        Option::None
    } else if is_target_flag(args[i]) {
        Option::Some(args[i])
    } else {
        first_target_flag(args, i + 1)
    }
}

/// Does the string begin with these characters?
fn has_prefix(s: &String, p: &str) -> (r: bool)
    ensures
        r == p@.is_prefix_of(s@),
{
    let n = p.unicode_len();
    let sl = s.as_str().unicode_len();
    if sl < n {
        return false;
    }
    let mut i: usize = 0;
    while i < n
        invariant
            i <= n,
            n == p@.len(),
            n <= s@.len(),
            forall|m: int| 0 <= m < i ==> p@[m] == s@[m],
        decreases n - i,
    {
        if p.get_char(i) != s.as_str().get_char(i) {
            proof {
                assert(p@[i as int] != s@.subrange(0, p@.len() as int)[i as int]);
            }
            return false;
        }
        i += 1;
    }
    proof {
        assert(p@ =~= s@.subrange(0, p@.len() as int));
    }
    true
}

/// Is this one of the target-selection flags?
fn is_target_flag_arg(a: &String) -> (r: bool)
    ensures
        r == is_target_flag(a@),
{
    string_is(a, "--example") || string_is(a, "--examples") || string_is(a, "--test") || string_is(
        a,
        "--tests",
    ) || string_is(a, "--bench") || string_is(a, "--benches") || string_is(a, "--all-targets")
        || has_prefix(a, "--example=") || has_prefix(a, "--test=") || has_prefix(a, "--bench=")
}

/// The first target-selection flag among the shared arguments, if any.
fn find_target_flag(args: &Vec<String>) -> (r: Option<String>)
    ensures
        r matches Some(a) ==> first_target_flag(strs(args@), 0) == Option::Some(a@),
        r is None ==> first_target_flag(strs(args@), 0) is None,
{
    let mut i: usize = 0;
    while i < args.len()
        invariant
            i <= args@.len(),
            first_target_flag(strs(args@), 0) == first_target_flag(strs(args@), i as int),
        decreases args@.len() - i,
    {
        if is_target_flag_arg(&args[i]) {
            proof {
                assert(strs(args@)[i as int] == args@[i as int]@);
            }
            return Some(args[i].clone());
        }
        i += 1;
    }
    None
}

/// Does the policy name a subcommand that builds against dev-dependencies?
pub open spec fn dev_deps_subcommand(cx: Context) -> Option<Seq<char>> {
    match cx.subcommand {
        Option::Some(s) => if s@ == "test"@ || s@ == "bench"@ {
            Option::Some(s@)
        } else {
            Option::None
        },
        Option::None => Option::None,
    }
}

/// The first contradictory policy combination, with its message, if any.
pub open spec fn config_error_message(cx: Context) -> Option<Seq<char>> {
    if cx.exclude@.len() > 0 && !cx.workspace {
        Option::Some("--exclude can only be used together with --workspace"@)
    } else if !cx.each_feature && !cx.feature_powerset && cx.exclude_features@.len() > 0 {
        Option::Some("--skip can only be used with either --each-feature or --feature-powerset"@)
    } else if !cx.each_feature && !cx.feature_powerset && cx.optional_deps is Some {
        Option::Some(
            "--optional-deps can only be used with either --each-feature or --feature-powerset"@,
        )
    } else if !cx.each_feature && !cx.feature_powerset && cx.exclude_no_default_features {
        Option::Some(
            "--skip-no-default-features can only be used with either --each-feature or --feature-powerset"@,
        )
    } else if dev_deps_subcommand(cx) is Some && cx.remove_dev_deps {
        Option::Some(
            "--remove-dev-deps may not be used together with "@ + dev_deps_subcommand(cx).unwrap()
                + " subcommand"@,
        )
    } else if dev_deps_subcommand(cx) is Some && cx.no_dev_deps {
        Option::Some(
            "--no-dev-deps may not be used together with "@ + dev_deps_subcommand(cx).unwrap()
                + " subcommand"@,
        )
    } else if first_target_flag(strs(cx.leading_args@), 0) is Some && cx.remove_dev_deps {
        Option::Some(
            "--remove-dev-deps may not be used together with "@ + first_target_flag(
                strs(cx.leading_args@),
                0,
            ).unwrap(),
        )
    } else if first_target_flag(strs(cx.leading_args@), 0) is Some && cx.no_dev_deps {
        Option::Some(
            "--no-dev-deps may not be used together with "@ + first_target_flag(
                strs(cx.leading_args@),
                0,
            ).unwrap(),
        )
    } else if cx.no_dev_deps && cx.remove_dev_deps {
        Option::Some("--no-dev-deps may not be used together with --remove-dev-deps"@)
    } else if cx.each_feature && cx.feature_powerset {
        Option::Some("--each-feature may not be used together with --feature-powerset"@)
    } else {
        Option::None
    }
}

/// Reject contradictory policy combinations before any planning happens.
pub fn validate(cx: &Context) -> (r: Result<(), Error>)
    ensures
        r is Ok <==> config_error_message(*cx) is None,
        r matches Err(e) ==> e matches Error::Config { message } && message@
            == config_error_message(*cx).unwrap(),
{
    let dev_sub: Option<&String> = match &cx.subcommand {
        Option::Some(s) => {
            if string_is(s, "test") || string_is(s, "bench") {
                Some(s)
            } else {
                None
            }
        },
        Option::None => None,
    };
    if cx.exclude.len() > 0 && !cx.workspace {
        return Err(
            Error::Config {
                message: String::from_str("--exclude can only be used together with --workspace"),
            },
        );
    }
    if !cx.each_feature && !cx.feature_powerset {
        if cx.exclude_features.len() > 0 {
            return Err(
                Error::Config {
                    message: String::from_str(
                        "--skip can only be used with either --each-feature or --feature-powerset",
                    ),
                },
            );
        }
        if cx.optional_deps.is_some() {
            return Err(
                Error::Config {
                    message: String::from_str(
                        "--optional-deps can only be used with either --each-feature or --feature-powerset",
                    ),
                },
            );
        }
        if cx.exclude_no_default_features {
            return Err(
                Error::Config {
                    message: String::from_str(
                        "--skip-no-default-features can only be used with either --each-feature or --feature-powerset",
                    ),
                },
            );
        }
    }
    if let Some(sub) = dev_sub {
        if cx.remove_dev_deps {
            let mut message = String::from_str("--remove-dev-deps may not be used together with ");
            message.append(sub.as_str());
            message.append(" subcommand");
            proof {
                assert(message@ =~= config_error_message(*cx).unwrap());
            }
            return Err(Error::Config { message });
        }
        if cx.no_dev_deps {
            let mut message = String::from_str("--no-dev-deps may not be used together with ");
            message.append(sub.as_str());
            message.append(" subcommand");
            proof {
                assert(message@ =~= config_error_message(*cx).unwrap());
            }
            return Err(Error::Config { message });
        }
    }
    if cx.remove_dev_deps || cx.no_dev_deps {
        if let Some(flag) = find_target_flag(&cx.leading_args) {
            let mut message = if cx.remove_dev_deps {
                String::from_str("--remove-dev-deps may not be used together with ")
            } else {
                String::from_str("--no-dev-deps may not be used together with ")
            };
            message.append(flag.as_str());
            proof {
                assert(message@ =~= config_error_message(*cx).unwrap());
            }
            return Err(Error::Config { message });
        }
    }
    if cx.no_dev_deps && cx.remove_dev_deps {
        return Err(
            Error::Config {
                message: String::from_str(
                    "--no-dev-deps may not be used together with --remove-dev-deps",
                ),
            },
        );
    }
    if cx.each_feature && cx.feature_powerset {
        return Err(
            Error::Config {
                message: String::from_str(
                    "--each-feature may not be used together with --feature-powerset",
                ),
            },
        );
    }
    Ok(())
}

} // verus!
