//! How a shortcut is started: the program and arguments handed to the OS
//! process launcher for each combination of "as administrator" and "in a
//! new window".
use vstd::prelude::*;

use crate::links::ProgramLink;
use crate::text::{copy_strings, views};

verus! {

/// The process to spawn.
#[derive(Clone, Debug)]
pub struct LaunchPlan {
    pub program: String,
    pub args: Vec<String>,
}

/// `s` with each single quote doubled, as PowerShell reads a quoted string.
pub open spec fn escape_quotes(s: Seq<char>) -> Seq<char>
    decreases s.len(),
{
    if s.len() == 0 {
        Seq::empty()
    } else {
        escape_quotes(s.drop_last()) + if s.last() == '\'' {
            seq!['\'', '\'']
        } else {
            seq![s.last()]
        }
    }
}

/// The pieces put together with a space between each two.
pub open spec fn join_spaced(pieces: Seq<Seq<char>>) -> Seq<char>
    decreases pieces.len(),
{
    if pieces.len() == 0 {
        Seq::empty()
    } else if pieces.len() == 1 {
        pieces[0]
    } else {
        join_spaced(pieces.drop_last()) + " "@ + pieces.last()
    }
}

/// The PowerShell command that starts `command` elevated, in a normal or a
/// hidden window, with `args` passed on as one quoted argument list.
pub open spec fn elevated_command(command: Seq<char>, args: Seq<Seq<char>>, new_window: bool) -> Seq<
    char,
> {
    "Start-Process -FilePath '"@ + escape_quotes(command) + "' -Verb RunAs -WindowStyle "@ + (if new_window {
        "Normal"@
    } else {
        "Hidden"@
    }) + if args.len() == 0 {
        Seq::empty()
    } else {
        " -ArgumentList '"@ + escape_quotes(join_spaced(args)) + "'"@
    }
}

/// `s` with each single quote doubled.
pub fn escape_single_quotes(s: &str) -> (r: String)
    ensures
        r@ == escape_quotes(s@),
{
    let n = s.unicode_len();
    let mut r = String::new();
    let mut i: usize = 0;
    while i < n
        invariant
            n == s@.len(),
            i <= n,
            r@ == escape_quotes(s@.subrange(0, i as int)),
        decreases n - i,
    {
        let c = s.get_char(i);
        proof {
            let post = s@.subrange(0, i as int + 1);
            assert(post.drop_last() =~= s@.subrange(0, i as int));
            assert(post.last() == c);
        }
        if c == '\'' {
            r.append("''");
            proof {
                reveal_strlit("''");
            }
        } else {
            let one = s.substring_char(i, i + 1);
            assert(one@ =~= seq![c]);
            r.append(one);
        }
        i = i + 1;
    }
    assert(s@.subrange(0, n as int) =~= s@);
    r
}

/// The strings joined with single spaces.
pub fn join_with_spaces(pieces: &Vec<String>) -> (r: String)
    ensures
        r@ == join_spaced(views(pieces@)),
{
    let mut r = String::new();
    let mut i: usize = 0;
    assert(views(pieces@).subrange(0, 0) =~= Seq::<Seq<char>>::empty());
    while i < pieces.len()
        invariant
            i <= pieces.len(),
            r@ == join_spaced(views(pieces@).subrange(0, i as int)),
        decreases pieces.len() - i,
    {
        proof {
            let post = views(pieces@).subrange(0, i as int + 1);
            assert(post.drop_last() =~= views(pieces@).subrange(0, i as int));
            assert(post.last() == pieces@[i as int]@);
            if i == 0 {
                assert(post =~= seq![pieces@[0]@]);
            }
        }
        if i > 0 {
            r.append(" ");
        }
        r.append(pieces[i].as_str());
        i = i + 1;
    }
    assert(views(pieces@).subrange(0, pieces.len() as int) =~= views(pieces@));
    r
}

/// The process that starts the shortcut; none when its command is empty.
/// Elevated launches go through PowerShell's `Start-Process -Verb RunAs`; a
/// plain launch in a new window goes through `cmd /c start cmd /c`; any
/// other launch runs the command itself with the arguments.
pub fn launch_plan(link: &ProgramLink) -> (r: Option<LaunchPlan>)
    ensures
        link.run_command@.len() == 0 <==> r is None,
        r matches Some(plan) ==> {
            if link.is_admin {
                &&& plan.program@ == "powershell"@
                &&& views(plan.args@) == seq![
                    "-Command"@,
                    elevated_command(
                        link.run_command@,
                        views(link.arguments@),
                        link.is_new_window,
                    ),
                ]
            } else if link.is_new_window {
                &&& plan.program@ == "cmd"@
                &&& views(plan.args@) == seq!["/c"@, "start"@, "cmd"@, "/c"@, link.run_command@]
                    + views(link.arguments@)
            } else {
                &&& plan.program == link.run_command
                &&& plan.args@ == link.arguments@
            }
        },
{
    let command = &link.run_command;
    if command.unicode_len() == 0 {
        return None;
    }
    if link.is_admin {
        let mut line = String::from_str("Start-Process -FilePath '");
        line.append(escape_single_quotes(command.as_str()).as_str());
        line.append("' -Verb RunAs -WindowStyle ");
        if link.is_new_window {
            line.append("Normal");
        } else {
            line.append("Hidden");
        }
        let ghost prefix = line@;
        if link.arguments.len() > 0 {
            let joined = escape_single_quotes(join_with_spaces(&link.arguments).as_str());
            line.append(" -ArgumentList '");
            line.append(joined.as_str());
            line.append("'");
            assert(line@ =~= prefix + (" -ArgumentList '"@ + joined@ + "'"@));
        } else {
            assert(line@ =~= prefix + Seq::<char>::empty());
        }
        assert(line@ == elevated_command(
            link.run_command@,
            views(link.arguments@),
            link.is_new_window,
        ));
        let mut args: Vec<String> = Vec::new();
        args.push(String::from_str("-Command"));
        args.push(line);
        proof {
            assert(views(args@) =~= seq![
                "-Command"@,
                elevated_command(link.run_command@, views(link.arguments@), link.is_new_window),
            ]);
        }
        Some(LaunchPlan { program: String::from_str("powershell"), args })
    } else if link.is_new_window {
        let mut args: Vec<String> = Vec::new();
        args.push(String::from_str("/c"));
        args.push(String::from_str("start"));
        args.push(String::from_str("cmd"));
        args.push(String::from_str("/c"));
        args.push(command.clone());
        let ghost head = args@;
        let mut i: usize = 0;
        while i < link.arguments.len()
            invariant
                i <= link.arguments.len(),
                args@ == head + link.arguments@.subrange(0, i as int),
            decreases link.arguments.len() - i,
        {
            args.push(link.arguments[i].clone());
            assert(args@ =~= head + link.arguments@.subrange(0, i as int + 1));
            i = i + 1;
        }
        proof {
            assert(link.arguments@.subrange(0, link.arguments.len() as int) =~= link.arguments@);
            assert(views(args@) =~= views(head) + views(link.arguments@));
            assert(views(head) =~= seq!["/c"@, "start"@, "cmd"@, "/c"@, link.run_command@]);
        }
        Some(LaunchPlan { program: String::from_str("cmd"), args })
    } else {
        Some(LaunchPlan { program: command.clone(), args: copy_strings(&link.arguments) })
    }
}

} // verus!
