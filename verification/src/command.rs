//! Building runner invocations: locating the runner binary, normalising and
//! splitting the forwarded arguments, the listing invocation's argument
//! vector, and the final command line with one `--skip` per excluded test.

use vstd::prelude::*;

use crate::text::has_suffix;
use crate::text::str_eq;

verus! {

/// The runner binary: the configured value when one is set, `cargo`
/// otherwise.
pub fn cargo_bin(configured: Option<String>) -> (r: String)
    ensures
        match configured {
            Some(v) => r@ == v@,
            None => r@ == "cargo"@,
        },
{
    match configured {
        Some(v) => v,
        None => "cargo".to_owned(),
    }
}

/// Whether the leading argument is a toolchain override such as `+nightly`.
pub open spec fn is_toolchain_arg(arg: Seq<char>) -> bool {
    arg.len() > 0 && arg[0] == '+'
}

/// The argument list with a leading toolchain override dropped.
pub open spec fn after_toolchain(args: Seq<Seq<char>>) -> Seq<Seq<char>> {
    if args.len() > 0 && is_toolchain_arg(args[0]) {
        args.drop_first()
    } else {
        args
    }
}

/// The argument list with this tool's own invocation name dropped.
pub open spec fn after_self_name(args: Seq<Seq<char>>) -> Seq<Seq<char>> {
    if args.len() > 0 && "qtest"@.is_suffix_of(args[0]) {
        args.drop_first()
    } else {
        args
    }
}

/// Whether the leading argument asks for watch mode.
pub open spec fn watch_requested(args: Seq<Seq<char>>) -> bool {
    args.len() > 0 && args[0] == "--watch"@
}

/// The argument list with a leading watch flag dropped.
pub open spec fn after_watch(args: Seq<Seq<char>>) -> Seq<Seq<char>> {
    if watch_requested(args) {
        args.drop_first()
    } else {
        args
    }
}

/// What is forwarded to the runner once the toolchain override, this tool's
/// own name, and the watch flag are stripped from the front.
pub open spec fn normalized_args(args: Seq<Seq<char>>) -> Seq<Seq<char>> {
    after_watch(after_self_name(after_toolchain(args)))
}

/// Pops the first argument when `drop` holds, leaving the deep view equal to
/// `drop_first` of the old one.
fn drop_head(args: &mut Vec<String>, drop: bool)
    requires
        drop ==> old(args).len() > 0,
    ensures
        drop ==> final(args).deep_view() == old(args).deep_view().drop_first(),
        !drop ==> *final(args) == *old(args),
{
    if drop {
        let ghost prev: Seq<Seq<char>> = args.deep_view();
        args.remove(0);
        proof {
            assert(args.deep_view() =~= prev.drop_first());
        }
    }
}

/// Strips the toolchain override, this tool's own name, and the watch flag
/// from the front of the argument list, in that order; also reports whether
/// watch mode was requested.
pub fn normalize_args(args: Vec<String>) -> (r: (Vec<String>, bool))
    ensures
        r.0.deep_view() == normalized_args(args.deep_view()),
        r.1 == watch_requested(after_self_name(after_toolchain(args.deep_view()))),
{
    let mut rest = args;
    let drop_toolchain: bool = if rest.len() > 0 {
        let head: &str = rest[0].as_str();
        proof {
            assert(rest.deep_view()[0] == rest@[0]@);
        }
        head.unicode_len() > 0 && head.get_char(0) == '+'
    } else {
        false
    };
    drop_head(&mut rest, drop_toolchain);

    let drop_self: bool = if rest.len() > 0 {
        proof {
            assert(rest.deep_view()[0] == rest@[0]@);
        }
        has_suffix(rest[0].as_str(), "qtest")
    } else {
        false
    };
    drop_head(&mut rest, drop_self);

    let watch: bool = if rest.len() > 0 {
        proof {
            assert(rest.deep_view()[0] == rest@[0]@);
        }
        str_eq(rest[0].as_str(), "--watch")
    } else {
        false
    };
    drop_head(&mut rest, watch);

    (rest, watch)
}

/// The conventional separator between runner flags and the runner's inner
/// test-filter flags.
pub open spec fn separator() -> Seq<char> {
    "--"@
}

/// The argument list split at the first separator: everything before it,
/// and everything after it. Without a separator the second part is empty.
pub open spec fn split_args(args: Seq<Seq<char>>) -> (Seq<Seq<char>>, Seq<Seq<char>>)
    decreases args.len(),
{
    if args.len() == 0 {
        (Seq::empty(), Seq::empty())
    } else if args[0] == separator() {
        (Seq::empty(), args.drop_first())
    } else {
        let rest = split_args(args.drop_first());
        (seq![args[0]] + rest.0, rest.1)
    }
}

proof fn lemma_split_args_no_separator(args: Seq<Seq<char>>)
    requires
        forall|j: int| 0 <= j < args.len() ==> #[trigger] args[j] != separator(),
    ensures
        split_args(args).0 =~= args,
        split_args(args).1 =~= Seq::<Seq<char>>::empty(),
    decreases args.len(),
{
    if args.len() > 0 {
        let tail = args.drop_first();
        assert(forall|j: int| 0 <= j < tail.len() ==> #[trigger] tail[j] == args[j + 1]);
        lemma_split_args_no_separator(tail);
    }
}

proof fn lemma_split_args_at(args: Seq<Seq<char>>, p: int)
    requires
        0 <= p < args.len(),
        args[p] == separator(),
        forall|j: int| 0 <= j < p ==> #[trigger] args[j] != separator(),
    ensures
        split_args(args).0 =~= args.take(p),
        split_args(args).1 =~= args.skip(p + 1),
    decreases p,
{
    if p == 0 {
    } else {
        let tail = args.drop_first();
        assert(forall|j: int| 0 <= j < tail.len() ==> #[trigger] tail[j] == args[j + 1]);
        lemma_split_args_at(tail, p - 1);
        assert(split_args(args).0 =~= seq![args[0]] + tail.take(p - 1));
        assert(split_args(args).1 =~= tail.skip(p));
    }
}

/// Splits the argument list around the first `--`: runner flags before it,
/// the runner's own filter flags after it.
pub fn split_at_separator(args: &Vec<String>) -> (r: (Vec<String>, Vec<String>))
    ensures
        r.0.deep_view() == split_args(args.deep_view()).0,
        r.1.deep_view() == split_args(args.deep_view()).1,
{
    let ghost av: Seq<Seq<char>> = args.deep_view();
    let mut first: Vec<String> = Vec::new();
    let mut second: Vec<String> = Vec::new();
    let mut i: usize = 0;
    while i < args.len()
        invariant
            av == args.deep_view(),
            i <= args.len(),
            first.deep_view() =~= av.take(i as int),
            second.len() == 0,
            forall|j: int| 0 <= j < i ==> #[trigger] av[j] != separator(),
        decreases args.len() - i,
    {
        let ghost prev: Seq<Seq<char>> = first.deep_view();
        proof {
            assert(av[i as int] == args@[i as int]@);
        }
        if str_eq(args[i].as_str(), "--") {
            let mut k: usize = i + 1;
            while k < args.len()
                invariant
                    av == args.deep_view(),
                    i < k <= args.len(),
                    second.deep_view() =~= av.subrange(i + 1, k as int),
                decreases args.len() - k,
            {
                let ghost sprev: Seq<Seq<char>> = second.deep_view();
                proof {
                    assert(av[k as int] == args@[k as int]@);
                }
                let item = args[k].clone();
                second.push(item);
                proof {
                    assert(second.deep_view() =~= sprev.push(av[k as int]));
                }
                k += 1;
            }
            proof {
                lemma_split_args_at(av, i as int);
            }
            return (first, second);
        }
        let item = args[i].clone();
        first.push(item);
        proof {
            assert(first.deep_view() =~= prev.push(av[i as int]));
        }
        i += 1;
    }
    proof {
        lemma_split_args_no_separator(av);
    }
    (first, second)
}

/// The argument vector of the listing invocation: `test`, the runner flags,
/// the separator, the terse list request, and the runner's filter flags.
pub open spec fn list_args(first: Seq<Seq<char>>, second: Seq<Seq<char>>) -> Seq<Seq<char>> {
    seq!["test"@] + first + seq!["--"@, "--list"@, "--format"@, "terse"@] + second
}

/// Appends clones of all of `args` to `out`.
fn push_all(out: &mut Vec<String>, args: &Vec<String>)
    ensures
        final(out).deep_view() == old(out).deep_view() + args.deep_view(),
{
    let mut i: usize = 0;
    while i < args.len()
        invariant
            i <= args.len(),
            out.deep_view() =~= old(out).deep_view() + args.deep_view().take(i as int),
        decreases args.len() - i,
    {
        let ghost prev: Seq<Seq<char>> = out.deep_view();
        proof {
            assert(args.deep_view()[i as int] == args@[i as int]@);
        }
        let item = args[i].clone();
        out.push(item);
        proof {
            assert(out.deep_view() =~= prev.push(args.deep_view()[i as int]));
            assert(args.deep_view().take(i + 1) =~= args.deep_view().take(i as int).push(
                args.deep_view()[i as int],
            ));
        }
        i += 1;
    }
    proof {
        assert(args.deep_view().take(args.len() as int) =~= args.deep_view());
    }
}

/// The arguments of the invocation that asks the runner to enumerate its
/// tests without executing them.
pub fn list_invocation_args(first_args: &Vec<String>, second_args: &Vec<String>) -> (r: Vec<
    String,
>)
    ensures
        r.deep_view() == list_args(first_args.deep_view(), second_args.deep_view()),
{
    let mut out: Vec<String> = Vec::new();
    out.push("test".to_owned());
    proof {
        assert(out.deep_view() =~= seq!["test"@]);
    }
    push_all(&mut out, first_args);
    let ghost mid: Seq<Seq<char>> = out.deep_view();
    out.push("--".to_owned());
    out.push("--list".to_owned());
    out.push("--format".to_owned());
    out.push("terse".to_owned());
    proof {
        assert(out.deep_view() =~= mid + seq!["--"@, "--list"@, "--format"@, "terse"@]);
    }
    push_all(&mut out, second_args);
    proof {
        assert(out.deep_view() =~= list_args(first_args.deep_view(), second_args.deep_view()));
    }
    out
}

/// `args` rendered for the command line: a space before each argument.
pub open spec fn spaced(args: Seq<Seq<char>>) -> Seq<char>
    decreases args.len(),
{
    if args.len() == 0 {
        Seq::empty()
    } else {
        spaced(args.drop_last()) + " "@ + args.last()
    }
}

/// One ` --skip ` flag per excluded identifier, in order.
pub open spec fn skip_flags(excluded: Seq<Seq<char>>) -> Seq<char>
    decreases excluded.len(),
{
    if excluded.len() == 0 {
        Seq::empty()
    } else {
        skip_flags(excluded.drop_last()) + " --skip "@ + excluded.last()
    }
}

/// The final invocation: the runner's test command over the forwarded flags,
/// skipping each excluded identifier by name with exact matching; in watch
/// mode the whole command is handed to the runner's watch subcommand.
pub open spec fn command_line(
    cargo: Seq<char>,
    first: Seq<Seq<char>>,
    second: Seq<Seq<char>>,
    excluded: Seq<Seq<char>>,
    watch: bool,
) -> Seq<char> {
    let base = cargo + " test "@ + spaced(first) + " -- "@ + spaced(second) + skip_flags(excluded)
        + " --exact"@;
    if watch {
        cargo + " watch -- "@ + base
    } else {
        base
    }
}

/// Appends each of `args`, preceded by a space, to `out`.
fn append_spaced(out: &mut String, args: &Vec<String>)
    ensures
        final(out)@ == old(out)@ + spaced(args.deep_view()),
{
    let mut i: usize = 0;
    while i < args.len()
        invariant
            i <= args.len(),
            out@ == old(out)@ + spaced(args.deep_view().take(i as int)),
        decreases args.len() - i,
    {
        proof {
            assert(args.deep_view()[i as int] == args@[i as int]@);
        }
        out.append(" ");
        out.append(args[i].as_str());
        proof {
            let av = args.deep_view();
            assert(av.take(i + 1).drop_last() =~= av.take(i as int));
            assert(av.take(i + 1).last() == av[i as int]);
        }
        i += 1;
    }
    proof {
        assert(args.deep_view().take(args.len() as int) =~= args.deep_view());
    }
}

/// Builds the final runner command line from the runner binary, the two
/// halves of the forwarded arguments, the excluded identifiers, and the
/// watch request.
pub fn build_test_command(
    cargo: &String,
    first_args: &Vec<String>,
    second_args: &Vec<String>,
    excluded: &Vec<String>,
    watch: bool,
) -> (r: String)
    ensures
        r@ == command_line(
            cargo@,
            first_args.deep_view(),
            second_args.deep_view(),
            excluded.deep_view(),
            watch,
        ),
{
    let mut cmd = cargo.clone();
    cmd.append(" test ");
    append_spaced(&mut cmd, first_args);
    cmd.append(" -- ");
    append_spaced(&mut cmd, second_args);
    let ghost before_skips: Seq<char> = cmd@;
    let mut i: usize = 0;
    while i < excluded.len()
        invariant
            i <= excluded.len(),
            cmd@ == before_skips + skip_flags(excluded.deep_view().take(i as int)),
        decreases excluded.len() - i,
    {
        proof {
            assert(excluded.deep_view()[i as int] == excluded@[i as int]@);
        }
        cmd.append(" --skip ");
        cmd.append(excluded[i].as_str());
        proof {
            let ev = excluded.deep_view();
            assert(ev.take(i + 1).drop_last() =~= ev.take(i as int));
            assert(ev.take(i + 1).last() == ev[i as int]);
        }
        i += 1;
    }
    proof {
        assert(excluded.deep_view().take(excluded.len() as int) =~= excluded.deep_view());
    }
    cmd.append(" --exact");
    if watch {
        let mut wrapped = cargo.clone();
        wrapped.append(" watch -- ");
        wrapped.append(cmd.as_str());
        wrapped
    } else {
        cmd
    }
}

} // verus!
