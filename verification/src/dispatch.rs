//! Mode dispatch: turns the process argument list into a launch plan.
//!
//! A process instance runs in exactly one mode, chosen once at startup from
//! its argument list: the main window, the installer, the connection
//! manager, or one of four remote-session flavours.  `--play <path>` is a
//! pre-processing alias for `--connect <stem>` where the stem is the file
//! name of the path without its final extension.

use vstd::prelude::*;

use crate::text::eq_str;

verus! {

/// Which remote-session flavour a remote launch starts.
#[derive(Clone, Copy, PartialEq, Eq, Structural, Debug)]
pub enum RemoteKind {
    Connect,
    FileTransfer,
    PortForward,
    Rdp,
}

/// The operating mode chosen once from the process arguments.
#[derive(Clone, Debug)]
pub enum LaunchPlan {
    MainWindow,
    Install,
    ConnectionManager,
    Remote { kind: RemoteKind, peer_id: String, password: String, extra_args: Vec<String> },
}

/// The mathematical shape of a launch plan, over character sequences.
pub enum PlanModel {
    MainWindow,
    Install,
    ConnectionManager,
    Remote { kind: RemoteKind, peer_id: Seq<char>, password: Seq<char>, extra_args: Seq<Seq<char>> },
}

impl View for LaunchPlan {
    type V = PlanModel;

    open spec fn view(&self) -> PlanModel {
        match self {
            LaunchPlan::MainWindow => PlanModel::MainWindow,
            LaunchPlan::Install => PlanModel::Install,
            LaunchPlan::ConnectionManager => PlanModel::ConnectionManager,
            LaunchPlan::Remote { kind, peer_id, password, extra_args } => PlanModel::Remote {
                kind: *kind,
                peer_id: peer_id@,
                password: password@,
                extra_args: extra_args.deep_view(),
            },
        }
    }
}

/// Why a launch request was refused.
#[derive(Clone, Debug)]
pub enum DispatchError {
    /// The argument list fits no known invocation shape; fatal for the
    /// process, which exits without entering any mode.
    UnrecognizedCommand(Vec<String>),
    /// A remote launch arrived while another session is still active.
    SessionAlreadyActive,
}

/// The path separator recognized when deriving a peer id from a path.
pub open spec fn is_sep(c: char) -> bool {
    c == '/'
}

/// Index of the last path separator in `p`, or -1 if there is none.
pub open spec fn last_sep(p: Seq<char>) -> int
    decreases p.len(),
{
    if p.len() == 0 {
        -1
    } else if is_sep(p.last()) {
        p.len() - 1
    } else {
        last_sep(p.drop_last())
    }
}

/// Index of the last `'.'` in `p`, or -1 if there is none.
pub open spec fn last_dot(p: Seq<char>) -> int
    decreases p.len(),
{
    if p.len() == 0 {
        -1
    } else if p.last() == '.' {
        p.len() - 1
    } else {
        last_dot(p.drop_last())
    }
}

proof fn lemma_last_sep_bounds(p: Seq<char>)
    ensures
        -1 <= last_sep(p) < p.len(),
    decreases p.len(),
{
    if p.len() > 0 && !is_sep(p.last()) {
        lemma_last_sep_bounds(p.drop_last());
    }
}

proof fn lemma_last_dot_bounds(p: Seq<char>)
    ensures
        -1 <= last_dot(p) < p.len(),
    decreases p.len(),
{
    if p.len() > 0 && p.last() != '.' {
        lemma_last_dot_bounds(p.drop_last());
    }
}

/// `p` with trailing separators and trailing `.` components removed, as
/// a path's final component is taken: `dir/`, `dir//` and `dir/.` all
/// name `dir`.
pub open spec fn trim_path(p: Seq<char>) -> Seq<char>
    decreases p.len(),
{
    if p.len() == 0 {
        p
    } else if is_sep(p.last()) {
        trim_path(p.drop_last())
    } else if p.last() == '.' && (p.len() == 1 || is_sep(p[p.len() - 2])) {
        trim_path(p.drop_last())
    } else {
        p
    }
}

/// The final component of `p`: what follows the last separator once
/// trailing separators and `.` components are gone.
pub open spec fn file_name_of(p: Seq<char>) -> Seq<char> {
    let t = trim_path(p);
    t.subrange(last_sep(t) + 1, t.len() as int)
}

/// The file name of `p` without its final extension.  A path whose final
/// component is `..` (or that has no component at all) has no stem, so
/// the result is empty; a dot in first position starts no extension, so
/// a name like `.config` is its own stem.
pub open spec fn stem_of(p: Seq<char>) -> Seq<char> {
    let name = file_name_of(p);
    if name == ".."@ {
        Seq::empty()
    } else if last_dot(name) > 0 {
        name.take(last_dot(name))
    } else {
        name
    }
}

/// The remote-session flavour named by a flag argument, if any.
pub open spec fn remote_kind_of(arg: Seq<char>) -> Option<RemoteKind> {
    if arg == "--connect"@ {
        Some(RemoteKind::Connect)
    } else if arg == "--file-transfer"@ {
        Some(RemoteKind::FileTransfer)
    } else if arg == "--port-forward"@ {
        Some(RemoteKind::PortForward)
    } else if arg == "--rdp"@ {
        Some(RemoteKind::Rdp)
    } else {
        None
    }
}

/// The argument list after the `--play` alias has been rewritten.
pub open spec fn rewritten_args(args: Seq<Seq<char>>) -> Seq<Seq<char>> {
    if args.len() >= 2 && args[0] == "--play"@ {
        args.update(0, "--connect"@).update(1, stem_of(args[1]))
    } else {
        args
    }
}

/// The plan an argument list dispatches to; `None` means the list fits no
/// known invocation shape.
pub open spec fn dispatch_model(args: Seq<Seq<char>>) -> Option<PlanModel> {
    let a = rewritten_args(args);
    if a.len() == 0 {
        Some(PlanModel::MainWindow)
    } else if a[0] == "--install"@ {
        Some(PlanModel::Install)
    } else if a[0] == "--cm"@ {
        Some(PlanModel::ConnectionManager)
    } else if remote_kind_of(a[0]) is Some && a.len() >= 2 {
        Some(PlanModel::Remote {
            kind: remote_kind_of(a[0])->Some_0,
            peer_id: a[1],
            password: if a.len() >= 3 { a[2] } else { Seq::empty() },
            extra_args: if a.len() >= 3 { a.skip(3) } else { Seq::empty() },
        })
    } else {
        None
    }
}

/// The remote-session flavour named by a flag argument, if any.
pub fn remote_kind(arg: &String) -> (r: Option<RemoteKind>)
    ensures
        r == remote_kind_of(arg@),
{
    if eq_str(arg, "--connect") {
        Some(RemoteKind::Connect)
    } else if eq_str(arg, "--file-transfer") {
        Some(RemoteKind::FileTransfer)
    } else if eq_str(arg, "--port-forward") {
        Some(RemoteKind::PortForward)
    } else if eq_str(arg, "--rdp") {
        Some(RemoteKind::Rdp)
    } else {
        None
    }
}

/// Whether `s[start..end]` spells exactly `..`.
fn range_is_dot_dot(s: &str, start: usize, end: usize) -> (r: bool)
    requires
        start <= end <= s@.len(),
    ensures
        r == (s@.subrange(start as int, end as int) == ".."@),
{
    proof {
        reveal_strlit("..");
    }
    let ghost seg = s@.subrange(start as int, end as int);
    if end - start == 2 {
        let c0 = s.get_char(start);
        let c1 = s.get_char(start + 1);
        proof {
            assert(seg.len() == 2);
            assert(seg[0] == s@[start as int] && seg[1] == s@[start + 1]);
            if c0 == '.' && c1 == '.' {
                assert(seg =~= ".."@);
            }
        }
        c0 == '.' && c1 == '.'
    } else {
        proof {
            assert(seg.len() == end - start);
        }
        false
    }
}

/// The final component of `path` without its extension, as a peer id is
/// derived from a `--play` path: trailing separators and `.` components
/// are ignored, a final `..` (or no component at all) yields the empty
/// string, and a dot in first position starts no extension.
pub fn file_stem(path: &String) -> (r: String)
    ensures
        r@ == stem_of(path@),
{
    let s: &str = path.as_str();
    let n: usize = s.unicode_len();
    // Trim trailing separators and trailing `.` components.
    let mut e: usize = n;
    let mut trimmed: bool = false;
    proof {
        assert(s@.take(n as int) =~= s@);
    }
    while !trimmed && e > 0
        invariant
            e <= n,
            n == s@.len(),
            s@ == path@,
            trim_path(s@) == trim_path(s@.take(e as int)),
            trimmed ==> trim_path(s@.take(e as int)) == s@.take(e as int),
        decreases e, (if trimmed { 0int } else { 1int }),
    {
        let c = s.get_char(e - 1);
        let lone_dot = c == '.' && (e == 1 || s.get_char(e - 2) == '/');
        proof {
            assert(s@.take(e as int).last() == s@[e - 1]);
            if e >= 2 {
                assert(s@.take(e as int)[e - 2] == s@[e - 2]);
            }
        }
        if c == '/' || lone_dot {
            proof {
                assert(s@.take(e as int).drop_last() =~= s@.take(e - 1));
            }
            e = e - 1;
        } else {
            trimmed = true;
        }
    }
    proof {
        assert(s@.take(n as int) =~= s@);
        if e == 0 {
            assert(s@.take(0) =~= Seq::<char>::empty());
        }
        assert(trim_path(s@) == s@.take(e as int));
    }
    let ghost t = trim_path(s@);
    // Index where the final component starts: one past the last separator.
    let mut start: usize = 0;
    let mut i: usize = 0;
    while i < e
        invariant
            0 <= i <= e <= n,
            n == s@.len(),
            s@ == path@,
            start == last_sep(s@.take(i as int)) + 1,
            start <= i,
        decreases e - i,
    {
        let c = s.get_char(i);
        proof {
            assert(s@.take(i + 1).drop_last() =~= s@.take(i as int));
            assert(s@.take(i + 1).last() == s@[i as int]);
            lemma_last_sep_bounds(s@.take(i + 1));
        }
        if c == '/' {
            start = i + 1;
        }
        i = i + 1;
    }
    let ghost name = file_name_of(s@);
    proof {
        assert(t == s@.take(e as int));
        assert(name =~= s@.subrange(start as int, e as int));
    }
    // A final `..` component has no stem.
    if range_is_dot_dot(s, start, e) {
        proof {
            assert(stem_of(path@) =~= Seq::<char>::empty());
        }
        return String::new();
    }
    // Index of the last dot inside the final component, if any.
    let mut dot: usize = 0;
    let mut has_dot: bool = false;
    let mut j: usize = start;
    while j < e
        invariant
            start <= j <= e,
            e <= n,
            n == s@.len(),
            s@ == path@,
            has_dot ==> start <= dot < j && last_dot(s@.subrange(start as int, j as int)) == dot - start,
            !has_dot ==> last_dot(s@.subrange(start as int, j as int)) == -1,
        decreases e - j,
    {
        let c = s.get_char(j);
        proof {
            assert(s@.subrange(start as int, j + 1).drop_last() =~= s@.subrange(
                start as int,
                j as int,
            ));
            assert(s@.subrange(start as int, j + 1).last() == s@[j as int]);
            lemma_last_dot_bounds(s@.subrange(start as int, j + 1));
        }
        if c == '.' {
            dot = j;
            has_dot = true;
        }
        j = j + 1;
    }
    let end: usize = if has_dot && dot > start {
        dot
    } else {
        e
    };
    proof {
        if has_dot && dot > start {
            assert(name.take(last_dot(name)) =~= s@.subrange(start as int, dot as int));
        }
    }
    let stem: &str = s.substring_char(start, end);
    stem.to_owned()
}

/// Decides, once at startup, which mode the process runs in.
///
/// An empty list is the main window; `--install` and `--cm` start the
/// installer and the connection manager; `--connect`, `--file-transfer`,
/// `--port-forward` and `--rdp` start a remote session and need at least a
/// peer id, with an optional password and verbatim trailing arguments;
/// `--play <path>` is rewritten to `--connect <stem>` first.  Anything else
/// is refused as `UnrecognizedCommand` carrying the offending list.
pub fn parse(args: &Vec<String>) -> (r: Result<LaunchPlan, DispatchError>)
    ensures
        match r {
            Ok(p) => dispatch_model(args.deep_view()) == Some(p@),
            Err(e) => dispatch_model(args.deep_view()) is None && (e matches
            DispatchError::UnrecognizedCommand(bad) && bad.deep_view() == args.deep_view()),
        },
{
    let ghost rw = rewritten_args(args.deep_view());
    let do_rewrite: bool = args.len() >= 2 && eq_str(&args[0], "--play");
    let mut rewritten: Vec<String> = Vec::new();
    if do_rewrite {
        rewritten.push("--connect".to_owned());
        rewritten.push(file_stem(&args[1]));
        let mut i: usize = 2;
        while i < args.len()
            invariant
                2 <= i <= args.len(),
                do_rewrite,
                args.len() >= 2,
                args.deep_view()[0] == "--play"@,
                rw == rewritten_args(args.deep_view()),
                rewritten.deep_view() =~= rw.take(i as int),
            decreases args.len() - i,
        {
            let ghost pre = rewritten.deep_view();
            let ghost prev = rewritten@;
            let elem = args[i].clone();
            rewritten.push(elem);
            proof {
                assert(rewritten@ == prev.push(elem));
                assert(rw.len() == args.deep_view().len());
                assert(pre == rw.take(i as int));
                assert(pre.len() == i as int);
                assert(prev.len() == i as int);
                assert forall|k: int| 0 <= k < i + 1 implies #[trigger] rewritten.deep_view()[k]
                    == rw.take(i + 1)[k] by {
                    if k < i {
                        assert(rewritten@[k] == prev[k]);
                        assert(rewritten.deep_view()[k] == rewritten@[k].deep_view());
                        assert(pre[k] == prev[k].deep_view());
                        assert(pre[k] == rw.take(i as int)[k]);
                    } else {
                        assert(rewritten.deep_view()[k] == elem@);
                        assert(elem@ == args.deep_view()[i as int]);
                    }
                }
                assert(rewritten.deep_view() =~= rw.take(i + 1));
            }
            i = i + 1;
        }
        proof {
            assert(rw.take(args.deep_view().len() as int) =~= rw);
        }
    }
    let a: &Vec<String> = if do_rewrite {
        &rewritten
    } else {
        args
    };
    proof {
        assert(a.deep_view() =~= rw);
    }
    if a.len() == 0 {
        Ok(LaunchPlan::MainWindow)
    } else if eq_str(&a[0], "--install") {
        Ok(LaunchPlan::Install)
    } else if eq_str(&a[0], "--cm") {
        Ok(LaunchPlan::ConnectionManager)
    } else {
        let k = remote_kind(&a[0]);
        if k.is_some() && a.len() >= 2 {
            let kind = k.unwrap();
            let peer_id = a[1].clone();
            let password = if a.len() >= 3 {
                a[2].clone()
            } else {
                String::new()
            };
            let mut extra: Vec<String> = Vec::new();
            let mut i: usize = 3;
            while i < a.len()
                invariant
                    3 <= i,
                    a.len() >= 3 ==> i <= a.len(),
                    a.len() < 3 ==> i == 3,
                    a.deep_view() == rw,
                    rw.len() == a.len(),
                    a.len() >= 2,
                    extra.deep_view() =~= if a.len() >= 3 {
                        rw.subrange(3, i as int)
                    } else {
                        Seq::<Seq<char>>::empty()
                    },
                decreases a.len() - i,
            {
                let ghost pre = extra.deep_view();
                let ghost prev = extra@;
                let elem = a[i].clone();
                extra.push(elem);
                proof {
                    assert(extra@ == prev.push(elem));
                    assert(a.len() >= 3);
                    assert(pre == rw.subrange(3, i as int));
                    assert(pre.len() == i - 3);
                    assert(prev.len() == i - 3);
                    assert forall|k: int| 0 <= k < i - 2 implies #[trigger] extra.deep_view()[k]
                        == rw.subrange(3, i + 1)[k] by {
                        if k < i - 3 {
                            assert(extra@[k] == prev[k]);
                            assert(extra.deep_view()[k] == extra@[k].deep_view());
                            assert(pre[k] == prev[k].deep_view());
                            assert(pre[k] == rw.subrange(3, i as int)[k]);
                        } else {
                            assert(extra.deep_view()[k] == elem@);
                            assert(elem@ == a.deep_view()[i as int]);
                        }
                    }
                    assert(extra.deep_view() =~= rw.subrange(3, i + 1));
                }
                i = i + 1;
            }
            proof {
                if a.len() >= 3 {
                    assert(rw.subrange(3, rw.len() as int) =~= rw.skip(3));
                }
            }
            Ok(LaunchPlan::Remote { kind, peer_id, password, extra_args: extra })
        } else {
            Err(DispatchError::UnrecognizedCommand(args.clone()))
        }
    }
}

/// Every well-formed remote invocation dispatches to exactly the remote
/// plan it spells out: its flag's flavour, the given peer id, the optional
/// password, and the trailing arguments passed through verbatim.
pub proof fn lemma_remote_invocation(args: Seq<Seq<char>>)
    requires
        args.len() >= 2,
        remote_kind_of(args[0]) is Some,
    ensures
        dispatch_model(args) == Some(PlanModel::Remote {
            kind: remote_kind_of(args[0])->Some_0,
            peer_id: args[1],
            password: if args.len() >= 3 { args[2] } else { Seq::empty() },
            extra_args: if args.len() >= 3 { args.skip(3) } else { Seq::empty() },
        }),
{
    reveal_strlit("--connect");
    reveal_strlit("--file-transfer");
    reveal_strlit("--port-forward");
    reveal_strlit("--rdp");
    reveal_strlit("--play");
    reveal_strlit("--install");
    reveal_strlit("--cm");
    assert(args[0] != "--play"@) by {
        assert("--connect"@.len() == 9);
        assert("--file-transfer"@.len() == 15);
        assert("--port-forward"@.len() == 14);
        assert("--rdp"@.len() == 5);
        assert("--play"@.len() == 6);
    }
    assert(rewritten_args(args) == args);
    assert(args[0] != "--install"@) by {
        assert("--connect"@[2] == 'c' && "--install"@[2] == 'i');
        assert("--install"@.len() == 9);
    }
    assert(args[0] != "--cm"@) by {
        assert("--cm"@.len() == 4);
    }
}

/// `--play <path>` dispatches exactly as `--connect <stem-of-path>` with
/// the same trailing arguments.
pub proof fn lemma_play_alias(args: Seq<Seq<char>>)
    requires
        args.len() >= 2,
        args[0] == "--play"@,
    ensures
        dispatch_model(args) == dispatch_model(
            args.update(0, "--connect"@).update(1, stem_of(args[1])),
        ),
{
    reveal_strlit("--connect");
    reveal_strlit("--play");
    let u = args.update(0, "--connect"@).update(1, stem_of(args[1]));
    assert("--connect"@.len() == 9 && "--play"@.len() == 6);
    assert(rewritten_args(args) == u);
    assert(rewritten_args(u) == u);
}

} // verus!
