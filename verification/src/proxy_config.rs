//! The HTTP proxy that plugin requests use: from `--proxy` on the command
//! line, else from the proxy file next to the configuration.

use vstd::prelude::*;
use vstd::string::*;

use crate::text::{chars_equal, owned, trim, trimmed};

verus! {

/// The proxy file (`{ "proxy": "..." }`).
#[derive(Debug, Clone, PartialEq, Eq)]
pub struct ProxyFile {
    pub proxy: String,
}

pub open spec fn duplicate_proxy_message() -> Seq<char> {
    "命令行参数 --proxy 不能重复使用"@
}

pub open spec fn missing_proxy_message() -> Seq<char> {
    "命令行参数 --proxy 缺少代理地址"@
}

/// The outcome of reading the arguments from index `i` on, with `found`
/// the value of an earlier `--proxy`: each `--proxy` takes the next argument
/// as its value; a second `--proxy`, or one with no value or with `--proxy`
/// as its value, is an error.
pub open spec fn cli_proxy_from(args: Seq<Seq<char>>, i: int, found: Option<Seq<char>>) -> Result<
    Option<Seq<char>>,
    Seq<char>,
>
    decreases args.len() - i,
{
    if i < 0 || i >= args.len() {
        Ok(found)
    } else if args[i] != "--proxy"@ {
        cli_proxy_from(args, i + 1, found)
    } else if found is Some {
        Err(duplicate_proxy_message())
    } else if i + 1 >= args.len() || args[i + 1] == "--proxy"@ {
        Err(missing_proxy_message())
    } else {
        cli_proxy_from(args, i + 2, Some(args[i + 1]))
    }
}

pub open spec fn args_view(args: Seq<&str>) -> Seq<Seq<char>> {
    args.map_values(|a: &str| a@)
}

/// Reads `--proxy <address>` from the command-line arguments.
pub fn cli_proxy(args: &[&str]) -> (r: Result<Option<String>, String>)
    ensures
        match (r, cli_proxy_from(args_view(args@), 0, None)) {
            (Ok(Some(p)), Ok(Some(q))) => p@ == q,
            (Ok(None), Ok(None)) => true,
            (Err(e), Err(f)) => e@ == f,
            _ => false,
        },
{
    let ghost view = args_view(args@);
    let n = args.len();
    let mut found: Option<String> = None;
    let mut i: usize = 0;
    while i < n
        invariant
            n == args@.len(),
            view == args_view(args@),
            i <= n,
            cli_proxy_from(view, 0, None) == cli_proxy_from(
                view,
                i as int,
                match found {
                    Some(p) => Some(p@),
                    None => None,
                },
            ),
        decreases n - i,
    {
        let flag = chars_equal(args[i], "--proxy");
        proof {
            reveal_strlit("--proxy");
        }
        if !flag {
            i = i + 1;
            continue;
        }
        if found.is_some() {
            return Err(owned("命令行参数 --proxy 不能重复使用"));
        }
        if i + 1 >= n {
            return Err(owned("命令行参数 --proxy 缺少代理地址"));
        }
        if chars_equal(args[i + 1], "--proxy") {
            return Err(owned("命令行参数 --proxy 缺少代理地址"));
        }
        found = Some(owned(args[i + 1]));
        i = i + 2;
    }
    Ok(found)
}

/// Whether argument `i` is the `--proxy` flag.
pub open spec fn is_proxy_flag(args: Seq<Seq<char>>, i: int) -> bool {
    0 <= i < args.len() && args[i] == "--proxy"@
}

/// Reading on from `k` with nothing found, no `--proxy` at or after `k`
/// leaves nothing found.
proof fn lemma_no_flag(args: Seq<Seq<char>>, k: int, found: Option<Seq<char>>)
    requires
        0 <= k,
        forall|i: int| k <= i < args.len() ==> !is_proxy_flag(args, i),
    ensures
        cli_proxy_from(args, k, found) == Ok::<Option<Seq<char>>, Seq<char>>(found),
    decreases args.len() - k,
{
    if k < args.len() {
        assert(!is_proxy_flag(args, k));
        lemma_no_flag(args, k + 1, found);
    }
}

/// A single `--proxy` at `p`, at or after `k`, followed by a value.
proof fn lemma_one_flag(args: Seq<Seq<char>>, k: int, p: int)
    requires
        0 <= k <= p,
        p + 1 < args.len(),
        is_proxy_flag(args, p),
        forall|i: int| k <= i < args.len() && i != p ==> !is_proxy_flag(args, i),
    ensures
        cli_proxy_from(args, k, None) == Ok::<Option<Seq<char>>, Seq<char>>(Some(args[p + 1])),
    decreases args.len() - k,
{
    if k < p {
        assert(!is_proxy_flag(args, k));
        lemma_one_flag(args, k + 1, p);
    } else {
        assert(!is_proxy_flag(args, p + 1));
        lemma_no_flag(args, p + 2, Some(args[p + 1]));
    }
}

/// A second `--proxy` at or after `k`, or a last argument that is
/// `--proxy`, makes reading from `k` fail.
proof fn lemma_flag_error(args: Seq<Seq<char>>, k: int, found: Option<Seq<char>>)
    requires
        0 <= k,
        (found is Some && exists|i: int| k <= i && #[trigger] is_proxy_flag(args, i))
            || (exists|i: int, j: int|
            k <= i < j && #[trigger] is_proxy_flag(args, i) && #[trigger] is_proxy_flag(args, j))
            || (k <= args.len() - 1 && is_proxy_flag(args, args.len() - 1)),
    ensures
        cli_proxy_from(args, k, found) is Err,
    decreases args.len() - k,
{
    if k >= args.len() {
        if found is Some {
            let i = choose|i: int| k <= i && #[trigger] is_proxy_flag(args, i);
        } else if exists|i: int, j: int|
            k <= i < j && #[trigger] is_proxy_flag(args, i) && #[trigger] is_proxy_flag(args, j) {
            let (i, j) = choose|i: int, j: int|
                k <= i < j && #[trigger] is_proxy_flag(args, i) && #[trigger] is_proxy_flag(args, j);
        }
    } else if !is_proxy_flag(args, k) {
        lemma_flag_error(args, k + 1, found);
    } else if found is None && k + 1 < args.len() && args[k + 1] != "--proxy"@ {
        assert(!is_proxy_flag(args, k + 1));
        if exists|i: int, j: int|
            k <= i < j && #[trigger] is_proxy_flag(args, i) && #[trigger] is_proxy_flag(args, j) {
            let (i, j) = choose|i: int, j: int|
                k <= i < j && #[trigger] is_proxy_flag(args, i) && #[trigger] is_proxy_flag(args, j);
            assert(k + 2 <= j);
        } else {
            assert(k + 2 <= args.len() - 1);
            assert(is_proxy_flag(args, args.len() - 1));
        }
        lemma_flag_error(args, k + 2, Some(args[k + 1]));
    }
}

/// The command line in closed form: without `--proxy` there is no proxy; a
/// single `--proxy` followed by a value gives that value; two `--proxy`
/// flags, or a `--proxy` that ends the line, are an error. Every other
/// argument is ignored.
pub proof fn cli_proxy_closed_form(args: Seq<Seq<char>>)
    ensures
        (forall|i: int| 0 <= i < args.len() ==> !is_proxy_flag(args, i)) ==> cli_proxy_from(
            args,
            0,
            None,
        ) == Ok::<Option<Seq<char>>, Seq<char>>(None),
        forall|p: int|
            #![trigger is_proxy_flag(args, p)]
            is_proxy_flag(args, p) && p + 1 < args.len() && (forall|i: int|
                0 <= i < args.len() && i != p ==> !is_proxy_flag(args, i)) ==> cli_proxy_from(
                args,
                0,
                None,
            ) == Ok::<Option<Seq<char>>, Seq<char>>(Some(args[p + 1])),
        (exists|i: int, j: int|
            0 <= i < j && #[trigger] is_proxy_flag(args, i) && #[trigger] is_proxy_flag(args, j))
            ==> cli_proxy_from(args, 0, None) is Err,
        (args.len() > 0 && args.last() == "--proxy"@) ==> cli_proxy_from(args, 0, None) is Err,
{
    if forall|i: int| 0 <= i < args.len() ==> !is_proxy_flag(args, i) {
        lemma_no_flag(args, 0, None);
    }
    assert forall|p: int|
        #![trigger is_proxy_flag(args, p)]
        is_proxy_flag(args, p) && p + 1 < args.len() && (forall|i: int|
            0 <= i < args.len() && i != p ==> !is_proxy_flag(args, i)) implies cli_proxy_from(
        args,
        0,
        None,
    ) == Ok::<Option<Seq<char>>, Seq<char>>(Some(args[p + 1])) by {
        lemma_one_flag(args, 0, p);
    }
    if exists|i: int, j: int|
        0 <= i < j && #[trigger] is_proxy_flag(args, i) && #[trigger] is_proxy_flag(args, j) {
        lemma_flag_error(args, 0, None);
    }
    if args.len() > 0 && args.last() == "--proxy"@ {
        assert(is_proxy_flag(args, args.len() - 1));
        lemma_flag_error(args, 0, None);
    }
}

/// A proxy address without surrounding whitespace; blank means none.
pub open spec fn normalized(proxy: Seq<char>) -> Option<Seq<char>> {
    if trimmed(proxy).len() == 0 {
        None
    } else {
        Some(trimmed(proxy))
    }
}

/// Trims the address; a blank one is no proxy.
pub fn normalize_proxy(proxy: String) -> (r: Option<String>)
    ensures
        match (r, normalized(proxy@)) {
            (Some(p), Some(q)) => p@ == q,
            (None, None) => true,
            _ => false,
        },
{
    let value = trim(proxy.as_str());
    if value.as_str().unicode_len() == 0 {
        None
    } else {
        Some(value)
    }
}

/// The proxy in effect: the command line's when given (even blank), else
/// the file's.
pub open spec fn resolved_proxy(cli: Option<Seq<char>>, file: Option<Seq<char>>) -> Option<
    Seq<char>,
> {
    match cli {
        Some(p) => normalized(p),
        None => match file {
            Some(p) => normalized(p),
            None => None,
        },
    }
}

/// Chooses the proxy: the command-line value wins over the file's; a blank
/// value means no proxy.
pub fn resolve_proxy(cli: Option<String>, file: Option<ProxyFile>) -> (r: Option<String>)
    ensures
        match (
            r,
            resolved_proxy(
                match cli {
                    Some(p) => Some(p@),
                    None => None,
                },
                match file {
                    Some(f) => Some(f.proxy@),
                    None => None,
                },
            ),
        ) {
            (Some(p), Some(q)) => p@ == q,
            (None, None) => true,
            _ => false,
        },
{
    match cli {
        Some(proxy) => normalize_proxy(proxy),
        None => match file {
            Some(file) => normalize_proxy(file.proxy),
            None => None,
        },
    }
}

/// A proxy in effect is never blank and has no surrounding whitespace.
pub proof fn resolved_proxy_is_trimmed(cli: Option<Seq<char>>, file: Option<Seq<char>>)
    ensures
        resolved_proxy(cli, file) matches Some(p) ==> p.len() > 0 && trimmed(p) == p,
{
    match cli {
        Some(c) => crate::text::lemma_trimmed_idempotent(c),
        None => match file {
            Some(f) => crate::text::lemma_trimmed_idempotent(f),
            None => {},
        },
    }
}

/// The command line decides whenever it names a proxy, even a blank one.
pub proof fn command_line_proxy_wins(cli: Seq<char>, file: Option<Seq<char>>)
    ensures
        resolved_proxy(Some(cli), file) == normalized(cli),
{
}

} // verus!
