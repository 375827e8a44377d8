use crate::http::{find_from, occurs_at};
use crate::sandbox::{join_path, join_text};
use vstd::prelude::*;
use vstd::string::StrSliceExecFns;
use vstd::string::StringExecFns;

verus! {

/// The pieces of `s` between its colons, as `str::split(':')` gives them
/// (an empty text is one empty piece).
pub open spec fn split_colons(s: Seq<char>) -> Seq<Seq<char>>
    decreases s.len(),
{
    let i = find_from(s, seq![':'], 0);
    if 0 <= i < s.len() {
        seq![s.subrange(0, i)] + split_colons(s.subrange(i + 1, s.len() as int))
    } else {
        seq![s]
    }
}

/// The view of a vector of strings.
pub open spec fn strings_view(v: Seq<String>) -> Seq<Seq<char>> {
    Seq::new(v.len(), |i: int| v[i]@)
}

/// The first colon at or after `i`, as `find_from` gives it.
fn find_colon(s: &str, n: usize, i: usize) -> (r: Option<usize>)
    requires
        n == s@.len(),
        i <= n,
    ensures
        match r {
            Some(j) => i <= j < n && find_from(s@, seq![':'], i as int) == j,
            None => find_from(s@, seq![':'], i as int) == -1,
        },
{
    let mut j = i;
    while j < n
        invariant
            i <= j <= n,
            n == s@.len(),
            find_from(s@, seq![':'], i as int) == find_from(s@, seq![':'], j as int),
        decreases n - j,
    {
        let c = s.get_char(j);
        assert(occurs_at(s@, seq![':'], j as int) <==> c == ':') by {
            if c == ':' {
                assert(s@.subrange(j as int, j + 1) =~= seq![':']);
            } else {
                assert(s@.subrange(j as int, j + 1)[0] != seq![':'][0]);
            }
        }
        if c == ':' {
            return Some(j);
        }
        j = j + 1;
    }
    None
}

proof fn lemma_find_shift(s: Seq<char>, i: int, k: int)
    requires
        0 <= i <= k <= s.len(),
    ensures
        find_from(s, seq![':'], k) == (if find_from(s.subrange(i, s.len() as int), seq![':'], k - i) >= 0 {
            find_from(s.subrange(i, s.len() as int), seq![':'], k - i) + i
        } else {
            -1
        }),
    decreases s.len() - k,
{
    let t = s.subrange(i, s.len() as int);
    if k + 1 <= s.len() {
        assert(s.subrange(k, k + 1) =~= t.subrange(k - i, k - i + 1));
        lemma_find_shift(s, i, k + 1);
    }
}

/// The directories of a `PATH`-style list: the pieces between its colons.
pub fn split_path_list(path: &str) -> (r: Vec<String>)
    ensures
        strings_view(r@) == split_colons(path@),
{
    let n = path.unicode_len();
    let mut r: Vec<String> = Vec::new();
    let mut start: usize = 0;
    let mut done = false;
    assert(path@.subrange(0, n as int) =~= path@);
    assert(strings_view(r@) + split_colons(path@) =~= split_colons(path@));
    while !done
        invariant
            start <= n,
            n == path@.len(),
            !done ==> strings_view(r@) + split_colons(path@.subrange(start as int, n as int)) == split_colons(path@),
            done ==> strings_view(r@) == split_colons(path@),
        decreases (if done { 0 } else { n + 1 - start }),
    {
        let ghost rest = path@.subrange(start as int, n as int);
        proof {
            lemma_find_shift(path@, start as int, start as int);
        }
        match find_colon(path, n, start) {
            Some(j) => {
                let piece = path.substring_char(start, j);
                let ghost i = j - start;
                assert(find_from(rest, seq![':'], 0) == i);
                assert(piece@ =~= rest.subrange(0, i));
                assert(path@.subrange(j + 1, n as int) =~= rest.subrange(i + 1, rest.len() as int));
                let ghost before = strings_view(r@);
                r.push(piece.to_string());
                assert(strings_view(r@) =~= before + seq![rest.subrange(0, i)]);
                assert(split_colons(rest) == seq![rest.subrange(0, i)] + split_colons(rest.subrange(i + 1, rest.len() as int)));
                assert(strings_view(r@) + split_colons(path@.subrange(j + 1, n as int)) =~= before + split_colons(rest));
                start = j + 1;
            },
            None => {
                let piece = path.substring_char(start, n);
                let ghost before = strings_view(r@);
                r.push(piece.to_string());
                assert(find_from(rest, seq![':'], 0) < 0);
                assert(split_colons(rest) == seq![rest]);
                assert(strings_view(r@) =~= before + seq![rest]);
                done = true;
            },
        }
    }
    r
}

/// The paths at which to look for the program `command`, in search order:
/// `command` joined onto each directory of the `PATH`-style list `path`.
pub fn binary_candidates(path: &str, command: &str) -> (r: Vec<String>)
    ensures
        r@.len() == split_colons(path@).len(),
        forall|i: int| 0 <= i < r@.len() ==> #[trigger] r@[i]@ == join_text(split_colons(path@)[i], command@),
{
    let dirs = split_path_list(path);
    let mut r: Vec<String> = Vec::new();
    let mut i: usize = 0;
    while i < dirs.len()
        invariant
            i <= dirs@.len(),
            strings_view(dirs@) == split_colons(path@),
            r@.len() == i,
            forall|k: int| 0 <= k < i ==> #[trigger] r@[k]@ == join_text(split_colons(path@)[k], command@),
        decreases dirs@.len() - i,
    {
        assert(dirs@[i as int]@ == split_colons(path@)[i as int]);
        r.push(join_path(dirs[i].as_str(), command));
        i = i + 1;
    }
    r
}

/// The names that the shell runs itself.
pub open spec fn is_builtin_name(name: Seq<char>) -> bool {
    name == "echo"@ || name == "exit"@ || name == "type"@ || name == "pwd"@ || name == "cd"@
}

/// Whether the shell runs `name` itself.
pub fn is_builtin(name: &str) -> (r: bool)
    ensures
        r == is_builtin_name(name@),
{
    let s = name.to_string();
    s == "echo".to_string() || s == "exit".to_string() || s == "type".to_string() || s
        == "pwd".to_string() || s == "cd".to_string()
}

/// The words of `args` with one space between each two.
pub open spec fn spaced(args: Seq<Seq<char>>) -> Seq<char>
    decreases args.len(),
{
    if args.len() == 0 {
        Seq::empty()
    } else if args.len() == 1 {
        args[0]
    } else {
        spaced(args.drop_last()) + " "@ + args.last()
    }
}

/// What `echo` prints for `args`: the words with one space between each two.
pub fn echo_line(args: &Vec<String>) -> (r: String)
    ensures
        r@ == spaced(strings_view(args@)),
{
    let mut r = String::new();
    let mut i: usize = 0;
    while i < args.len()
        invariant
            i <= args@.len(),
            r@ == spaced(strings_view(args@).subrange(0, i as int)),
        decreases args@.len() - i,
    {
        let ghost sub = strings_view(args@).subrange(0, i + 1);
        assert(sub.drop_last() =~= strings_view(args@).subrange(0, i as int));
        if i > 0 {
            r.append(" ");
        }
        r.append(args[i].as_str());
        i = i + 1;
    }
    assert(strings_view(args@).subrange(0, args@.len() as int) =~= strings_view(args@));
    r
}

/// What `type` prints for `name`, given the last place on the search path
/// where a program of that name was found.
pub open spec fn type_text(name: Seq<char>, found: Option<Seq<char>>) -> Seq<char> {
    if is_builtin_name(name) {
        name + " is a shell builtin"@
    } else {
        match found {
            Some(p) => name + " is "@ + p,
            None => name + ": not found"@,
        }
    }
}

/// What `type` prints for `name`: a builtin says so, a program found on the
/// search path gives its place, anything else is not found.
pub fn type_message(name: &str, found: Option<&str>) -> (r: String)
    ensures
        r@ == type_text(name@, match found {
            Some(p) => Some(p@),
            None => None,
        }),
{
    let mut r = name.to_string();
    if is_builtin(name) {
        r.append(" is a shell builtin");
    } else {
        match found {
            Some(p) => {
                r.append(" is ");
                r.append(p);
            },
            None => r.append(": not found"),
        }
    }
    r
}

/// The directory `cd arg` moves to, from the home directory `home` and the
/// working directory `cwd`; none for `./`, which stays. `~` is home, a `~`
/// prefix is taken from home, an absolute path stands as it is, anything
/// else is taken from the working directory.
pub open spec fn cd_target_text(arg: Seq<char>, home: Seq<char>, cwd: Seq<char>) -> Option<Seq<char>> {
    if arg == "./"@ {
        None
    } else if arg == "~"@ {
        Some(home)
    } else if arg.len() > 0 && arg[0] == '/' {
        Some(arg)
    } else if arg.len() > 0 && arg[0] == '~' {
        Some(join_text(home, arg.drop_first()))
    } else {
        Some(join_text(cwd, arg))
    }
}

/// The directory `cd arg` moves to; `None` where it stays.
pub fn cd_target(arg: &str, home: &str, cwd: &str) -> (r: Option<String>)
    ensures
        match r {
            Some(t) => cd_target_text(arg@, home@, cwd@) == Some(t@),
            None => cd_target_text(arg@, home@, cwd@) is None,
        },
{
    let a = arg.to_string();
    let n = arg.unicode_len();
    if a == "./".to_string() {
        None
    } else if a == "~".to_string() {
        Some(home.to_string())
    } else if n > 0 && arg.get_char(0) == '/' {
        Some(a)
    } else if n > 0 && arg.get_char(0) == '~' {
        let rest = arg.substring_char(1, n);
        assert(rest@ =~= arg@.drop_first());
        Some(join_path(home, rest))
    } else {
        Some(join_path(cwd, arg))
    }
}

} // verus!
