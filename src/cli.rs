use vstd::prelude::*;

use crate::error::{Error, Result};
use crate::json::paths_of;

verus! {

/// Options given as `--name=value`.
#[derive(Debug)]
pub struct Flags {
    /// Where the configuration is kept, in place of the default location.
    pub config: Option<String>,
}

impl Flags {
    /// The configuration path as a character sequence, if one was given.
    pub open spec fn config_path(&self) -> Option<Seq<char>> {
        match self.config {
            Some(p) => Some(p@),
            None => None,
        }
    }
}

/// An argument that starts with `--` is a flag.
pub open spec fn is_flag(arg: Seq<char>) -> bool {
    arg.len() >= 2 && arg[0] == '-' && arg[1] == '-'
}

/// `=` stands at `k` in `s`, and nowhere else: splitting `s` on `=` gives
/// exactly two pieces.
pub open spec fn splits_at(s: Seq<char>, k: int) -> bool {
    &&& 0 <= k < s.len()
    &&& s[k] == '='
    &&& forall|j: int| 0 <= j < s.len() && j != k ==> s[j] != '='
}

/// What a flag says: the text after `--`, split into a name and a value; `None`
/// where it does not split in two, and such a flag is passed over.
pub open spec fn flag_parts(arg: Seq<char>) -> Option<(Seq<char>, Seq<char>)> {
    let body = arg.subrange(2, arg.len() as int);
    if exists|k: int| splits_at(body, k) {
        let k = choose|k: int| splits_at(body, k);
        Some((body.subrange(0, k), body.subrange(k + 1, body.len() as int)))
    } else {
        None
    }
}

/// The command-line words split into the arguments, in order, and the
/// configuration path of the last `--config=` flag; `None` where a flag with
/// another name is given.
pub open spec fn parsed(all: Seq<Seq<char>>) -> Option<(Seq<Seq<char>>, Option<Seq<char>>)>
    decreases all.len(),
{
    if all.len() == 0 {
        Some((Seq::empty(), None))
    } else {
        match parsed(all.drop_last()) {
            None => None,
            Some((args, config)) => {
                let a = all.last();
                if !is_flag(a) {
                    Some((args.push(a), config))
                } else {
                    match flag_parts(a) {
                        None => Some((args, config)),
                        Some((name, value)) => if name == "config"@ {
                            Some((args, Some(value)))
                        } else {
                            None
                        },
                    }
                }
            },
        }
    }
}

/// The one place at or after `from` where `s` holds `=`, if there is exactly one.
fn single_eq(s: &str, from: usize) -> (r: Option<usize>)
    requires
        from <= s@.len(),
    ensures
        match r {
            Some(k) => from <= k && splits_at(s@.subrange(from as int, s@.len() as int), k - from),
            None => !exists|k: int| splits_at(s@.subrange(from as int, s@.len() as int), k),
        },
{
    let n = s.unicode_len();
    let ghost body = s@.subrange(from as int, n as int);
    let mut found: Option<usize> = None;
    let mut j: usize = from;
    while j < n
        invariant
            n == s@.len(),
            body == s@.subrange(from as int, n as int),
            from <= j <= n,
            match found {
                Some(k) => from <= k < j && s@[k as int] == '=' && forall|t: int|
                    from <= t < j && t != k ==> s@[t] != '=',
                None => forall|t: int| from <= t < j ==> s@[t] != '=',
            },
        decreases n - j,
    {
        if s.get_char(j) == '=' {
            match found {
                Some(k) => {
                    assert forall|m: int| !splits_at(body, m) by {
                        if splits_at(body, m) {
                            if m == k - from {
                                assert(body[j - from] == s@[j as int]);
                            } else {
                                assert(body[k - from] == s@[k as int]);
                            }
                        }
                    }
                    return None;
                },
                None => {
                    found = Some(j);
                },
            }
        }
        j = j + 1;
    }
    match found {
        Some(k) => {
            assert forall|t: int| 0 <= t < body.len() && t != k - from implies body[t] != '=' by {
                assert(body[t] == s@[t + from]);
            }
            Some(k)
        },
        None => {
            assert forall|m: int| !splits_at(body, m) by {
                if 0 <= m < body.len() {
                    assert(body[m] == s@[m + from]);
                }
            }
            None
        },
    }
}

/// Where `=` stands alone, its place is the only one.
proof fn lemma_split_unique(s: Seq<char>, k: int, m: int)
    requires
        splits_at(s, k),
        splits_at(s, m),
    ensures
        k == m,
{
}

/// A flag that stops the parse stops it for every longer list too.
proof fn lemma_parse_stops(all: Seq<Seq<char>>, i: int)
    requires
        0 <= i <= all.len(),
        parsed(all.take(i)) is None,
    ensures
        parsed(all) is None,
    decreases all.len() - i,
{
    if i == all.len() {
        assert(all.take(i) =~= all);
    } else {
        assert(all.take(i + 1).drop_last() =~= all.take(i));
        lemma_parse_stops(all, i + 1);
    }
}

/// Splits the command-line words (without the program's name) into arguments
/// and flags. A flag is `--name=value`; one that does not split in two on `=`
/// is passed over, and a name other than `config` is an error.
pub fn parse_args(all: Vec<String>) -> (r: Result<(Vec<String>, Flags)>)
    ensures
        match (r, parsed(paths_of(all@))) {
            (Ok((args, flags)), Some((a, c))) => paths_of(args@) == a && flags.config_path() == c,
            (Err(_), None) => true,
            _ => false,
        },
{
    let mut args: Vec<String> = Vec::new();
    let mut flags = Flags { config: None };
    let n = all.len();
    let mut i: usize = 0;
    while i < n
        invariant
            n == all.len(),
            0 <= i <= n,
            parsed(paths_of(all@).take(i as int)) == Some(
                (paths_of(args@), flags.config_path()),
            ),
        decreases n - i,
    {
        let ghost prev = paths_of(all@).take(i as int);
        proof {
            let t = paths_of(all@).take(i as int + 1);
            assert(t.drop_last() =~= prev);
            assert(t.last() == all@[i as int]@);
        }
        let arg = all[i].as_str();
        let len = arg.unicode_len();
        if len >= 2 && arg.get_char(0) == '-' && arg.get_char(1) == '-' {
            let ghost body = arg@.subrange(2, len as int);
            match single_eq(arg, 2) {
                None => {},
                Some(k) => {
                    let name = String::from_str(arg.substring_char(2, k));
                    let value = String::from_str(arg.substring_char(k + 1, len));
                    proof {
                        let m = choose|m: int| splits_at(body, m);
                        lemma_split_unique(body, m, k - 2);
                        assert(name@ =~= body.subrange(0, k - 2));
                        assert(value@ =~= body.subrange(k - 2 + 1, body.len() as int));
                    }
                    if name == String::from_str("config") {
                        flags.config = Some(value);
                    } else {
                        proof {
                            assert(parsed(paths_of(all@).take(i as int + 1)) is None);
                            lemma_parse_stops(paths_of(all@), i as int + 1);
                        }
                        let msg = String::from_str("unknown flag: ");
                        let msg = msg.concat(arg);
                        return Err(Error::new(msg.as_str()));
                    }
                },
            }
        } else {
            let ghost before = paths_of(args@);
            args.push(all[i].clone());
            assert(paths_of(args@) =~= before.push(all@[i as int]@));
        }
        i = i + 1;
    }
    assert(paths_of(all@).take(n as int) =~= paths_of(all@));
    Ok((args, flags))
}

/// What the command line asks for.
#[derive(Debug)]
pub enum Command {
    /// Stage the file at this path, then store the configuration.
    Stage(String),
    /// List the staged paths.
    List,
}

/// The message for a missing or unknown command.
pub open spec fn usage() -> Seq<char> {
    "usage: ldock {arg}"@
}

/// The message for `load` without a file name.
pub open spec fn load_usage() -> Seq<char> {
    "usage: ldock load {filename}"@
}

/// The command that the arguments name: `load <filename>` stages, `ls` lists.
/// Anything else is an error that carries the usage message.
pub fn command_of(args: &Vec<String>) -> (r: Result<Command>)
    ensures
        args@.len() == 0 ==> r is Err && r->Err_0@ == usage(),
        args@.len() > 0 && args@[0]@ == "load"@ ==> if args@.len() < 2 {
            r is Err && r->Err_0@ == load_usage()
        } else {
            r is Ok && r->Ok_0 is Stage && r->Ok_0->Stage_0@ == args@[1]@
        },
        args@.len() > 0 && args@[0]@ == "ls"@ ==> r is Ok && r->Ok_0 is List,
        args@.len() > 0 && args@[0]@ != "load"@ && args@[0]@ != "ls"@ ==> r is Err && r->Err_0@
            == usage(),
{
    if args.len() == 0 {
        return Err(Error::new("usage: ldock {arg}"));
    }
    proof {
        reveal_strlit("load");
        reveal_strlit("ls");
        assert("load"@[1] != "ls"@[1]);
    }
    if args[0] == String::from_str("load") {
        if args.len() < 2 {
            Err(Error::new("usage: ldock load {filename}"))
        } else {
            Ok(Command::Stage(args[1].clone()))
        }
    } else if args[0] == String::from_str("ls") {
        Ok(Command::List)
    } else {
        Err(Error::new("usage: ldock {arg}"))
    }
}

} // verus!
