use vstd::prelude::*;

use crate::error::{Error, Result};
use crate::json::{json_array, json_of_paths, paths_of};

verus! {

/// The staged paths, in the order in which they were staged.
#[derive(Debug)]
pub struct Config {
    pub staged: Vec<String>,
}

impl Config {
    /// The staged paths as character sequences.
    pub open spec fn paths(&self) -> Seq<Seq<char>> {
        paths_of(self.staged@)
    }

    /// No path is staged twice.
    pub open spec fn wf(&self) -> bool {
        self.paths().no_duplicates()
    }
}

impl Default for Config {
    /// A configuration with nothing staged.
    fn default() -> (r: Self)
        ensures
            r.paths() == Seq::<Seq<char>>::empty(),
    {
        let r = Config { staged: Vec::new() };
        assert(r.paths() =~= Seq::<Seq<char>>::empty());
        r
    }
}

/// The list after staging `name`: unchanged if `name` is already there,
/// else `name` appended at the end.
pub open spec fn staged_after(paths: Seq<Seq<char>>, name: Seq<char>) -> Seq<Seq<char>> {
    if paths.contains(name) {
        paths
    } else {
        paths.push(name)
    }
}

/// The message of a failed stage: the path, then why it could not be opened.
pub open spec fn unopenable(name: Seq<char>, reason: Seq<char>) -> Seq<char> {
    name + ": "@ + reason
}

/// Staging keeps a list free of duplicates.
pub proof fn lemma_stage_keeps_unique(paths: Seq<Seq<char>>, name: Seq<char>)
    requires
        paths.no_duplicates(),
    ensures
        staged_after(paths, name).no_duplicates(),
{
    if !paths.contains(name) {
        let r = paths.push(name);
        assert forall|i: int, j: int| 0 <= i < r.len() && 0 <= j < r.len() && i != j implies r[i]
            != r[j] by {
            if i == paths.len() as int {
                assert(paths[j] == r[j]);
            } else if j == paths.len() as int {
                assert(paths[i] == r[i]);
            }
        }
    }
}

/// Staging a path into an empty list yields the list of that path alone.
pub proof fn lemma_stage_into_empty(name: Seq<char>)
    ensures
        staged_after(Seq::empty(), name) == seq![name],
{
    assert(Seq::<Seq<char>>::empty().push(name) =~= seq![name]);
}

/// Staging the same path twice is the same as staging it once; from an empty
/// list, both give the list of that path alone.
pub proof fn lemma_stage_twice(paths: Seq<Seq<char>>, name: Seq<char>)
    ensures
        staged_after(staged_after(paths, name), name) == staged_after(paths, name),
        staged_after(staged_after(Seq::empty(), name), name) == seq![name],
{
    if !paths.contains(name) {
        assert(paths.push(name)[paths.len() as int] == name);
    }
    lemma_stage_into_empty(name);
    assert(seq![name][0] == name);
}

/// Stages `file_name` into `cfg`. `opened` is what came of opening the file for
/// reading: `Err` holds why it failed.
///
/// A file that could not be opened is an error naming it, and `cfg` stays as
/// it was. Otherwise the path is appended, unless it is already staged.
pub fn stage_file(cfg: &mut Config, file_name: &str, opened: std::result::Result<(), String>) -> (r:
    Result<()>)
    ensures
        opened is Err <==> r is Err,
        r is Err ==> final(cfg).paths() == old(cfg).paths() && r->Err_0@ == unopenable(
            file_name@,
            opened->Err_0@,
        ),
        r is Ok ==> final(cfg).paths() == staged_after(old(cfg).paths(), file_name@),
        old(cfg).wf() ==> final(cfg).wf(),
{
    match opened {
        Err(reason) => {
            let msg = String::from_str(file_name);
            let msg = msg.concat(": ");
            let msg = msg.concat(reason.as_str());
            return Err(Error::new(msg.as_str()));
        },
        Ok(()) => {},
    }
    proof {
        if cfg.wf() {
            lemma_stage_keeps_unique(cfg.paths(), file_name@);
        }
    }
    let name = String::from_str(file_name);
    let n = cfg.staged.len();
    let mut i: usize = 0;
    while i < n
        invariant
            n == cfg.staged.len(),
            0 <= i <= n,
            name@ == file_name@,
            opened is Ok,
            forall|j: int| 0 <= j < i ==> cfg.paths()[j] != file_name@,
        decreases n - i,
    {
        if cfg.staged[i] == name {
            assert(cfg.paths()[i as int] == file_name@);
            assert(cfg.paths().contains(file_name@));
            return Ok(());
        }
        i = i + 1;
    }
    assert(!cfg.paths().contains(file_name@));
    let ghost before = cfg.paths();
    cfg.staged.push(name);
    assert(cfg.paths() =~= before.push(file_name@));
    Ok(())
}

/// The listing of `paths`: each path on a line of its own, in order.
pub open spec fn listing_of(paths: Seq<Seq<char>>) -> Seq<char>
    decreases paths.len(),
{
    if paths.len() == 0 {
        Seq::empty()
    } else {
        listing_of(paths.drop_last()) + paths.last() + "\n"@
    }
}

/// The stored form of a configuration whose paths are `paths`.
pub open spec fn stored_text(paths: Seq<Seq<char>>) -> Seq<char> {
    "{\"staged\":"@ + json_of_paths(paths) + "}"@
}

impl Config {
    /// The staged paths, one per line, in the order in which they were staged.
    pub fn listing(&self) -> (r: String)
        ensures
            r@ == listing_of(self.paths()),
    {
        let mut r = String::new();
        let n = self.staged.len();
        let mut i: usize = 0;
        while i < n
            invariant
                n == self.staged.len(),
                0 <= i <= n,
                r@ == listing_of(self.paths().take(i as int)),
            decreases n - i,
        {
            proof {
                let t = self.paths().take(i as int + 1);
                assert(t.drop_last() =~= self.paths().take(i as int));
                assert(t.last() == self.staged@[i as int]@);
            }
            r.append(self.staged[i].as_str());
            r.append("\n");
            i = i + 1;
        }
        assert(self.paths().take(n as int) =~= self.paths());
        r
    }

    /// The text that is stored for this configuration: a JSON object whose one
    /// field, `staged`, is the array of the staged paths.
    pub fn to_json(&self) -> (r: String)
        ensures
            r@ == stored_text(self.paths()),
    {
        match json_array(&self.staged) {
            Ok(array) => {
                let out = String::from_str("{\"staged\":");
                let out = out.concat(array.as_str());
                out.concat("}")
            },
            Err(_) => unreached(),
        }
    }
}

/// What was found where the configuration is kept.
#[derive(Debug)]
pub enum Stored {
    /// No file is there.
    Missing,
    /// The file could not be read, for the reason given.
    Unreadable(String),
    /// The file was read but does not hold a configuration.
    Malformed,
    /// The file holds this configuration.
    Parsed(Config),
}

/// The configuration to work with, given what was found where it is kept.
///
/// A missing or malformed file gives an empty configuration; a file that could
/// not be read is an error that carries the reason.
pub fn load_config(found: Stored) -> (r: Result<Config>)
    ensures
        found is Unreadable <==> r is Err,
        found is Unreadable ==> r->Err_0@ == found->Unreadable_0@,
        (found is Missing || found is Malformed) ==> r is Ok && r->Ok_0.paths() == Seq::<
            Seq<char>,
        >::empty(),
        found is Parsed ==> r == Ok::<Config, Error>(found->Parsed_0),
{
    match found {
        Stored::Missing => Ok(Config::default()),
        Stored::Unreadable(reason) => Err(Error::new(reason.as_str())),
        Stored::Malformed => Ok(Config::default()),
        Stored::Parsed(cfg) => Ok(cfg),
    }
}

} // verus!
