//! What the monitoring process was started with.

use vstd::prelude::*;

verus! {

/// The directories to watch and the storage offered to the swarm.
#[derive(Debug, PartialEq, Eq)]
pub struct Config {
    pub watched_dirs: Vec<String>,
    pub contribution_in_bytes: u64,
}

/// The report on a run of watched directories: a heading, then one line for
/// each directory.
pub open spec fn report(dirs: Seq<String>) -> Seq<Seq<char>> {
    Seq::new(
        dirs.len() + 1,
        |i: int|
            if i == 0 {
                "Configured watched directories"@
            } else {
                "    - "@ + dirs[i - 1]@
            },
    )
}

/// The characters of each string of a run.
pub open spec fn lines_of(v: Seq<String>) -> Seq<Seq<char>> {
    Seq::new(v.len(), |i: int| v[i]@)
}

impl Config {
    /// The lines that report the watched directories.
    pub fn print(&self) -> (lines: Vec<String>)
        ensures
            lines_of(lines@) == report(self.watched_dirs@),
    {
        let mut lines: Vec<String> = Vec::new();
        lines.push("Configured watched directories".to_owned());
        let mut i: usize = 0;
        while i < self.watched_dirs.len()
            invariant
                i <= self.watched_dirs.len(),
                lines@.len() == i + 1,
                lines_of(lines@) =~= report(self.watched_dirs@.take(i as int)),
            decreases self.watched_dirs.len() - i,
        {
            let ghost earlier = lines@;
            lines.push("    - ".to_owned().concat(self.watched_dirs[i].as_str()));
            proof {
                let before = self.watched_dirs@.take(i as int);
                let after = self.watched_dirs@.take(i + 1);
                assert forall|k: int| 0 <= k < lines@.len() implies lines_of(lines@)[k] == report(after)[k] by {
                    if k <= i {
                        assert(lines@[k] == earlier[k]);
                        assert(lines_of(earlier)[k] == report(before)[k]);
                        if k > 0 {
                            assert(before[k - 1] == after[k - 1]);
                        }
                    } else {
                        assert(after[k - 1] == self.watched_dirs@[i as int]);
                    }
                }
            }
            i += 1;
        }
        assert(self.watched_dirs@.take(self.watched_dirs@.len() as int) =~= self.watched_dirs@);
        lines
    }
}

/// The lines the process prints when it starts monitoring: an announcement,
/// then the report on the watched directories.
pub fn init(config: &Config) -> (lines: Vec<String>)
    ensures
        lines_of(lines@) == seq!["Starting file monitoring"@] + report(config.watched_dirs@),
{
    let mut lines: Vec<String> = Vec::new();
    lines.push("Starting file monitoring".to_owned());
    let mut rest = config.print();
    let ghost first = lines@;
    let ghost second = rest@;
    lines.append(&mut rest);
    assert(lines_of(lines@) =~= seq!["Starting file monitoring"@] + lines_of(second));
    lines
}

} // verus!
