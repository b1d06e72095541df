//! PostgreSQL status: whether `psql` is installed, the version it
//! reports, and whether a `postgres` process runs.

use vstd::prelude::*;
use crate::probe::{CommandOutput, outcome_view};
use crate::text::{contains, contains_spec, decode_lossy, lossy_utf8, nth_word, words};

verus! {

/// What the panel knows about PostgreSQL.
#[derive(Clone, Debug)]
pub struct DatabaseService {
    pub postgres_installed: bool,
    pub postgres_version: String,
    pub postgres_running: bool,
}

/// The version that `psql --version` printed: its third word, as in
/// `psql (PostgreSQL) 15.3`.
pub open spec fn reported_version(stdout: Seq<u8>) -> Option<Seq<char>> {
    let w = words(lossy_utf8(stdout));
    if w.len() > 2 {
        Some(w[2])
    } else {
        None
    }
}

/// A process listing names a `postgres` process: the text holds
/// `postgres` anywhere.
pub open spec fn lists_postgres(stdout: Seq<u8>) -> bool {
    contains_spec(lossy_utf8(stdout), "postgres"@)
}

/// The status after reading the outcome of `psql --version` and of
/// `ps -ef` (each `None` when the command could not be started) into
/// `before`: a successful `psql` marks it installed and takes the
/// version it printed, if it printed one; any `ps` output decides
/// whether it runs.  What no outcome speaks of stays as it was.
pub open spec fn status_after(
    before: (bool, Seq<char>, bool),
    psql: Option<(bool, Seq<u8>)>,
    ps: Option<(bool, Seq<u8>)>,
) -> (bool, Seq<char>, bool) {
    let (installed, version) = match psql {
        Some((true, out)) => (
            true,
            match reported_version(out) {
                Some(v) => v,
                None => before.1,
            },
        ),
        _ => (before.0, before.1),
    };
    let running = match ps {
        Some((_, out)) => lists_postgres(out),
        None => before.2,
    };
    (installed, version, running)
}

impl DatabaseService {
    /// The status as a triple: installed, version, running.
    pub open spec fn status(self) -> (bool, Seq<char>, bool) {
        (self.postgres_installed, self.postgres_version@, self.postgres_running)
    }

    /// The status read from the outcomes of `psql --version` and
    /// `ps -ef`, starting from not installed, no version, not running.
    pub fn new(psql: Option<CommandOutput>, ps: Option<CommandOutput>) -> (r: Self)
        ensures
            r.status() == status_after(
                (false, Seq::<char>::empty(), false),
                outcome_view(psql),
                outcome_view(ps),
            ),
    {
        let mut service = DatabaseService {
            postgres_installed: false,
            postgres_version: String::new(),
            postgres_running: false,
        };
        service.check_postgres_status(psql, ps);
        service
    }

    /// Updates the status from the outcomes of `psql --version` and
    /// `ps -ef`.
    pub fn check_postgres_status(&mut self, psql: Option<CommandOutput>, ps: Option<CommandOutput>)
        ensures
            final(self).status() == status_after(
                old(self).status(),
                outcome_view(psql),
                outcome_view(ps),
            ),
    {
        if let Some(output) = psql {
            if output.success {
                self.postgres_installed = true;
                let text = decode_lossy(output.stdout.as_slice());
                if let Some(v) = nth_word(text.as_str(), 2) {
                    self.postgres_version = v;
                }
            }
        }
        if let Some(output) = ps {
            let processes = decode_lossy(output.stdout.as_slice());
            self.postgres_running = contains(processes.as_str(), "postgres");
        }
    }
}


/// Reading the same command outcomes a second time changes nothing.
pub proof fn lemma_recheck_is_stable(
    before: (bool, Seq<char>, bool),
    psql: Option<(bool, Seq<u8>)>,
    ps: Option<(bool, Seq<u8>)>,
)
    ensures
        status_after(status_after(before, psql, ps), psql, ps) == status_after(before, psql, ps),
{
}


/// What one reading of the command outcomes does, stated over the words
/// and text of the outputs: a successful `psql` marks PostgreSQL installed
/// and, whenever its output has at least three words, the version becomes
/// the third word, however many words follow; with fewer words the old
/// version stays.  A failed or unstarted `psql` leaves installed and
/// version as they were.  Any `ps` output decides running by whether its
/// text holds `postgres`; without one, running stays as it was.
pub proof fn lemma_status_reading(
    before: (bool, Seq<char>, bool),
    psql: Option<(bool, Seq<u8>)>,
    ps: Option<(bool, Seq<u8>)>,
)
    ensures
        ({
            let after = status_after(before, psql, ps);
            &&& psql matches Some((true, out)) ==> {
                &&& after.0
                &&& words(lossy_utf8(out)).len() > 2 ==> after.1 == words(lossy_utf8(out))[2]
                &&& words(lossy_utf8(out)).len() <= 2 ==> after.1 == before.1
            }
            &&& !(psql matches Some((true, _))) ==> after.0 == before.0 && after.1 == before.1
            &&& ps matches Some((_, out)) ==> (after.2 <==> exists|i: int|
                0 <= i && i + 8 <= lossy_utf8(out).len() && #[trigger] lossy_utf8(out).subrange(
                    i,
                    i + 8,
                ) == "postgres"@)
            &&& ps is None ==> after.2 == before.2
        }),
{
    reveal_strlit("postgres");
    let pat = "postgres"@;
    assert(pat.len() == 8);
    if let Some((_, out)) = ps {
        let t = lossy_utf8(out);
        if contains_spec(t, pat) {
            let i = choose|i: int|
                0 <= i && i + pat.len() <= t.len() && #[trigger] t.subrange(i, i + pat.len()) == pat;
            assert(t.subrange(i, i + 8) == pat);
        } else {
            assert forall|i: int| 0 <= i && i + 8 <= t.len() implies #[trigger] t.subrange(i, i + 8)
                != pat by {
                assert(t.subrange(i, i + pat.len()) != pat);
            }
        }
    }
}

} // verus!
